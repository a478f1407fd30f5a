//! `<lq-table>` — columns and rows with a header, a display order and row
//! selection.
//!
//! Rows keep their insertion order; a display order (a permutation of the
//! row indices) says which data row each display position shows. Selection,
//! cursor, anchor and hover are display positions. A body-row click single-
//! selects; Up/Down/Home/End move the cursor and selection (Shift extends a
//! range from the anchor, Ctrl moves the cursor only); Space/Enter select
//! (Ctrl+Space toggles). A header click on a sortable table re-sorts: the
//! direction toggles on repeated clicks of the same column, the selection
//! clears and `sorted` is emitted. Selection changes emit `changed` with the
//! comma-joined selected positions.

use std::collections::BTreeSet;

use vstd::prelude::*;

use crate::index_set::{int_set, set_add, set_drop, set_has};
use crate::behavior::{opt_int, KeyInput, OutcomeView, WidgetKind, WidgetOutcome};
use crate::keys;
use crate::keys::modifiers::{has_ctrl, has_shift};
use crate::list::opt_below;
use crate::node::{bool_str, bool_text, Node, Pseudo, PseudoFlag, FOCUSABLE_ATTR};
use crate::text::{dec, decimal, join, join_strings, prefixed};

verus! {

/// Emitted when the row selection changes (payload: comma-joined selected
/// display positions).
pub const CHANGED_ACTION: &'static str = "changed";

/// Emitted when a header click re-sorts (payload: `"<col>:<asc|desc>"`).
pub const SORTED_ACTION: &'static str = "sorted";

/// Sort direction for a column.
#[derive(Clone, Copy, Debug, PartialEq, Eq, Structural)]
pub enum SortDir {
    /// Ascending (A to Z, 0 to 9).
    Asc,
    /// Descending.
    Desc,
}

/// The header class marking the sorted column.
pub open spec fn sorted_class(d: SortDir) -> Seq<char> {
    match d {
        SortDir::Asc => "sorted-asc"@,
        SortDir::Desc => "sorted-desc"@,
    }
}

/// The short name of a direction (`asc`/`desc`).
pub open spec fn dir_name(d: SortDir) -> Seq<char> {
    match d {
        SortDir::Asc => "asc"@,
        SortDir::Desc => "desc"@,
    }
}

/// The ARIA name of a direction.
pub open spec fn dir_aria(d: SortDir) -> Seq<char> {
    match d {
        SortDir::Asc => "ascending"@,
        SortDir::Desc => "descending"@,
    }
}

impl SortDir {
    /// The short name of this direction.
    pub fn as_str(self) -> (r: &'static str)
        ensures
            r@ == dir_name(self),
    {
        match self {
            SortDir::Asc => "asc",
            SortDir::Desc => "desc",
        }
    }

    /// The ARIA name of this direction.
    pub fn aria(self) -> (r: &'static str)
        ensures
            r@ == dir_aria(self),
    {
        match self {
            SortDir::Asc => "ascending",
            SortDir::Desc => "descending",
        }
    }
}

/// A columns + rows table.
pub struct Table {
    columns: Vec<(String, Option<String>)>,
    rows: Vec<Vec<String>>,
    order: Vec<usize>,
    /// The selected display positions.
    selected: BTreeSet<usize>,
    cursor: Option<usize>,
    anchor: Option<usize>,
    hovered: Option<usize>,
    sort: Option<(usize, SortDir)>,
    sortable: bool,
    disabled: bool,
}

/// The abstract state of a [`Table`].
pub struct TableModel {
    /// Header label and CSS width (none: the column shares the free space).
    pub columns: Seq<(Seq<char>, Option<Seq<char>>)>,
    /// Row cells, in insertion order.
    pub rows: Seq<Seq<Seq<char>>>,
    /// The data row shown at each display position.
    pub order: Seq<int>,
    pub selected: Set<int>,
    pub cursor: Option<int>,
    pub anchor: Option<int>,
    pub hovered: Option<int>,
    pub sort: Option<(int, SortDir)>,
    pub sortable: bool,
    pub disabled: bool,
}

/// Whether `order` lists each of `0..n` exactly once.
pub open spec fn is_permutation(order: Seq<int>, n: int) -> bool {
    &&& order.len() == n
    &&& forall|p: int| 0 <= p < n ==> 0 <= #[trigger] order[p] < n
    &&& forall|p: int, q: int| 0 <= p < q < n ==> order[p] != order[q]
}

/// The members of `s` below `k`, ascending.
pub open spec fn positions_upto(s: Set<int>, k: int) -> Seq<int>
    decreases k,
{
    if k <= 0 {
        Seq::empty()
    } else if s.contains(k - 1) {
        positions_upto(s, k - 1).push(k - 1)
    } else {
        positions_upto(s, k - 1)
    }
}

/// The CSS widths of the columns, `1fr` for the flexible ones.
pub open spec fn widths(columns: Seq<(Seq<char>, Option<Seq<char>>)>) -> Seq<Seq<char>> {
    columns.map_values(|c: (Seq<char>, Option<Seq<char>>)| match c.1 {
        Some(w) => w,
        None => "1fr"@,
    })
}

impl TableModel {
    /// The display order is a permutation of the rows; selection, anchor and
    /// hover are display positions; the cursor exists once there are rows
    /// (it may rest on 0 of an empty table after a sort); the sort column
    /// exists.
    pub open spec fn valid(self) -> bool {
        let n = self.rows.len() as int;
        &&& is_permutation(self.order, n)
        &&& forall|p: int| self.selected.contains(p) ==> 0 <= p < n
        &&& (n > 0 ==> self.cursor is Some)
        &&& (self.cursor matches Some(c) ==> c == 0 || 0 <= c < n)
        &&& opt_below(self.anchor, n)
        &&& opt_below(self.hovered, n)
        &&& (self.sort matches Some((c, _)) ==> 0 <= c < self.columns.len())
    }

    /// Whether data row `d` is shown at a selected position.
    pub open spec fn shows_selected(self, d: int) -> bool {
        exists|p: int| #[trigger] self.selected.contains(p) && self.order[p] == d
    }

    /// The selected display positions, ascending.
    pub open spec fn selected_positions(self) -> Seq<int> {
        positions_upto(self.selected, self.rows.len() as int)
    }

    /// The `changed` outcome for this state.
    pub open spec fn changed(self) -> OutcomeView {
        OutcomeView::Action(
            CHANGED_ACTION@,
            Some(join(self.selected_positions().map_values(|p: int| dec(p as nat)), ","@)),
        )
    }

    /// The `grid-template-columns` value.
    pub open spec fn grid_template(self) -> Seq<char> {
        join(widths(self.columns), " "@)
    }

    /// The direction a header click on `col` applies: descending right after
    /// an ascending sort on the same column, ascending otherwise.
    pub open spec fn next_dir(self, col: int) -> SortDir {
        match self.sort {
            Some((c, SortDir::Asc)) => if c == col { SortDir::Desc } else { SortDir::Asc },
            _ => SortDir::Asc,
        }
    }

    /// Re-sorting by `col` into the display order `order` (which the caller
    /// computed by the column's values in the direction [`Self::next_dir`]).
    pub open spec fn sort_by(self, col: int, order: Seq<int>) -> (TableModel, OutcomeView) {
        if !self.sortable || col < 0 || col >= self.columns.len() {
            (self, OutcomeView::Ignored)
        } else {
            let dir = self.next_dir(col);
            (
                TableModel {
                    sort: Some((col, dir)),
                    order,
                    selected: Set::empty(),
                    cursor: Some(0),
                    anchor: None,
                    ..self
                },
                OutcomeView::Action(SORTED_ACTION@, Some(dec(col as nat) + ":"@ + dir_name(dir))),
            )
        }
    }

    /// A header click on column `col`, with the display order the caller
    /// computed for the new sort.
    pub open spec fn on_header_click(self, col: int, order: Seq<int>) -> (TableModel, OutcomeView) {
        if self.disabled {
            (self, OutcomeView::Ignored)
        } else {
            self.sort_by(col, order)
        }
    }

    /// Single-selecting position `pos`.
    pub open spec fn select_single(self, pos: int) -> (TableModel, OutcomeView) {
        let m = TableModel { selected: Set::empty().insert(pos), cursor: Some(pos), anchor: Some(pos), ..self };
        (m, m.changed())
    }

    /// Toggling position `pos`.
    pub open spec fn toggle_one(self, pos: int) -> (TableModel, OutcomeView) {
        let m = TableModel {
            selected: if self.selected.contains(pos) { self.selected.remove(pos) } else { self.selected.insert(pos) },
            cursor: Some(pos),
            anchor: Some(pos),
            ..self
        };
        (m, m.changed())
    }

    /// Selecting the range between the anchor (or `pos`) and `pos`.
    pub open spec fn select_range(self, pos: int) -> (TableModel, OutcomeView) {
        let a = match self.anchor {
            Some(a) => a,
            None => pos,
        };
        let lo = if a <= pos { a } else { pos };
        let hi = if a <= pos { pos } else { a };
        let m = TableModel { selected: Set::new(|p: int| lo <= p <= hi), cursor: Some(pos), ..self };
        (m, m.changed())
    }

    /// The position a movement key targets (`None` for other keys).
    pub open spec fn move_target(self, key: u32) -> Option<int> {
        let n = self.rows.len() as int;
        let cur = match self.cursor {
            Some(c) => c,
            None => 0,
        };
        if key == keys::ARROW_DOWN {
            Some(if cur + 1 < n - 1 { cur + 1 } else { n - 1 })
        } else if key == keys::ARROW_UP {
            Some(if cur > 0 { cur - 1 } else { 0 })
        } else if key == keys::HOME {
            Some(0)
        } else if key == keys::END {
            Some(n - 1)
        } else {
            None
        }
    }

    /// The keyboard transition.
    pub open spec fn on_key(self, key: KeyInput) -> (TableModel, OutcomeView) {
        let cur = match self.cursor {
            Some(c) => c,
            None => 0,
        };
        let shift = has_shift(key.modifiers);
        let ctrl = has_ctrl(key.modifiers);
        if self.disabled || self.rows.len() == 0 {
            (self, OutcomeView::Ignored)
        } else if let Some(pos) = self.move_target(key.key) {
            if shift {
                self.select_range(pos)
            } else if ctrl {
                (TableModel { cursor: Some(pos), ..self }, OutcomeView::Changed)
            } else {
                self.select_single(pos)
            }
        } else if key.key == keys::SPACE && ctrl {
            self.toggle_one(cur)
        } else if key.key == keys::SPACE || key.key == keys::ENTER {
            self.select_single(cur)
        } else {
            (self, OutcomeView::Ignored)
        }
    }

    /// The pointer moving over body row `hit` (or over none).
    pub open spec fn on_move(self, hit: Option<int>) -> (TableModel, OutcomeView) {
        if self.disabled || hit == self.hovered {
            (self, OutcomeView::Ignored)
        } else {
            (TableModel { hovered: hit, ..self }, OutcomeView::Changed)
        }
    }

    /// The pointer leaving the table.
    pub open spec fn on_leave(self) -> (TableModel, OutcomeView) {
        if self.disabled || self.hovered is None {
            (self, OutcomeView::Ignored)
        } else {
            (TableModel { hovered: None, ..self }, OutcomeView::Changed)
        }
    }

    /// A left click on body row `hit` (or on none).
    pub open spec fn on_click(self, hit: Option<int>) -> (TableModel, OutcomeView) {
        if self.disabled {
            (self, OutcomeView::Ignored)
        } else {
            match hit {
                Some(p) => self.select_single(p),
                None => (self, OutcomeView::Ignored),
            }
        }
    }

    /// The text of cell `col` of data row `d` (empty when the row is short).
    pub open spec fn cell_text(self, d: int, col: int) -> Seq<char> {
        if col < self.rows[d].len() { self.rows[d][col] } else { Seq::empty() }
    }

    /// Whether `c` renders the header cell of column `col`.
    pub open spec fn head_rendered(self, col: int, c: Node) -> bool {
        let sorted = match self.sort {
            Some((sc, d)) => if sc == col { Some(d) } else { None },
            None => None,
        };
        &&& c.tag@ == "lq-th"@
        &&& c.attr_views() == seq![
            ("data-part"@, "head-"@ + dec(col as nat)),
            ("data-col"@, dec(col as nat)),
            ("role"@, "columnheader"@),
        ] + match sorted {
            Some(d) => seq![("aria-sort"@, dir_aria(d))],
            None => Seq::empty(),
        }
        &&& c.class_views() == (if self.sortable { seq!["sortable"@] } else { Seq::empty() }) + match sorted {
            Some(d) => seq![sorted_class(d)],
            None => Seq::empty(),
        }
        &&& c.children@.len() == 1
        &&& c.first_text() == self.columns[col].0
    }

    /// Whether `c` renders display position `pos` (showing data row
    /// `order[pos]`).
    pub open spec fn row_rendered(self, pos: int, c: Node) -> bool {
        let d = self.order[pos];
        let sel = self.selected.contains(pos);
        &&& c.tag@ == "lq-tr"@
        &&& c.key matches Some(k) && k@ == "data-"@ + dec(d as nat)
        &&& c.attr_views() == seq![
            ("data-part"@, "row-"@ + dec(pos as nat)),
            ("data-row"@, dec(pos as nat)),
            ("data-data-row"@, dec(d as nat)),
            ("role"@, "row"@),
            ("aria-selected"@, bool_str(sel)),
        ]
        &&& c.class_views() == (if sel { seq!["selected"@] } else { Seq::empty() })
        &&& c.style_views() == seq![("grid-template-columns"@, self.grid_template())]
        &&& c.pseudo == (Pseudo {
            hover: self.hovered == Some(pos) && !self.disabled,
            active: false,
            focus: self.cursor == Some(pos) && !self.disabled,
            checked: sel,
            disabled: false,
        })
        &&& c.children@.len() == self.columns.len()
        &&& forall|col: int|
            0 <= col < self.columns.len() ==> {
                &&& (#[trigger] c.children@[col]).tag@ == "lq-td"@
                &&& c.children@[col].attr_views() == seq![("data-col"@, dec(col as nat)), ("role"@, "cell"@)]
                &&& c.children@[col].children@.len() == 1
                &&& c.children@[col].first_text() == self.cell_text(d, col)
            }
    }
}

/// Every transition keeps the table valid, and a sort into a permutation of
/// the rows keeps it valid too.
pub proof fn lemma_transitions_keep_valid(m: TableModel, key: KeyInput, hit: Option<int>, col: int, order: Seq<int>)
    requires
        m.valid(),
        hit matches Some(p) ==> 0 <= p < m.rows.len(),
        is_permutation(order, m.rows.len() as int),
    ensures
        m.on_key(key).0.valid(),
        m.on_click(hit).0.valid(),
        m.on_move(hit).0.valid(),
        m.on_leave().0.valid(),
        m.on_header_click(col, order).0.valid(),
{
}

/// Two header clicks on the same column sort ascending, then descending,
/// then ascending again.
pub proof fn lemma_sort_direction_toggles(m: TableModel, col: int, o1: Seq<int>, o2: Seq<int>, o3: Seq<int>)
    requires
        m.valid(),
        m.sortable,
        !m.disabled,
        0 <= col < m.columns.len(),
        m.sort is None,
    ensures
        m.on_header_click(col, o1).0.sort == Some((col, SortDir::Asc)),
        m.on_header_click(col, o1).0.on_header_click(col, o2).0.sort == Some((col, SortDir::Desc)),
        m.on_header_click(col, o1).0.on_header_click(col, o2).0.on_header_click(col, o3).0.sort == Some((col, SortDir::Asc)),
{
}

impl View for Table {
    type V = TableModel;

    closed spec fn view(&self) -> TableModel {
        TableModel {
            columns: self.columns@.map_values(|c: (String, Option<String>)| (c.0@, crate::node::opt_view(c.1))),
            rows: self.rows@.map_values(|r: Vec<String>| r@.map_values(|s: String| s@)),
            order: self.order@.map_values(|x: usize| x as int),
            selected: int_set(self.selected@),
            cursor: opt_int(self.cursor),
            anchor: opt_int(self.anchor),
            hovered: opt_int(self.hovered),
            sort: match self.sort {
                Some((c, d)) => Some((c as int, d)),
                None => None,
            },
            sortable: self.sortable,
            disabled: self.disabled,
        }
    }
}

impl Table {
    /// The representation invariant.
    pub closed spec fn wf(&self) -> bool {
        self@.valid()
    }

    /// A well-formed widget's model is valid: clients can apply the model
    /// lemmas to it.
    pub proof fn lemma_wf_valid(&self)
        requires
            self.wf(),
        ensures
            self@.valid(),
    {
    }

    /// An empty table.
    pub fn new() -> (r: Table)
        ensures
            r.wf(),
            r@ == (TableModel {
                columns: Seq::empty(),
                rows: Seq::empty(),
                order: Seq::empty(),
                selected: Set::empty(),
                cursor: None,
                anchor: None,
                hovered: None,
                sort: None,
                sortable: false,
                disabled: false,
            }),
    {
        let r = Table {
            columns: Vec::new(),
            rows: Vec::new(),
            order: Vec::new(),
            selected: BTreeSet::new(),
            cursor: None,
            anchor: None,
            hovered: None,
            sort: None,
            sortable: false,
            disabled: false,
        };
        assert(r@.order =~= Seq::<int>::empty());
        assert(r@.columns =~= Seq::empty());
        assert(r@.rows =~= Seq::empty());
        assert(r@.selected =~= Set::empty());
        r
    }

    /// Appends a column that shares the free space.
    pub fn column(self, label: &str) -> (r: Table)
        requires
            self.wf(),
        ensures
            r.wf(),
            r@ == (TableModel { columns: self@.columns.push((label@, None)), ..self@ }),
    {
        let mut t = self;
        let ghost before = t@.columns;
        t.columns.push((label.to_string(), None));
        assert(t@.columns =~= before.push((label@, None)));
        t
    }

    /// Appends a column of the fixed CSS width `width` (such as `120px`).
    pub fn column_with_width(self, label: &str, width: &str) -> (r: Table)
        requires
            self.wf(),
        ensures
            r.wf(),
            r@ == (TableModel { columns: self@.columns.push((label@, Some(width@))), ..self@ }),
    {
        let mut t = self;
        let ghost before = t@.columns;
        t.columns.push((label.to_string(), Some(width.to_string())));
        assert(t@.columns =~= before.push((label@, Some(width@))));
        t
    }

    /// Appends a data row, shown last; the cursor appears with the first row.
    pub fn row(self, cells: Vec<String>) -> (r: Table)
        requires
            self.wf(),
            self@.rows.len() < usize::MAX,
        ensures
            r.wf(),
            r@ == (TableModel {
                rows: self@.rows.push(cells@.map_values(|s: String| s@)),
                order: self@.order.push(self@.rows.len() as int),
                cursor: if self@.cursor is None { Some(0int) } else { self@.cursor },
                ..self@
            }),
    {
        let mut t = self;
        let ghost before = t@;
        let n = t.rows.len();
        t.rows.push(cells);
        t.order.push(n);
        if t.cursor.is_none() {
            t.cursor = Some(0);
        }
        assert(t@.rows =~= before.rows.push(t.rows@[n as int]@.map_values(|s: String| s@)));
        assert(t@.order =~= before.order.push(n as int));
        assert(t@.selected =~= before.selected);
        t
    }

    /// Makes the headers sortable (or not).
    pub fn sortable(self, s: bool) -> (r: Table)
        requires
            self.wf(),
        ensures
            r.wf(),
            r@ == (TableModel { sortable: s, ..self@ }),
    {
        Table { sortable: s, ..self }
    }

    /// Marks the whole table disabled (or enabled).
    pub fn disabled(self, d: bool) -> (r: Table)
        requires
            self.wf(),
        ensures
            r.wf(),
            r@ == (TableModel { disabled: d, ..self@ }),
    {
        Table { disabled: d, ..self }
    }

    /// Number of data rows.
    pub fn row_count(&self) -> (r: usize)
        ensures
            r == self@.rows.len(),
    {
        self.rows.len()
    }

    /// Number of columns.
    pub fn column_count(&self) -> (r: usize)
        ensures
            r == self@.columns.len(),
    {
        self.columns.len()
    }

    /// Whether header clicks sort.
    pub fn is_sortable(&self) -> (r: bool)
        ensures
            r == self@.sortable,
    {
        self.sortable
    }

    /// The selected display positions, ascending.
    pub fn selected_positions(&self) -> (r: Vec<usize>)
        requires
            self.wf(),
        ensures
            r@.map_values(|x: usize| x as int) == self@.selected_positions(),
    {
        let mut r: Vec<usize> = Vec::new();
        let mut i: usize = 0;
        while i < self.rows.len()
            invariant
                self.wf(),
                i <= self@.rows.len(),
                r@.map_values(|x: usize| x as int) == positions_upto(self@.selected, i as int),
            decreases self@.rows.len() - i,
        {
            if self.has(i) {
                r.push(i);
            }
            assert(r@.map_values(|x: usize| x as int) =~= positions_upto(self@.selected, i + 1));
            i = i + 1;
        }
        r
    }

    /// The data rows behind the selection (through the display order),
    /// ascending.
    pub fn selected_data_rows(&self) -> (r: Vec<usize>)
        requires
            self.wf(),
        ensures
            forall|a: int, b: int| 0 <= a < b < r@.len() ==> r@[a] < r@[b],
            forall|k: int| 0 <= k < r@.len() ==> self@.shows_selected(#[trigger] r@[k] as int),
            forall|d: int| #[trigger] self@.shows_selected(d) ==> exists|k: int| 0 <= k < r@.len() && r@[k] == d,
    {
        let n = self.rows.len();
        let mut r: Vec<usize> = Vec::new();
        let mut d: usize = 0;
        while d < n
            invariant
                self.wf(),
                n == self@.rows.len(),
                d <= n,
                forall|a: int, b: int| 0 <= a < b < r@.len() ==> r@[a] < r@[b],
                forall|k: int| 0 <= k < r@.len() ==> r@[k] < d,
                forall|k: int| 0 <= k < r@.len() ==> self@.shows_selected(#[trigger] r@[k] as int),
                forall|e: int| 0 <= e < d && #[trigger] self@.shows_selected(e) ==> exists|k: int| 0 <= k < r@.len() && r@[k] == e,
            decreases n - d,
        {
            let mut found = false;
            let mut p: usize = 0;
            while p < n
                invariant
                    self.wf(),
                    n == self@.rows.len(),
                    p <= n,
                    d < n,
                    found ==> self@.shows_selected(d as int),
                    !found ==> forall|q: int| 0 <= q < p ==> !(#[trigger] self@.selected.contains(q) && self@.order[q] == d),
                decreases n - p,
            {
                if self.has(p) && self.order[p] == d {
                    assert(self@.selected.contains(p as int) && self@.order[p as int] == d);
                    found = true;
                }
                p = p + 1;
            }
            let ghost before = r@;
            if found {
                r.push(d);
            }
            assert forall|e: int| 0 <= e < d + 1 && #[trigger] self@.shows_selected(e) implies exists|k: int|
                0 <= k < r@.len() && r@[k] == e by {
                if e < d {
                    let k = choose|k: int| 0 <= k < before.len() && before[k] == e;
                    assert(r@[k] == e);
                } else {
                    if !found {
                        let q = choose|q: int| #[trigger] self@.selected.contains(q) && self@.order[q] == e;
                        assert(0 <= q < n);
                    }
                    assert(r@[r@.len() - 1] == e);
                }
            }
            d = d + 1;
        }
        assert forall|e: int| #[trigger] self@.shows_selected(e) implies exists|k: int| 0 <= k < r@.len() && r@[k] == e by {
            let q = choose|q: int| #[trigger] self@.selected.contains(q) && self@.order[q] == e;
            assert(0 <= self@.order[q] < n);
        }
        r
    }

    /// The keyboard cursor (display position).
    pub fn cursor(&self) -> (r: Option<usize>)
        ensures
            opt_int(r) == self@.cursor,
    {
        self.cursor
    }

    /// The active sort (column and direction), if any.
    pub fn sort(&self) -> (r: Option<(usize, SortDir)>)
        ensures
            r matches Some((c, d)) ==> self@.sort == Some((c as int, d)),
            r is None <==> self@.sort is None,
    {
        self.sort
    }

    /// The display order: the data row shown at each position.
    pub fn order(&self) -> (r: &Vec<usize>)
        ensures
            r@.map_values(|x: usize| x as int) == self@.order,
    {
        &self.order
    }

    /// The cell at display position `pos`, column `col` (none past either
    /// end, or when the row is short).
    pub fn cell(&self, pos: usize, col: usize) -> (r: Option<&str>)
        requires
            self.wf(),
        ensures
            r matches Some(s) ==> pos < self@.rows.len() && col < self@.rows[self@.order[pos as int]].len()
                && s@ == self@.rows[self@.order[pos as int]][col as int],
            r is None <==> !(pos < self@.rows.len() && col < self@.rows[self@.order[pos as int]].len()),
    {
        if pos >= self.order.len() {
            return None;
        }
        let d = self.order[pos];
        assert(self@.order[pos as int] == d);
        assert(0 <= self@.order[pos as int] < self@.rows.len());
        if col < self.rows[d].len() {
            Some(self.rows[d][col].as_str())
        } else {
            None
        }
    }

    /// The widget family.
    pub fn kind(&self) -> (r: WidgetKind)
        ensures
            r == WidgetKind::Collection,
    {
        WidgetKind::Collection
    }

    /// Whether the table takes focus (unless disabled).
    pub fn focusable(&self) -> (r: bool)
        ensures
            r == !self@.disabled,
    {
        !self.disabled
    }

    /// The direction a header click on `col` will sort in.
    pub fn next_dir(&self, col: usize) -> (r: SortDir)
        ensures
            r == self@.next_dir(col as int),
    {
        match self.sort {
            Some((c, SortDir::Asc)) => if c == col { SortDir::Desc } else { SortDir::Asc },
            _ => SortDir::Asc,
        }
    }

    /// Whether position `p` is selected.
    fn has(&self, p: usize) -> (r: bool)
        ensures
            r == self@.selected.contains(p as int),
    {
        set_has(&self.selected, p)
    }

    /// Adds position `p` to the selection.
    fn mark(&mut self, p: usize)
        ensures
            final(self)@ == (TableModel { selected: old(self)@.selected.insert(p as int), ..old(self)@ }),
    {
        set_add(&mut self.selected, p);
        assert(self@.selected =~= old(self)@.selected.insert(p as int));
    }

    /// Removes position `p` from the selection.
    fn unmark(&mut self, p: usize)
        ensures
            final(self)@ == (TableModel { selected: old(self)@.selected.remove(p as int), ..old(self)@ }),
    {
        set_drop(&mut self.selected, p);
        assert(self@.selected =~= old(self)@.selected.remove(p as int));
    }

    fn clear_selection(&mut self)
        ensures
            final(self)@ == (TableModel { selected: Set::empty(), ..old(self)@ }),
    {
        self.selected.clear();
        assert(self@.selected =~= Set::<int>::empty());
    }

    fn sort_by(&mut self, col: usize, order: Vec<usize>) -> (out: WidgetOutcome)
        requires
            old(self).wf(),
            is_permutation(order@.map_values(|x: usize| x as int), old(self)@.rows.len() as int),
        ensures
            final(self).wf(),
            (final(self)@, out@) == old(self)@.sort_by(col as int, order@.map_values(|x: usize| x as int)),
    {
        if !self.sortable || col >= self.columns.len() {
            return WidgetOutcome::Ignored;
        }
        let dir = self.next_dir(col);
        self.sort = Some((col, dir));
        self.order = order;
        self.clear_selection();
        self.cursor = Some(0);
        self.anchor = None;
        let mut payload = decimal(col);
        payload.append(":");
        payload.append(dir.as_str());
        WidgetOutcome::action_with(SORTED_ACTION, payload)
    }

    /// Handles a left click on the header cell of column `col`: on an
    /// enabled, sortable table it re-sorts into the display order `order`,
    /// which the caller computed from the column's values in the direction
    /// [`Self::next_dir`] gives (records the sort, clears the selection and
    /// puts the cursor on the first position).
    pub fn on_header_click(&mut self, col: usize, order: Vec<usize>) -> (out: WidgetOutcome)
        requires
            old(self).wf(),
            is_permutation(order@.map_values(|x: usize| x as int), old(self)@.rows.len() as int),
        ensures
            final(self).wf(),
            (final(self)@, out@) == old(self)@.on_header_click(col as int, order@.map_values(|x: usize| x as int)),
    {
        if self.disabled {
            return WidgetOutcome::Ignored;
        }
        self.sort_by(col, order)
    }

    fn changed(&self) -> (out: WidgetOutcome)
        requires
            self.wf(),
        ensures
            out@ == self@.changed(),
    {
        let pos = self.selected_positions();
        let mut parts: Vec<String> = Vec::new();
        let mut i: usize = 0;
        while i < pos.len()
            invariant
                i <= pos@.len(),
                parts@.len() == i,
                forall|k: int| 0 <= k < i ==> (#[trigger] parts@[k])@ == dec(pos@[k] as nat),
            decreases pos@.len() - i,
        {
            parts.push(decimal(pos[i]));
            i = i + 1;
        }
        let ghost want = self@.selected_positions().map_values(|p: int| dec(p as nat));
        assert(pos@.map_values(|x: usize| x as int) == self@.selected_positions());
        assert forall|k: int| 0 <= k < parts@.len() implies parts@.map_values(|s: String| s@)[k] == want[k] by {
            assert(pos@.map_values(|x: usize| x as int)[k] == pos@[k] as int);
        }
        assert(parts@.map_values(|s: String| s@) =~= want);
        WidgetOutcome::action_with(CHANGED_ACTION, join_strings(&parts, ","))
    }

    fn select_single(&mut self, pos: usize) -> (out: WidgetOutcome)
        requires
            old(self).wf(),
            pos < old(self)@.rows.len(),
        ensures
            final(self).wf(),
            (final(self)@, out@) == old(self)@.select_single(pos as int),
    {
        self.clear_selection();
        self.mark(pos);
        self.cursor = Some(pos);
        self.anchor = Some(pos);
        assert(self@.selected =~= Set::<int>::empty().insert(pos as int));
        self.changed()
    }

    fn toggle_one(&mut self, pos: usize) -> (out: WidgetOutcome)
        requires
            old(self).wf(),
            pos < old(self)@.rows.len(),
        ensures
            final(self).wf(),
            (final(self)@, out@) == old(self)@.toggle_one(pos as int),
    {
        let was = self.has(pos);
        if was {
            self.unmark(pos);
        } else {
            self.mark(pos);
        }
        self.cursor = Some(pos);
        self.anchor = Some(pos);
        if was {
            assert(self@.selected =~= old(self)@.selected.remove(pos as int));
        } else {
            assert(self@.selected =~= old(self)@.selected.insert(pos as int));
        }
        self.changed()
    }

    fn select_range(&mut self, pos: usize) -> (out: WidgetOutcome)
        requires
            old(self).wf(),
            pos < old(self)@.rows.len(),
        ensures
            final(self).wf(),
            (final(self)@, out@) == old(self)@.select_range(pos as int),
    {
        let anchor = match self.anchor {
            Some(a) => a,
            None => pos,
        };
        let (lo, hi) = if anchor <= pos { (anchor, pos) } else { (pos, anchor) };
        self.clear_selection();
        let ghost start = self@;
        let n = self.rows.len();
        let mut i = lo;
        while i <= hi
            invariant
                lo <= i <= hi + 1,
                hi < n,
                n == self@.rows.len(),
                self@ == (TableModel { selected: self@.selected, ..start }),
                forall|k: int| #[trigger] self@.selected.contains(k) <==> lo <= k < i,
            decreases hi + 1 - i,
        {
            self.mark(i);
            i = i + 1;
        }
        self.cursor = Some(pos);
        assert(self@.selected =~= Set::new(|k: int| lo <= k <= hi));
        self.changed()
    }

    /// Handles a key press.
    pub fn on_keyboard(&mut self, key: KeyInput) -> (out: WidgetOutcome)
        requires
            old(self).wf(),
        ensures
            final(self).wf(),
            (final(self)@, out@) == old(self)@.on_key(key),
    {
        let n = self.rows.len();
        if self.disabled || n == 0 {
            return WidgetOutcome::Ignored;
        }
        let cur = match self.cursor {
            Some(c) => c,
            None => 0,
        };
        let shift = key.modifiers & keys::modifiers::SHIFT != 0;
        let ctrl = key.modifiers & keys::modifiers::CTRL != 0;
        let next = if key.key == keys::ARROW_DOWN {
            Some(if cur + 1 < n - 1 { cur + 1 } else { n - 1 })
        } else if key.key == keys::ARROW_UP {
            Some(if cur > 0 { cur - 1 } else { 0 })
        } else if key.key == keys::HOME {
            Some(0)
        } else if key.key == keys::END {
            Some(n - 1)
        } else {
            None
        };
        if let Some(pos) = next {
            if shift {
                return self.select_range(pos);
            } else if ctrl {
                self.cursor = Some(pos);
                assert(self@.selected == old(self)@.selected);
                return WidgetOutcome::Changed;
            } else {
                return self.select_single(pos);
            }
        }
        if key.key == keys::SPACE && ctrl {
            self.toggle_one(cur)
        } else if key.key == keys::SPACE || key.key == keys::ENTER {
            self.select_single(cur)
        } else {
            WidgetOutcome::Ignored
        }
    }

    /// Handles the pointer moving over body row `hit` (or over none).
    pub fn on_mouse_move(&mut self, hit: Option<usize>) -> (out: WidgetOutcome)
        requires
            old(self).wf(),
            hit matches Some(p) ==> p < old(self)@.rows.len(),
        ensures
            final(self).wf(),
            (final(self)@, out@) == old(self)@.on_move(opt_int(hit)),
    {
        if self.disabled || hit == self.hovered {
            return WidgetOutcome::Ignored;
        }
        self.hovered = hit;
        assert(self@.selected == old(self)@.selected);
        WidgetOutcome::Changed
    }

    /// Handles the pointer leaving the table.
    pub fn on_mouse_leave(&mut self) -> (out: WidgetOutcome)
        requires
            old(self).wf(),
        ensures
            final(self).wf(),
            (final(self)@, out@) == old(self)@.on_leave(),
    {
        if self.disabled || self.hovered.is_none() {
            return WidgetOutcome::Ignored;
        }
        self.hovered = None;
        WidgetOutcome::Changed
    }

    /// Handles a left click on body row `hit` (or on none). Header clicks
    /// go to [`Self::sort_by`].
    pub fn on_click(&mut self, hit: Option<usize>) -> (out: WidgetOutcome)
        requires
            old(self).wf(),
            hit matches Some(p) ==> p < old(self)@.rows.len(),
        ensures
            final(self).wf(),
            (final(self)@, out@) == old(self)@.on_click(opt_int(hit)),
    {
        if self.disabled {
            return WidgetOutcome::Ignored;
        }
        match hit {
            Some(p) => self.select_single(p),
            None => WidgetOutcome::Ignored,
        }
    }

    /// The `grid-template-columns` value from the column widths.
    pub fn grid_template(&self) -> (r: String)
        ensures
            r@ == self@.grid_template(),
    {
        let mut parts: Vec<String> = Vec::new();
        let mut i: usize = 0;
        while i < self.columns.len()
            invariant
                i <= self.columns@.len(),
                parts@.len() == i,
                forall|k: int| 0 <= k < i ==> (#[trigger] parts@[k])@ == widths(self@.columns)[k],
            decreases self.columns@.len() - i,
        {
            let w = match &self.columns[i].1 {
                Some(w) => w.clone(),
                None => "1fr".to_string(),
            };
            parts.push(w);
            i = i + 1;
        }
        assert(parts@.map_values(|s: String| s@) =~= widths(self@.columns));
        join_strings(&parts, " ")
    }

    fn head_cell(&self, c: usize) -> (r: Node)
        requires
            self.wf(),
            c < self@.columns.len(),
        ensures
            self@.head_rendered(c as int, r),
    {
        let part = prefixed("head-", c);
        let col = decimal(c);
        let mut cell = Node::el("lq-th")
            .attr("data-part", part.as_str())
            .attr("data-col", col.as_str())
            .attr("role", "columnheader")
            .class_if("sortable", self.sortable)
            .child(Node::text(self.columns[c].0.as_str()));
        let ghost a0 = cell.attr_views();
        let ghost c0 = cell.class_views();
        match self.sort {
            Some((sc, d)) => {
                if sc == c {
                    cell = cell.attr("aria-sort", d.aria()).class(match d {
                        SortDir::Asc => "sorted-asc",
                        SortDir::Desc => "sorted-desc",
                    });
                }
            },
            None => {},
        }
        assert(a0 =~= seq![
            ("data-part"@, "head-"@ + dec(c as nat)),
            ("data-col"@, dec(c as nat)),
            ("role"@, "columnheader"@),
        ]);
        assert(c0 =~= (if self@.sortable { seq!["sortable"@] } else { Seq::empty() }));
        match self.sort {
            Some((sc, d)) => {
                if sc == c {
                    assert(cell.attr_views() =~= a0 + seq![("aria-sort"@, dir_aria(d))]);
                    assert(cell.class_views() =~= c0 + seq![sorted_class(d)]);
                } else {
                    assert(cell.attr_views() =~= a0 + Seq::empty());
                    assert(cell.class_views() =~= c0 + Seq::empty());
                }
            },
            None => {
                assert(cell.attr_views() =~= a0 + Seq::empty());
                assert(cell.class_views() =~= c0 + Seq::empty());
            },
        }
        cell
    }

    fn body_row(&self, pos: usize, template: &str) -> (r: Node)
        requires
            self.wf(),
            pos < self@.rows.len(),
            template@ == self@.grid_template(),
        ensures
            self@.row_rendered(pos as int, r),
    {
        let d = self.order[pos];
        assert(self@.order[pos as int] == d);
        assert(0 <= self@.order[pos as int] < self@.rows.len());
        let sel = self.has(pos);
        let key = prefixed("data-", d);
        let part = prefixed("row-", pos);
        let rowno = decimal(pos);
        let datano = decimal(d);
        let mut tr = Node::el("lq-tr")
            .key(key.as_str())
            .attr("data-part", part.as_str())
            .attr("data-row", rowno.as_str())
            .attr("data-data-row", datano.as_str())
            .attr("role", "row")
            .attr("aria-selected", bool_text(sel))
            .class_if("selected", sel)
            .style("grid-template-columns", template)
            .pseudo_if(PseudoFlag::Checked, sel)
            .pseudo_if(PseudoFlag::Focus, self.cursor == Some(pos) && !self.disabled)
            .pseudo_if(PseudoFlag::Hover, self.hovered == Some(pos) && !self.disabled);
        assert(sel == self@.selected.contains(pos as int));
        assert(tr.attr_views() =~= seq![
            ("data-part"@, "row-"@ + dec(pos as nat)),
            ("data-row"@, dec(pos as nat)),
            ("data-data-row"@, dec(d as nat)),
            ("role"@, "row"@),
            ("aria-selected"@, bool_str(sel)),
        ]);
        assert(tr.class_views() =~= (if sel { seq!["selected"@] } else { Seq::<Seq<char>>::empty() }));
        assert(tr.style_views() =~= seq![("grid-template-columns"@, self@.grid_template())]);
        let ghost head = tr;
        let cells = &self.rows[d];
        let mut c: usize = 0;
        while c < self.columns.len()
            invariant
                self.wf(),
                pos < self@.rows.len(),
                d == self@.order[pos as int],
                cells@.map_values(|s: String| s@) == self@.rows[d as int],
                c <= self@.columns.len(),
                tr.tag == head.tag,
                tr.key == head.key,
                tr.attrs == head.attrs,
                tr.classes == head.classes,
                tr.styles == head.styles,
                tr.pseudo == head.pseudo,
                tr.children@.len() == c,
                forall|k: int|
                    0 <= k < c ==> {
                        &&& (#[trigger] tr.children@[k]).tag@ == "lq-td"@
                        &&& tr.children@[k].attr_views() == seq![("data-col"@, dec(k as nat)), ("role"@, "cell"@)]
                        &&& tr.children@[k].children@.len() == 1
                        &&& tr.children@[k].first_text() == self@.cell_text(d as int, k)
                    },
            decreases self@.columns.len() - c,
        {
            proof {
                reveal_strlit("");
            }
            let value: &str = if c < cells.len() { cells[c].as_str() } else { "" };
            let colno = decimal(c);
            let td = Node::el("lq-td").attr("data-col", colno.as_str()).attr("role", "cell").child(Node::text(value));
            assert(td.attr_views() =~= seq![("data-col"@, dec(c as nat)), ("role"@, "cell"@)]);
            assert(""@ =~= Seq::<char>::empty());
            tr = tr.child(td);
            c = c + 1;
        }
        tr
    }

    /// The render tree: an `lq-table` (grid role) with the header row of
    /// column headers and the body of rows in display order.
    pub fn render(&self) -> (r: Node)
        requires
            self.wf(),
        ensures
            r.tag@ == "lq-table"@,
            r.attr_views() == seq![("role"@, "grid"@), (FOCUSABLE_ATTR@, bool_str(!self@.disabled))]
                + (if self@.disabled { seq![("disabled"@, "true"@)] } else { Seq::empty() }),
            r.pseudo.disabled == self@.disabled,
            r.children@.len() == 2,
            r.children@[0].tag@ == "lq-thead"@,
            r.children@[0].attr_views() == seq![("role"@, "row"@)],
            r.children@[0].style_views() == seq![("grid-template-columns"@, self@.grid_template())],
            r.children@[0].children@.len() == self@.columns.len(),
            forall|c: int| 0 <= c < self@.columns.len() ==> self@.head_rendered(c, #[trigger] r.children@[0].children@[c]),
            r.children@[1].tag@ == "lq-tbody"@,
            r.children@[1].attr_views() == seq![("role"@, "rowgroup"@)],
            r.children@[1].children@.len() == self@.rows.len(),
            forall|p: int| 0 <= p < self@.rows.len() ==> self@.row_rendered(p, #[trigger] r.children@[1].children@[p]),
    {
        let template = self.grid_template();
        let mut head = Node::el("lq-thead").attr("role", "row").style("grid-template-columns", template.as_str());
        assert(head.attr_views() =~= seq![("role"@, "row"@)]);
        assert(head.style_views() =~= seq![("grid-template-columns"@, self@.grid_template())]);
        let mut c: usize = 0;
        while c < self.columns.len()
            invariant
                self.wf(),
                c <= self@.columns.len(),
                head.tag@ == "lq-thead"@,
                head.attr_views() == seq![("role"@, "row"@)],
                head.style_views() == seq![("grid-template-columns"@, self@.grid_template())],
                head.children@.len() == c,
                forall|k: int| 0 <= k < c ==> self@.head_rendered(k, #[trigger] head.children@[k]),
            decreases self@.columns.len() - c,
        {
            head = head.child(self.head_cell(c));
            c = c + 1;
        }
        let mut body = Node::el("lq-tbody").attr("role", "rowgroup");
        assert(body.attr_views() =~= seq![("role"@, "rowgroup"@)]);
        let mut p: usize = 0;
        while p < self.order.len()
            invariant
                self.wf(),
                template@ == self@.grid_template(),
                p <= self@.rows.len(),
                body.tag@ == "lq-tbody"@,
                body.attr_views() == seq![("role"@, "rowgroup"@)],
                body.children@.len() == p,
                forall|k: int| 0 <= k < p ==> self@.row_rendered(k, #[trigger] body.children@[k]),
            decreases self@.rows.len() - p,
        {
            body = body.child(self.body_row(p, template.as_str()));
            p = p + 1;
        }
        let mut table = Node::el("lq-table")
            .attr("role", "grid")
            .attr(FOCUSABLE_ATTR, bool_text(!self.disabled))
            .pseudo_if(PseudoFlag::Disabled, self.disabled)
            .child(head)
            .child(body);
        if self.disabled {
            table = table.attr("disabled", "true");
        }
        assert(table.attr_views() =~= seq![("role"@, "grid"@), (FOCUSABLE_ATTR@, bool_str(!self@.disabled))]
            + (if self@.disabled { seq![("disabled"@, "true"@)] } else { Seq::empty() }));
        table
    }
}

/// The row a plain navigation key selects, by where the cursor `c` is on a
/// table of `n` rows: Up the row above (the first row stays), Down the row
/// below (the last row stays), Home the first row, End the last.
pub open spec fn nav_target(key: u32, c: int, n: int) -> int {
    if key == keys::ARROW_UP {
        if c == 0 { 0 } else { c - 1 }
    } else if key == keys::ARROW_DOWN {
        if c == n - 1 { c } else { c + 1 }
    } else if key == keys::HOME {
        0
    } else {
        n - 1
    }
}

/// Up, Down, Home and End without modifiers select exactly one row, the one
/// next to the cursor (or at the edge), and move cursor and anchor there;
/// the rows, their order and the sort stay, and the new selection is
/// reported.
pub proof fn lemma_nav_keys_select_one(m: TableModel, key: KeyInput)
    requires
        m.valid(),
        !m.disabled,
        m.rows.len() > 0,
        key.key == keys::ARROW_UP || key.key == keys::ARROW_DOWN || key.key == keys::HOME || key.key == keys::END,
        !has_shift(key.modifiers),
        !has_ctrl(key.modifiers),
    ensures
        ({
            let c = m.cursor.unwrap();
            let t = nav_target(key.key, c, m.rows.len() as int);
            let (n, out) = m.on_key(key);
            &&& 0 <= t < m.rows.len()
            &&& n.selected == Set::<int>::empty().insert(t)
            &&& n.cursor == Some(t) && n.anchor == Some(t)
            &&& n.rows == m.rows && n.order == m.order && n.sort == m.sort
            &&& out == OutcomeView::Action(CHANGED_ACTION@, Some(join(seq![dec(t as nat)], ","@)))
        }),
{
    let c = m.cursor.unwrap();
    let t = nav_target(key.key, c, m.rows.len() as int);
    let n = m.on_key(key).0;
    assert(positions_upto(n.selected, t) =~= Seq::<int>::empty()) by {
        lemma_positions_none_below(n.selected, t);
    }
    lemma_positions_none_from(n.selected, t + 1, m.rows.len() as int);
    assert(n.selected_positions().map_values(|p: int| dec(p as nat)) =~= seq![dec(t as nat)]);
}

proof fn lemma_positions_none_below(s: Set<int>, k: int)
    requires
        forall|p: int| #[trigger] s.contains(p) ==> p >= k,
    ensures
        positions_upto(s, k) == Seq::<int>::empty(),
    decreases k,
{
    if k > 0 {
        lemma_positions_none_below(s, k - 1);
    }
}

proof fn lemma_positions_none_from(s: Set<int>, k: int, j: int)
    requires
        k <= j,
        forall|p: int| #[trigger] s.contains(p) ==> p < k,
    ensures
        positions_upto(s, j) == positions_upto(s, k),
    decreases j - k,
{
    if j > k {
        lemma_positions_none_from(s, k, j - 1);
    }
}

/// With Ctrl held, the navigation keys move only the cursor (to the same
/// row the plain key would select); selection and anchor stay.
pub proof fn lemma_ctrl_nav_moves_cursor_only(m: TableModel, key: KeyInput)
    requires
        m.valid(),
        !m.disabled,
        m.rows.len() > 0,
        key.key == keys::ARROW_UP || key.key == keys::ARROW_DOWN || key.key == keys::HOME || key.key == keys::END,
        !has_shift(key.modifiers),
        has_ctrl(key.modifiers),
    ensures
        ({
            let t = nav_target(key.key, m.cursor.unwrap(), m.rows.len() as int);
            let (n, out) = m.on_key(key);
            &&& n.cursor == Some(t)
            &&& n.selected == m.selected && n.anchor == m.anchor
            &&& out == OutcomeView::Changed
        }),
{
}

/// With Shift held, the navigation keys select the whole range from the
/// anchor (or, without one, just the target) to the target row, and move
/// the cursor there; the anchor stays.
pub proof fn lemma_shift_nav_selects_range(m: TableModel, key: KeyInput)
    requires
        m.valid(),
        !m.disabled,
        m.rows.len() > 0,
        key.key == keys::ARROW_UP || key.key == keys::ARROW_DOWN || key.key == keys::HOME || key.key == keys::END,
        has_shift(key.modifiers),
    ensures
        ({
            let t = nav_target(key.key, m.cursor.unwrap(), m.rows.len() as int);
            let a = if m.anchor is Some { m.anchor.unwrap() } else { t };
            let n = m.on_key(key).0;
            &&& n.cursor == Some(t) && n.anchor == m.anchor
            &&& forall|p: int| #[trigger] n.selected.contains(p) <==> ((a <= p <= t) || (t <= p <= a))
        }),
{
}

/// Space and Enter select the cursor row alone; Ctrl+Space flips whether the
/// cursor row is selected and leaves the other rows as they were.
pub proof fn lemma_space_selects_cursor_row(m: TableModel, mods: u32)
    requires
        m.valid(),
        !m.disabled,
        m.rows.len() > 0,
    ensures
        ({
            let c = m.cursor.unwrap();
            let n = m.on_key(KeyInput { key: keys::ENTER, modifiers: mods }).0;
            n.selected == Set::<int>::empty().insert(c) && n.cursor == Some(c)
        }),
        !has_ctrl(mods) ==> ({
            let c = m.cursor.unwrap();
            let n = m.on_key(KeyInput { key: keys::SPACE, modifiers: mods }).0;
            n.selected == Set::<int>::empty().insert(c) && n.cursor == Some(c)
        }),
        has_ctrl(mods) ==> ({
            let c = m.cursor.unwrap();
            let n = m.on_key(KeyInput { key: keys::SPACE, modifiers: mods }).0;
            &&& n.selected.contains(c) == !m.selected.contains(c)
            &&& forall|p: int| p != c ==> (#[trigger] n.selected.contains(p) == m.selected.contains(p))
            &&& n.cursor == Some(c)
        }),
{
}

/// A click on body row `p` of an enabled table selects that row alone and
/// puts cursor and anchor on it; a click on no row changes nothing.
pub proof fn lemma_click_selects_row(m: TableModel, p: int)
    requires
        m.valid(),
        !m.disabled,
        0 <= p < m.rows.len(),
    ensures
        m.on_click(Some(p)).0.selected == Set::<int>::empty().insert(p),
        m.on_click(Some(p)).0.cursor == Some(p),
        m.on_click(Some(p)).0.anchor == Some(p),
        m.on_click(None) == (m, OutcomeView::Ignored),
{
}

} // verus!
