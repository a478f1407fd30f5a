//! `<lq-list>` — a vertical, selectable item list.
//!
//! State: `(value, label)` items, a selection set, a keyboard cursor (lead
//! row) and a range anchor for Shift-selection. Clicks single-select the row
//! the host's hit test resolved; Shift+Arrow selects the range from the anchor
//! (multi mode), Ctrl+Arrow moves the cursor only, Ctrl+Space toggles the
//! cursor row (multi mode), Up/Down/Home/End move (and single-select),
//! Space/Enter select the cursor row. Every selection change emits
//! `changed` with the comma-joined selected values.

use std::collections::BTreeSet;

use vstd::prelude::*;

use crate::index_set::{int_set, set_add, set_drop, set_has};
use crate::behavior::{opt_int, KeyInput, OutcomeView, WidgetKind, WidgetOutcome};
use crate::keys;
use crate::keys::modifiers::{has_ctrl, has_shift};
use crate::node::{bool_str, bool_text, opt_view, Node, Pseudo, PseudoFlag, FOCUSABLE_ATTR};
use crate::table::nav_target;
use crate::text::{dec, join, join_strings, prefixed};

verus! {

/// The action a list emits when the selection changes. The payload is the
/// comma-joined selected values, in ascending index order.
pub const CHANGED_ACTION: &'static str = "changed";

/// Whether a list permits more than one selected row.
#[derive(Clone, Copy, Debug, PartialEq, Eq, Structural)]
pub enum SelectionMode {
    /// At most one row selected at a time.
    Single,
    /// Any number of rows selected (Ctrl toggle, Shift range).
    Multi,
}

/// A vertical, selectable item list.
pub struct List {
    items: Vec<(String, String)>,
    mode: SelectionMode,
    /// The selected row indices.
    selected: BTreeSet<usize>,
    cursor: Option<usize>,
    anchor: Option<usize>,
    hovered: Option<usize>,
    disabled: bool,
    /// The icon name shown before each row's label, if any.
    icons: Vec<Option<String>>,
}

/// The abstract state of a [`List`].
pub struct ListModel {
    pub items: Seq<(Seq<char>, Seq<char>)>,
    pub mode: SelectionMode,
    pub selected: Set<int>,
    pub cursor: Option<int>,
    pub anchor: Option<int>,
    pub hovered: Option<int>,
    pub disabled: bool,
    pub icons: Seq<Option<Seq<char>>>,
}

/// Whether `o` is absent or an index below `n`.
pub open spec fn opt_below(o: Option<int>, n: int) -> bool {
    o matches Some(i) ==> 0 <= i < n
}

impl ListModel {
    /// The invariant every list state keeps: the selection, cursor, anchor
    /// and hover all index existing rows, and the cursor exists exactly when
    /// there are rows.
    pub open spec fn valid(self) -> bool {
        let n = self.items.len() as int;
        &&& self.icons.len() == n
        &&& forall|i: int| self.selected.contains(i) ==> 0 <= i < n
        &&& (self.cursor is None <==> n == 0)
        &&& opt_below(self.cursor, n)
        &&& opt_below(self.anchor, n)
        &&& opt_below(self.hovered, n)
    }

    /// The selected values in ascending index order, over rows `0..k`.
    pub open spec fn values_upto(self, k: int) -> Seq<Seq<char>>
        decreases k,
    {
        if k <= 0 {
            Seq::empty()
        } else if self.selected.contains(k - 1) {
            self.values_upto(k - 1).push(self.items[k - 1].0)
        } else {
            self.values_upto(k - 1)
        }
    }

    /// The selected values in ascending index order.
    pub open spec fn selected_values(self) -> Seq<Seq<char>> {
        self.values_upto(self.items.len() as int)
    }

    /// The `changed` payload: the selected values joined with commas.
    pub open spec fn payload(self) -> Seq<char> {
        join(self.selected_values(), ","@)
    }

    /// `idx` becomes the sole selection, the cursor and the anchor.
    pub open spec fn with_single(self, idx: int) -> ListModel {
        ListModel { selected: Set::empty().insert(idx), cursor: Some(idx), anchor: Some(idx), ..self }
    }

    /// `idx` flips in/out of the selection and becomes cursor and anchor.
    pub open spec fn with_toggled(self, idx: int) -> ListModel {
        ListModel {
            selected: if self.selected.contains(idx) {
                self.selected.remove(idx)
            } else {
                self.selected.insert(idx)
            },
            cursor: Some(idx),
            anchor: Some(idx),
            ..self
        }
    }

    /// The selection becomes the contiguous range between the anchor (or
    /// `idx` when there is none) and `idx`; the cursor moves to `idx`, the
    /// anchor stays.
    pub open spec fn with_range(self, idx: int) -> ListModel {
        let a = match self.anchor {
            Some(a) => a,
            None => idx,
        };
        let lo = if a <= idx { a } else { idx };
        let hi = if a <= idx { idx } else { a };
        ListModel { selected: Set::new(|i: int| lo <= i <= hi), cursor: Some(idx), ..self }
    }

    /// State and outcome of single-selecting `idx`: `changed` unless `idx`
    /// already was the sole selection (then only a re-render).
    pub open spec fn select_single(self, idx: int) -> (ListModel, OutcomeView) {
        let m = self.with_single(idx);
        if self.selected == Set::empty().insert(idx) {
            (m, OutcomeView::Changed)
        } else {
            (m, OutcomeView::Action(CHANGED_ACTION@, Some(m.payload())))
        }
    }

    /// State and outcome of toggling `idx`.
    pub open spec fn toggle_one(self, idx: int) -> (ListModel, OutcomeView) {
        let m = self.with_toggled(idx);
        (m, OutcomeView::Action(CHANGED_ACTION@, Some(m.payload())))
    }

    /// State and outcome of a range selection ending at `idx`.
    pub open spec fn select_range(self, idx: int) -> (ListModel, OutcomeView) {
        let m = self.with_range(idx);
        (m, OutcomeView::Action(CHANGED_ACTION@, Some(m.payload())))
    }

    /// The row a movement key targets (`None` for other keys).
    pub open spec fn move_target(self, key: u32) -> Option<int> {
        let n = self.items.len() as int;
        let cur = match self.cursor {
            Some(c) => c,
            None => 0,
        };
        if key == keys::ARROW_DOWN {
            Some(if cur + 1 < n - 1 { cur + 1 } else { n - 1 })
        } else if key == keys::ARROW_UP {
            Some(if cur > 0 { cur - 1 } else { 0 })
        } else if key == keys::HOME {
            Some(0)
        } else if key == keys::END {
            Some(n - 1)
        } else {
            None
        }
    }

    /// The keyboard transition: state and outcome after `key`.
    pub open spec fn on_key(self, key: KeyInput) -> (ListModel, OutcomeView) {
        let cur = match self.cursor {
            Some(c) => c,
            None => 0,
        };
        let shift = has_shift(key.modifiers);
        let ctrl = has_ctrl(key.modifiers);
        if self.disabled || self.items.len() == 0 {
            (self, OutcomeView::Ignored)
        } else if let Some(idx) = self.move_target(key.key) {
            if shift && self.mode == SelectionMode::Multi {
                self.select_range(idx)
            } else if ctrl {
                (ListModel { cursor: Some(idx), ..self }, OutcomeView::Changed)
            } else {
                self.select_single(idx)
            }
        } else if key.key == keys::SPACE && ctrl && self.mode == SelectionMode::Multi {
            self.toggle_one(cur)
        } else if key.key == keys::SPACE || key.key == keys::ENTER {
            self.select_single(cur)
        } else {
            (self, OutcomeView::Ignored)
        }
    }

    /// The transition for a pointer move over row `hit` (or over no row).
    pub open spec fn on_move(self, hit: Option<int>) -> (ListModel, OutcomeView) {
        if self.disabled || hit == self.hovered {
            (self, OutcomeView::Ignored)
        } else {
            (ListModel { hovered: hit, ..self }, OutcomeView::Changed)
        }
    }

    /// The transition for the pointer leaving the list.
    pub open spec fn on_leave(self) -> (ListModel, OutcomeView) {
        if self.disabled || self.hovered is None {
            (self, OutcomeView::Ignored)
        } else {
            (ListModel { hovered: None, ..self }, OutcomeView::Changed)
        }
    }

    /// Whether `c` is the rendering of row `i`: an `lq-list-item` keyed by
    /// the row value, carrying its part name, index, value, option role and
    /// selection state as attributes, the `selected` class when selected,
    /// `:checked` when selected, `:focus` on the cursor row and `:hover` on
    /// the hovered row (neither when disabled), with the label as its text.
    pub open spec fn row_rendered(self, i: int, c: Node) -> bool {
        let sel = self.selected.contains(i);
        &&& c.tag@ == "lq-list-item"@
        &&& c.key matches Some(k) && k@ == self.items[i].0
        &&& c.attr_views() == seq![
            ("data-part"@, "item-"@ + dec(i as nat)),
            ("data-index"@, dec(i as nat)),
            ("data-value"@, self.items[i].0),
            ("role"@, "option"@),
            ("aria-selected"@, bool_str(sel)),
        ]
        &&& c.class_views() == (if sel { seq!["selected"@] } else { Seq::empty() })
        &&& c.pseudo == (Pseudo {
            hover: self.hovered == Some(i) && !self.disabled,
            active: false,
            focus: self.cursor == Some(i) && !self.disabled,
            checked: sel,
            disabled: false,
        })
        &&& match self.icons[i] {
            Some(name) => {
                &&& c.children@.len() == 2
                &&& c.children@[0].tag@ == "lq-list-item-icon"@
                &&& c.children@[0].attr_views() == seq![("data-icon"@, name)]
                &&& c.children@[0].children@.len() == 0
                &&& c.children@[1].tag@ == Seq::<char>::empty()
                &&& c.children@[1].text@ == self.items[i].1
            },
            None => {
                &&& c.children@.len() == 1
                &&& c.children@[0].tag@ == Seq::<char>::empty()
                &&& c.first_text() == self.items[i].1
            },
        }
    }

    /// The transition for a left click on row `hit` (or on no row).
    pub open spec fn on_click(self, hit: Option<int>) -> (ListModel, OutcomeView) {
        if self.disabled {
            (self, OutcomeView::Ignored)
        } else {
            match hit {
                Some(i) => self.select_single(i),
                None => (self, OutcomeView::Ignored),
            }
        }
    }
}

impl View for List {
    type V = ListModel;

    closed spec fn view(&self) -> ListModel {
        ListModel {
            items: self.items@.map_values(|p: (String, String)| (p.0@, p.1@)),
            mode: self.mode,
            selected: int_set(self.selected@),
            cursor: opt_int(self.cursor),
            anchor: opt_int(self.anchor),
            hovered: opt_int(self.hovered),
            disabled: self.disabled,
            icons: self.icons@.map_values(|o: Option<String>| opt_view(o)),
        }
    }
}

impl List {
    /// The representation invariant.
    pub closed spec fn wf(&self) -> bool {
        self@.valid()
    }

    /// A well-formed widget's model is valid: clients can apply the model
    /// lemmas to it.
    pub proof fn lemma_wf_valid(&self)
        requires
            self.wf(),
        ensures
            self@.valid(),
    {
    }

    /// A single-select list over `(value, label)` items; nothing selected,
    /// the cursor on the first row.
    pub fn new(items: Vec<(String, String)>) -> (r: List)
        ensures
            r.wf(),
            r@.items == items@.map_values(|p: (String, String)| (p.0@, p.1@)),
            r@.mode == SelectionMode::Single,
            r@.selected == Set::<int>::empty(),
            r@.cursor == (if items@.len() == 0 { None } else { Some(0int) }),
            r@.anchor is None,
            r@.hovered is None,
            !r@.disabled,
            r@.icons == Seq::new(items@.len(), |i: int| None::<Seq<char>>),
    {
        let n = items.len();
        let selected: BTreeSet<usize> = BTreeSet::new();
        let mut icons: Vec<Option<String>> = Vec::new();
        let mut j: usize = 0;
        while j < n
            invariant
                j <= n,
                icons@.len() == j,
                forall|k: int| 0 <= k < j ==> icons@[k] is None,
            decreases n - j,
        {
            icons.push(None);
            j = j + 1;
        }
        let cursor = if n == 0 { None } else { Some(0) };
        let r = List { items, mode: SelectionMode::Single, selected, cursor, anchor: None, hovered: None, disabled: false, icons };
        assert(r@.selected =~= Set::<int>::empty());
        assert(r@.icons =~= Seq::new(n as nat, |i: int| None::<Seq<char>>));
        r
    }

    /// Allows multi-select.
    pub fn multi(self) -> (r: List)
        requires
            self.wf(),
        ensures
            r.wf(),
            r@ == (ListModel { mode: SelectionMode::Multi, ..self@ }),
    {
        List { mode: SelectionMode::Multi, ..self }
    }

    /// Gives row `i` the icon `icons[i]` (rows past the end of `icons` get
    /// none; extra entries are ignored).
    pub fn with_icons(self, icons: Vec<Option<String>>) -> (r: List)
        requires
            self.wf(),
        ensures
            r.wf(),
            r@ == (ListModel {
                icons: Seq::new(
                    self@.items.len(),
                    |i: int| if i < icons@.len() { opt_view(icons@[i]) } else { None },
                ),
                ..self@
            }),
    {
        let n = self.items.len();
        let mut out: Vec<Option<String>> = Vec::new();
        let mut i: usize = 0;
        while i < n
            invariant
                n == self@.items.len(),
                i <= n,
                out@.len() == i,
                forall|k: int| 0 <= k < i ==> #[trigger] opt_view(out@[k]) == (if k < icons@.len() { opt_view(icons@[k]) } else { None }),
            decreases n - i,
        {
            let icon = if i < icons.len() {
                match &icons[i] {
                    Some(s) => Some(s.clone()),
                    None => None,
                }
            } else {
                None
            };
            out.push(icon);
            i = i + 1;
        }
        let r = List { icons: out, ..self };
        assert(r@.icons =~= Seq::new(
            self@.items.len(),
            |i: int| if i < icons@.len() { opt_view(icons@[i]) } else { None },
        ));
        r
    }

    /// Pre-selects row `idx` (replacing any selection; also cursor and
    /// anchor); an index past the end changes nothing.
    pub fn select(self, idx: usize) -> (r: List)
        requires
            self.wf(),
        ensures
            r.wf(),
            r@ == (if idx < self@.items.len() { self@.with_single(idx as int) } else { self@ }),
    {
        if idx < self.items.len() {
            let mut s = self;
            s.set_single(idx);
            s
        } else {
            self
        }
    }

    /// Marks the whole list disabled (or enabled).
    pub fn disabled(self, d: bool) -> (r: List)
        requires
            self.wf(),
        ensures
            r.wf(),
            r@ == (ListModel { disabled: d, ..self@ }),
    {
        List { disabled: d, ..self }
    }

    /// Number of items.
    pub fn len(&self) -> (r: usize)
        requires
            self.wf(),
        ensures
            r == self@.items.len(),
    {
        self.items.len()
    }

    /// Whether there are no items.
    pub fn is_empty(&self) -> (r: bool)
        requires
            self.wf(),
        ensures
            r == (self@.items.len() == 0),
    {
        self.items.len() == 0
    }

    /// The selected indices, ascending.
    pub fn selected_indices(&self) -> (r: Vec<usize>)
        requires
            self.wf(),
        ensures
            forall|a: int, b: int| 0 <= a < b < r@.len() ==> r@[a] < r@[b],
            forall|i: int| self@.selected.contains(i) <==> exists|k: int| 0 <= k < r@.len() && r@[k] == i,
    {
        let mut r: Vec<usize> = Vec::new();
        let mut i: usize = 0;
        while i < self.items.len()
            invariant
                self.wf(),
                i <= self@.items.len(),
                forall|a: int, b: int| 0 <= a < b < r@.len() ==> r@[a] < r@[b],
                forall|k: int| 0 <= k < r@.len() ==> r@[k] < i,
                forall|j: int| 0 <= j < i ==> (self@.selected.contains(j) <==> exists|k: int| 0 <= k < r@.len() && r@[k] == j),
            decreases self@.items.len() - i,
        {
            let ghost old_r = r@;
            if self.has(i) {
                r.push(i);
                assert(r@[r@.len() - 1] == i);
            }
            assert forall|j: int| 0 <= j < i + 1 implies (self@.selected.contains(j) <==> exists|k: int| 0 <= k < r@.len() && r@[k] == j) by {
                if j < i {
                    if self@.selected.contains(j) {
                        let k = choose|k: int| 0 <= k < old_r.len() && old_r[k] == j;
                        assert(r@[k] == j);
                    }
                    if exists|k: int| 0 <= k < r@.len() && r@[k] == j {
                        let k = choose|k: int| 0 <= k < r@.len() && r@[k] == j;
                        if k < old_r.len() {
                            assert(old_r[k] == j);
                        }
                    }
                } else {
                    if self@.selected.contains(j) {
                        assert(r@[r@.len() - 1] == j);
                    }
                    if exists|k: int| 0 <= k < r@.len() && r@[k] == j {
                        let k = choose|k: int| 0 <= k < r@.len() && r@[k] == j;
                        if k < old_r.len() {
                            assert(old_r[k] < i);
                        }
                    }
                }
            }
            i = i + 1;
        }
        assert forall|j: int| self@.selected.contains(j) <==> exists|k: int| 0 <= k < r@.len() && r@[k] == j by {
            if exists|k: int| 0 <= k < r@.len() && r@[k] == j {
                let k = choose|k: int| 0 <= k < r@.len() && r@[k] == j;
                assert(0 <= j < self@.items.len());
            }
        }
        r
    }

    /// The selected values, in ascending index order.
    pub fn selected_values(&self) -> (r: Vec<String>)
        requires
            self.wf(),
        ensures
            r@.map_values(|s: String| s@) == self@.selected_values(),
    {
        let mut r: Vec<String> = Vec::new();
        let mut i: usize = 0;
        while i < self.items.len()
            invariant
                self.wf(),
                i <= self.items@.len(),
                r@.map_values(|s: String| s@) == self@.values_upto(i as int),
            decreases self.items@.len() - i,
        {
            if self.has(i) {
                r.push(self.items[i].0.clone());
            }
            assert(r@.map_values(|s: String| s@) =~= self@.values_upto(i + 1));
            i = i + 1;
        }
        r
    }

    /// The keyboard cursor (lead) row.
    pub fn cursor(&self) -> (r: Option<usize>)
        requires
            self.wf(),
        ensures
            opt_int(r) == self@.cursor,
    {
        self.cursor
    }

    /// Whether row `idx` is selected.
    pub fn is_selected(&self, idx: usize) -> (r: bool)
        requires
            self.wf(),
        ensures
            r == self@.selected.contains(idx as int),
    {
        self.has(idx)
    }

    /// The widget family.
    pub fn kind(&self) -> (r: WidgetKind)
        ensures
            r == WidgetKind::Collection,
    {
        WidgetKind::Collection
    }

    /// Whether the list takes keyboard focus (it does unless disabled).
    pub fn focusable(&self) -> (r: bool)
        requires
            self.wf(),
        ensures
            r == !self@.disabled,
    {
        !self.disabled
    }

    /// The render tree: an `lq-list` (listbox role, focusable unless
    /// disabled, `:disabled` and a `disabled` attribute when disabled,
    /// multiselectable in multi mode) with one rendered row per item.
    pub fn render(&self) -> (r: Node)
        requires
            self.wf(),
        ensures
            r.tag@ == "lq-list"@,
            r.attr_views() == seq![("role"@, "listbox"@), (FOCUSABLE_ATTR@, bool_str(!self@.disabled))]
                + (if self@.mode == SelectionMode::Multi { seq![("aria-multiselectable"@, "true"@)] } else { Seq::empty() })
                + (if self@.disabled { seq![("disabled"@, "true"@)] } else { Seq::empty() }),
            r.pseudo.disabled == self@.disabled,
            !r.pseudo.hover && !r.pseudo.focus && !r.pseudo.checked && !r.pseudo.active,
            r.children@.len() == self@.items.len(),
            forall|i: int| 0 <= i < self@.items.len() ==> self@.row_rendered(i, #[trigger] r.children@[i]),
    {
        let mut list = Node::el("lq-list")
            .attr("role", "listbox")
            .attr(FOCUSABLE_ATTR, bool_text(!self.disabled))
            .pseudo_if(PseudoFlag::Disabled, self.disabled);
        if self.mode == SelectionMode::Multi {
            list = list.attr("aria-multiselectable", "true");
        }
        let ghost head = list.attr_views();
        let mut i: usize = 0;
        while i < self.items.len()
            invariant
                self.wf(),
                i <= self.items@.len(),
                list.tag@ == "lq-list"@,
                list.attr_views() == head,
                list.pseudo.disabled == self@.disabled,
                !list.pseudo.hover && !list.pseudo.focus && !list.pseudo.checked && !list.pseudo.active,
                list.children@.len() == i,
                forall|k: int| 0 <= k < i ==> self@.row_rendered(k, #[trigger] list.children@[k]),
            decreases self.items@.len() - i,
        {
            let sel = self.has(i);
            let is_cursor = self.cursor == Some(i) && !self.disabled;
            let hovered = self.hovered == Some(i) && !self.disabled;
            let value = self.items[i].0.as_str();
            let idx = crate::text::decimal(i);
            let part = prefixed("item-", i);
            let row = Node::el("lq-list-item")
                .key(value)
                .attr("data-part", part.as_str())
                .attr("data-index", idx.as_str())
                .attr("data-value", value)
                .attr("role", "option")
                .attr("aria-selected", bool_text(sel))
                .class_if("selected", sel)
                .pseudo_if(PseudoFlag::Checked, sel)
                .pseudo_if(PseudoFlag::Focus, is_cursor)
                .pseudo_if(PseudoFlag::Hover, hovered);
            let row = match &self.icons[i] {
                Some(name) => {
                    let icon = Node::el("lq-list-item-icon").attr("data-icon", name.as_str());
                    assert(icon.attr_views() =~= seq![("data-icon"@, name@)]);
                    row.child(icon)
                },
                None => row,
            };
            let row = row.child(Node::text(self.items[i].1.as_str()));
            assert(sel == self@.selected.contains(i as int));
            assert(row.attr_views() =~= seq![
                ("data-part"@, "item-"@ + dec(i as nat)),
                ("data-index"@, dec(i as nat)),
                ("data-value"@, self@.items[i as int].0),
                ("role"@, "option"@),
                ("aria-selected"@, bool_str(sel)),
            ]);
            assert(row.class_views() =~= (if sel { seq!["selected"@] } else { Seq::<Seq<char>>::empty() }));
            list = list.child(row);
            i = i + 1;
        }
        if self.disabled {
            list = list.attr("disabled", "true");
        }
        assert(list.attr_views() =~= seq![("role"@, "listbox"@), (FOCUSABLE_ATTR@, bool_str(!self@.disabled))]
                + (if self@.mode == SelectionMode::Multi { seq![("aria-multiselectable"@, "true"@)] } else { Seq::empty() })
                + (if self@.disabled { seq![("disabled"@, "true"@)] } else { Seq::empty() }));
        list
    }

    fn selection_payload(&self) -> (r: String)
        requires
            self.wf(),
        ensures
            r@ == self@.payload(),
    {
        let vals = self.selected_values();
        join_strings(&vals, ",")
    }

    /// Whether row `i` is selected.
    fn has(&self, i: usize) -> (r: bool)
        ensures
            r == self@.selected.contains(i as int),
    {
        set_has(&self.selected, i)
    }

    /// Adds row `i` to the selection.
    fn mark(&mut self, i: usize)
        ensures
            final(self)@ == (ListModel { selected: old(self)@.selected.insert(i as int), ..old(self)@ }),
    {
        set_add(&mut self.selected, i);
        assert(self@.selected =~= old(self)@.selected.insert(i as int));
    }

    /// Removes row `i` from the selection.
    fn unmark(&mut self, i: usize)
        ensures
            final(self)@ == (ListModel { selected: old(self)@.selected.remove(i as int), ..old(self)@ }),
    {
        set_drop(&mut self.selected, i);
        assert(self@.selected =~= old(self)@.selected.remove(i as int));
    }

    fn clear_selection(&mut self)
        requires
            old(self).wf(),
        ensures
            final(self).wf(),
            final(self)@ == (ListModel { selected: Set::empty(), ..old(self)@ }),
    {
        self.selected.clear();
        assert(self@.selected =~= Set::<int>::empty());
    }

    fn set_single(&mut self, idx: usize)
        requires
            old(self).wf(),
            idx < old(self)@.items.len(),
        ensures
            final(self).wf(),
            final(self)@ == old(self)@.with_single(idx as int),
    {
        self.clear_selection();
        self.mark(idx);
        self.cursor = Some(idx);
        self.anchor = Some(idx);
        assert(self@.selected =~= Set::<int>::empty().insert(idx as int));
    }

    fn is_sole_selection(&self, idx: usize) -> (r: bool)
        requires
            self.wf(),
            idx < self@.items.len(),
        ensures
            r == (self@.selected == Set::<int>::empty().insert(idx as int)),
    {
        let mut i: usize = 0;
        while i < self.items.len()
            invariant
                self.wf(),
                idx < self@.items.len(),
                i <= self@.items.len(),
                forall|k: int| 0 <= k < i ==> self@.selected.contains(k) == (k == idx),
            decreases self@.items.len() - i,
        {
            if self.has(i) != (i == idx) {
                assert(self@.selected.contains(idx as int) != Set::<int>::empty().insert(idx as int).contains(idx as int)
                    || self@.selected.contains(i as int) != Set::<int>::empty().insert(idx as int).contains(i as int));
                return false;
            }
            i = i + 1;
        }
        assert(self@.selected =~= Set::<int>::empty().insert(idx as int));
        true
    }

    fn select_single(&mut self, idx: usize) -> (out: WidgetOutcome)
        requires
            old(self).wf(),
            idx < old(self)@.items.len(),
        ensures
            final(self).wf(),
            (final(self)@, out@) == old(self)@.select_single(idx as int),
    {
        let same = self.is_sole_selection(idx);
        self.set_single(idx);
        if !same {
            WidgetOutcome::action_with(CHANGED_ACTION, self.selection_payload())
        } else {
            WidgetOutcome::Changed
        }
    }

    fn toggle_one(&mut self, idx: usize) -> (out: WidgetOutcome)
        requires
            old(self).wf(),
            idx < old(self)@.items.len(),
        ensures
            final(self).wf(),
            (final(self)@, out@) == old(self)@.toggle_one(idx as int),
    {
        let was = self.has(idx);
        if was {
            self.unmark(idx);
        } else {
            self.mark(idx);
        }
        self.cursor = Some(idx);
        self.anchor = Some(idx);
        if was {
            assert(self@.selected =~= old(self)@.selected.remove(idx as int));
        } else {
            assert(self@.selected =~= old(self)@.selected.insert(idx as int));
        }
        WidgetOutcome::action_with(CHANGED_ACTION, self.selection_payload())
    }

    fn select_range(&mut self, idx: usize) -> (out: WidgetOutcome)
        requires
            old(self).wf(),
            idx < old(self)@.items.len(),
        ensures
            final(self).wf(),
            (final(self)@, out@) == old(self)@.select_range(idx as int),
    {
        let anchor = match self.anchor {
            Some(a) => a,
            None => idx,
        };
        let (lo, hi) = if anchor <= idx { (anchor, idx) } else { (idx, anchor) };
        self.clear_selection();
        let n = self.items.len();
        let mut i = lo;
        while i <= hi
            invariant
                old(self).wf(),
                lo <= i <= hi + 1,
                hi < n,
                n == self@.items.len(),
                self@ == (ListModel { selected: self@.selected, ..old(self)@ }),
                forall|k: int| #[trigger] self@.selected.contains(k) <==> lo <= k < i,
            decreases hi + 1 - i,
        {
            self.mark(i);
            i = i + 1;
        }
        self.cursor = Some(idx);
        assert(self@.selected =~= Set::new(|k: int| lo <= k <= hi));
        WidgetOutcome::action_with(CHANGED_ACTION, self.selection_payload())
    }

    /// Handles a key press.
    pub fn on_keyboard(&mut self, key: KeyInput) -> (out: WidgetOutcome)
        requires
            old(self).wf(),
        ensures
            final(self).wf(),
            (final(self)@, out@) == old(self)@.on_key(key),
    {
        if self.disabled || self.items.len() == 0 {
            return WidgetOutcome::Ignored;
        }
        let n = self.items.len();
        let cur = match self.cursor {
            Some(c) => c,
            None => 0,
        };
        let shift = key.modifiers & keys::modifiers::SHIFT != 0;
        let ctrl = key.modifiers & keys::modifiers::CTRL != 0;
        let next = if key.key == keys::ARROW_DOWN {
            Some(if cur + 1 < n - 1 { cur + 1 } else { n - 1 })
        } else if key.key == keys::ARROW_UP {
            Some(if cur > 0 { cur - 1 } else { 0 })
        } else if key.key == keys::HOME {
            Some(0)
        } else if key.key == keys::END {
            Some(n - 1)
        } else {
            None
        };
        if let Some(idx) = next {
            if shift && self.mode == SelectionMode::Multi {
                return self.select_range(idx);
            } else if ctrl {
                self.cursor = Some(idx);
                return WidgetOutcome::Changed;
            } else {
                return self.select_single(idx);
            }
        }
        if key.key == keys::SPACE && ctrl && self.mode == SelectionMode::Multi {
            self.toggle_one(cur)
        } else if key.key == keys::SPACE || key.key == keys::ENTER {
            self.select_single(cur)
        } else {
            WidgetOutcome::Ignored
        }
    }

    /// Handles the pointer moving over row `hit` (as resolved by the host's
    /// hit test against the laid-out row boxes), or over no row.
    pub fn on_mouse_move(&mut self, hit: Option<usize>) -> (out: WidgetOutcome)
        requires
            old(self).wf(),
            hit matches Some(i) ==> i < old(self)@.items.len(),
        ensures
            final(self).wf(),
            (final(self)@, out@) == old(self)@.on_move(opt_int(hit)),
    {
        if self.disabled || hit == self.hovered {
            return WidgetOutcome::Ignored;
        }
        self.hovered = hit;
        assert(self@.selected == old(self)@.selected);
        WidgetOutcome::Changed
    }

    /// Handles the pointer leaving the list.
    pub fn on_mouse_leave(&mut self) -> (out: WidgetOutcome)
        requires
            old(self).wf(),
        ensures
            final(self).wf(),
            (final(self)@, out@) == old(self)@.on_leave(),
    {
        if self.disabled || self.hovered.is_none() {
            return WidgetOutcome::Ignored;
        }
        self.hovered = None;
        WidgetOutcome::Changed
    }

    /// Handles a left click on row `hit` (or on no row). Clicks always
    /// single-select.
    pub fn on_click(&mut self, hit: Option<usize>) -> (out: WidgetOutcome)
        requires
            old(self).wf(),
            hit matches Some(i) ==> i < old(self)@.items.len(),
        ensures
            final(self).wf(),
            (final(self)@, out@) == old(self)@.on_click(opt_int(hit)),
    {
        if self.disabled {
            return WidgetOutcome::Ignored;
        }
        match hit {
            Some(i) => self.select_single(i),
            None => WidgetOutcome::Ignored,
        }
    }
}

/// Whether `s` holds at most one row.
pub open spec fn at_most_one(s: Set<int>) -> bool {
    forall|i: int, j: int| s.contains(i) && s.contains(j) ==> i == j
}

/// A single-select list never ends up with more than one selected row,
/// whatever key or click it receives.
pub proof fn lemma_single_mode_selects_at_most_one(m: ListModel, key: KeyInput, hit: Option<int>)
    requires
        m.mode == SelectionMode::Single,
        at_most_one(m.selected),
    ensures
        at_most_one(m.on_key(key).0.selected),
        at_most_one(m.on_click(hit).0.selected),
        at_most_one(m.on_move(hit).0.selected),
        at_most_one(m.on_leave().0.selected),
{
}

/// In a multi-select list, Ctrl+Space flips the cursor row in or out of the
/// selection (every other row unchanged) and reports the change; twice on
/// the same row leaves the selection as it was.
pub proof fn lemma_ctrl_space_twice(m: ListModel, mods: u32)
    requires
        m.valid(),
        m.mode == SelectionMode::Multi,
        !m.disabled,
        m.items.len() > 0,
        has_ctrl(mods),
    ensures
        m.on_key(KeyInput { key: keys::SPACE, modifiers: mods }).0.on_key(
            KeyInput { key: keys::SPACE, modifiers: mods },
        ).0.selected == m.selected,
        ({
            let c = m.cursor->0;
            let first = m.on_key(KeyInput { key: keys::SPACE, modifiers: mods });
            &&& first.0.selected == (if m.selected.contains(c) { m.selected.remove(c) } else { m.selected.insert(c) })
            &&& first.1 is Action
        }),
{
    let c = m.cursor->0;
    if m.selected.contains(c) {
        assert(m.selected.remove(c).insert(c) =~= m.selected);
    } else {
        assert(m.selected.insert(c).remove(c) =~= m.selected);
    }
}

/// Up, Down, Home and End without modifiers select exactly one row, the one
/// next to the cursor (or at the edge), and move cursor and anchor there;
/// the rows stay and the change is reported unless that row already was the
/// sole selection.
pub proof fn lemma_nav_keys_select_one(m: ListModel, key: KeyInput)
    requires
        m.valid(),
        !m.disabled,
        m.items.len() > 0,
        key.key == keys::ARROW_UP || key.key == keys::ARROW_DOWN || key.key == keys::HOME || key.key == keys::END,
        !has_shift(key.modifiers),
        !has_ctrl(key.modifiers),
    ensures
        ({
            let t = nav_target(key.key, m.cursor.unwrap(), m.items.len() as int);
            let (n, out) = m.on_key(key);
            &&& 0 <= t < m.items.len()
            &&& n.selected == Set::<int>::empty().insert(t)
            &&& n.cursor == Some(t) && n.anchor == Some(t)
            &&& n.items == m.items
            &&& (out is Ignored) == false
            &&& m.selected != Set::<int>::empty().insert(t) ==> out == OutcomeView::Action(CHANGED_ACTION@, Some(n.payload()))
        }),
{
}

/// With Ctrl held the navigation keys move only the cursor; with Shift held
/// in a multi-select list they select the whole range from the anchor (or
/// just the target without one) to the target row.
pub proof fn lemma_modified_nav_keys(m: ListModel, key: KeyInput)
    requires
        m.valid(),
        !m.disabled,
        m.items.len() > 0,
        key.key == keys::ARROW_UP || key.key == keys::ARROW_DOWN || key.key == keys::HOME || key.key == keys::END,
    ensures
        ({
            let t = nav_target(key.key, m.cursor.unwrap(), m.items.len() as int);
            let n = m.on_key(key).0;
            &&& !has_shift(key.modifiers) && has_ctrl(key.modifiers) ==> n.cursor == Some(t) && n.selected == m.selected
                && n.anchor == m.anchor
            &&& has_shift(key.modifiers) && m.mode == SelectionMode::Multi ==> {
                let a = if m.anchor is Some { m.anchor.unwrap() } else { t };
                &&& n.cursor == Some(t) && n.anchor == m.anchor
                &&& forall|p: int| #[trigger] n.selected.contains(p) <==> ((a <= p <= t) || (t <= p <= a))
            }
        }),
{
}

/// Space and Enter (without Ctrl in a multi-select list) select the cursor
/// row alone.
pub proof fn lemma_space_selects_cursor_row(m: ListModel, key: KeyInput)
    requires
        m.valid(),
        !m.disabled,
        m.items.len() > 0,
        key.key == keys::SPACE || key.key == keys::ENTER,
        !(key.key == keys::SPACE && has_ctrl(key.modifiers) && m.mode == SelectionMode::Multi),
    ensures
        m.on_key(key).0.selected == Set::<int>::empty().insert(m.cursor.unwrap()),
        m.on_key(key).0.cursor == m.cursor,
{
}

/// A click on row `i` of an enabled list selects that row alone and puts
/// cursor and anchor on it; a click on no row changes nothing.
pub proof fn lemma_click_selects_row(m: ListModel, i: int)
    requires
        m.valid(),
        !m.disabled,
        0 <= i < m.items.len(),
    ensures
        m.on_click(Some(i)).0.selected == Set::<int>::empty().insert(i),
        m.on_click(Some(i)).0.cursor == Some(i),
        m.on_click(Some(i)).0.anchor == Some(i),
        m.on_click(None) == (m, OutcomeView::Ignored),
{
}

} // verus!
