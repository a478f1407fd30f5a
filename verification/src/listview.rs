//! `<lq-listview>` — one item set shown in one of four layout modes (icons,
//! list, details, tiles); the mode is a class on the root that CSS keys off.
//!
//! Clicks select the item the host's hit test resolved (the same per-item hit
//! works in every mode); arrows move and select (Left/Up back, Right/Down
//! forward, clamped), Home/End jump, Space/Enter select the cursor item.
//! Selecting a different item emits `changed` with its value; switching the
//! mode emits `mode` with the mode name.

use vstd::prelude::*;

use crate::behavior::{opt_int, KeyInput, OutcomeView, WidgetKind, WidgetOutcome};
use crate::keys;
use crate::list::opt_below;
use crate::node::{bool_str, bool_text, Node, Pseudo, PseudoFlag, FOCUSABLE_ATTR};
use crate::text::{dec, prefixed};

verus! {

/// Emitted when the selection changes (payload: the selected item value).
pub const CHANGED_ACTION: &'static str = "changed";

/// Emitted when the view mode changes (payload: the mode name).
pub const MODE_ACTION: &'static str = "mode";

/// The four list-view layout modes.
#[derive(Clone, Copy, Debug, PartialEq, Eq, Structural)]
pub enum ViewMode {
    /// Wrapping grid of large icon tiles.
    Icons,
    /// Compact single-column list.
    List,
    /// Columnar (table-like) details view.
    Details,
    /// Wrapping grid of wide tiles (icon + label + subline).
    Tiles,
}

/// The CSS class / name of a mode.
pub open spec fn mode_name(m: ViewMode) -> Seq<char> {
    match m {
        ViewMode::Icons => "icons"@,
        ViewMode::List => "list"@,
        ViewMode::Details => "details"@,
        ViewMode::Tiles => "tiles"@,
    }
}

impl ViewMode {
    /// The CSS class / name for this mode.
    pub fn as_str(self) -> (r: &'static str)
        ensures
            r@ == mode_name(self),
    {
        match self {
            ViewMode::Icons => "icons",
            ViewMode::List => "list",
            ViewMode::Details => "details",
            ViewMode::Tiles => "tiles",
        }
    }
}

/// One list-view item: a value, an icon glyph, a label, a subline (tiles
/// mode) and extra columns (details mode).
pub struct ViewItem {
    value: String,
    icon: String,
    label: String,
    subline: String,
    columns: Vec<String>,
}

/// The abstract form of a [`ViewItem`].
pub struct ViewItemModel {
    pub value: Seq<char>,
    pub icon: Seq<char>,
    pub label: Seq<char>,
    pub subline: Seq<char>,
    pub columns: Seq<Seq<char>>,
}

impl View for ViewItem {
    type V = ViewItemModel;

    closed spec fn view(&self) -> ViewItemModel {
        ViewItemModel {
            value: self.value@,
            icon: self.icon@,
            label: self.label@,
            subline: self.subline@,
            columns: self.columns@.map_values(|c: String| c@),
        }
    }
}

impl ViewItem {
    /// An item with a value, icon glyph and label (no subline, no columns).
    pub fn new(value: &str, icon: &str, label: &str) -> (r: ViewItem)
        ensures
            r@ == (ViewItemModel {
                value: value@,
                icon: icon@,
                label: label@,
                subline: Seq::empty(),
                columns: Seq::empty(),
            }),
    {
        let r = ViewItem {
            value: value.to_string(),
            icon: icon.to_string(),
            label: label.to_string(),
            subline: String::new(),
            columns: Vec::new(),
        };
        assert(r@.columns =~= Seq::<Seq<char>>::empty());
        r
    }

    /// Sets the subline (tiles mode).
    pub fn subline(self, s: &str) -> (r: ViewItem)
        ensures
            r@ == (ViewItemModel { subline: s@, ..self@ }),
    {
        ViewItem { subline: s.to_string(), ..self }
    }

    /// Sets the extra detail columns (details mode).
    pub fn columns(self, cols: Vec<String>) -> (r: ViewItem)
        ensures
            r@ == (ViewItemModel { columns: cols@.map_values(|c: String| c@), ..self@ }),
    {
        ViewItem { columns: cols, ..self }
    }

    /// The item value.
    pub fn value(&self) -> (r: &str)
        ensures
            r@ == self@.value,
    {
        self.value.as_str()
    }
}

/// A multi-mode item view.
pub struct ListView {
    items: Vec<ViewItem>,
    mode: ViewMode,
    selected: Option<usize>,
    cursor: Option<usize>,
    hovered: Option<usize>,
    detail_headers: Vec<String>,
    disabled: bool,
}

/// The abstract state of a [`ListView`].
pub struct ListViewModel {
    pub items: Seq<ViewItemModel>,
    pub mode: ViewMode,
    pub selected: Option<int>,
    pub cursor: Option<int>,
    pub hovered: Option<int>,
    pub detail_headers: Seq<Seq<char>>,
    pub disabled: bool,
}

impl ListViewModel {
    /// Selection, cursor and hover index existing items; the cursor exists
    /// exactly when there are items.
    pub open spec fn valid(self) -> bool {
        let n = self.items.len() as int;
        &&& opt_below(self.selected, n)
        &&& opt_below(self.cursor, n)
        &&& opt_below(self.hovered, n)
        &&& (self.cursor is None <==> n == 0)
    }

    /// Selecting item `idx`: it becomes selection and cursor; `changed`
    /// (its value) when the selection moved, a re-render otherwise.
    pub open spec fn select_idx(self, idx: int) -> (ListViewModel, OutcomeView) {
        if idx < 0 || idx >= self.items.len() {
            (self, OutcomeView::Ignored)
        } else {
            let m = ListViewModel { selected: Some(idx), cursor: Some(idx), ..self };
            if self.selected == Some(idx) {
                (m, OutcomeView::Changed)
            } else {
                (m, OutcomeView::Action(CHANGED_ACTION@, Some(self.items[idx].value)))
            }
        }
    }

    /// The keyboard transition.
    pub open spec fn on_key(self, key: KeyInput) -> (ListViewModel, OutcomeView) {
        let n = self.items.len() as int;
        let cur = match self.cursor {
            Some(c) => c,
            None => 0,
        };
        let k = key.key;
        if self.disabled || n == 0 {
            (self, OutcomeView::Ignored)
        } else if k == keys::ARROW_RIGHT || k == keys::ARROW_DOWN {
            self.select_idx(if cur + 1 < n - 1 { cur + 1 } else { n - 1 })
        } else if k == keys::ARROW_LEFT || k == keys::ARROW_UP {
            self.select_idx(if cur > 0 { cur - 1 } else { 0 })
        } else if k == keys::HOME {
            self.select_idx(0)
        } else if k == keys::END {
            self.select_idx(n - 1)
        } else if k == keys::SPACE || k == keys::ENTER {
            self.select_idx(cur)
        } else {
            (self, OutcomeView::Ignored)
        }
    }

    /// Pointer move over item `hit`.
    pub open spec fn on_move(self, hit: Option<int>) -> (ListViewModel, OutcomeView) {
        if self.disabled || hit == self.hovered {
            (self, OutcomeView::Ignored)
        } else {
            (ListViewModel { hovered: hit, ..self }, OutcomeView::Changed)
        }
    }

    /// Pointer leaving the view.
    pub open spec fn on_leave(self) -> (ListViewModel, OutcomeView) {
        if self.disabled || self.hovered is None {
            (self, OutcomeView::Ignored)
        } else {
            (ListViewModel { hovered: None, ..self }, OutcomeView::Changed)
        }
    }

    /// Left click on item `hit`.
    pub open spec fn on_click(self, hit: Option<int>) -> (ListViewModel, OutcomeView) {
        if self.disabled {
            (self, OutcomeView::Ignored)
        } else {
            match hit {
                Some(i) => self.select_idx(i),
                None => (self, OutcomeView::Ignored),
            }
        }
    }

    /// Whether the header row is shown (details mode with headers).
    pub open spec fn has_head(self) -> bool {
        self.mode == ViewMode::Details && self.detail_headers.len() > 0
    }

    /// Whether item `i` shows its subline (tiles mode, non-empty subline).
    pub open spec fn shows_sub(self, i: int) -> bool {
        self.mode == ViewMode::Tiles && self.items[i].subline.len() > 0
    }

    /// The number of detail cells item `i` shows (its columns, in details
    /// mode only).
    pub open spec fn shown_cols(self, i: int) -> int {
        if self.mode == ViewMode::Details { self.items[i].columns.len() as int } else { 0 }
    }

    /// Whether `c` is a header cell keyed `key` showing `text`.
    pub open spec fn header_cell(c: Node, key: Seq<char>, text: Seq<char>) -> bool {
        &&& c.tag@ == "lq-listview-th"@
        &&& c.key matches Some(k) && k@ == key
        &&& c.children@.len() == 1
        &&& c.first_text() == text
    }

    /// Whether `c` renders item `i`: icon, label, (subline), (columns).
    pub open spec fn item_rendered(self, i: int, c: Node) -> bool {
        let it = self.items[i];
        let sel = self.selected == Some(i);
        let base = if self.shows_sub(i) { 3int } else { 2int };
        &&& c.tag@ == "lq-listview-item"@
        &&& c.key matches Some(k) && k@ == it.value
        &&& c.attr_views() == seq![
            ("data-part"@, "item-"@ + dec(i as nat)),
            ("data-index"@, dec(i as nat)),
            ("data-value"@, it.value),
            ("role"@, "option"@),
            ("aria-selected"@, bool_str(sel)),
        ]
        &&& c.class_views() == (if sel { seq!["selected"@] } else { Seq::empty() })
        &&& c.pseudo == (Pseudo {
            hover: self.hovered == Some(i) && !self.disabled,
            active: false,
            focus: self.cursor == Some(i) && !self.disabled,
            checked: sel,
            disabled: false,
        })
        &&& c.children@.len() == base + self.shown_cols(i)
        &&& c.children@[0].tag@ == "lq-listview-icon"@
        &&& c.children@[0].first_text() == it.icon
        &&& c.children@[1].tag@ == "lq-listview-label"@
        &&& c.children@[1].first_text() == it.label
        &&& (self.shows_sub(i) ==> c.children@[2].tag@ == "lq-listview-sub"@ && c.children@[2].first_text()
            == it.subline)
        &&& forall|k: int|
            0 <= k < self.shown_cols(i) ==> (#[trigger] c.children@[base + k]).tag@ == "lq-listview-col"@
                && c.children@[base + k].has_attr("data-col"@, dec(k as nat)) && c.children@[base
                + k].first_text() == it.columns[k] && c.children@[base + k].has_key("c-"@
                + dec(k as nat))
    }
}

impl View for ListView {
    type V = ListViewModel;

    closed spec fn view(&self) -> ListViewModel {
        ListViewModel {
            items: self.items@.map_values(|it: ViewItem| it@),
            mode: self.mode,
            selected: opt_int(self.selected),
            cursor: opt_int(self.cursor),
            hovered: opt_int(self.hovered),
            detail_headers: self.detail_headers@.map_values(|h: String| h@),
            disabled: self.disabled,
        }
    }
}

impl ListView {
    /// The representation invariant.
    pub open spec fn wf(&self) -> bool {
        self@.valid()
    }

    /// A list view in `mode` over `items`: nothing selected, cursor on the
    /// first item.
    pub fn new(mode: ViewMode, items: Vec<ViewItem>) -> (r: ListView)
        ensures
            r.wf(),
            r@.items == items@.map_values(|it: ViewItem| it@),
            r@.mode == mode,
            r@.selected is None,
            r@.cursor == (if items@.len() == 0 { None } else { Some(0int) }),
            r@.hovered is None,
            r@.detail_headers == Seq::<Seq<char>>::empty(),
            !r@.disabled,
    {
        let cursor = if items.len() == 0 { None } else { Some(0) };
        let r = ListView {
            items,
            mode,
            selected: None,
            cursor,
            hovered: None,
            detail_headers: Vec::new(),
            disabled: false,
        };
        assert(r@.detail_headers =~= Seq::<Seq<char>>::empty());
        r
    }

    /// Sets the details-mode column headers (after the leading label column).
    pub fn detail_headers(self, headers: Vec<String>) -> (r: ListView)
        requires
            self.wf(),
        ensures
            r.wf(),
            r@ == (ListViewModel { detail_headers: headers@.map_values(|h: String| h@), ..self@ }),
    {
        ListView { detail_headers: headers, ..self }
    }

    /// Pre-selects item `idx` (selection and cursor); past the end, nothing.
    pub fn select(self, idx: usize) -> (r: ListView)
        requires
            self.wf(),
        ensures
            r.wf(),
            r@ == (if idx < self@.items.len() {
                ListViewModel { selected: Some(idx as int), cursor: Some(idx as int), ..self@ }
            } else {
                self@
            }),
    {
        if idx < self.items.len() {
            ListView { selected: Some(idx), cursor: Some(idx), ..self }
        } else {
            self
        }
    }

    /// Marks the view disabled (or enabled).
    pub fn disabled(self, d: bool) -> (r: ListView)
        requires
            self.wf(),
        ensures
            r.wf(),
            r@ == (ListViewModel { disabled: d, ..self@ }),
    {
        ListView { disabled: d, ..self }
    }

    /// The current view mode.
    pub fn mode(&self) -> (r: ViewMode)
        ensures
            r == self@.mode,
    {
        self.mode
    }

    /// Switches the view mode: `mode` (with the mode name) when it changes,
    /// ignored when it is already the mode.
    pub fn set_mode(&mut self, mode: ViewMode) -> (out: WidgetOutcome)
        requires
            old(self).wf(),
        ensures
            final(self).wf(),
            final(self)@ == (ListViewModel { mode, ..old(self)@ }),
            out@ == (if old(self)@.mode == mode {
                OutcomeView::Ignored
            } else {
                OutcomeView::Action(MODE_ACTION@, Some(mode_name(mode)))
            }),
    {
        if self.mode == mode {
            return WidgetOutcome::Ignored;
        }
        self.mode = mode;
        WidgetOutcome::action_with(MODE_ACTION, mode.as_str().to_string())
    }

    /// Number of items.
    pub fn len(&self) -> (r: usize)
        ensures
            r == self@.items.len(),
    {
        self.items.len()
    }

    /// Whether there are no items.
    pub fn is_empty(&self) -> (r: bool)
        ensures
            r == (self@.items.len() == 0),
    {
        self.items.len() == 0
    }

    /// The selected index, if any.
    pub fn selected(&self) -> (r: Option<usize>)
        ensures
            opt_int(r) == self@.selected,
    {
        self.selected
    }

    /// The selected value, if any.
    pub fn selected_value(&self) -> (r: Option<&str>)
        requires
            self.wf(),
        ensures
            r matches Some(v) ==> self@.selected matches Some(i) && v@ == self@.items[i].value,
            r is None ==> self@.selected is None,
    {
        match self.selected {
            Some(i) => Some(self.items[i].value.as_str()),
            None => None,
        }
    }

    /// The keyboard cursor.
    pub fn cursor(&self) -> (r: Option<usize>)
        ensures
            opt_int(r) == self@.cursor,
    {
        self.cursor
    }

    /// The widget family.
    pub fn kind(&self) -> (r: WidgetKind)
        ensures
            r == WidgetKind::Collection,
    {
        WidgetKind::Collection
    }

    /// Whether the view takes focus (unless disabled).
    pub fn focusable(&self) -> (r: bool)
        ensures
            r == !self@.disabled,
    {
        !self.disabled
    }

    fn select_idx(&mut self, idx: usize) -> (out: WidgetOutcome)
        requires
            old(self).wf(),
        ensures
            final(self).wf(),
            (final(self)@, out@) == old(self)@.select_idx(idx as int),
    {
        if idx >= self.items.len() {
            return WidgetOutcome::Ignored;
        }
        let changed = self.selected != Some(idx);
        self.selected = Some(idx);
        self.cursor = Some(idx);
        if changed {
            WidgetOutcome::action_with(CHANGED_ACTION, self.items[idx].value.clone())
        } else {
            WidgetOutcome::Changed
        }
    }

    /// Handles a key press.
    pub fn on_keyboard(&mut self, key: KeyInput) -> (out: WidgetOutcome)
        requires
            old(self).wf(),
        ensures
            final(self).wf(),
            (final(self)@, out@) == old(self)@.on_key(key),
    {
        if self.disabled || self.items.len() == 0 {
            return WidgetOutcome::Ignored;
        }
        let n = self.items.len();
        let cur = match self.cursor {
            Some(c) => c,
            None => 0,
        };
        let k = key.key;
        if k == keys::ARROW_RIGHT || k == keys::ARROW_DOWN {
            self.select_idx(if cur + 1 < n - 1 { cur + 1 } else { n - 1 })
        } else if k == keys::ARROW_LEFT || k == keys::ARROW_UP {
            self.select_idx(if cur > 0 { cur - 1 } else { 0 })
        } else if k == keys::HOME {
            self.select_idx(0)
        } else if k == keys::END {
            self.select_idx(n - 1)
        } else if k == keys::SPACE || k == keys::ENTER {
            self.select_idx(cur)
        } else {
            WidgetOutcome::Ignored
        }
    }

    /// Handles the pointer moving over item `hit` (or over no item).
    pub fn on_mouse_move(&mut self, hit: Option<usize>) -> (out: WidgetOutcome)
        requires
            old(self).wf(),
            hit matches Some(i) ==> i < old(self)@.items.len(),
        ensures
            final(self).wf(),
            (final(self)@, out@) == old(self)@.on_move(opt_int(hit)),
    {
        if self.disabled || hit == self.hovered {
            return WidgetOutcome::Ignored;
        }
        self.hovered = hit;
        WidgetOutcome::Changed
    }

    /// Handles the pointer leaving the view.
    pub fn on_mouse_leave(&mut self) -> (out: WidgetOutcome)
        requires
            old(self).wf(),
        ensures
            final(self).wf(),
            (final(self)@, out@) == old(self)@.on_leave(),
    {
        if self.disabled || self.hovered.is_none() {
            return WidgetOutcome::Ignored;
        }
        self.hovered = None;
        WidgetOutcome::Changed
    }

    /// Handles a left click on item `hit` (or on no item).
    pub fn on_click(&mut self, hit: Option<usize>) -> (out: WidgetOutcome)
        requires
            old(self).wf(),
            hit matches Some(i) ==> i < old(self)@.items.len(),
        ensures
            final(self).wf(),
            (final(self)@, out@) == old(self)@.on_click(opt_int(hit)),
    {
        if self.disabled {
            return WidgetOutcome::Ignored;
        }
        match hit {
            Some(i) => self.select_idx(i),
            None => WidgetOutcome::Ignored,
        }
    }

    fn render_item(&self, i: usize) -> (r: Node)
        requires
            self.wf(),
            i < self@.items.len(),
        ensures
            self@.item_rendered(i as int, r),
    {
        let item = &self.items[i];
        let sel = self.selected == Some(i);
        let is_cursor = self.cursor == Some(i) && !self.disabled;
        let hovered = self.hovered == Some(i) && !self.disabled;
        let value = item.value.as_str();
        let idx = crate::text::decimal(i);
        let part = prefixed("item-", i);
        let mut node = Node::el("lq-listview-item")
            .key(value)
            .attr("data-part", part.as_str())
            .attr("data-index", idx.as_str())
            .attr("data-value", value)
            .attr("role", "option")
            .attr("aria-selected", bool_text(sel))
            .class_if("selected", sel)
            .pseudo_if(PseudoFlag::Checked, sel)
            .pseudo_if(PseudoFlag::Focus, is_cursor)
            .pseudo_if(PseudoFlag::Hover, hovered);
        assert(node.attr_views() =~= seq![
            ("data-part"@, "item-"@ + dec(i as nat)),
            ("data-index"@, dec(i as nat)),
            ("data-value"@, self@.items[i as int].value),
            ("role"@, "option"@),
            ("aria-selected"@, bool_str(sel)),
        ]);
        assert(node.class_views() =~= (if sel { seq!["selected"@] } else { Seq::<Seq<char>>::empty() }));
        let icon = Node::el("lq-listview-icon")
            .attr("data-part-kind", "icon")
            .child(Node::text(item.icon.as_str()));
        node = node.child(icon);
        let label = Node::el("lq-listview-label")
            .attr("data-part-kind", "label")
            .child(Node::text(item.label.as_str()));
        node = node.child(label);
        if self.mode == ViewMode::Tiles && item.subline.as_str().unicode_len() > 0 {
            let sub = Node::el("lq-listview-sub")
                .attr("data-part-kind", "sub")
                .child(Node::text(item.subline.as_str()));
            node = node.child(sub);
        }
        let ghost base = node.children@.len() as int;
        let ghost head = node;
        if self.mode == ViewMode::Details {
            let mut c: usize = 0;
            while c < item.columns.len()
                invariant
                    self.wf(),
                    i < self@.items.len(),
                    *item == self.items@[i as int],
                    c <= item.columns@.len(),
                    base >= 0,
                    node.children@.len() == base + c,
                    forall|k: int| 0 <= k < base ==> node.children@[k] == head.children@[k],
                    node.tag == head.tag,
                    node.key == head.key,
                    node.attrs == head.attrs,
                    node.classes == head.classes,
                    node.pseudo == head.pseudo,
                    forall|k: int|
                        0 <= k < c ==> (#[trigger] node.children@[base + k]).tag@ == "lq-listview-col"@
                            && node.children@[base + k].has_attr("data-col"@, dec(k as nat))
                            && node.children@[base + k].first_text() == self@.items[i as int].columns[k]
                            && node.children@[base + k].has_key("c-"@ + dec(k as nat)),
                decreases item.columns@.len() - c,
            {
                let cd = crate::text::decimal(c);
                let key = prefixed("c-", c);
                let col = Node::el("lq-listview-col")
                    .key(key.as_str())
                    .attr("data-col", cd.as_str())
                    .child(Node::text(item.columns[c].as_str()));
                assert(col.attr_views()[0] == ("data-col"@, dec(c as nat)));
                assert(self@.items[i as int] == self.items@[i as int]@);
                assert(self@.items[i as int].columns[c as int] == item.columns@[c as int]@);
                let ghost before = node.children@;
                assert(before.len() == base + c);
                node = node.child(col);
                assert(node.children@ == before.push(col));
                assert forall|k: int|
                    0 <= k < c + 1 implies (#[trigger] node.children@[base + k]).tag@ == "lq-listview-col"@
                        && node.children@[base + k].has_attr("data-col"@, dec(k as nat))
                        && node.children@[base + k].first_text() == self@.items[i as int].columns[k]
                        && node.children@[base + k].has_key("c-"@ + dec(k as nat)) by {
                    if k < c {
                        assert(0 <= base + k < before.len());
                        assert(before.push(col)[base + k] == before[base + k]);
                        assert(node.children@[base + k] == before[base + k]);
                    }
                }
                c = c + 1;
            }
        }
        node
    }

    /// The render tree: an `lq-listview` (listbox role, `data-mode` and a
    /// `mode-<name>` class), a header row in details mode when headers are
    /// set, and a body with one rendered item per entry.
    pub fn render(&self) -> (r: Node)
        requires
            self.wf(),
        ensures
            r.tag@ == "lq-listview"@,
            r.attr_views() == seq![
                ("role"@, "listbox"@),
                ("data-mode"@, mode_name(self@.mode)),
                (FOCUSABLE_ATTR@, bool_str(!self@.disabled)),
            ] + (if self@.disabled { seq![("disabled"@, "true"@)] } else { Seq::empty() }),
            r.class_views() == seq!["mode-"@ + mode_name(self@.mode)],
            r.pseudo.disabled == self@.disabled,
            r.children@.len() == (if self@.has_head() { 2int } else { 1int }),
            self@.has_head() ==> ({
                let h = r.children@[0];
                &&& h.tag@ == "lq-listview-head"@
                &&& h.attr_views() == seq![("data-part"@, "head"@)]
                &&& h.children@.len() == self@.detail_headers.len() + 1
                &&& ListViewModel::header_cell(h.children@[0], "h-name"@, "Name"@)
                &&& forall|c: int|
                    0 <= c < self@.detail_headers.len() ==> ListViewModel::header_cell(
                        #[trigger] h.children@[c + 1],
                        "h-"@ + dec(c as nat),
                        self@.detail_headers[c],
                    )
            }),
            ({
                let b = r.children@[r.children@.len() - 1];
                &&& b.tag@ == "lq-listview-body"@
                &&& b.has_attr("data-part"@, "body"@)
                &&& b.children@.len() == self@.items.len()
                &&& forall|i: int|
                    0 <= i < self@.items.len() ==> self@.item_rendered(i, #[trigger] b.children@[i])
            }),
    {
        let mode = self.mode;
        let mname = mode.as_str();
        let mclass = "mode-".to_string().concat(mname);
        let mut view = Node::el("lq-listview")
            .attr("role", "listbox")
            .attr("data-mode", mname)
            .class(mclass.as_str())
            .attr(FOCUSABLE_ATTR, bool_text(!self.disabled))
            .pseudo_if(PseudoFlag::Disabled, self.disabled);
        let ghost attrs0 = view.attr_views();
        if mode == ViewMode::Details && self.detail_headers.len() > 0 {
            let mut head = Node::el("lq-listview-head").attr("data-part", "head");
            assert(head.attr_views() =~= seq![("data-part"@, "head"@)]);
            head = head.child(Node::el("lq-listview-th").key("h-name").child(Node::text("Name")));
            let mut c: usize = 0;
            while c < self.detail_headers.len()
                invariant
                    self.wf(),
                    c <= self.detail_headers@.len(),
                    head.tag@ == "lq-listview-head"@,
                    head.attr_views() == seq![("data-part"@, "head"@)],
                    head.children@.len() == c + 1,
                    ListViewModel::header_cell(head.children@[0], "h-name"@, "Name"@),
                    forall|k: int|
                        0 <= k < c ==> ListViewModel::header_cell(
                            #[trigger] head.children@[k + 1],
                            "h-"@ + dec(k as nat),
                            self@.detail_headers[k],
                        ),
                decreases self.detail_headers@.len() - c,
            {
                let key = prefixed("h-", c);
                let th = Node::el("lq-listview-th").key(key.as_str()).child(
                    Node::text(self.detail_headers[c].as_str()),
                );
                let ghost before = head.children@;
                head = head.child(th);
                assert forall|k: int|
                    0 <= k < c + 1 implies ListViewModel::header_cell(
                        #[trigger] head.children@[k + 1],
                        "h-"@ + dec(k as nat),
                        self@.detail_headers[k],
                    ) by {
                    if k < c {
                        assert(head.children@[k + 1] == before[k + 1]);
                    }
                }
                c = c + 1;
            }
            view = view.child(head);
        }
        let mut body = Node::el("lq-listview-body").attr("data-part", "body");
        assert(body.attr_views()[0] == ("data-part"@, "body"@));
        let mut i: usize = 0;
        while i < self.items.len()
            invariant
                self.wf(),
                i <= self.items@.len(),
                body.tag@ == "lq-listview-body"@,
                body.has_attr("data-part"@, "body"@),
                body.children@.len() == i,
                forall|k: int| 0 <= k < i ==> self@.item_rendered(k, #[trigger] body.children@[k]),
            decreases self.items@.len() - i,
        {
            let node = self.render_item(i);
            body = body.child(node);
            i = i + 1;
        }
        view = view.child(body);
        if self.disabled {
            view = view.attr("disabled", "true");
        }
        assert(view.attr_views() =~= seq![
                ("role"@, "listbox"@),
                ("data-mode"@, mode_name(self@.mode)),
                (FOCUSABLE_ATTR@, bool_str(!self@.disabled)),
            ] + (if self@.disabled { seq![("disabled"@, "true"@)] } else { Seq::empty() }));
        assert(view.class_views() =~= seq!["mode-"@ + mode_name(self@.mode)]);
        view
    }
}

/// The view mode only changes the layout: keys and clicks select exactly the
/// same items, with the same outcome, in every mode.
pub proof fn lemma_mode_independent(m: ListViewModel, mode: ViewMode, key: KeyInput, hit: Option<int>)
    ensures
        (ListViewModel { mode, ..m }).on_key(key) == (ListViewModel { mode, ..m.on_key(key).0 }, m.on_key(key).1),
        (ListViewModel { mode, ..m }).on_click(hit) == (ListViewModel { mode, ..m.on_click(hit).0 }, m.on_click(hit).1),
{
}

/// After a key or click that was not ignored, the selected item is the
/// cursor item.
pub proof fn lemma_selection_follows_cursor(m: ListViewModel, key: KeyInput, hit: Option<int>)
    ensures
        !(m.on_key(key).1 is Ignored) ==> m.on_key(key).0.selected == m.on_key(key).0.cursor,
        !(m.on_click(hit).1 is Ignored) ==> m.on_click(hit).0.selected == m.on_click(hit).0.cursor,
{
}

/// On an enabled view with items, Right/Down select the item after the
/// cursor and Left/Up the one before it (staying at the last or first
/// item), Home the first, End the last, and Space/Enter the cursor item; the
/// cursor follows, and a new selection reports the item's value.
pub proof fn lemma_keys_select_item(m: ListViewModel, key: KeyInput)
    requires
        m.valid(),
        !m.disabled,
        m.items.len() > 0,
        key.key == keys::ARROW_RIGHT || key.key == keys::ARROW_DOWN || key.key == keys::ARROW_LEFT || key.key
            == keys::ARROW_UP || key.key == keys::HOME || key.key == keys::END || key.key == keys::SPACE || key.key
            == keys::ENTER,
    ensures
        ({
            let c = m.cursor.unwrap();
            let last = m.items.len() - 1;
            let t = if key.key == keys::ARROW_RIGHT || key.key == keys::ARROW_DOWN {
                if c == last { c } else { c + 1 }
            } else if key.key == keys::ARROW_LEFT || key.key == keys::ARROW_UP {
                if c == 0 { 0 } else { c - 1 }
            } else if key.key == keys::HOME {
                0
            } else if key.key == keys::END {
                last
            } else {
                c
            };
            let (n, out) = m.on_key(key);
            &&& n.selected == Some(t) && n.cursor == Some(t)
            &&& n.items == m.items
            &&& out == (if m.selected == Some(t) {
                OutcomeView::Changed
            } else {
                OutcomeView::Action(CHANGED_ACTION@, Some(m.items[t].value))
            })
        }),
{
}

} // verus!
