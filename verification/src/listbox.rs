//! `<lq-listbox>` + `<lq-listitem>` — the classic single/multi-select listbox
//! form control with explicit, individually disable-able items.
//!
//! Clicks select the (enabled) item the host's hit test resolved;
//! Up/Down move across enabled items only, Home/End jump to the first/last
//! enabled item; Space/Enter select (Ctrl+Space toggles in multi mode);
//! Shift+movement selects a contiguous range of enabled items (multi mode);
//! a plain printable key moves the cursor to the next enabled item whose label
//! starts with that character, case-insensitively, wrapping (and selects it in
//! single mode). Selection changes emit `changed` with the comma-joined
//! selected values.

use std::collections::BTreeSet;

use vstd::prelude::*;

use crate::index_set::{int_set, set_add, set_drop, set_has};
use crate::behavior::{lemma_wrap, opt_int, KeyInput, OutcomeView, WidgetKind, WidgetOutcome};
use crate::keys;
use crate::keys::modifiers::{has_command, has_ctrl, has_shift};
use crate::list::{at_most_one, opt_below};
use crate::node::{bool_str, bool_text, Node, Pseudo, PseudoFlag, FOCUSABLE_ATTR};
use crate::text::{ascii_lower, char_is_whitespace, dec, join, join_strings, prefixed};

verus! {

/// Emitted when the selection changes (payload: comma-joined selected values).
pub const CHANGED_ACTION: &'static str = "changed";

/// Whether the listbox permits more than one selected item.
#[derive(Clone, Copy, Debug, PartialEq, Eq, Structural)]
pub enum SelectionMode {
    /// At most one item selected.
    Single,
    /// Any number of items (Ctrl toggle, Shift range).
    Multi,
}

/// One explicit listbox item.
pub struct ListItem {
    value: String,
    label: String,
    disabled: bool,
}

impl ListItem {
    /// The item as (value, label, disabled).
    pub closed spec fn model(&self) -> (Seq<char>, Seq<char>, bool) {
        (self.value@, self.label@, self.disabled)
    }

    /// An enabled item with a value and a display label.
    pub fn new(value: &str, label: &str) -> (r: ListItem)
        ensures
            r.model() == (value@, label@, false),
    {
        ListItem { value: value.to_string(), label: label.to_string(), disabled: false }
    }

    /// The same item, disabled (or enabled) as `d` says.
    pub fn disabled(self, d: bool) -> (r: ListItem)
        ensures
            r.model() == (self.model().0, self.model().1, d),
    {
        ListItem { disabled: d, ..self }
    }

    /// The item value.
    pub fn value(&self) -> (r: &str)
        ensures
            r@ == self.model().0,
    {
        self.value.as_str()
    }

    /// The item label.
    pub fn label(&self) -> (r: &str)
        ensures
            r@ == self.model().1,
    {
        self.label.as_str()
    }

    /// Whether the item is disabled.
    pub fn is_disabled(&self) -> (r: bool)
        ensures
            r == self.model().2,
    {
        self.disabled
    }
}

/// A single/multi-select listbox form control with explicit item children.
pub struct ListBox {
    items: Vec<ListItem>,
    mode: SelectionMode,
    selected: BTreeSet<usize>,
    cursor: Option<usize>,
    anchor: Option<usize>,
    hovered: Option<usize>,
    disabled: bool,
}

/// The abstract state of a [`ListBox`]; items are (value, label, disabled).
pub struct ListBoxModel {
    pub items: Seq<(Seq<char>, Seq<char>, bool)>,
    pub mode: SelectionMode,
    pub selected: Set<int>,
    pub cursor: Option<int>,
    pub anchor: Option<int>,
    pub hovered: Option<int>,
    pub disabled: bool,
}

/// Whether item `i` of `items` exists and is enabled.
pub open spec fn enabled_in(items: Seq<(Seq<char>, Seq<char>, bool)>, i: int) -> bool {
    0 <= i < items.len() && !items[i].2
}

/// The first enabled index of `items` at or after `from` (no wrapping).
pub open spec fn next_enabled_in(items: Seq<(Seq<char>, Seq<char>, bool)>, from: int) -> Option<int>
    decreases items.len() - from,
{
    if from < 0 || from >= items.len() {
        None
    } else if enabled_in(items, from) {
        Some(from)
    } else {
        next_enabled_in(items, from + 1)
    }
}

/// The last enabled index of `items` at or before `from` (no wrapping).
pub open spec fn prev_enabled_in(items: Seq<(Seq<char>, Seq<char>, bool)>, from: int) -> Option<int>
    decreases from + 1,
{
    if from < 0 || from >= items.len() {
        None
    } else if enabled_in(items, from) {
        Some(from)
    } else {
        prev_enabled_in(items, from - 1)
    }
}

/// Whether `j` lies in `lo..=hi` and item `j` of `m` is enabled.
pub open spec fn in_range_enabled(m: ListBoxModel, lo: int, hi: int, j: int) -> bool {
    lo <= j <= hi && m.enabled(j)
}

impl ListBoxModel {
    /// Indices of selection, cursor, anchor and hover are in range.
    pub open spec fn valid(self) -> bool {
        let n = self.items.len() as int;
        &&& forall|i: int| self.selected.contains(i) ==> 0 <= i < n
        &&& opt_below(self.cursor, n)
        &&& opt_below(self.anchor, n)
        &&& opt_below(self.hovered, n)
    }

    /// Whether item `i` exists and is enabled.
    pub open spec fn enabled(self, i: int) -> bool {
        enabled_in(self.items, i)
    }

    /// The first enabled index at or after `from` (no wrapping).
    pub open spec fn next_enabled(self, from: int) -> Option<int> {
        next_enabled_in(self.items, from)
    }

    /// The last enabled index at or before `from` (no wrapping).
    pub open spec fn prev_enabled(self, from: int) -> Option<int> {
        prev_enabled_in(self.items, from)
    }

    /// The selected values in ascending index order, over items `0..k`.
    pub open spec fn values_upto(self, k: int) -> Seq<Seq<char>>
        decreases k,
    {
        if k <= 0 {
            Seq::empty()
        } else if self.selected.contains(k - 1) {
            self.values_upto(k - 1).push(self.items[k - 1].0)
        } else {
            self.values_upto(k - 1)
        }
    }

    /// The selected values in ascending index order.
    pub open spec fn selected_values(self) -> Seq<Seq<char>> {
        self.values_upto(self.items.len() as int)
    }

    /// The `changed` payload.
    pub open spec fn payload(self) -> Seq<char> {
        join(self.selected_values(), ","@)
    }

    /// Single selection of `idx`: ignored for a disabled item; otherwise `idx`
    /// becomes sole selection, cursor and anchor, and `changed` is emitted
    /// unless it already was the sole selection.
    pub open spec fn select_single(self, idx: int) -> (ListBoxModel, OutcomeView) {
        if !self.enabled(idx) {
            (self, OutcomeView::Ignored)
        } else {
            let m = ListBoxModel {
                selected: Set::empty().insert(idx),
                cursor: Some(idx),
                anchor: Some(idx),
                ..self
            };
            if self.selected == Set::empty().insert(idx) {
                (m, OutcomeView::Changed)
            } else {
                (m, OutcomeView::Action(CHANGED_ACTION@, Some(m.payload())))
            }
        }
    }

    /// Toggling `idx` in/out of the selection (ignored for a disabled item).
    pub open spec fn toggle_one(self, idx: int) -> (ListBoxModel, OutcomeView) {
        if !self.enabled(idx) {
            (self, OutcomeView::Ignored)
        } else {
            let m = ListBoxModel {
                selected: if self.selected.contains(idx) {
                    self.selected.remove(idx)
                } else {
                    self.selected.insert(idx)
                },
                cursor: Some(idx),
                anchor: Some(idx),
                ..self
            };
            (m, OutcomeView::Action(CHANGED_ACTION@, Some(m.payload())))
        }
    }

    /// Range selection to `idx`: the enabled items between the anchor (or
    /// `idx`) and `idx`; ignored when `idx` is disabled.
    pub open spec fn select_range(self, idx: int) -> (ListBoxModel, OutcomeView) {
        if !self.enabled(idx) {
            (self, OutcomeView::Ignored)
        } else {
            let a = match self.anchor {
                Some(a) => a,
                None => idx,
            };
            let lo = if a <= idx { a } else { idx };
            let hi = if a <= idx { idx } else { a };
            let m = ListBoxModel {
                selected: Set::new(|i: int| lo <= i <= hi && self.enabled(i)),
                cursor: Some(idx),
                ..self
            };
            (m, OutcomeView::Action(CHANGED_ACTION@, Some(m.payload())))
        }
    }

    /// The cursor a key press starts from.
    pub open spec fn current(self) -> int {
        match self.cursor {
            Some(c) => c,
            None => match self.next_enabled(0) {
                Some(f) => f,
                None => 0,
            },
        }
    }

    /// The item a movement key targets (skipping disabled items).
    pub open spec fn move_target(self, key: u32) -> Option<int> {
        let cur = self.current();
        if key == keys::ARROW_DOWN {
            match self.next_enabled(cur + 1) {
                Some(i) => Some(i),
                None => Some(cur),
            }
        } else if key == keys::ARROW_UP {
            if cur == 0 {
                Some(cur)
            } else {
                match self.prev_enabled(cur - 1) {
                    Some(i) => Some(i),
                    None => Some(cur),
                }
            }
        } else if key == keys::HOME {
            self.next_enabled(0)
        } else if key == keys::END {
            self.prev_enabled(self.items.len() - 1)
        } else {
            None
        }
    }

    /// Whether item `i` is a type-ahead match for `c`: enabled, with a label
    /// whose first character equals `c` ignoring ASCII case.
    pub open spec fn matches_char(self, i: int, c: char) -> bool {
        &&& self.enabled(i)
        &&& self.items[i].1.len() > 0
        &&& ascii_lower(self.items[i].1[0]) == ascii_lower(c)
    }

    /// The first match for `c` among the `k` positions starting at `start`,
    /// wrapping around the item list.
    pub open spec fn scan(self, c: char, start: int, off: int) -> Option<int>
        decreases self.items.len() - off,
    {
        let n = self.items.len() as int;
        if off >= n || off < 0 {
            None
        } else if self.matches_char((start + off) % n, c) {
            Some((start + off) % n)
        } else {
            self.scan(c, start, off + 1)
        }
    }

    /// Type-ahead on `c`: the cursor moves to the next match after it
    /// (wrapping); single mode also selects it.
    pub open spec fn type_ahead(self, c: char) -> (ListBoxModel, OutcomeView) {
        let n = self.items.len() as int;
        let start = match self.cursor {
            Some(k) => (k + 1) % n,
            None => 0,
        };
        match self.scan(c, start, 0) {
            None => (self, OutcomeView::Ignored),
            Some(i) => {
                let m = ListBoxModel { cursor: Some(i), ..self };
                if self.mode == SelectionMode::Single {
                    m.select_single(i)
                } else {
                    (m, OutcomeView::Changed)
                }
            },
        }
    }

    /// The keyboard transition.
    pub open spec fn on_key(self, key: KeyInput) -> (ListBoxModel, OutcomeView) {
        let cur = self.current();
        let shift = has_shift(key.modifiers);
        let ctrl = has_ctrl(key.modifiers);
        if self.disabled || self.items.len() == 0 {
            (self, OutcomeView::Ignored)
        } else if let Some(idx) = self.move_target(key.key) {
            if shift && self.mode == SelectionMode::Multi {
                self.select_range(idx)
            } else if ctrl {
                (ListBoxModel { cursor: Some(idx), ..self }, OutcomeView::Changed)
            } else {
                self.select_single(idx)
            }
        } else if key.key == keys::SPACE && ctrl && self.mode == SelectionMode::Multi {
            self.toggle_one(cur)
        } else if key.key == keys::SPACE || key.key == keys::ENTER {
            self.select_single(cur)
        } else if has_command(key.modifiers) {
            (self, OutcomeView::Ignored)
        } else if keys::is_scalar(key.key) && !keys::is_control_code(key.key) && !char_is_whitespace(
            key.key as char,
        ) {
            self.type_ahead(key.key as char)
        } else {
            (self, OutcomeView::Ignored)
        }
    }

    /// Pointer move over item `hit`: only enabled items are hovered.
    pub open spec fn on_move(self, hit: Option<int>) -> (ListBoxModel, OutcomeView) {
        let h = match hit {
            Some(i) => if self.enabled(i) { Some(i) } else { None },
            None => None,
        };
        if self.disabled || h == self.hovered {
            (self, OutcomeView::Ignored)
        } else {
            (ListBoxModel { hovered: h, ..self }, OutcomeView::Changed)
        }
    }

    /// Pointer leaving the listbox.
    pub open spec fn on_leave(self) -> (ListBoxModel, OutcomeView) {
        if self.disabled || self.hovered is None {
            (self, OutcomeView::Ignored)
        } else {
            (ListBoxModel { hovered: None, ..self }, OutcomeView::Changed)
        }
    }

    /// Left click on item `hit`.
    pub open spec fn on_click(self, hit: Option<int>) -> (ListBoxModel, OutcomeView) {
        if self.disabled {
            (self, OutcomeView::Ignored)
        } else {
            match hit {
                Some(i) => self.select_single(i),
                None => (self, OutcomeView::Ignored),
            }
        }
    }

    /// Whether `c` renders item `i`.
    pub open spec fn item_rendered(self, i: int, c: Node) -> bool {
        let sel = self.selected.contains(i);
        let dis = self.items[i].2;
        &&& c.tag@ == "lq-listitem"@
        &&& c.key matches Some(k) && k@ == self.items[i].0
        &&& c.attr_views() == seq![
            ("data-part"@, "item-"@ + dec(i as nat)),
            ("data-index"@, dec(i as nat)),
            ("data-value"@, self.items[i].0),
            ("role"@, "option"@),
            ("aria-selected"@, bool_str(sel)),
            ("aria-disabled"@, bool_str(dis)),
        ]
        &&& c.class_views() == (if sel { seq!["selected"@] } else { Seq::empty() }) + (if dis {
            seq!["disabled"@]
        } else {
            Seq::empty()
        })
        &&& c.pseudo == (Pseudo {
            hover: self.hovered == Some(i) && !self.disabled && !dis,
            active: false,
            focus: self.cursor == Some(i) && !self.disabled && !dis,
            checked: sel,
            disabled: dis,
        })
        &&& c.children@.len() == 1
        &&& c.children@[0].tag@ == Seq::<char>::empty()
        &&& c.first_text() == self.items[i].1
    }
}

impl View for ListBox {
    type V = ListBoxModel;

    closed spec fn view(&self) -> ListBoxModel {
        ListBoxModel {
            items: self.items@.map_values(|it: ListItem| it.model()),
            mode: self.mode,
            selected: int_set(self.selected@),
            cursor: opt_int(self.cursor),
            anchor: opt_int(self.anchor),
            hovered: opt_int(self.hovered),
            disabled: self.disabled,
        }
    }
}

impl ListBox {
    /// The representation invariant.
    pub closed spec fn wf(&self) -> bool {
        self@.valid()
    }

    /// A well-formed widget's model is valid: clients can apply the model
    /// lemmas to it.
    pub proof fn lemma_wf_valid(&self)
        requires
            self.wf(),
        ensures
            self@.valid(),
    {
    }

    /// A single-select listbox over explicit items; nothing selected, the
    /// cursor on the first enabled item.
    pub fn new(items: Vec<ListItem>) -> (r: ListBox)
        ensures
            r.wf(),
            r@.items == items@.map_values(|it: ListItem| it.model()),
            r@.mode == SelectionMode::Single,
            r@.selected == Set::<int>::empty(),
            r@.cursor == r@.next_enabled(0),
            r@.anchor is None,
            r@.hovered is None,
            !r@.disabled,
    {
        let selected: BTreeSet<usize> = BTreeSet::new();
        let mut r = ListBox {
            items,
            mode: SelectionMode::Single,
            selected,
            cursor: None,
            anchor: None,
            hovered: None,
            disabled: false,
        };
        assert(r@.selected =~= Set::<int>::empty());
        let c = r.next_enabled_fwd(0);
        r.cursor = c;
        r
    }

    /// Builds from `(value, label)` pairs, all enabled.
    pub fn from_pairs(pairs: Vec<(String, String)>) -> (r: ListBox)
        ensures
            r.wf(),
            r@.items == pairs@.map_values(|p: (String, String)| (p.0@, p.1@, false)),
            r@.mode == SelectionMode::Single,
            r@.selected == Set::<int>::empty(),
            r@.cursor == r@.next_enabled(0),
            r@.anchor is None,
            r@.hovered is None,
            !r@.disabled,
    {
        let mut items: Vec<ListItem> = Vec::new();
        let mut i: usize = 0;
        while i < pairs.len()
            invariant
                i <= pairs@.len(),
                items@.map_values(|it: ListItem| it.model()) =~= pairs@.take(i as int).map_values(
                    |p: (String, String)| (p.0@, p.1@, false),
                ),
            decreases pairs@.len() - i,
        {
            let it = ListItem::new(pairs[i].0.as_str(), pairs[i].1.as_str());
            let ghost before = items@;
            items.push(it);
            assert(items@.map_values(|it: ListItem| it.model()) =~= before.map_values(|it: ListItem| it.model()).push(it.model()));
            assert(pairs@.take((i + 1) as int) =~= pairs@.take(i as int).push(pairs@[i as int]));
            i = i + 1;
        }
        assert(pairs@.take(pairs@.len() as int) =~= pairs@);
        ListBox::new(items)
    }

    /// Allows multi-select.
    pub fn multi(self) -> (r: ListBox)
        requires
            self.wf(),
        ensures
            r.wf(),
            r@ == (ListBoxModel { mode: SelectionMode::Multi, ..self@ }),
    {
        ListBox { mode: SelectionMode::Multi, ..self }
    }

    /// Pre-selects item `idx` when it exists and is enabled (sole selection,
    /// cursor and anchor); otherwise nothing changes.
    pub fn select(self, idx: usize) -> (r: ListBox)
        requires
            self.wf(),
        ensures
            r.wf(),
            r@ == (if self@.enabled(idx as int) {
                ListBoxModel {
                    selected: Set::empty().insert(idx as int),
                    cursor: Some(idx as int),
                    anchor: Some(idx as int),
                    ..self@
                }
            } else {
                self@
            }),
    {
        if idx < self.items.len() && !self.items[idx].disabled {
            let mut s = self;
            s.set_single(idx);
            s
        } else {
            self
        }
    }

    /// Marks the whole listbox disabled (or enabled).
    pub fn disabled(self, d: bool) -> (r: ListBox)
        requires
            self.wf(),
        ensures
            r.wf(),
            r@ == (ListBoxModel { disabled: d, ..self@ }),
    {
        ListBox { disabled: d, ..self }
    }

    /// Number of items.
    pub fn len(&self) -> (r: usize)
        requires
            self.wf(),
        ensures
            r == self@.items.len(),
    {
        self.items.len()
    }

    /// Whether there are no items.
    pub fn is_empty(&self) -> (r: bool)
        requires
            self.wf(),
        ensures
            r == (self@.items.len() == 0),
    {
        self.items.len() == 0
    }

    /// The selected indices, ascending.
    pub fn selected_indices(&self) -> (r: Vec<usize>)
        requires
            self.wf(),
        ensures
            forall|a: int, b: int| 0 <= a < b < r@.len() ==> r@[a] < r@[b],
            forall|i: int| self@.selected.contains(i) <==> exists|k: int| 0 <= k < r@.len() && r@[k] == i,
    {
        let mut r: Vec<usize> = Vec::new();
        let mut i: usize = 0;
        while i < self.items.len()
            invariant
                self.wf(),
                i <= self@.items.len(),
                forall|a: int, b: int| 0 <= a < b < r@.len() ==> r@[a] < r@[b],
                forall|k: int| 0 <= k < r@.len() ==> r@[k] < i,
                forall|j: int| 0 <= j < i ==> (self@.selected.contains(j) <==> exists|k: int| 0 <= k < r@.len() && r@[k] == j),
            decreases self@.items.len() - i,
        {
            let ghost old_r = r@;
            if self.has(i) {
                r.push(i);
                assert(r@[r@.len() - 1] == i);
            }
            assert forall|j: int| 0 <= j < i + 1 implies (self@.selected.contains(j) <==> exists|k: int| 0 <= k < r@.len() && r@[k] == j) by {
                if j < i {
                    if self@.selected.contains(j) {
                        let k = choose|k: int| 0 <= k < old_r.len() && old_r[k] == j;
                        assert(r@[k] == j);
                    }
                    if exists|k: int| 0 <= k < r@.len() && r@[k] == j {
                        let k = choose|k: int| 0 <= k < r@.len() && r@[k] == j;
                        if k < old_r.len() {
                            assert(old_r[k] == j);
                        }
                    }
                } else {
                    if self@.selected.contains(j) {
                        assert(r@[r@.len() - 1] == j);
                    }
                    if exists|k: int| 0 <= k < r@.len() && r@[k] == j {
                        let k = choose|k: int| 0 <= k < r@.len() && r@[k] == j;
                        if k < old_r.len() {
                            assert(old_r[k] < i);
                        }
                    }
                }
            }
            i = i + 1;
        }
        assert forall|j: int| self@.selected.contains(j) <==> exists|k: int| 0 <= k < r@.len() && r@[k] == j by {
            if exists|k: int| 0 <= k < r@.len() && r@[k] == j {
                let k = choose|k: int| 0 <= k < r@.len() && r@[k] == j;
                assert(0 <= j < self@.items.len());
            }
        }
        r
    }

    /// The selected values, ascending by index.
    pub fn selected_values(&self) -> (r: Vec<String>)
        requires
            self.wf(),
        ensures
            r@.map_values(|s: String| s@) == self@.selected_values(),
    {
        let mut r: Vec<String> = Vec::new();
        let mut i: usize = 0;
        while i < self.items.len()
            invariant
                self.wf(),
                i <= self.items@.len(),
                r@.map_values(|s: String| s@) == self@.values_upto(i as int),
            decreases self.items@.len() - i,
        {
            if self.has(i) {
                r.push(self.items[i].value.clone());
            }
            assert(r@.map_values(|s: String| s@) =~= self@.values_upto(i + 1));
            i = i + 1;
        }
        r
    }

    /// The keyboard cursor (lead) item.
    pub fn cursor(&self) -> (r: Option<usize>)
        requires
            self.wf(),
        ensures
            opt_int(r) == self@.cursor,
    {
        self.cursor
    }

    /// Whether item `idx` is selected.
    pub fn is_selected(&self, idx: usize) -> (r: bool)
        requires
            self.wf(),
        ensures
            r == self@.selected.contains(idx as int),
    {
        self.has(idx)
    }

    /// The widget family.
    pub fn kind(&self) -> (r: WidgetKind)
        ensures
            r == WidgetKind::Collection,
    {
        WidgetKind::Collection
    }

    /// Whether the listbox takes keyboard focus (unless disabled).
    pub fn focusable(&self) -> (r: bool)
        requires
            self.wf(),
        ensures
            r == !self@.disabled,
    {
        !self.disabled
    }

    fn enabled(&self, idx: usize) -> (r: bool)
        requires
            self.wf(),
        ensures
            r == self@.enabled(idx as int),
    {
        idx < self.items.len() && !self.items[idx].disabled
    }

    fn next_enabled_fwd(&self, from: usize) -> (r: Option<usize>)
        ensures
            opt_int(r) == self@.next_enabled(from as int),
            r matches Some(i) ==> i < self.items@.len(),
    {
        let n = self.items.len();
        let mut i = from;
        while i < n
            invariant
                from <= i,
                n == self.items@.len(),
                self@.next_enabled(from as int) == self@.next_enabled(i as int),
            decreases n - i,
        {
            if !self.items[i].disabled {
                return Some(i);
            }
            i = i + 1;
        }
        None
    }

    fn prev_enabled_back(&self, from: usize) -> (r: Option<usize>)
        requires
            self.wf(),
            from < self.items@.len(),
        ensures
            opt_int(r) == self@.prev_enabled(from as int),
            r matches Some(i) ==> i < self.items@.len(),
    {
        let mut i = from;
        loop
            invariant
                i <= from < self.items@.len(),
                self@.prev_enabled(from as int) == self@.prev_enabled(i as int),
            decreases i,
        {
            if !self.items[i].disabled {
                return Some(i);
            }
            if i == 0 {
                assert(prev_enabled_in(self@.items, -1) is None);
                return None;
            }
            i = i - 1;
        }
    }

    fn selection_payload(&self) -> (r: String)
        requires
            self.wf(),
        ensures
            r@ == self@.payload(),
    {
        let vals = self.selected_values();
        join_strings(&vals, ",")
    }

    /// Whether item `i` is selected.
    fn has(&self, i: usize) -> (r: bool)
        ensures
            r == self@.selected.contains(i as int),
    {
        set_has(&self.selected, i)
    }

    /// Adds item `i` to the selection.
    fn mark(&mut self, i: usize)
        ensures
            final(self)@ == (ListBoxModel { selected: old(self)@.selected.insert(i as int), ..old(self)@ }),
    {
        set_add(&mut self.selected, i);
        assert(self@.selected =~= old(self)@.selected.insert(i as int));
    }

    /// Removes item `i` from the selection.
    fn unmark(&mut self, i: usize)
        ensures
            final(self)@ == (ListBoxModel { selected: old(self)@.selected.remove(i as int), ..old(self)@ }),
    {
        set_drop(&mut self.selected, i);
        assert(self@.selected =~= old(self)@.selected.remove(i as int));
    }

    fn clear_selection(&mut self)
        requires
            old(self).wf(),
        ensures
            final(self).wf(),
            final(self)@ == (ListBoxModel { selected: Set::empty(), ..old(self)@ }),
    {
        self.selected.clear();
        assert(self@.selected =~= Set::<int>::empty());
    }

    fn set_single(&mut self, idx: usize)
        requires
            old(self).wf(),
            idx < old(self)@.items.len(),
        ensures
            final(self).wf(),
            final(self)@ == (ListBoxModel {
                selected: Set::empty().insert(idx as int),
                cursor: Some(idx as int),
                anchor: Some(idx as int),
                ..old(self)@
            }),
    {
        self.clear_selection();
        self.mark(idx);
        self.cursor = Some(idx);
        self.anchor = Some(idx);
        assert(self@.selected =~= Set::<int>::empty().insert(idx as int));
    }

    fn is_sole_selection(&self, idx: usize) -> (r: bool)
        requires
            self.wf(),
            idx < self@.items.len(),
        ensures
            r == (self@.selected == Set::<int>::empty().insert(idx as int)),
    {
        let mut i: usize = 0;
        while i < self.items.len()
            invariant
                self.wf(),
                idx < self@.items.len(),
                i <= self@.items.len(),
                forall|k: int| 0 <= k < i ==> self@.selected.contains(k) == (k == idx),
            decreases self@.items.len() - i,
        {
            if self.has(i) != (i == idx) {
                assert(self@.selected.contains(idx as int) != Set::<int>::empty().insert(idx as int).contains(idx as int)
                    || self@.selected.contains(i as int) != Set::<int>::empty().insert(idx as int).contains(i as int));
                return false;
            }
            i = i + 1;
        }
        assert(self@.selected =~= Set::<int>::empty().insert(idx as int));
        true
    }

    fn select_single(&mut self, idx: usize) -> (out: WidgetOutcome)
        requires
            old(self).wf(),
        ensures
            final(self).wf(),
            (final(self)@, out@) == old(self)@.select_single(idx as int),
    {
        if !self.enabled(idx) {
            return WidgetOutcome::Ignored;
        }
        let same = self.is_sole_selection(idx);
        self.set_single(idx);
        if !same {
            WidgetOutcome::action_with(CHANGED_ACTION, self.selection_payload())
        } else {
            WidgetOutcome::Changed
        }
    }

    fn toggle_one(&mut self, idx: usize) -> (out: WidgetOutcome)
        requires
            old(self).wf(),
        ensures
            final(self).wf(),
            (final(self)@, out@) == old(self)@.toggle_one(idx as int),
    {
        if !self.enabled(idx) {
            return WidgetOutcome::Ignored;
        }
        let was = self.has(idx);
        if was {
            self.unmark(idx);
        } else {
            self.mark(idx);
        }
        self.cursor = Some(idx);
        self.anchor = Some(idx);
        if was {
            assert(self@.selected =~= old(self)@.selected.remove(idx as int));
        } else {
            assert(self@.selected =~= old(self)@.selected.insert(idx as int));
        }
        WidgetOutcome::action_with(CHANGED_ACTION, self.selection_payload())
    }

    fn select_range(&mut self, idx: usize) -> (out: WidgetOutcome)
        requires
            old(self).wf(),
        ensures
            final(self).wf(),
            (final(self)@, out@) == old(self)@.select_range(idx as int),
    {
        if !self.enabled(idx) {
            return WidgetOutcome::Ignored;
        }
        let anchor = match self.anchor {
            Some(a) => a,
            None => idx,
        };
        let (lo, hi) = if anchor <= idx { (anchor, idx) } else { (idx, anchor) };
        let ghost m0 = old(self)@;
        let n = self.items.len();
        let mut sel: BTreeSet<usize> = BTreeSet::new();
        let mut k: usize = 0;
        while k < n
            invariant
                m0 == old(self)@,
                self == old(self),
                n == self.items@.len(),
                k <= n,
                forall|j: int| #[trigger] int_set(sel@).contains(j) <==> 0 <= j < k && in_range_enabled(m0, lo as int, hi as int, j),
            decreases n - k,
        {
            assert(m0.items[k as int] == self.items@[k as int].model());
            assert(self.items@[k as int].model().2 == self.items@[k as int].disabled);
            assert(m0.enabled(k as int) == !self.items@[k as int].disabled);
            let ghost before = sel@;
            if lo <= k && k <= hi && !self.items[k].disabled {
                set_add(&mut sel, k);
            }
            assert forall|j: int| #[trigger] int_set(sel@).contains(j) <==> 0 <= j < k + 1 && in_range_enabled(m0, lo as int, hi as int, j) by {
                if j != k && 0 <= j <= usize::MAX {
                    assert(int_set(sel@).contains(j) == int_set(before).contains(j));
                }
            }
            k = k + 1;
        }
        self.selected = sel;
        self.cursor = Some(idx);
        assert(self@.selected =~= Set::new(|k: int| lo <= k <= hi && m0.enabled(k))) by {
            assert forall|j: int| #[trigger] self@.selected.contains(j) == (lo <= j <= hi && m0.enabled(j)) by {
                if lo <= j <= hi && m0.enabled(j) {
                    assert(0 <= j < n);
                }
            }
        }
        WidgetOutcome::action_with(CHANGED_ACTION, self.selection_payload())
    }

    fn label_matches(&self, i: usize, target: char) -> (r: bool)
        requires
            self.wf(),
            i < self.items@.len(),
            target == ascii_lower(target),
        ensures
            r == (self@.items[i as int].1.len() > 0 && ascii_lower(self@.items[i as int].1[0]) == target),
    {
        let label = self.items[i].label.as_str();
        if label.unicode_len() == 0 {
            return false;
        }
        let first = label.get_char(0);
        crate::text::to_ascii_lowercase(first) == target
    }

    proof fn lemma_lower_idempotent(c: char)
        ensures
            ascii_lower(ascii_lower(c)) == ascii_lower(c),
    {
    }

    fn type_ahead(&mut self, c: char) -> (out: WidgetOutcome)
        requires
            old(self).wf(),
        ensures
            final(self).wf(),
            (final(self)@, out@) == old(self)@.type_ahead(c),
    {
        let n = self.items.len();
        if n == 0 {
            return WidgetOutcome::Ignored;
        }
        let target = crate::text::to_ascii_lowercase(c);
        proof { Self::lemma_lower_idempotent(c); }
        let start = match self.cursor {
            Some(k) => if k + 1 == n { 0 } else { k + 1 },
            None => 0,
        };
        let ghost sstart = start as int;
        let mut i = start;
        let mut off: usize = 0;
        assert(i as int == (sstart + 0) % (n as int)) by {
            vstd::arithmetic::div_mod::lemma_small_mod(start as nat, n as nat);
        }
        assert(old(self)@.cursor matches Some(k) ==> sstart == (k + 1) % (n as int)) by {
            if let Some(k) = self.cursor {
                lemma_wrap(k + 1, n as int);
            }
        }
        while off < n
            invariant
                target == ascii_lower(c),
                target == ascii_lower(target),
                self.wf(),
                self == old(self),
                n == self.items@.len(),
                n > 0,
                start < n,
                sstart == start as int,
                old(self)@.cursor matches Some(k) ==> sstart == (k + 1) % (n as int),
                old(self)@.cursor is None ==> sstart == 0,
                off <= n,
                i < n,
                i as int == (sstart + off) % (n as int),
                old(self)@.scan(c, sstart, 0) == old(self)@.scan(c, sstart, off as int),
            decreases n - off,
        {
            assert(old(self)@.enabled(i as int) == !self.items@[i as int].disabled);
            if !self.items[i].disabled && self.label_matches(i, target) {
                assert(old(self)@.matches_char(i as int, c));
                assert(old(self)@.scan(c, sstart, off as int) == Some(i as int));
                assert(old(self)@.type_ahead(c).0.cursor == Some(i as int));
                self.cursor = Some(i);
                assert(self@ == (ListBoxModel { cursor: Some(i as int), ..old(self)@ }));
                if self.mode == SelectionMode::Single {
                    return self.select_single(i);
                }
                return WidgetOutcome::Changed;
            }
            i = if i + 1 == n { 0 } else { i + 1 };
            off = off + 1;
            proof {
                lemma_wrap(sstart + off - 1, n as int);
                lemma_wrap(sstart + off, n as int);
            }
        }
        WidgetOutcome::Ignored
    }

    /// Handles a key press.
    pub fn on_keyboard(&mut self, key: KeyInput) -> (out: WidgetOutcome)
        requires
            old(self).wf(),
        ensures
            final(self).wf(),
            (final(self)@, out@) == old(self)@.on_key(key),
    {
        if self.disabled || self.items.len() == 0 {
            return WidgetOutcome::Ignored;
        }
        let cur = match self.cursor {
            Some(c) => c,
            None => match self.next_enabled_fwd(0) {
                Some(f) => f,
                None => 0,
            },
        };
        let shift = key.modifiers & keys::modifiers::SHIFT != 0;
        let ctrl = key.modifiers & keys::modifiers::CTRL != 0;
        let n = self.items.len();
        let next = if key.key == keys::ARROW_DOWN {
            match self.next_enabled_fwd(cur + 1) {
                Some(i) => Some(i),
                None => Some(cur),
            }
        } else if key.key == keys::ARROW_UP {
            if cur == 0 {
                Some(cur)
            } else {
                match self.prev_enabled_back(cur - 1) {
                    Some(i) => Some(i),
                    None => Some(cur),
                }
            }
        } else if key.key == keys::HOME {
            self.next_enabled_fwd(0)
        } else if key.key == keys::END {
            self.prev_enabled_back(n - 1)
        } else {
            None
        };
        if let Some(idx) = next {
            if shift && self.mode == SelectionMode::Multi {
                return self.select_range(idx);
            } else if ctrl {
                self.cursor = Some(idx);
                return WidgetOutcome::Changed;
            } else {
                return self.select_single(idx);
            }
        }
        if key.key == keys::SPACE && ctrl && self.mode == SelectionMode::Multi {
            return self.toggle_one(cur);
        }
        if key.key == keys::SPACE || key.key == keys::ENTER {
            return self.select_single(cur);
        }
        if key.modifiers & (keys::modifiers::CTRL | keys::modifiers::ALT | keys::modifiers::SUPER) != 0 {
            return WidgetOutcome::Ignored;
        }
        match keys::printable_char(key.key) {
            Some(c) => {
                if crate::text::is_whitespace(c) {
                    WidgetOutcome::Ignored
                } else {
                    self.type_ahead(c)
                }
            },
            None => WidgetOutcome::Ignored,
        }
    }

    /// Handles the pointer moving over item `hit` (or over no item).
    pub fn on_mouse_move(&mut self, hit: Option<usize>) -> (out: WidgetOutcome)
        requires
            old(self).wf(),
            hit matches Some(i) ==> i < old(self)@.items.len(),
        ensures
            final(self).wf(),
            (final(self)@, out@) == old(self)@.on_move(opt_int(hit)),
    {
        if self.disabled {
            return WidgetOutcome::Ignored;
        }
        let h = match hit {
            Some(i) => if self.enabled(i) { Some(i) } else { None },
            None => None,
        };
        if h == self.hovered {
            return WidgetOutcome::Ignored;
        }
        self.hovered = h;
        WidgetOutcome::Changed
    }

    /// Handles the pointer leaving the listbox.
    pub fn on_mouse_leave(&mut self) -> (out: WidgetOutcome)
        requires
            old(self).wf(),
        ensures
            final(self).wf(),
            (final(self)@, out@) == old(self)@.on_leave(),
    {
        if self.disabled || self.hovered.is_none() {
            return WidgetOutcome::Ignored;
        }
        self.hovered = None;
        WidgetOutcome::Changed
    }

    /// Handles a left click on item `hit` (or on no item).
    pub fn on_click(&mut self, hit: Option<usize>) -> (out: WidgetOutcome)
        requires
            old(self).wf(),
            hit matches Some(i) ==> i < old(self)@.items.len(),
        ensures
            final(self).wf(),
            (final(self)@, out@) == old(self)@.on_click(opt_int(hit)),
    {
        if self.disabled {
            return WidgetOutcome::Ignored;
        }
        match hit {
            Some(i) => self.select_single(i),
            None => WidgetOutcome::Ignored,
        }
    }

    /// The render tree: an `lq-listbox` with one rendered item per entry.
    pub fn render(&self) -> (r: Node)
        requires
            self.wf(),
        ensures
            r.tag@ == "lq-listbox"@,
            r.attr_views() == seq![("role"@, "listbox"@), (FOCUSABLE_ATTR@, bool_str(!self@.disabled))]
                + (if self@.mode == SelectionMode::Multi { seq![("aria-multiselectable"@, "true"@)] } else { Seq::empty() })
                + (if self@.disabled { seq![("disabled"@, "true"@)] } else { Seq::empty() }),
            r.pseudo.disabled == self@.disabled,
            !r.pseudo.hover && !r.pseudo.focus && !r.pseudo.checked && !r.pseudo.active,
            r.children@.len() == self@.items.len(),
            forall|i: int| 0 <= i < self@.items.len() ==> self@.item_rendered(i, #[trigger] r.children@[i]),
    {
        let mut lb = Node::el("lq-listbox")
            .attr("role", "listbox")
            .attr(FOCUSABLE_ATTR, bool_text(!self.disabled))
            .pseudo_if(PseudoFlag::Disabled, self.disabled);
        if self.mode == SelectionMode::Multi {
            lb = lb.attr("aria-multiselectable", "true");
        }
        let ghost head = lb.attr_views();
        let mut i: usize = 0;
        while i < self.items.len()
            invariant
                self.wf(),
                i <= self.items@.len(),
                lb.tag@ == "lq-listbox"@,
                lb.attr_views() == head,
                lb.pseudo.disabled == self@.disabled,
                !lb.pseudo.hover && !lb.pseudo.focus && !lb.pseudo.checked && !lb.pseudo.active,
                lb.children@.len() == i,
                forall|k: int| 0 <= k < i ==> self@.item_rendered(k, #[trigger] lb.children@[k]),
            decreases self.items@.len() - i,
        {
            let item = &self.items[i];
            let sel = self.has(i);
            let dis = item.disabled;
            let is_cursor = self.cursor == Some(i) && !self.disabled && !dis;
            let hovered = self.hovered == Some(i) && !self.disabled && !dis;
            let value = item.value.as_str();
            let idx = crate::text::decimal(i);
            let part = prefixed("item-", i);
            let row = Node::el("lq-listitem")
                .key(value)
                .attr("data-part", part.as_str())
                .attr("data-index", idx.as_str())
                .attr("data-value", value)
                .attr("role", "option")
                .attr("aria-selected", bool_text(sel))
                .attr("aria-disabled", bool_text(dis))
                .class_if("selected", sel)
                .class_if("disabled", dis)
                .pseudo_if(PseudoFlag::Checked, sel)
                .pseudo_if(PseudoFlag::Focus, is_cursor)
                .pseudo_if(PseudoFlag::Disabled, dis)
                .pseudo_if(PseudoFlag::Hover, hovered)
                .child(Node::text(item.label.as_str()));
            assert(sel == self@.selected.contains(i as int));
            assert(row.attr_views() =~= seq![
                ("data-part"@, "item-"@ + dec(i as nat)),
                ("data-index"@, dec(i as nat)),
                ("data-value"@, self@.items[i as int].0),
                ("role"@, "option"@),
                ("aria-selected"@, bool_str(sel)),
                ("aria-disabled"@, bool_str(dis)),
            ]);
            assert(row.class_views() =~= (if sel { seq!["selected"@] } else { Seq::<Seq<char>>::empty() }) + (if dis {
                seq!["disabled"@]
            } else {
                Seq::<Seq<char>>::empty()
            }));
            lb = lb.child(row);
            i = i + 1;
        }
        if self.disabled {
            lb = lb.attr("disabled", "true");
        }
        assert(lb.attr_views() =~= seq![("role"@, "listbox"@), (FOCUSABLE_ATTR@, bool_str(!self@.disabled))]
                + (if self@.mode == SelectionMode::Multi { seq![("aria-multiselectable"@, "true"@)] } else { Seq::empty() })
                + (if self@.disabled { seq![("disabled"@, "true"@)] } else { Seq::empty() }));
        lb
    }
}

/// Whether every selected item is enabled.
pub open spec fn selection_enabled(m: ListBoxModel) -> bool {
    forall|i: int| m.selected.contains(i) ==> m.enabled(i)
}

/// A disabled item never becomes selected: from a selection of enabled items,
/// every key, click and pointer move leaves only enabled items selected.
pub proof fn lemma_disabled_never_selected(m: ListBoxModel, key: KeyInput, hit: Option<int>)
    requires
        selection_enabled(m),
    ensures
        selection_enabled(m.on_key(key).0),
        selection_enabled(m.on_click(hit).0),
        selection_enabled(m.on_move(hit).0),
        selection_enabled(m.on_leave().0),
{
    let k = m.on_key(key).0;
    assert(k.items == m.items);
    assert forall|i: int| k.selected.contains(i) implies k.enabled(i) by {
        if m.selected.contains(i) {
            assert(m.enabled(i));
        }
    }
    lemma_same_selection(m, m.on_move(hit).0);
    lemma_same_selection(m, m.on_leave().0);
}

proof fn lemma_same_selection(a: ListBoxModel, b: ListBoxModel)
    requires
        selection_enabled(a),
        a.items == b.items,
        a.selected == b.selected,
    ensures
        selection_enabled(b),
{
    assert forall|i: int| b.selected.contains(i) implies b.enabled(i) by {
        assert(a.enabled(i));
    }
}

/// A fresh listbox, and one whose selection was set by [`ListBox::select`]
/// (which only ever picks an enabled item), selects only enabled items and
/// at most one of them.
pub proof fn lemma_start_selection(m: ListBoxModel, idx: int)
    ensures
        selection_enabled(ListBoxModel { selected: Set::empty(), ..m }),
        at_most_one(Set::<int>::empty()),
        m.enabled(idx) ==> selection_enabled(ListBoxModel { selected: Set::empty().insert(idx), ..m }),
        at_most_one(Set::<int>::empty().insert(idx)),
{
}

/// A single-select listbox never holds more than one selected item.
pub proof fn lemma_single_mode_selects_at_most_one(m: ListBoxModel, key: KeyInput, hit: Option<int>)
    requires
        m.mode == SelectionMode::Single,
        at_most_one(m.selected),
    ensures
        at_most_one(m.on_key(key).0.selected),
        at_most_one(m.on_click(hit).0.selected),
{
}

/// Type-ahead only ever lands on an enabled item whose label starts with the
/// typed character (ignoring ASCII case).
pub proof fn lemma_type_ahead_matches(m: ListBoxModel, c: char)
    ensures
        m.type_ahead(c).0.cursor != m.cursor ==> (m.type_ahead(c).0.cursor matches Some(i) && m.matches_char(i, c)),
{
    let n = m.items.len() as int;
    let start = match m.cursor {
        Some(k) => (k + 1) % n,
        None => 0,
    };
    lemma_scan_matches(m, c, start, 0);
}

/// What a type-ahead scan finds is a match.
proof fn lemma_scan_matches(m: ListBoxModel, c: char, start: int, off: int)
    ensures
        m.scan(c, start, off) matches Some(i) ==> m.matches_char(i, c),
    decreases m.items.len() - off,
{
    let n = m.items.len() as int;
    if off >= n || off < 0 {
    } else if m.matches_char((start + off) % n, c) {
    } else {
        lemma_scan_matches(m, c, start, off + 1);
    }
}

/// What a listbox keeps from its construction on: only enabled items are
/// selected, and a single-select listbox selects at most one.
pub open spec fn selection_sound(m: ListBoxModel) -> bool {
    selection_enabled(m) && (m.mode == SelectionMode::Single ==> at_most_one(m.selected))
}

/// Every key press, click and pointer move keeps [`selection_sound`], so it
/// holds after any sequence of them (a fresh listbox has it by
/// [`lemma_start_selection`]).
pub proof fn lemma_selection_sound_kept(m: ListBoxModel, key: KeyInput, hit: Option<int>)
    requires
        selection_sound(m),
    ensures
        selection_sound(m.on_key(key).0),
        selection_sound(m.on_click(hit).0),
        selection_sound(m.on_move(hit).0),
        selection_sound(m.on_leave().0),
{
    lemma_disabled_never_selected(m, key, hit);
    if m.mode == SelectionMode::Single {
        lemma_single_mode_selects_at_most_one(m, key, hit);
    }
}

proof fn lemma_prev_enabled_nearest(items: Seq<(Seq<char>, Seq<char>, bool)>, from: int)
    requires
        from < items.len(),
    ensures
        (exists|j: int| 0 <= j <= from && #[trigger] enabled_in(items, j)) ==> (prev_enabled_in(items, from) matches Some(t)
            && 0 <= t <= from && enabled_in(items, t) && forall|k: int| t < k <= from ==> !#[trigger] enabled_in(items, k)),
        !(exists|j: int| 0 <= j <= from && #[trigger] enabled_in(items, j)) ==> prev_enabled_in(items, from) is None,
    decreases from + 1,
{
    if from >= 0 && !enabled_in(items, from) {
        lemma_prev_enabled_nearest(items, from - 1);
        if exists|j: int| 0 <= j <= from && #[trigger] enabled_in(items, j) {
            let j = choose|j: int| 0 <= j <= from && #[trigger] enabled_in(items, j);
            assert(j <= from - 1);
        }
    }
}

proof fn lemma_next_enabled_nearest(items: Seq<(Seq<char>, Seq<char>, bool)>, from: int)
    requires
        0 <= from,
    ensures
        (exists|j: int| from <= j < items.len() && #[trigger] enabled_in(items, j)) ==> (next_enabled_in(items, from) matches Some(t)
            && from <= t < items.len() && enabled_in(items, t) && forall|k: int| from <= k < t ==> !#[trigger] enabled_in(items, k)),
        !(exists|j: int| from <= j < items.len() && #[trigger] enabled_in(items, j)) ==> next_enabled_in(items, from) is None,
    decreases items.len() - from,
{
    if from < items.len() && !enabled_in(items, from) {
        lemma_next_enabled_nearest(items, from + 1);
        if exists|j: int| from <= j < items.len() && #[trigger] enabled_in(items, j) {
            let j = choose|j: int| from <= j < items.len() && #[trigger] enabled_in(items, j);
            assert(j >= from + 1);
        }
    }
}

/// Up and Down without modifiers step the cursor to the nearest enabled item
/// before (after) it, skipping disabled ones, and single-select that item;
/// with no enabled item in that direction the cursor stays.
pub proof fn lemma_arrows_step_to_nearest_enabled(m: ListBoxModel, c: int, mods: u32)
    requires
        m.valid(),
        !m.disabled,
        m.cursor == Some(c),
        !has_shift(mods),
        !has_ctrl(mods),
    ensures
        ({
            let (n, _) = m.on_key(KeyInput { key: keys::ARROW_UP, modifiers: mods });
            &&& (exists|j: int| 0 <= j < c && #[trigger] m.enabled(j)) ==> (n.cursor matches Some(t) && 0 <= t < c
                && m.enabled(t) && (forall|k: int| t < k < c ==> !#[trigger] m.enabled(k))
                && n.selected == Set::<int>::empty().insert(t) && n.anchor == Some(t))
            &&& !(exists|j: int| 0 <= j < c && #[trigger] m.enabled(j)) ==> n.cursor == Some(c)
        }),
        ({
            let (n, _) = m.on_key(KeyInput { key: keys::ARROW_DOWN, modifiers: mods });
            &&& (exists|j: int| c < j < m.items.len() && #[trigger] m.enabled(j)) ==> (n.cursor matches Some(t) && c < t
                < m.items.len() && m.enabled(t) && (forall|k: int| c < k < t ==> !#[trigger] m.enabled(k))
                && n.selected == Set::<int>::empty().insert(t) && n.anchor == Some(t))
            &&& !(exists|j: int| c < j < m.items.len() && #[trigger] m.enabled(j)) ==> n.cursor == Some(c)
        }),
{
    lemma_prev_enabled_nearest(m.items, c - 1);
    lemma_next_enabled_nearest(m.items, c + 1);
    if exists|j: int| 0 <= j < c && #[trigger] m.enabled(j) {
        let j = choose|j: int| 0 <= j < c && #[trigger] m.enabled(j);
        assert(enabled_in(m.items, j));
    } else {
        assert forall|j: int| 0 <= j <= c - 1 implies !#[trigger] enabled_in(m.items, j) by {
            assert(!m.enabled(j));
        }
    }
    if exists|j: int| c < j < m.items.len() && #[trigger] m.enabled(j) {
        let j = choose|j: int| c < j < m.items.len() && #[trigger] m.enabled(j);
        assert(enabled_in(m.items, j));
    } else {
        assert forall|j: int| c + 1 <= j < m.items.len() implies !#[trigger] enabled_in(m.items, j) by {
            assert(!m.enabled(j));
        }
    }
}

/// Home without modifiers single-selects the first enabled item and End the
/// last one, moving the cursor there.
pub proof fn lemma_home_end_select_first_last_enabled(m: ListBoxModel, j: int, mods: u32)
    requires
        m.valid(),
        !m.disabled,
        m.enabled(j),
        !has_shift(mods),
        !has_ctrl(mods),
    ensures
        ({
            let (n, _) = m.on_key(KeyInput { key: keys::HOME, modifiers: mods });
            n.cursor matches Some(t) && m.enabled(t) && (forall|k: int| 0 <= k < t ==> !#[trigger] m.enabled(k))
                && n.selected == Set::<int>::empty().insert(t)
        }),
        ({
            let (n, _) = m.on_key(KeyInput { key: keys::END, modifiers: mods });
            n.cursor matches Some(t) && m.enabled(t) && (forall|k: int| t < k < m.items.len() ==> !#[trigger] m.enabled(k))
                && n.selected == Set::<int>::empty().insert(t)
        }),
{
    assert(enabled_in(m.items, j));
    lemma_next_enabled_nearest(m.items, 0);
    lemma_prev_enabled_nearest(m.items, m.items.len() - 1);
    let t0 = m.next_enabled(0).unwrap();
    assert forall|k: int| 0 <= k < t0 implies !#[trigger] m.enabled(k) by {
        assert(!enabled_in(m.items, k));
    }
    let t1 = m.prev_enabled(m.items.len() - 1).unwrap();
    assert forall|k: int| t1 < k < m.items.len() implies !#[trigger] m.enabled(k) by {
        assert(!enabled_in(m.items, k));
    }
}

/// A click on an enabled item selects it alone and puts cursor and anchor on
/// it; a click on a disabled item (or on none) changes nothing.
pub proof fn lemma_click_selects_enabled_item(m: ListBoxModel, i: int)
    requires
        m.valid(),
        !m.disabled,
    ensures
        m.enabled(i) ==> m.on_click(Some(i)).0.selected == Set::<int>::empty().insert(i) && m.on_click(
            Some(i),
        ).0.cursor == Some(i),
        !m.enabled(i) ==> m.on_click(Some(i)) == (m, OutcomeView::Ignored),
        m.on_click(None) == (m, OutcomeView::Ignored),
{
}

/// Space and Enter select the enabled cursor item alone; in a multi-select
/// listbox Ctrl+Space instead flips it in or out of the selection, leaving
/// every other item as it was.
pub proof fn lemma_space_selects_or_toggles_cursor(m: ListBoxModel, c: int, key: KeyInput)
    requires
        m.valid(),
        !m.disabled,
        m.cursor == Some(c),
        m.enabled(c),
        key.key == keys::SPACE || key.key == keys::ENTER,
    ensures
        ({
            let n = m.on_key(key).0;
            let toggle = key.key == keys::SPACE && has_ctrl(key.modifiers) && m.mode == SelectionMode::Multi;
            &&& !toggle ==> n.selected == Set::<int>::empty().insert(c)
            &&& toggle ==> n.selected.contains(c) == !m.selected.contains(c) && forall|i: int|
                i != c ==> (#[trigger] n.selected.contains(i) == m.selected.contains(i))
            &&& n.cursor == Some(c)
        }),
{
}

/// In a multi-select listbox, Shift with Up/Down/Home/End selects every
/// enabled item between the anchor (or the target, without one) and the
/// enabled target item, and moves the cursor there.
pub proof fn lemma_shift_selects_enabled_range(m: ListBoxModel, key: KeyInput)
    requires
        m.valid(),
        !m.disabled,
        m.items.len() > 0,
        m.mode == SelectionMode::Multi,
        has_shift(key.modifiers),
        m.move_target(key.key) matches Some(t) && m.enabled(t),
    ensures
        ({
            let t = m.move_target(key.key).unwrap();
            let a = if m.anchor is Some { m.anchor.unwrap() } else { t };
            let n = m.on_key(key).0;
            &&& n.cursor == Some(t) && n.anchor == m.anchor
            &&& forall|i: int| #[trigger] n.selected.contains(i) <==> (((a <= i <= t) || (t <= i <= a)) && m.enabled(i))
        }),
{
}

} // verus!
