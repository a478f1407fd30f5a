//! `<lq-menu>` — a vertical menu of activatable items and separators.
//!
//! Hovering highlights an enabled item (separators and disabled items are
//! never highlighted); clicking an enabled item emits `activate` (or
//! `submenu` for a submenu parent) with its id. Up/Down move the highlight
//! across enabled items only, wrapping; Home/End jump to the first/last
//! enabled item; Enter activates the highlighted item; Right on a submenu
//! parent emits `submenu`; Esc emits `dismiss`.

use vstd::prelude::*;

use crate::behavior::{lemma_wrap, opt_int, KeyInput, OutcomeView, WidgetKind, WidgetOutcome};
use crate::keys;
use crate::node::{bool_text, Node, Pseudo, PseudoFlag, FOCUSABLE_ATTR};
use crate::text::{dec, prefixed};

verus! {

/// Emitted when an item is activated (payload: the item id).
pub const ACTIVATE_ACTION: &'static str = "activate";

/// Emitted when the menu is dismissed via Esc (no payload).
pub const DISMISS_ACTION: &'static str = "dismiss";

/// Emitted when a submenu parent is opened (payload: the item id).
pub const SUBMENU_ACTION: &'static str = "submenu";

/// One entry in a menu.
pub enum MenuEntry {
    /// An activatable item (unless disabled).
    Item { id: String, label: String, disabled: bool, has_submenu: bool },
    /// A non-interactive divider.
    Separator,
}

/// The abstract form of a [`MenuEntry`]: item (id, label, disabled, has a
/// submenu) or separator.
pub enum EntryModel {
    Item(Seq<char>, Seq<char>, bool, bool),
    Separator,
}

impl View for MenuEntry {
    type V = EntryModel;

    open spec fn view(&self) -> EntryModel {
        match self {
            MenuEntry::Item { id, label, disabled, has_submenu } => EntryModel::Item(
                id@,
                label@,
                *disabled,
                *has_submenu,
            ),
            MenuEntry::Separator => EntryModel::Separator,
        }
    }
}

impl EntryModel {
    /// An enabled item.
    pub open spec fn activatable(self) -> bool {
        self matches EntryModel::Item(_, _, d, _) && !d
    }
}

impl MenuEntry {
    /// An enabled item with `id` and `label`.
    pub fn item(id: &str, label: &str) -> (r: MenuEntry)
        ensures
            r@ == EntryModel::Item(id@, label@, false, false),
    {
        MenuEntry::Item { id: id.to_string(), label: label.to_string(), disabled: false, has_submenu: false }
    }

    /// A disabled item.
    pub fn disabled_item(id: &str, label: &str) -> (r: MenuEntry)
        ensures
            r@ == EntryModel::Item(id@, label@, true, false),
    {
        MenuEntry::Item { id: id.to_string(), label: label.to_string(), disabled: true, has_submenu: false }
    }

    /// An item that opens a submenu.
    pub fn submenu(id: &str, label: &str) -> (r: MenuEntry)
        ensures
            r@ == EntryModel::Item(id@, label@, false, true),
    {
        MenuEntry::Item { id: id.to_string(), label: label.to_string(), disabled: false, has_submenu: true }
    }

    /// A separator.
    pub fn separator() -> (r: MenuEntry)
        ensures
            r@ == EntryModel::Separator,
    {
        MenuEntry::Separator
    }

    fn is_activatable(&self) -> (r: bool)
        ensures
            r == self@.activatable(),
    {
        match self {
            MenuEntry::Item { disabled, .. } => !*disabled,
            MenuEntry::Separator => false,
        }
    }
}

/// A vertical menu widget.
pub struct Menu {
    entries: Vec<MenuEntry>,
    highlighted: Option<usize>,
}

/// The abstract state of a [`Menu`].
pub struct MenuModel {
    pub entries: Seq<EntryModel>,
    pub highlighted: Option<int>,
}

impl MenuModel {
    /// The highlight, when present, is on an enabled item.
    pub open spec fn valid(self) -> bool {
        self.highlighted matches Some(i) ==> 0 <= i < self.entries.len() && self.entries[i].activatable()
    }

    /// Whether entry `i` exists and is an enabled item.
    pub open spec fn act(self, i: int) -> bool {
        0 <= i < self.entries.len() && self.entries[i].activatable()
    }

    /// The entry `step` positions forward (or backward) from `from`,
    /// wrapping.
    pub open spec fn stepped(self, from: int, step: int, forward: bool) -> int {
        let n = self.entries.len() as int;
        if forward {
            (from + step) % n
        } else {
            (from + n - step) % n
        }
    }

    /// The first enabled item among steps `step..=n` from `from`.
    pub open spec fn scan(self, from: int, step: int, forward: bool) -> Option<int>
        decreases self.entries.len() + 1 - step,
    {
        if step < 1 || step > self.entries.len() {
            None
        } else if self.act(self.stepped(from, step, forward)) {
            Some(self.stepped(from, step, forward))
        } else {
            self.scan(from, step + 1, forward)
        }
    }

    /// The next enabled item after `from` in the given direction, wrapping
    /// once around (possibly `from` itself).
    pub open spec fn next_act(self, from: int, forward: bool) -> Option<int> {
        self.scan(from, 1, forward)
    }

    /// The first enabled item at or after `from`.
    pub open spec fn first_from(self, from: int) -> Option<int>
        decreases self.entries.len() - from,
    {
        if from < 0 || from >= self.entries.len() {
            None
        } else if self.act(from) {
            Some(from)
        } else {
            self.first_from(from + 1)
        }
    }

    /// The last enabled item at or before `from`.
    pub open spec fn last_from(self, from: int) -> Option<int>
        decreases from + 1,
    {
        if from < 0 || from >= self.entries.len() {
            None
        } else if self.act(from) {
            Some(from)
        } else {
            self.last_from(from - 1)
        }
    }

    /// The first enabled item.
    pub open spec fn first_act(self) -> Option<int> {
        self.first_from(0)
    }

    /// The last enabled item.
    pub open spec fn last_act(self) -> Option<int> {
        self.last_from(self.entries.len() - 1)
    }

    /// Highlighting `idx`: only an enabled item can be highlighted (anything
    /// else clears it); ignored when nothing changes.
    pub open spec fn highlight(self, idx: Option<int>) -> (MenuModel, OutcomeView) {
        let h = match idx {
            Some(i) => if self.act(i) { Some(i) } else { None },
            None => None,
        };
        if h == self.highlighted {
            (self, OutcomeView::Ignored)
        } else {
            (MenuModel { highlighted: h, ..self }, OutcomeView::Changed)
        }
    }

    /// Activating entry `idx`: an enabled item is highlighted and emits
    /// `submenu` or `activate` with its id; anything else is ignored.
    pub open spec fn activate(self, idx: int) -> (MenuModel, OutcomeView) {
        if 0 <= idx < self.entries.len() {
            match self.entries[idx] {
                EntryModel::Item(id, _, disabled, sub) => {
                    if disabled {
                        (self, OutcomeView::Ignored)
                    } else {
                        (
                            MenuModel { highlighted: Some(idx), ..self },
                            OutcomeView::Action(
                                if sub { SUBMENU_ACTION@ } else { ACTIVATE_ACTION@ },
                                Some(id),
                            ),
                        )
                    }
                },
                EntryModel::Separator => (self, OutcomeView::Ignored),
            }
        } else {
            (self, OutcomeView::Ignored)
        }
    }

    /// The keyboard transition.
    pub open spec fn on_key(self, key: KeyInput) -> (MenuModel, OutcomeView) {
        let k = key.key;
        if k == keys::ARROW_DOWN {
            self.highlight(
                match self.highlighted {
                    Some(c) => self.next_act(c, true),
                    None => self.first_act(),
                },
            )
        } else if k == keys::ARROW_UP {
            self.highlight(
                match self.highlighted {
                    Some(c) => self.next_act(c, false),
                    None => self.last_act(),
                },
            )
        } else if k == keys::HOME {
            self.highlight(self.first_act())
        } else if k == keys::END {
            self.highlight(self.last_act())
        } else if k == keys::ENTER {
            match self.highlighted {
                Some(i) => self.activate(i),
                None => (self, OutcomeView::Ignored),
            }
        } else if k == keys::ARROW_RIGHT {
            match self.highlighted {
                Some(i) => match self.entries[i] {
                    EntryModel::Item(id, _, false, true) => (
                        self,
                        OutcomeView::Action(SUBMENU_ACTION@, Some(id)),
                    ),
                    _ => (self, OutcomeView::Ignored),
                },
                None => (self, OutcomeView::Ignored),
            }
        } else if k == keys::ESCAPE {
            (self, OutcomeView::Action(DISMISS_ACTION@, None))
        } else {
            (self, OutcomeView::Ignored)
        }
    }

    /// Whether `c` renders entry `i`.
    pub open spec fn entry_rendered(self, i: int, c: Node) -> bool {
        match self.entries[i] {
            EntryModel::Separator => {
                &&& c.tag@ == "lq-menu-separator"@
                &&& c.key matches Some(k) && k@ == "sep-"@ + dec(i as nat)
                &&& c.attr_views() == seq![("role"@, "separator"@)]
                &&& c.children@.len() == 0
            },
            EntryModel::Item(id, label, disabled, sub) => {
                let hot = self.highlighted == Some(i) && !disabled;
                &&& c.tag@ == "lq-menu-item"@
                &&& c.key matches Some(k) && k@ == id
                &&& c.attr_views() == seq![
                    ("data-part"@, "item-"@ + dec(i as nat)),
                    ("data-id"@, id),
                    ("data-action"@, id),
                    ("role"@, "menuitem"@),
                ] + (if disabled {
                    seq![("disabled"@, "true"@), ("aria-disabled"@, "true"@)]
                } else {
                    Seq::empty()
                })
                &&& c.class_views() == (if hot { seq!["highlighted"@] } else { Seq::empty() }) + (if sub {
                    seq!["has-submenu"@]
                } else {
                    Seq::empty()
                })
                &&& c.pseudo == (Pseudo { hover: hot, active: false, focus: hot, checked: false, disabled })
                &&& c.children@.len() == 1
                &&& c.children@[0].tag@ == "lq-menu-label"@
                &&& c.children@[0].first_text() == label
            },
        }
    }
}

impl View for Menu {
    type V = MenuModel;

    closed spec fn view(&self) -> MenuModel {
        MenuModel {
            entries: self.entries@.map_values(|e: MenuEntry| e@),
            highlighted: opt_int(self.highlighted),
        }
    }
}

impl Menu {
    /// The representation invariant.
    pub open spec fn wf(&self) -> bool {
        self@.valid()
    }

    /// An empty menu.
    pub fn new() -> (r: Menu)
        ensures
            r.wf(),
            r@.entries == Seq::<EntryModel>::empty(),
            r@.highlighted is None,
    {
        let r = Menu { entries: Vec::new(), highlighted: None };
        assert(r@.entries =~= Seq::<EntryModel>::empty());
        r
    }

    /// A menu over `entries`, nothing highlighted.
    pub fn with_entries(entries: Vec<MenuEntry>) -> (r: Menu)
        ensures
            r.wf(),
            r@.entries == entries@.map_values(|e: MenuEntry| e@),
            r@.highlighted is None,
    {
        Menu { entries, highlighted: None }
    }

    /// Appends an entry.
    pub fn entry(self, e: MenuEntry) -> (r: Menu)
        requires
            self.wf(),
        ensures
            r.wf(),
            r@ == (MenuModel { entries: self@.entries.push(e@), ..self@ }),
    {
        let mut m = self;
        let ghost ev = e@;
        m.entries.push(e);
        assert(m@.entries =~= self@.entries.push(ev));
        m
    }

    /// The highlighted entry index.
    pub fn highlighted(&self) -> (r: Option<usize>)
        ensures
            opt_int(r) == self@.highlighted,
    {
        self.highlighted
    }

    /// The id of the highlighted item, if any.
    pub fn highlighted_id(&self) -> (r: Option<&str>)
        requires
            self.wf(),
        ensures
            r matches Some(s) ==> (self@.highlighted matches Some(i) && self@.entries[i] matches EntryModel::Item(
                id,
                _,
                _,
                _,
            ) && s@ == id),
            r is None ==> self@.highlighted is None,
            self@.highlighted matches Some(i) ==> r is Some && self@.act(i),
    {
        match self.highlighted {
            Some(i) => match &self.entries[i] {
                MenuEntry::Item { id, .. } => Some(id.as_str()),
                MenuEntry::Separator => None,
            },
            None => None,
        }
    }

    /// Number of entries (items and separators).
    pub fn len(&self) -> (r: usize)
        ensures
            r == self@.entries.len(),
    {
        self.entries.len()
    }

    /// Whether the menu has no entries.
    pub fn is_empty(&self) -> (r: bool)
        ensures
            r == (self@.entries.len() == 0),
    {
        self.entries.len() == 0
    }

    /// The widget family.
    pub fn kind(&self) -> (r: WidgetKind)
        ensures
            r == WidgetKind::Collection,
    {
        WidgetKind::Collection
    }

    /// A menu always takes keyboard focus.
    pub fn focusable(&self) -> (r: bool)
        ensures
            r,
    {
        true
    }

    fn next_activatable(&self, from: usize, forward: bool) -> (r: Option<usize>)
        requires
            self.wf(),
            from < self@.entries.len(),
        ensures
            opt_int(r) == self@.next_act(from as int, forward),
            r matches Some(i) ==> i < self@.entries.len(),
    {
        let n = self.entries.len();
        let mut idx = from;
        let mut step: usize = 1;
        proof {
            lemma_wrap(from as int, n as int);
            lemma_wrap(from + n, n as int);
        }
        loop
            invariant
                self.wf(),
                n == self@.entries.len(),
                from < n,
                1 <= step <= n,
                idx < n,
                idx as int == (if forward { (from + step - 1) % (n as int) } else { (from + n - (step - 1)) % (
                n as int) }),
                self@.scan(from as int, 1, forward) == self@.scan(from as int, step as int, forward),
            decreases n - step,
        {
            let nidx = if forward {
                if idx + 1 == n { 0 } else { idx + 1 }
            } else {
                if idx == 0 { n - 1 } else { idx - 1 }
            };
            proof {
                if forward {
                    lemma_wrap(from + step - 1, n as int);
                    lemma_wrap(from + step, n as int);
                } else {
                    lemma_wrap(from + n - (step - 1), n as int);
                    lemma_wrap(from + n - step, n as int);
                }
            }
            assert(nidx as int == self@.stepped(from as int, step as int, forward));
            if self.entries[nidx].is_activatable() {
                return Some(nidx);
            }
            if step == n {
                assert(self@.scan(from as int, (n + 1) as int, forward) is None);
                return None;
            }
            idx = nidx;
            step = step + 1;
        }
    }

    fn first_activatable(&self) -> (r: Option<usize>)
        requires
            self.wf(),
        ensures
            opt_int(r) == self@.first_act(),
            r matches Some(i) ==> i < self@.entries.len(),
    {
        let n = self.entries.len();
        let mut i: usize = 0;
        while i < n
            invariant
                n == self@.entries.len(),
                i <= n,
                self@.first_from(0) == self@.first_from(i as int),
            decreases n - i,
        {
            if self.entries[i].is_activatable() {
                return Some(i);
            }
            i = i + 1;
        }
        None
    }

    fn last_activatable(&self) -> (r: Option<usize>)
        requires
            self.wf(),
        ensures
            opt_int(r) == self@.last_act(),
            r matches Some(i) ==> i < self@.entries.len(),
    {
        let n = self.entries.len();
        if n == 0 {
            return None;
        }
        let mut i: usize = n - 1;
        loop
            invariant
                n == self@.entries.len(),
                i < n,
                self@.last_from(n - 1) == self@.last_from(i as int),
            decreases i,
        {
            if self.entries[i].is_activatable() {
                return Some(i);
            }
            if i == 0 {
                assert(self@.last_from(-1) is None);
                return None;
            }
            i = i - 1;
        }
    }

    fn highlight(&mut self, idx: Option<usize>) -> (out: WidgetOutcome)
        requires
            old(self).wf(),
        ensures
            final(self).wf(),
            (final(self)@, out@) == old(self)@.highlight(opt_int(idx)),
    {
        let h = match idx {
            Some(i) => if i < self.entries.len() && self.entries[i].is_activatable() { Some(i) } else { None },
            None => None,
        };
        if h == self.highlighted {
            return WidgetOutcome::Ignored;
        }
        self.highlighted = h;
        WidgetOutcome::Changed
    }

    fn activate(&mut self, idx: usize) -> (out: WidgetOutcome)
        requires
            old(self).wf(),
        ensures
            final(self).wf(),
            (final(self)@, out@) == old(self)@.activate(idx as int),
    {
        if idx >= self.entries.len() {
            return WidgetOutcome::Ignored;
        }
        match &self.entries[idx] {
            MenuEntry::Item { id, disabled, has_submenu, .. } => {
                if *disabled {
                    return WidgetOutcome::Ignored;
                }
                let id = id.clone();
                let sub = *has_submenu;
                self.highlighted = Some(idx);
                if sub {
                    WidgetOutcome::action_with(SUBMENU_ACTION, id)
                } else {
                    WidgetOutcome::action_with(ACTIVATE_ACTION, id)
                }
            },
            MenuEntry::Separator => WidgetOutcome::Ignored,
        }
    }

    /// Handles a key press.
    pub fn on_keyboard(&mut self, key: KeyInput) -> (out: WidgetOutcome)
        requires
            old(self).wf(),
        ensures
            final(self).wf(),
            (final(self)@, out@) == old(self)@.on_key(key),
    {
        let k = key.key;
        if k == keys::ARROW_DOWN {
            let next = match self.highlighted {
                Some(cur) => self.next_activatable(cur, true),
                None => self.first_activatable(),
            };
            self.highlight(next)
        } else if k == keys::ARROW_UP {
            let next = match self.highlighted {
                Some(cur) => self.next_activatable(cur, false),
                None => self.last_activatable(),
            };
            self.highlight(next)
        } else if k == keys::HOME {
            let f = self.first_activatable();
            self.highlight(f)
        } else if k == keys::END {
            let l = self.last_activatable();
            self.highlight(l)
        } else if k == keys::ENTER {
            match self.highlighted {
                Some(i) => self.activate(i),
                None => WidgetOutcome::Ignored,
            }
        } else if k == keys::ARROW_RIGHT {
            match self.highlighted {
                Some(i) => match &self.entries[i] {
                    MenuEntry::Item { id, disabled, has_submenu, .. } => {
                        if !*disabled && *has_submenu {
                            WidgetOutcome::action_with(SUBMENU_ACTION, id.clone())
                        } else {
                            WidgetOutcome::Ignored
                        }
                    },
                    MenuEntry::Separator => WidgetOutcome::Ignored,
                },
                None => WidgetOutcome::Ignored,
            }
        } else if k == keys::ESCAPE {
            WidgetOutcome::action(DISMISS_ACTION)
        } else {
            WidgetOutcome::Ignored
        }
    }

    /// Handles the pointer moving over entry `hit` (or over no entry).
    pub fn on_mouse_move(&mut self, hit: Option<usize>) -> (out: WidgetOutcome)
        requires
            old(self).wf(),
        ensures
            final(self).wf(),
            (final(self)@, out@) == old(self)@.highlight(opt_int(hit)),
    {
        self.highlight(hit)
    }

    /// Handles the pointer leaving the menu: the highlight clears.
    pub fn on_mouse_leave(&mut self) -> (out: WidgetOutcome)
        requires
            old(self).wf(),
        ensures
            final(self).wf(),
            (final(self)@, out@) == old(self)@.highlight(None),
    {
        self.highlight(None)
    }

    /// Handles a left click on entry `hit` (or on no entry).
    pub fn on_click(&mut self, hit: Option<usize>) -> (out: WidgetOutcome)
        requires
            old(self).wf(),
        ensures
            final(self).wf(),
            (final(self)@, out@) == (match hit {
                Some(i) => old(self)@.activate(i as int),
                None => (old(self)@, OutcomeView::Ignored),
            }),
    {
        match hit {
            Some(i) => self.activate(i),
            None => WidgetOutcome::Ignored,
        }
    }

    fn render_entry(&self, i: usize) -> (r: Node)
        requires
            self.wf(),
            i < self@.entries.len(),
        ensures
            self@.entry_rendered(i as int, r),
    {
        match &self.entries[i] {
            MenuEntry::Separator => {
                let key = prefixed("sep-", i);
                let r = Node::el("lq-menu-separator").key(key.as_str()).attr("role", "separator");
                assert(r.attr_views() =~= seq![("role"@, "separator"@)]);
                r
            },
            MenuEntry::Item { id, label, disabled, has_submenu } => {
                let hot = self.highlighted == Some(i) && !*disabled;
                let part = prefixed("item-", i);
                let mut item = Node::el("lq-menu-item")
                    .key(id.as_str())
                    .attr("data-part", part.as_str())
                    .attr("data-id", id.as_str())
                    .attr("data-action", id.as_str())
                    .attr("role", "menuitem")
                    .class_if("highlighted", hot)
                    .class_if("has-submenu", *has_submenu)
                    .pseudo_if(PseudoFlag::Focus, hot)
                    .pseudo_if(PseudoFlag::Hover, hot)
                    .pseudo_if(PseudoFlag::Disabled, *disabled)
                    .child(Node::el("lq-menu-label").attr("data-part", "label").child(Node::text(label.as_str())));
                if *disabled {
                    item = item.attr("disabled", "true").attr("aria-disabled", "true");
                }
                assert(item.attr_views() =~= seq![
                    ("data-part"@, "item-"@ + dec(i as nat)),
                    ("data-id"@, id@),
                    ("data-action"@, id@),
                    ("role"@, "menuitem"@),
                ] + (if *disabled {
                    seq![("disabled"@, "true"@), ("aria-disabled"@, "true"@)]
                } else {
                    Seq::empty()
                }));
                assert(item.class_views() =~= (if hot { seq!["highlighted"@] } else { Seq::<Seq<char>>::empty() }) + (
                if *has_submenu {
                    seq!["has-submenu"@]
                } else {
                    Seq::<Seq<char>>::empty()
                }));
                item
            },
        }
    }

    /// The render tree: an `lq-menu` (menu role, focusable) with one rendered
    /// node per entry.
    pub fn render(&self) -> (r: Node)
        requires
            self.wf(),
        ensures
            r.tag@ == "lq-menu"@,
            r.attr_views() == seq![("role"@, "menu"@), (FOCUSABLE_ATTR@, "true"@)],
            r.children@.len() == self@.entries.len(),
            forall|i: int| 0 <= i < self@.entries.len() ==> self@.entry_rendered(i, #[trigger] r.children@[i]),
    {
        let mut menu = Node::el("lq-menu").attr("role", "menu").attr(FOCUSABLE_ATTR, bool_text(true));
        assert(menu.attr_views() =~= seq![("role"@, "menu"@), (FOCUSABLE_ATTR@, "true"@)]);
        let mut i: usize = 0;
        while i < self.entries.len()
            invariant
                self.wf(),
                i <= self@.entries.len(),
                menu.tag@ == "lq-menu"@,
                menu.attr_views() == seq![("role"@, "menu"@), (FOCUSABLE_ATTR@, "true"@)],
                menu.children@.len() == i,
                forall|k: int| 0 <= k < i ==> self@.entry_rendered(k, #[trigger] menu.children@[k]),
            decreases self@.entries.len() - i,
        {
            let e = self.render_entry(i);
            menu = menu.child(e);
            i = i + 1;
        }
        menu
    }
}

/// What a wrapping scan finds is an enabled item.
proof fn lemma_scan_act(m: MenuModel, from: int, step: int, forward: bool)
    ensures
        m.scan(from, step, forward) matches Some(i) ==> m.act(i),
    decreases m.entries.len() + 1 - step,
{
    if step < 1 || step > m.entries.len() {
    } else if m.act(m.stepped(from, step, forward)) {
    } else {
        lemma_scan_act(m, from, step + 1, forward);
    }
}

/// What a forward search finds is an enabled item.
proof fn lemma_first_from_act(m: MenuModel, from: int)
    ensures
        m.first_from(from) matches Some(i) ==> m.act(i),
    decreases m.entries.len() - from,
{
    if from < 0 || from >= m.entries.len() {
    } else if m.act(from) {
    } else {
        lemma_first_from_act(m, from + 1);
    }
}

/// What a backward search finds is an enabled item.
proof fn lemma_last_from_act(m: MenuModel, from: int)
    ensures
        m.last_from(from) matches Some(i) ==> m.act(i),
    decreases from + 1,
{
    if from < 0 || from >= m.entries.len() {
    } else if m.act(from) {
    } else {
        lemma_last_from_act(m, from - 1);
    }
}

/// Separators and disabled items are never highlighted: from a valid state,
/// every key, pointer move and click leaves the highlight on an enabled item
/// (or nowhere).
pub proof fn lemma_highlight_only_on_items(m: MenuModel, key: KeyInput, hit: Option<int>, idx: int)
    requires
        m.valid(),
    ensures
        m.on_key(key).0.valid(),
        m.highlight(hit).0.valid(),
        m.activate(idx).0.valid(),
{
    match m.highlighted {
        Some(c) => {
            lemma_scan_act(m, c, 1, true);
            lemma_scan_act(m, c, 1, false);
        },
        None => {},
    }
    lemma_first_from_act(m, 0);
    lemma_last_from_act(m, m.entries.len() - 1);
}

/// Escape always asks the owner to dismiss the menu, and changes nothing.
pub proof fn lemma_escape_dismisses(m: MenuModel, mods: u32)
    ensures
        m.on_key(KeyInput { key: keys::ESCAPE, modifiers: mods }) == (m, OutcomeView::Action(DISMISS_ACTION@, None)),
{
}

/// The menu `m` after `entry` has been called with each of `es`, in order.
pub open spec fn after_entries(m: MenuModel, es: Seq<EntryModel>) -> MenuModel
    decreases es.len(),
{
    if es.len() == 0 {
        m
    } else {
        let prev = after_entries(m, es.drop_last());
        MenuModel { entries: prev.entries.push(es.last()), ..prev }
    }
}

/// Building a menu entry by entry from an empty one gives the same menu as
/// [`Menu::with_entries`] over the same entries (each `entry` adds exactly
/// one), so both behave alike under every later input.
pub proof fn lemma_entries_chain(es: Seq<EntryModel>)
    ensures
        after_entries(MenuModel { entries: Seq::empty(), highlighted: None }, es) == (MenuModel {
            entries: es,
            highlighted: None,
        }),
    decreases es.len(),
{
    if es.len() > 0 {
        lemma_entries_chain(es.drop_last());
        assert(es.drop_last().push(es.last()) =~= es);
    } else {
        assert(es =~= Seq::empty());
    }
}

proof fn lemma_scan_nearest(m: MenuModel, from: int, step: int, forward: bool)
    requires
        1 <= step,
    ensures
        (exists|d: int| step <= d <= m.entries.len() && #[trigger] m.act(m.stepped(from, d, forward))) ==> (m.scan(
            from,
            step,
            forward,
        ) matches Some(t) && exists|d: int|
            step <= d <= m.entries.len() && t == m.stepped(from, d, forward) && m.act(t) && forall|e: int|
                step <= e < d ==> !#[trigger] m.act(m.stepped(from, e, forward))),
    decreases m.entries.len() + 1 - step,
{
    if step <= m.entries.len() && !m.act(m.stepped(from, step, forward)) {
        lemma_scan_nearest(m, from, step + 1, forward);
        if exists|d: int| step <= d <= m.entries.len() && #[trigger] m.act(m.stepped(from, d, forward)) {
            let d = choose|d: int| step <= d <= m.entries.len() && #[trigger] m.act(m.stepped(from, d, forward));
            assert(d >= step + 1);
            let t = m.scan(from, step, forward).unwrap();
            let d2 = choose|d2: int|
                step + 1 <= d2 <= m.entries.len() && t == m.stepped(from, d2, forward) && m.act(t) && forall|e: int|
                    step + 1 <= e < d2 ==> !#[trigger] m.act(m.stepped(from, e, forward));
            assert forall|e: int| step <= e < d2 implies !#[trigger] m.act(m.stepped(from, e, forward)) by {
                if e == step {
                } else {
                    assert(step + 1 <= e < d2);
                }
            }
        }
    } else if step <= m.entries.len() {
        assert(m.scan(from, step, forward) == Some(m.stepped(from, step, forward)));
        assert forall|e: int| step <= e < step implies !#[trigger] m.act(m.stepped(from, e, forward)) by {}
    }
}

proof fn lemma_first_from_nearest(m: MenuModel, from: int)
    requires
        0 <= from,
    ensures
        (exists|j: int| from <= j && #[trigger] m.act(j)) ==> (m.first_from(from) matches Some(t) && from <= t && m.act(t)
            && forall|k: int| from <= k < t ==> !#[trigger] m.act(k)),
    decreases m.entries.len() - from,
{
    if from < m.entries.len() && !m.act(from) {
        lemma_first_from_nearest(m, from + 1);
        if exists|j: int| from <= j && #[trigger] m.act(j) {
            let j = choose|j: int| from <= j && #[trigger] m.act(j);
            assert(j >= from + 1);
        }
    }
}

proof fn lemma_last_from_nearest(m: MenuModel, from: int)
    requires
        from < m.entries.len(),
    ensures
        (exists|j: int| j <= from && #[trigger] m.act(j)) ==> (m.last_from(from) matches Some(t) && t <= from && m.act(t)
            && forall|k: int| t < k <= from ==> !#[trigger] m.act(k)),
    decreases from + 1,
{
    if from >= 0 && !m.act(from) {
        lemma_last_from_nearest(m, from - 1);
        if exists|j: int| j <= from && #[trigger] m.act(j) {
            let j = choose|j: int| j <= from && #[trigger] m.act(j);
            assert(j <= from - 1);
        }
    }
}

/// Right on a highlighted enabled item opens its submenu (the `submenu`
/// action with the item's id) when it has one, and does nothing otherwise;
/// with nothing highlighted it does nothing. The menu itself never changes.
pub proof fn lemma_right_opens_submenu(m: MenuModel, mods: u32, i: int, id: Seq<char>, label: Seq<char>, sub: bool)
    requires
        m.valid(),
    ensures
        m.highlighted == Some(i) && m.entries[i] == EntryModel::Item(id, label, false, sub) ==> m.on_key(
            KeyInput { key: keys::ARROW_RIGHT, modifiers: mods },
        ) == (m, if sub { OutcomeView::Action(SUBMENU_ACTION@, Some(id)) } else { OutcomeView::Ignored }),
        m.highlighted is None ==> m.on_key(KeyInput { key: keys::ARROW_RIGHT, modifiers: mods }) == (m, OutcomeView::Ignored),
{
}

/// Enter on a highlighted enabled item activates it: the `submenu` action
/// for a submenu parent, `activate` otherwise, each with the item's id; the
/// highlight stays. With nothing highlighted Enter does nothing.
pub proof fn lemma_enter_activates_highlight(m: MenuModel, mods: u32, i: int, id: Seq<char>, label: Seq<char>, sub: bool)
    requires
        m.valid(),
    ensures
        m.highlighted == Some(i) && m.entries[i] == EntryModel::Item(id, label, false, sub) ==> m.on_key(
            KeyInput { key: keys::ENTER, modifiers: mods },
        ) == (m, OutcomeView::Action(if sub { SUBMENU_ACTION@ } else { ACTIVATE_ACTION@ }, Some(id))),
        m.highlighted is None ==> m.on_key(KeyInput { key: keys::ENTER, modifiers: mods }) == (m, OutcomeView::Ignored),
{
}

/// Home highlights the first enabled item and End the last one.
pub proof fn lemma_home_end_highlight_first_last(m: MenuModel, mods: u32, j: int)
    requires
        m.valid(),
        m.act(j),
    ensures
        m.on_key(KeyInput { key: keys::HOME, modifiers: mods }).0.highlighted matches Some(t) && m.act(t) && forall|k: int|
            0 <= k < t ==> !#[trigger] m.act(k),
        m.on_key(KeyInput { key: keys::END, modifiers: mods }).0.highlighted matches Some(t) && m.act(t) && forall|k: int|
            t < k < m.entries.len() ==> !#[trigger] m.act(k),
{
    lemma_first_from_nearest(m, 0);
    lemma_last_from_nearest(m, m.entries.len() - 1);
}

/// Position `c + d` on a ring of `n` positions.
pub open spec fn ring_offset(c: int, d: int, n: int) -> int {
    (c + d) % n
}

/// Down moves the highlight to the next enabled item after it and Up to the
/// previous one, wrapping around the menu and skipping separators and
/// disabled items (an only enabled item stays highlighted).
pub proof fn lemma_arrows_step_highlight(m: MenuModel, mods: u32, c: int)
    requires
        m.valid(),
        m.highlighted == Some(c),
    ensures
        ({
            let n = m.entries.len() as int;
            m.on_key(KeyInput { key: keys::ARROW_DOWN, modifiers: mods }).0.highlighted matches Some(t) && m.act(t)
                && exists|d: int| 1 <= d <= n && t == #[trigger] ring_offset(c, d, n) && forall|e: int| 1 <= e < d ==> !#[trigger] m.act(ring_offset(c, e, n))
        }),
        ({
            let n = m.entries.len() as int;
            m.on_key(KeyInput { key: keys::ARROW_UP, modifiers: mods }).0.highlighted matches Some(t) && m.act(t)
                && exists|d: int| 1 <= d <= n && t == #[trigger] ring_offset(c, n - d, n) && forall|e: int| 1 <= e < d ==> !#[trigger] m.act(ring_offset(c, n - e, n))
        }),
{
    let n = m.entries.len() as int;
    assert(m.act(m.stepped(c, n, true))) by {
        assert((c + n) % n == c) by (nonlinear_arith) requires 0 <= c < n;
    }
    assert(m.act(m.stepped(c, n, false))) by {
        assert((c + n - n) % n == c) by (nonlinear_arith) requires 0 <= c < n;
    }
    lemma_scan_nearest(m, c, 1, true);
    lemma_scan_nearest(m, c, 1, false);
    let td = m.scan(c, 1, true).unwrap();
    let dd = choose|d: int| 1 <= d <= n && td == m.stepped(c, d, true) && m.act(td) && forall|e: int|
        1 <= e < d ==> !#[trigger] m.act(m.stepped(c, e, true));
    assert(td == ring_offset(c, dd, n));
    assert forall|e: int| 1 <= e < dd implies !#[trigger] m.act(ring_offset(c, e, n)) by {
        assert(!m.act(m.stepped(c, e, true)));
    }
    let tu = m.scan(c, 1, false).unwrap();
    let du = choose|d: int| 1 <= d <= n && tu == m.stepped(c, d, false) && m.act(tu) && forall|e: int|
        1 <= e < d ==> !#[trigger] m.act(m.stepped(c, e, false));
    assert(tu == ring_offset(c, n - du, n));
    assert forall|e: int| 1 <= e < du implies !#[trigger] m.act(ring_offset(c, n - e, n)) by {
        assert(!m.act(m.stepped(c, e, false)));
    }
}

/// Activating (clicking) an enabled item highlights it and emits `submenu`
/// for a submenu parent or `activate` otherwise, with the item's id;
/// separators and disabled items ignore it. Hovering highlights only
/// enabled items.
pub proof fn lemma_click_activates_item(m: MenuModel, i: int, id: Seq<char>, label: Seq<char>, disabled: bool, sub: bool)
    requires
        0 <= i < m.entries.len(),
    ensures
        m.entries[i] == EntryModel::Item(id, label, false, sub) ==> m.activate(i) == (
            MenuModel { highlighted: Some(i), ..m },
            OutcomeView::Action(if sub { SUBMENU_ACTION@ } else { ACTIVATE_ACTION@ }, Some(id)),
        ),
        m.entries[i] == EntryModel::Item(id, label, true, sub) ==> m.activate(i) == (m, OutcomeView::Ignored),
        m.entries[i] == EntryModel::Separator ==> m.activate(i) == (m, OutcomeView::Ignored),
        m.highlight(Some(i)).0.highlighted == (if m.entries[i] matches EntryModel::Item(_, _, false, _) {
            Some(i)
        } else {
            None
        }),
{
}

} // verus!
