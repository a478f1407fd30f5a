//! `<lq-split-button>` — a primary action button plus a caret that opens a
//! menu of secondary actions.
//!
//! A click on the primary zone emits the primary action id; the caret toggles
//! the menu; a click on a menu item emits its id and closes; a click
//! elsewhere while open dismisses. Keyboard: Enter/Space fire the primary
//! action (or, while open, the highlighted item); Down opens the menu or
//! moves the highlight; Up moves it back; Escape closes.

use vstd::prelude::*;

use crate::behavior::{opt_int, KeyInput, OutcomeView, WidgetKind, WidgetOutcome};
use crate::keys;
use crate::list::opt_below;
use crate::node::{bool_str, bool_text, Node, Pseudo, PseudoFlag, FOCUSABLE_ATTR};
use crate::text::{dec, prefixed};

verus! {

/// The glyph shown in the caret zone (a small down-pointing triangle).
pub const CARET_GLYPH: &'static str = "\u{25BE}";

/// What a click landed on, as resolved by the host against the laid-out
/// boxes: a menu row (`item-<i>`, only while open) first, then the `caret`,
/// then the `primary` zone.
#[derive(Clone, Copy, Debug, PartialEq, Eq, Structural)]
pub enum SplitHit {
    Primary,
    Caret,
    Item(usize),
}

/// A split-button widget.
pub struct SplitButton {
    primary: (String, String),
    items: Vec<(String, String)>,
    open: bool,
    highlighted: Option<usize>,
    hovered: Option<usize>,
    disabled: bool,
}

/// The abstract state of a [`SplitButton`].
pub struct SplitModel {
    pub primary: (Seq<char>, Seq<char>),
    pub items: Seq<(Seq<char>, Seq<char>)>,
    pub open: bool,
    pub highlighted: Option<int>,
    pub hovered: Option<int>,
    pub disabled: bool,
}

impl SplitModel {
    /// The highlight and hover are items; the menu is open only when there
    /// are items, and a closed menu has no highlight.
    pub open spec fn valid(self) -> bool {
        &&& opt_below(self.highlighted, self.items.len() as int)
        &&& opt_below(self.hovered, self.items.len() as int)
        &&& (self.open ==> self.items.len() > 0)
        &&& (!self.open ==> self.highlighted is None)
    }

    /// Opening the menu with the first item highlighted.
    pub open spec fn open_menu(self) -> (SplitModel, OutcomeView) {
        if self.open || self.items.len() == 0 {
            (self, OutcomeView::Ignored)
        } else {
            (SplitModel { open: true, highlighted: Some(0), ..self }, OutcomeView::Changed)
        }
    }

    /// Closing the menu (clearing highlight and hover).
    pub open spec fn close_menu(self) -> (SplitModel, OutcomeView) {
        if !self.open {
            (self, OutcomeView::Ignored)
        } else {
            (SplitModel { open: false, highlighted: None, hovered: None, ..self }, OutcomeView::Changed)
        }
    }

    /// Firing the primary action.
    pub open spec fn fire_primary(self) -> (SplitModel, OutcomeView) {
        (self, OutcomeView::Action(self.primary.0, None))
    }

    /// Choosing item `idx`: its id as the action, and the menu closes.
    pub open spec fn choose_item(self, idx: int) -> (SplitModel, OutcomeView) {
        if idx < 0 || idx >= self.items.len() {
            (self, OutcomeView::Ignored)
        } else {
            (SplitModel { open: false, highlighted: None, hovered: None, ..self }, OutcomeView::Action(self.items[idx].0, None))
        }
    }

    /// The highlight after one step `forward` (or back), clamped to the
    /// items.
    pub open spec fn step_highlight(self, forward: bool) -> int {
        let n = self.items.len() as int;
        match self.highlighted {
            Some(h) => if forward {
                if h + 1 < n - 1 { h + 1 } else { n - 1 }
            } else {
                if h == 0 { 0 } else { h - 1 }
            },
            None => if forward { 0 } else { n - 1 },
        }
    }

    /// Moving the highlight one step.
    pub open spec fn move_highlight(self, forward: bool) -> (SplitModel, OutcomeView) {
        if self.items.len() == 0 {
            (self, OutcomeView::Ignored)
        } else {
            (SplitModel { highlighted: Some(self.step_highlight(forward)), ..self }, OutcomeView::Changed)
        }
    }

    /// The keyboard transition.
    pub open spec fn on_key(self, key: KeyInput) -> (SplitModel, OutcomeView) {
        let k = key.key;
        if self.disabled {
            (self, OutcomeView::Ignored)
        } else if k == keys::ENTER || k == keys::SPACE {
            if self.open {
                match self.highlighted {
                    Some(i) => self.choose_item(i),
                    None => (self, OutcomeView::Ignored),
                }
            } else {
                self.fire_primary()
            }
        } else if k == keys::ARROW_DOWN {
            if !self.open { self.open_menu() } else { self.move_highlight(true) }
        } else if k == keys::ARROW_UP {
            if !self.open { (self, OutcomeView::Ignored) } else { self.move_highlight(false) }
        } else if k == keys::ESCAPE {
            self.close_menu()
        } else {
            (self, OutcomeView::Ignored)
        }
    }

    /// The pointer moving over menu row `hit` (or over none).
    pub open spec fn on_move(self, hit: Option<int>) -> (SplitModel, OutcomeView) {
        if self.disabled || !self.open || hit == self.hovered {
            (self, OutcomeView::Ignored)
        } else {
            (SplitModel { hovered: hit, ..self }, OutcomeView::Changed)
        }
    }

    /// The pointer leaving the widget.
    pub open spec fn on_leave(self) -> (SplitModel, OutcomeView) {
        if self.disabled || self.hovered is None {
            (self, OutcomeView::Ignored)
        } else {
            (SplitModel { hovered: None, ..self }, OutcomeView::Changed)
        }
    }

    /// A left click on `hit` (or on nothing of the widget).
    pub open spec fn on_click(self, hit: Option<SplitHit>) -> (SplitModel, OutcomeView) {
        if self.disabled {
            (self, OutcomeView::Ignored)
        } else if self.open {
            match hit {
                Some(SplitHit::Item(i)) => self.choose_item(i as int),
                _ => self.close_menu(),
            }
        } else {
            match hit {
                Some(SplitHit::Primary) => self.fire_primary(),
                Some(SplitHit::Caret) => self.open_menu(),
                _ => (self, OutcomeView::Ignored),
            }
        }
    }

    /// Whether `c` renders menu item `i`.
    pub open spec fn item_rendered(self, i: int, c: Node) -> bool {
        let hot = self.highlighted == Some(i);
        &&& c.tag@ == "lq-menu-item"@
        &&& c.key matches Some(k) && k@ == self.items[i].0
        &&& c.attr_views() == seq![
            ("data-part"@, "item-"@ + dec(i as nat)),
            ("data-action"@, self.items[i].0),
            ("role"@, "menuitem"@),
        ]
        &&& c.class_views() == (if hot { seq!["highlighted"@] } else { Seq::empty() })
        &&& c.pseudo == (Pseudo { hover: self.hovered == Some(i), active: false, focus: hot, checked: false, disabled: false })
        &&& c.children@.len() == 1
        &&& c.first_text() == self.items[i].1
    }
}

/// Escape always leaves the menu closed (on an enabled button), and choosing
/// a menu item by click closes it too.
pub proof fn lemma_escape_and_choice_close(m: SplitModel, key: KeyInput, i: usize)
    requires
        m.valid(),
        !m.disabled,
    ensures
        key.key == keys::ESCAPE ==> !m.on_key(key).0.open,
        m.open && i < m.items.len() ==> !m.on_click(Some(SplitHit::Item(i))).0.open,
        m.on_key(key).0.valid(),
        m.on_click(Some(SplitHit::Item(i))).0.valid(),
{
}

/// On an enabled split button: with the menu closed, Enter/Space fire the
/// primary action and Down opens the menu on its first item; with it open,
/// Down and Up move the highlight one item (stopping at the ends) and
/// Enter/Space choose the highlighted item, emitting its id and closing the
/// menu.
pub proof fn lemma_keys_drive_menu(m: SplitModel, key: KeyInput)
    requires
        m.valid(),
        !m.disabled,
    ensures
        !m.open && (key.key == keys::ENTER || key.key == keys::SPACE) ==> m.on_key(key) == (m, OutcomeView::Action(
            m.primary.0,
            None,
        )),
        !m.open && m.items.len() > 0 && key.key == keys::ARROW_DOWN ==> m.on_key(key).0.open
            && m.on_key(key).0.highlighted == Some(0int),
        m.open && key.key == keys::ARROW_DOWN ==> (m.highlighted matches Some(h) && m.on_key(key).0.highlighted == Some(
            if h == m.items.len() - 1 { h } else { h + 1 },
        ) || m.highlighted is None && m.on_key(key).0.highlighted == Some(0int)),
        m.open && key.key == keys::ARROW_UP ==> (m.highlighted matches Some(h) && m.on_key(key).0.highlighted == Some(
            if h == 0 { 0 } else { h - 1 },
        ) || m.highlighted is None && m.on_key(key).0.highlighted == Some(m.items.len() - 1)),
        m.open && (key.key == keys::ENTER || key.key == keys::SPACE) && m.highlighted is Some ==> ({
            let i = m.highlighted.unwrap();
            &&& m.on_key(key).1 == OutcomeView::Action(m.items[i].0, None)
            &&& !m.on_key(key).0.open
        }),
{
}

impl View for SplitButton {
    type V = SplitModel;

    closed spec fn view(&self) -> SplitModel {
        SplitModel {
            primary: (self.primary.0@, self.primary.1@),
            items: self.items@.map_values(|p: (String, String)| (p.0@, p.1@)),
            open: self.open,
            highlighted: opt_int(self.highlighted),
            hovered: opt_int(self.hovered),
            disabled: self.disabled,
        }
    }
}

impl SplitButton {
    /// The representation invariant.
    pub open spec fn wf(&self) -> bool {
        self@.valid()
    }

    /// A split button with primary action `(primary_id, primary_label)` and
    /// secondary `(id, label)` items; the menu starts closed.
    pub fn new(primary_id: &str, primary_label: &str, items: Vec<(String, String)>) -> (r: SplitButton)
        ensures
            r.wf(),
            r@ == (SplitModel {
                primary: (primary_id@, primary_label@),
                items: items@.map_values(|p: (String, String)| (p.0@, p.1@)),
                open: false,
                highlighted: None,
                hovered: None,
                disabled: false,
            }),
    {
        SplitButton {
            primary: (primary_id.to_string(), primary_label.to_string()),
            items,
            open: false,
            highlighted: None,
            hovered: None,
            disabled: false,
        }
    }

    /// Marks disabled (or enabled).
    pub fn disabled(self, d: bool) -> (r: SplitButton)
        requires
            self.wf(),
        ensures
            r.wf(),
            r@ == (SplitModel { disabled: d, ..self@ }),
    {
        SplitButton { disabled: d, ..self }
    }

    /// Whether the menu is open.
    pub fn is_open(&self) -> (r: bool)
        ensures
            r == self@.open,
    {
        self.open
    }

    /// The primary action id.
    pub fn primary_id(&self) -> (r: &str)
        ensures
            r@ == self@.primary.0,
    {
        self.primary.0.as_str()
    }

    /// The highlighted menu item (while open).
    pub fn highlighted(&self) -> (r: Option<usize>)
        ensures
            opt_int(r) == self@.highlighted,
    {
        self.highlighted
    }

    /// Number of secondary items.
    pub fn item_count(&self) -> (r: usize)
        ensures
            r == self@.items.len(),
    {
        self.items.len()
    }

    /// The widget family.
    pub fn kind(&self) -> (r: WidgetKind)
        ensures
            r == WidgetKind::Button,
    {
        WidgetKind::Button
    }

    /// Whether the button takes focus (unless disabled).
    pub fn focusable(&self) -> (r: bool)
        ensures
            r == !self@.disabled,
    {
        !self.disabled
    }

    fn open_menu(&mut self) -> (out: WidgetOutcome)
        requires
            old(self).wf(),
        ensures
            final(self).wf(),
            (final(self)@, out@) == old(self)@.open_menu(),
    {
        if self.open || self.items.len() == 0 {
            return WidgetOutcome::Ignored;
        }
        self.open = true;
        self.highlighted = Some(0);
        WidgetOutcome::Changed
    }

    fn close_menu(&mut self) -> (out: WidgetOutcome)
        requires
            old(self).wf(),
        ensures
            final(self).wf(),
            (final(self)@, out@) == old(self)@.close_menu(),
    {
        if !self.open {
            return WidgetOutcome::Ignored;
        }
        self.open = false;
        self.highlighted = None;
        self.hovered = None;
        WidgetOutcome::Changed
    }

    fn fire_primary(&self) -> (out: WidgetOutcome)
        ensures
            out@ == self@.fire_primary().1,
    {
        WidgetOutcome::action(self.primary.0.as_str())
    }

    fn choose_item(&mut self, idx: usize) -> (out: WidgetOutcome)
        requires
            old(self).wf(),
        ensures
            final(self).wf(),
            (final(self)@, out@) == old(self)@.choose_item(idx as int),
    {
        if idx >= self.items.len() {
            return WidgetOutcome::Ignored;
        }
        let out = WidgetOutcome::action(self.items[idx].0.as_str());
        self.open = false;
        self.highlighted = None;
        self.hovered = None;
        out
    }

    fn move_highlight(&mut self, forward: bool) -> (out: WidgetOutcome)
        requires
            old(self).wf(),
            old(self)@.open,
        ensures
            final(self).wf(),
            (final(self)@, out@) == old(self)@.move_highlight(forward),
    {
        let n = self.items.len();
        if n == 0 {
            return WidgetOutcome::Ignored;
        }
        let next = match self.highlighted {
            Some(h) => if forward {
                if h + 1 < n - 1 { h + 1 } else { n - 1 }
            } else {
                if h == 0 { 0 } else { h - 1 }
            },
            None => if forward { 0 } else { n - 1 },
        };
        self.highlighted = Some(next);
        WidgetOutcome::Changed
    }

    /// Handles a key press.
    pub fn on_keyboard(&mut self, key: KeyInput) -> (out: WidgetOutcome)
        requires
            old(self).wf(),
        ensures
            final(self).wf(),
            (final(self)@, out@) == old(self)@.on_key(key),
    {
        if self.disabled {
            return WidgetOutcome::Ignored;
        }
        let k = key.key;
        if k == keys::ENTER || k == keys::SPACE {
            if self.open {
                match self.highlighted {
                    Some(i) => self.choose_item(i),
                    None => WidgetOutcome::Ignored,
                }
            } else {
                self.fire_primary()
            }
        } else if k == keys::ARROW_DOWN {
            if !self.open { self.open_menu() } else { self.move_highlight(true) }
        } else if k == keys::ARROW_UP {
            if !self.open { WidgetOutcome::Ignored } else { self.move_highlight(false) }
        } else if k == keys::ESCAPE {
            self.close_menu()
        } else {
            WidgetOutcome::Ignored
        }
    }

    /// Handles the pointer moving over menu row `hit` (or over none).
    pub fn on_mouse_move(&mut self, hit: Option<usize>) -> (out: WidgetOutcome)
        requires
            old(self).wf(),
            hit matches Some(i) ==> i < old(self)@.items.len(),
        ensures
            final(self).wf(),
            (final(self)@, out@) == old(self)@.on_move(opt_int(hit)),
    {
        if self.disabled || !self.open || hit == self.hovered {
            return WidgetOutcome::Ignored;
        }
        self.hovered = hit;
        WidgetOutcome::Changed
    }

    /// Handles the pointer leaving the widget.
    pub fn on_mouse_leave(&mut self) -> (out: WidgetOutcome)
        requires
            old(self).wf(),
        ensures
            final(self).wf(),
            (final(self)@, out@) == old(self)@.on_leave(),
    {
        if self.disabled || self.hovered.is_none() {
            return WidgetOutcome::Ignored;
        }
        self.hovered = None;
        WidgetOutcome::Changed
    }

    /// Handles a left click on `hit` (or on nothing of the widget).
    pub fn on_click(&mut self, hit: Option<SplitHit>) -> (out: WidgetOutcome)
        requires
            old(self).wf(),
        ensures
            final(self).wf(),
            (final(self)@, out@) == old(self)@.on_click(hit),
    {
        if self.disabled {
            return WidgetOutcome::Ignored;
        }
        if self.open {
            match hit {
                Some(SplitHit::Item(i)) => self.choose_item(i),
                _ => self.close_menu(),
            }
        } else {
            match hit {
                Some(SplitHit::Primary) => self.fire_primary(),
                Some(SplitHit::Caret) => self.open_menu(),
                _ => WidgetOutcome::Ignored,
            }
        }
    }

    /// The render tree: an `lq-split-button` with the primary zone, the caret
    /// zone and, while open, the menu popup.
    pub fn render(&self) -> (r: Node)
        requires
            self.wf(),
        ensures
            r.tag@ == "lq-split-button"@,
            r.attr_views() == seq![(FOCUSABLE_ATTR@, bool_str(!self@.disabled)), ("role"@, "group"@)]
                + (if self@.disabled { seq![("disabled"@, "true"@)] } else { Seq::empty() }),
            r.class_views() == (if self@.open { seq!["open"@] } else { Seq::empty() }),
            r.pseudo.disabled == self@.disabled,
            r.children@.len() == (if self@.open { 3int } else { 2int }),
            r.children@[0].tag@ == "lq-split-primary"@,
            r.children@[0].attr_views() == seq![("data-part"@, "primary"@), ("role"@, "button"@), ("data-action"@, self@.primary.0)],
            r.children@[0].pseudo.disabled == self@.disabled,
            r.children@[0].children@.len() == 1,
            r.children@[0].first_text() == self@.primary.1,
            r.children@[1].tag@ == "lq-split-caret"@,
            r.children@[1].attr_views() == seq![
                ("data-part"@, "caret"@),
                ("role"@, "button"@),
                ("aria-label"@, "More actions"@),
                ("aria-expanded"@, bool_str(self@.open)),
            ],
            r.children@[1].pseudo.active == self@.open,
            r.children@[1].pseudo.disabled == self@.disabled,
            r.children@[1].children@.len() == 1,
            r.children@[1].first_text() == CARET_GLYPH@,
            self@.open ==> r.children@[2].tag@ == "lq-popup"@,
            self@.open ==> r.children@[2].attr_views() == seq![("data-part"@, "popup"@), ("role"@, "menu"@)],
            self@.open ==> r.children@[2].children@.len() == self@.items.len(),
            self@.open ==> forall|i: int| 0 <= i < self@.items.len() ==> self@.item_rendered(i, #[trigger] r.children@[2].children@[i]),
    {
        let mut root = Node::el("lq-split-button")
            .attr(FOCUSABLE_ATTR, bool_text(!self.disabled))
            .attr("role", "group")
            .class_if("open", self.open)
            .pseudo_if(PseudoFlag::Disabled, self.disabled);
        let primary = Node::el("lq-split-primary")
            .attr("data-part", "primary")
            .attr("role", "button")
            .attr("data-action", self.primary.0.as_str())
            .pseudo_if(PseudoFlag::Disabled, self.disabled)
            .child(Node::text(self.primary.1.as_str()));
        assert(primary.attr_views() =~= seq![("data-part"@, "primary"@), ("role"@, "button"@), ("data-action"@, self@.primary.0)]);
        root = root.child(primary);
        let caret = Node::el("lq-split-caret")
            .attr("data-part", "caret")
            .attr("role", "button")
            .attr("aria-label", "More actions")
            .attr("aria-expanded", bool_text(self.open))
            .pseudo_if(PseudoFlag::Active, self.open)
            .pseudo_if(PseudoFlag::Disabled, self.disabled)
            .child(Node::text(CARET_GLYPH));
        assert(caret.attr_views() =~= seq![
            ("data-part"@, "caret"@),
            ("role"@, "button"@),
            ("aria-label"@, "More actions"@),
            ("aria-expanded"@, bool_str(self@.open)),
        ]);
        root = root.child(caret);
        if self.open {
            let mut popup = Node::el("lq-popup").attr("data-part", "popup").attr("role", "menu");
            assert(popup.attr_views() =~= seq![("data-part"@, "popup"@), ("role"@, "menu"@)]);
            let mut i: usize = 0;
            while i < self.items.len()
                invariant
                    self.wf(),
                    i <= self@.items.len(),
                    popup.tag@ == "lq-popup"@,
                    popup.attr_views() == seq![("data-part"@, "popup"@), ("role"@, "menu"@)],
                    popup.children@.len() == i,
                    forall|k: int| 0 <= k < i ==> self@.item_rendered(k, #[trigger] popup.children@[k]),
                decreases self@.items.len() - i,
            {
                let hot = self.highlighted == Some(i);
                let id = self.items[i].0.as_str();
                let part = prefixed("item-", i);
                let item = Node::el("lq-menu-item")
                    .key(id)
                    .attr("data-part", part.as_str())
                    .attr("data-action", id)
                    .attr("role", "menuitem")
                    .class_if("highlighted", hot)
                    .pseudo_if(PseudoFlag::Focus, hot)
                    .pseudo_if(PseudoFlag::Hover, self.hovered == Some(i))
                    .child(Node::text(self.items[i].1.as_str()));
                assert(item.attr_views() =~= seq![
                    ("data-part"@, "item-"@ + dec(i as nat)),
                    ("data-action"@, self@.items[i as int].0),
                    ("role"@, "menuitem"@),
                ]);
                assert(item.class_views() =~= (if hot { seq!["highlighted"@] } else { Seq::<Seq<char>>::empty() }));
                popup = popup.child(item);
                i = i + 1;
            }
            root = root.child(popup);
        }
        if self.disabled {
            root = root.attr("disabled", "true");
        }
        assert(root.attr_views() =~= seq![(FOCUSABLE_ATTR@, bool_str(!self@.disabled)), ("role"@, "group"@)]
            + (if self@.disabled { seq![("disabled"@, "true"@)] } else { Seq::empty() }));
        assert(root.class_views() =~= (if self@.open { seq!["open"@] } else { Seq::<Seq<char>>::empty() }));
        root
    }
}

} // verus!
