//! `<lq-label>` / `<lq-link>` — static and navigable text.
//!
//! [`Label`] is inert: pure text, no events, not focusable. [`Link`] is a
//! focusable, clickable navigation control: a click inside its box or Enter
//! emits `navigate` with the link's `href`, counting each activation.

use vstd::prelude::*;

use crate::behavior::{KeyInput, OutcomeView, WidgetKind, WidgetOutcome};
use crate::keys;
use crate::node::{no_pseudo, Node, Pseudo, PseudoFlag, FOCUSABLE_ATTR};

verus! {

/// The action a link emits when activated.
pub const NAVIGATE_ACTION: &'static str = "navigate";

/// A static, non-interactive text label.
pub struct Label {
    text: String,
}

impl View for Label {
    type V = Seq<char>;

    closed spec fn view(&self) -> Seq<char> {
        self.text@
    }
}

impl Label {
    /// A label showing `text`.
    pub fn new(text: &str) -> (r: Label)
        ensures
            r@ == text@,
    {
        Label { text: text.to_string() }
    }

    /// The label text.
    pub fn text(&self) -> (r: &str)
        ensures
            r@ == self@,
    {
        self.text.as_str()
    }

    /// The widget family.
    pub fn kind(&self) -> (r: WidgetKind)
        ensures
            r == WidgetKind::Label,
    {
        WidgetKind::Label
    }

    /// A label never takes focus.
    pub fn focusable(&self) -> (r: bool)
        ensures
            !r,
    {
        false
    }

    /// The render tree: an `lq-label` holding the text.
    pub fn render(&self) -> (r: Node)
        ensures
            r.tag@ == "lq-label"@,
            r.attrs@.len() == 0,
            r.pseudo == no_pseudo(),
            r.children@.len() == 1,
            r.first_text() == self@,
    {
        Node::el("lq-label").child(Node::text(self.text.as_str()))
    }
}

/// A focusable, clickable hyperlink.
pub struct Link {
    text: String,
    href: String,
    hovered: bool,
    pressed: bool,
    navigations: u32,
}

/// The abstract state of a [`Link`].
pub struct LinkModel {
    pub text: Seq<char>,
    pub href: Seq<char>,
    pub hovered: bool,
    pub pressed: bool,
    pub navigations: nat,
}

impl LinkModel {
    /// Activation: one more navigation, `navigate` with the href.
    pub open spec fn activate(self) -> (LinkModel, OutcomeView) {
        (LinkModel { navigations: self.navigations + 1, ..self }, OutcomeView::Action(NAVIGATE_ACTION@, Some(self.href)))
    }

    /// Enter activates; other keys are ignored.
    pub open spec fn on_key(self, key: KeyInput) -> (LinkModel, OutcomeView) {
        if key.key == keys::ENTER {
            self.activate()
        } else {
            (self, OutcomeView::Ignored)
        }
    }

    /// The pointer entering the link.
    pub open spec fn on_enter(self) -> (LinkModel, OutcomeView) {
        if self.hovered {
            (self, OutcomeView::Ignored)
        } else {
            (LinkModel { hovered: true, ..self }, OutcomeView::Changed)
        }
    }

    /// The pointer leaving the link (releasing a press too).
    pub open spec fn on_leave(self) -> (LinkModel, OutcomeView) {
        if !self.hovered && !self.pressed {
            (self, OutcomeView::Ignored)
        } else {
            (LinkModel { hovered: false, pressed: false, ..self }, OutcomeView::Changed)
        }
    }

    /// The left button going down.
    pub open spec fn on_down(self) -> (LinkModel, OutcomeView) {
        (LinkModel { pressed: true, ..self }, OutcomeView::Changed)
    }

    /// The left button going up.
    pub open spec fn on_up(self) -> (LinkModel, OutcomeView) {
        if !self.pressed {
            (self, OutcomeView::Ignored)
        } else {
            (LinkModel { pressed: false, ..self }, OutcomeView::Changed)
        }
    }

    /// A left click, `inside` the link's box or not.
    pub open spec fn on_click(self, inside: bool) -> (LinkModel, OutcomeView) {
        if !inside {
            (self, OutcomeView::Ignored)
        } else {
            self.activate()
        }
    }
}

/// Enter and a click inside the link navigate: one more navigation is
/// counted and `navigate` carries the href; other keys and clicks outside
/// change nothing.
pub proof fn lemma_link_navigates(m: LinkModel, key: KeyInput)
    ensures
        key.key == keys::ENTER ==> m.on_key(key).0.navigations == m.navigations + 1 && m.on_key(key).1
            == OutcomeView::Action(NAVIGATE_ACTION@, Some(m.href)),
        key.key != keys::ENTER ==> m.on_key(key) == (m, OutcomeView::Ignored),
        m.on_click(true).0.navigations == m.navigations + 1,
        m.on_click(true).1 == OutcomeView::Action(NAVIGATE_ACTION@, Some(m.href)),
        m.on_click(false) == (m, OutcomeView::Ignored),
{
}

impl View for Link {
    type V = LinkModel;

    closed spec fn view(&self) -> LinkModel {
        LinkModel {
            text: self.text@,
            href: self.href@,
            hovered: self.hovered,
            pressed: self.pressed,
            navigations: self.navigations as nat,
        }
    }
}

impl Link {
    /// A link labelled `text` pointing at `href`.
    pub fn new(text: &str, href: &str) -> (r: Link)
        ensures
            r@ == (LinkModel { text: text@, href: href@, hovered: false, pressed: false, navigations: 0 }),
    {
        Link { text: text.to_string(), href: href.to_string(), hovered: false, pressed: false, navigations: 0 }
    }

    /// The link target.
    pub fn href(&self) -> (r: &str)
        ensures
            r@ == self@.href,
    {
        self.href.as_str()
    }

    /// How many times the link has been activated.
    pub fn navigations(&self) -> (r: u32)
        ensures
            r == self@.navigations,
    {
        self.navigations
    }

    /// Whether the link is hovered.
    pub fn is_hovered(&self) -> (r: bool)
        ensures
            r == self@.hovered,
    {
        self.hovered
    }

    /// The widget family.
    pub fn kind(&self) -> (r: WidgetKind)
        ensures
            r == WidgetKind::Label,
    {
        WidgetKind::Label
    }

    /// A link always takes focus.
    pub fn focusable(&self) -> (r: bool)
        ensures
            r,
    {
        true
    }

    fn activate(&mut self) -> (out: WidgetOutcome)
        requires
            old(self)@.navigations < u32::MAX,
        ensures
            (final(self)@, out@) == old(self)@.activate(),
    {
        self.navigations = self.navigations + 1;
        WidgetOutcome::action_with(NAVIGATE_ACTION, self.href.clone())
    }

    /// Handles a key press (the activation count must have room to grow).
    pub fn on_keyboard(&mut self, key: KeyInput) -> (out: WidgetOutcome)
        requires
            key.key == keys::ENTER ==> old(self)@.navigations < u32::MAX,
        ensures
            (final(self)@, out@) == old(self)@.on_key(key),
    {
        if key.key == keys::ENTER {
            return self.activate();
        }
        WidgetOutcome::Ignored
    }

    /// Handles the pointer entering the link.
    pub fn on_mouse_enter(&mut self) -> (out: WidgetOutcome)
        ensures
            (final(self)@, out@) == old(self)@.on_enter(),
    {
        if self.hovered {
            return WidgetOutcome::Ignored;
        }
        self.hovered = true;
        WidgetOutcome::Changed
    }

    /// Handles the pointer leaving the link.
    pub fn on_mouse_leave(&mut self) -> (out: WidgetOutcome)
        ensures
            (final(self)@, out@) == old(self)@.on_leave(),
    {
        if !self.hovered && !self.pressed {
            return WidgetOutcome::Ignored;
        }
        self.hovered = false;
        self.pressed = false;
        WidgetOutcome::Changed
    }

    /// Handles the left button going down on the link.
    pub fn on_mouse_down(&mut self) -> (out: WidgetOutcome)
        ensures
            (final(self)@, out@) == old(self)@.on_down(),
    {
        self.pressed = true;
        WidgetOutcome::Changed
    }

    /// Handles the left button going up.
    pub fn on_mouse_up(&mut self) -> (out: WidgetOutcome)
        ensures
            (final(self)@, out@) == old(self)@.on_up(),
    {
        if !self.pressed {
            return WidgetOutcome::Ignored;
        }
        self.pressed = false;
        WidgetOutcome::Changed
    }

    /// Handles a left click; `inside` says whether it landed in the link's
    /// laid-out box (the activation count must have room to grow).
    pub fn on_click(&mut self, inside: bool) -> (out: WidgetOutcome)
        requires
            inside ==> old(self)@.navigations < u32::MAX,
        ensures
            (final(self)@, out@) == old(self)@.on_click(inside),
    {
        if !inside {
            return WidgetOutcome::Ignored;
        }
        self.activate()
    }

    /// The render tree: an `lq-link` carrying the action and target.
    pub fn render(&self) -> (r: Node)
        ensures
            r.tag@ == "lq-link"@,
            r.attr_views() == seq![("data-action"@, NAVIGATE_ACTION@), ("data-href"@, self@.href), (FOCUSABLE_ATTR@, "true"@)],
            r.pseudo == (Pseudo { hover: self@.hovered, active: self@.pressed, focus: false, checked: false, disabled: false }),
            r.children@.len() == 1,
            r.first_text() == self@.text,
    {
        let r = Node::el("lq-link")
            .attr("data-action", NAVIGATE_ACTION)
            .attr("data-href", self.href.as_str())
            .attr(FOCUSABLE_ATTR, "true")
            .pseudo_if(PseudoFlag::Hover, self.hovered)
            .pseudo_if(PseudoFlag::Active, self.pressed)
            .child(Node::text(self.text.as_str()));
        assert(r.attr_views() =~= seq![("data-action"@, NAVIGATE_ACTION@), ("data-href"@, self@.href), (FOCUSABLE_ATTR@, "true"@)]);
        r
    }
}

} // verus!
