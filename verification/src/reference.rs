//! `<lq-box>` — the reference widget that exercises the host plumbing end to
//! end: a click inside its laid-out box emits its action and counts, and
//! pointer enter/leave/down/up drive its `:hover` and `:active` states.

use vstd::prelude::*;

use crate::behavior::{OutcomeView, WidgetKind, WidgetOutcome};
use crate::node::{Node, Pseudo, PseudoFlag, FOCUSABLE_ATTR};

verus! {

/// A reference widget that emits an action on click and tracks pointer
/// state.
pub struct ReferenceBox {
    action: String,
    pressed: bool,
    hovered: bool,
    clicks: u32,
}

/// The abstract state of a [`ReferenceBox`].
pub struct ReferenceModel {
    pub action: Seq<char>,
    pub pressed: bool,
    pub hovered: bool,
    pub clicks: nat,
}

impl ReferenceModel {
    /// The pointer entering the box.
    pub open spec fn on_enter(self) -> (ReferenceModel, OutcomeView) {
        if self.hovered {
            (self, OutcomeView::Ignored)
        } else {
            (ReferenceModel { hovered: true, ..self }, OutcomeView::Changed)
        }
    }

    /// The pointer leaving the box (releasing a press too).
    pub open spec fn on_leave(self) -> (ReferenceModel, OutcomeView) {
        if !self.hovered {
            (self, OutcomeView::Ignored)
        } else {
            (ReferenceModel { hovered: false, pressed: false, ..self }, OutcomeView::Changed)
        }
    }

    /// The left button going down.
    pub open spec fn on_down(self) -> (ReferenceModel, OutcomeView) {
        (ReferenceModel { pressed: true, ..self }, OutcomeView::Changed)
    }

    /// The left button going up.
    pub open spec fn on_up(self) -> (ReferenceModel, OutcomeView) {
        if !self.pressed {
            (self, OutcomeView::Ignored)
        } else {
            (ReferenceModel { pressed: false, ..self }, OutcomeView::Changed)
        }
    }

    /// A left click, `inside` the box or not: one more click and the action.
    pub open spec fn on_click(self, inside: bool) -> (ReferenceModel, OutcomeView) {
        if !inside {
            (self, OutcomeView::Ignored)
        } else {
            (ReferenceModel { clicks: self.clicks + 1, ..self }, OutcomeView::Action(self.action, None))
        }
    }
}

/// A click inside counts one more click and emits the box's action; a click
/// outside changes nothing. Pressing and releasing only track the button,
/// and entering then leaving the box drops both hover and press.
pub proof fn lemma_reference_pointer(m: ReferenceModel)
    ensures
        m.on_click(true).0.clicks == m.clicks + 1,
        m.on_click(true).1 == OutcomeView::Action(m.action, None),
        m.on_click(false) == (m, OutcomeView::Ignored),
        m.on_down().0.pressed && m.on_down().0.clicks == m.clicks,
        !m.on_down().0.on_up().0.pressed && m.on_down().0.on_up().0.clicks == m.clicks,
        !m.on_enter().0.on_leave().0.hovered && !m.on_enter().0.on_leave().0.pressed,
{
}

impl View for ReferenceBox {
    type V = ReferenceModel;

    closed spec fn view(&self) -> ReferenceModel {
        ReferenceModel {
            action: self.action@,
            pressed: self.pressed,
            hovered: self.hovered,
            clicks: self.clicks as nat,
        }
    }
}

impl ReferenceBox {
    /// A reference box that emits `action` on click.
    pub fn new(action: &str) -> (r: ReferenceBox)
        ensures
            r@ == (ReferenceModel { action: action@, pressed: false, hovered: false, clicks: 0 }),
    {
        ReferenceBox { action: action.to_string(), pressed: false, hovered: false, clicks: 0 }
    }

    /// Completed click count.
    pub fn clicks(&self) -> (r: u32)
        ensures
            r == self@.clicks,
    {
        self.clicks
    }

    /// Whether the box is pressed (`:active`).
    pub fn is_pressed(&self) -> (r: bool)
        ensures
            r == self@.pressed,
    {
        self.pressed
    }

    /// Whether the box is hovered (`:hover`).
    pub fn is_hovered(&self) -> (r: bool)
        ensures
            r == self@.hovered,
    {
        self.hovered
    }

    /// The widget family.
    pub fn kind(&self) -> (r: WidgetKind)
        ensures
            r == WidgetKind::Reference,
    {
        WidgetKind::Reference
    }

    /// Handles the pointer entering the box.
    pub fn on_mouse_enter(&mut self) -> (out: WidgetOutcome)
        ensures
            (final(self)@, out@) == old(self)@.on_enter(),
    {
        if self.hovered {
            return WidgetOutcome::Ignored;
        }
        self.hovered = true;
        WidgetOutcome::Changed
    }

    /// Handles the pointer leaving the box.
    pub fn on_mouse_leave(&mut self) -> (out: WidgetOutcome)
        ensures
            (final(self)@, out@) == old(self)@.on_leave(),
    {
        if !self.hovered {
            return WidgetOutcome::Ignored;
        }
        self.hovered = false;
        self.pressed = false;
        WidgetOutcome::Changed
    }

    /// Handles the left button going down.
    pub fn on_mouse_down(&mut self) -> (out: WidgetOutcome)
        ensures
            (final(self)@, out@) == old(self)@.on_down(),
    {
        self.pressed = true;
        WidgetOutcome::Changed
    }

    /// Handles the left button going up.
    pub fn on_mouse_up(&mut self) -> (out: WidgetOutcome)
        ensures
            (final(self)@, out@) == old(self)@.on_up(),
    {
        if !self.pressed {
            return WidgetOutcome::Ignored;
        }
        self.pressed = false;
        WidgetOutcome::Changed
    }

    /// Handles a left click; `inside` says whether it landed in the box's
    /// laid-out rectangle (the click count must have room to grow).
    pub fn on_click(&mut self, inside: bool) -> (out: WidgetOutcome)
        requires
            inside ==> old(self)@.clicks < u32::MAX,
        ensures
            (final(self)@, out@) == old(self)@.on_click(inside),
    {
        if !inside {
            return WidgetOutcome::Ignored;
        }
        self.clicks = self.clicks + 1;
        WidgetOutcome::action(self.action.as_str())
    }

    /// The render tree: an `lq-box` carrying its action.
    pub fn render(&self) -> (r: Node)
        ensures
            r.tag@ == "lq-box"@,
            r.attr_views() == seq![("data-action"@, self@.action), (FOCUSABLE_ATTR@, "true"@)],
            r.pseudo == (Pseudo { hover: self@.hovered, active: self@.pressed, focus: false, checked: false, disabled: false }),
            r.children@.len() == 1,
            r.first_text() == "reference"@,
    {
        let r = Node::el("lq-box")
            .attr("data-action", self.action.as_str())
            .attr(FOCUSABLE_ATTR, "true")
            .pseudo_if(PseudoFlag::Hover, self.hovered)
            .pseudo_if(PseudoFlag::Active, self.pressed)
            .child(Node::text("reference"));
        assert(r.attr_views() =~= seq![("data-action"@, self@.action), (FOCUSABLE_ATTR@, "true"@)]);
        r
    }
}

} // verus!
