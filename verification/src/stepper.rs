//! `<lq-stepper>` — an ordered wizard with a progress indicator.
//!
//! A header strip of `data-part="step-<i>"` markers (completed / current /
//! upcoming) joined by connectors, plus `back` and `next` controls. You may
//! jump back to any visited step or the current one, and forward only to the
//! immediately next step. Next advances one step, Back retreats one; every
//! transition emits `changed` with the new step index.

use vstd::prelude::*;

use crate::behavior::{KeyInput, OutcomeView, WidgetKind, WidgetOutcome};
use crate::keys;
use crate::node::{bool_str, bool_text, Node, Pseudo, PseudoFlag, FOCUSABLE_ATTR};
use crate::text::{dec, decimal, prefixed};

verus! {

/// Emitted when the active step changes (payload: the new step index).
pub const CHANGED_ACTION: &'static str = "changed";

/// What a click landed on, as resolved by the host against the laid-out
/// `next`/`back` controls and `step-<i>` markers (controls first).
#[derive(Clone, Copy, Debug, PartialEq, Eq, Structural)]
pub enum StepperHit {
    Next,
    Back,
    Step(usize),
}

/// A wizard / stepper control.
pub struct Stepper {
    steps: Vec<String>,
    current: usize,
    disabled: bool,
}

/// The abstract state of a [`Stepper`].
pub struct StepperModel {
    pub steps: Seq<Seq<char>>,
    pub current: int,
    pub disabled: bool,
}

impl StepperModel {
    /// The current step exists (or is 0 when there are none).
    pub open spec fn valid(self) -> bool {
        &&& 0 <= self.current
        &&& (self.current == 0 || self.current < self.steps.len())
    }

    /// Whether step `i` may be navigated to: any step up to the current one,
    /// or the one right after it.
    pub open spec fn is_reachable(self, i: int) -> bool {
        0 <= i < self.steps.len() && i <= self.current + 1
    }

    /// Going to step `idx`: `changed` with the index; ignored when out of
    /// range, current or not reachable.
    pub open spec fn goto(self, idx: int) -> (StepperModel, OutcomeView) {
        if idx < 0 || idx >= self.steps.len() || idx == self.current || !self.is_reachable(idx) {
            (self, OutcomeView::Ignored)
        } else {
            (StepperModel { current: idx, ..self }, OutcomeView::Action(CHANGED_ACTION@, Some(dec(idx as nat))))
        }
    }

    /// Advancing one step.
    pub open spec fn next(self) -> (StepperModel, OutcomeView) {
        if self.current + 1 >= self.steps.len() {
            (self, OutcomeView::Ignored)
        } else {
            self.goto(self.current + 1)
        }
    }

    /// Retreating one step.
    pub open spec fn back(self) -> (StepperModel, OutcomeView) {
        if self.current == 0 {
            (self, OutcomeView::Ignored)
        } else {
            self.goto(self.current - 1)
        }
    }

    /// Right arrow advances, Left arrow retreats.
    pub open spec fn on_key(self, key: KeyInput) -> (StepperModel, OutcomeView) {
        if self.disabled {
            (self, OutcomeView::Ignored)
        } else if key.key == keys::ARROW_RIGHT {
            self.next()
        } else if key.key == keys::ARROW_LEFT {
            self.back()
        } else {
            (self, OutcomeView::Ignored)
        }
    }

    /// A left click on a control or marker (or on none).
    pub open spec fn on_click(self, hit: Option<StepperHit>) -> (StepperModel, OutcomeView) {
        if self.disabled {
            (self, OutcomeView::Ignored)
        } else {
            match hit {
                Some(StepperHit::Next) => self.next(),
                Some(StepperHit::Back) => self.back(),
                Some(StepperHit::Step(i)) => self.goto(i as int),
                None => (self, OutcomeView::Ignored),
            }
        }
    }

    /// Whether `c` renders the marker of step `i`.
    pub open spec fn step_rendered(self, i: int, c: Node) -> bool {
        let completed = i < self.current;
        let current = i == self.current;
        let reachable = self.is_reachable(i) && !self.disabled;
        &&& c.tag@ == "lq-step"@
        &&& c.key matches Some(k) && k@ == "step-"@ + dec(i as nat)
        &&& c.attr_views() == seq![
            ("data-part"@, "step-"@ + dec(i as nat)),
            ("data-index"@, dec(i as nat)),
            ("role"@, "tab"@),
            ("aria-selected"@, bool_str(current)),
        ]
        &&& c.class_views() == (if completed { seq!["completed"@] } else { Seq::empty() })
            + (if current { seq!["current"@] } else { Seq::empty() })
            + (if !completed && !current { seq!["upcoming"@] } else { Seq::empty() })
            + (if reachable { seq!["reachable"@] } else { Seq::empty() })
        &&& c.pseudo == (Pseudo { hover: false, active: false, focus: current, checked: completed, disabled: !reachable })
        &&& c.children@.len() == 2
        &&& c.children@[0].tag@ == "lq-step-marker"@
        &&& c.children@[0].attr_views() == seq![("data-part"@, "marker"@)]
        &&& c.children@[0].children@.len() == 1
        &&& c.children@[0].first_text() == dec((i + 1) as nat)
        &&& c.children@[1].tag@ == "lq-step-label"@
        &&& c.children@[1].attr_views() == seq![("data-part"@, "label"@)]
        &&& c.children@[1].children@.len() == 1
        &&& c.children@[1].first_text() == self.steps[i]
    }

    /// Whether `c` renders the connector after step `i`.
    pub open spec fn connector_rendered(self, i: int, c: Node) -> bool {
        &&& c.tag@ == "lq-step-connector"@
        &&& c.key matches Some(k) && k@ == "conn-"@ + dec(i as nat)
        &&& c.class_views() == (if i < self.current { seq!["filled"@] } else { Seq::empty() })
        &&& c.children@.len() == 0
    }

    /// Whether the header holds, at position `2i`, the marker of step `i`,
    /// followed (except after the last step) by its connector.
    pub open spec fn header_slot(self, h: Node, i: int) -> bool {
        &&& self.step_rendered(i, h.children@[2 * i])
        &&& (i + 1 < self.steps.len() ==> self.connector_rendered(i, h.children@[2 * i + 1]))
    }

    /// Whether `c` is a footer control (`back`/`next`) with the given part,
    /// label and disabled state.
    pub open spec fn control_rendered(c: Node, tag: Seq<char>, part: Seq<char>, label: Seq<char>, off: bool) -> bool {
        &&& c.tag@ == tag
        &&& c.attr_views() == seq![("data-part"@, part), ("role"@, "button"@)]
        &&& c.class_views() == (if off { seq!["disabled"@] } else { Seq::empty() })
        &&& c.pseudo.disabled == off
        &&& c.children@.len() == 1
        &&& c.first_text() == label
    }
}

/// Next never skips ahead: every transition leaves the current step at most
/// one past where it was, and a step change is always to a reachable step.
pub proof fn lemma_no_skip_ahead(m: StepperModel, hit: Option<StepperHit>, key: KeyInput)
    requires
        m.valid(),
    ensures
        m.on_click(hit).0.current <= m.current + 1,
        m.on_key(key).0.current <= m.current + 1,
        m.on_click(hit).0.current != m.current ==> m.is_reachable(m.on_click(hit).0.current),
        m.on_key(key).0.current != m.current ==> m.is_reachable(m.on_key(key).0.current),
        m.on_click(hit).0.valid(),
        m.on_key(key).0.valid(),
{
}

/// Back undoes Next: advancing one step and then retreating one returns to
/// the same state.
pub proof fn lemma_back_undoes_next(m: StepperModel)
    requires
        m.valid(),
        m.current + 1 < m.steps.len(),
    ensures
        m.next().0.back().0 == m,
        m.next().0.current == m.current + 1,
{
}

/// On an enabled stepper, Right advances exactly one step (not past the last)
/// and Left goes back exactly one (not before the first), each reporting the
/// new index; a click on a step marker goes to that step exactly when it is
/// at most one past the current one.
pub proof fn lemma_keys_step_by_one(m: StepperModel, mods: u32, i: int)
    requires
        m.valid(),
        !m.disabled,
    ensures
        ({
            let (n, out) = m.on_key(KeyInput { key: keys::ARROW_RIGHT, modifiers: mods });
            &&& m.current + 1 < m.steps.len() ==> n.current == m.current + 1 && out == OutcomeView::Action(
                CHANGED_ACTION@,
                Some(dec((m.current + 1) as nat)),
            )
            &&& m.current + 1 >= m.steps.len() ==> n == m && out == OutcomeView::Ignored
        }),
        ({
            let (n, out) = m.on_key(KeyInput { key: keys::ARROW_LEFT, modifiers: mods });
            &&& m.current > 0 ==> n.current == m.current - 1 && out == OutcomeView::Action(
                CHANGED_ACTION@,
                Some(dec((m.current - 1) as nat)),
            )
            &&& m.current == 0 ==> n == m && out == OutcomeView::Ignored
        }),
        0 <= i <= usize::MAX ==> ({
            let n = m.on_click(Some(StepperHit::Step(i as usize))).0;
            n.current == (if 0 <= i < m.steps.len() && i <= m.current + 1 { i } else { m.current })
        }),
{
}

impl View for Stepper {
    type V = StepperModel;

    closed spec fn view(&self) -> StepperModel {
        StepperModel {
            steps: self.steps@.map_values(|s: String| s@),
            current: self.current as int,
            disabled: self.disabled,
        }
    }
}

impl Stepper {
    /// The representation invariant.
    pub open spec fn wf(&self) -> bool {
        self@.valid()
    }

    /// A stepper over `steps`, starting at step 0.
    pub fn new(steps: Vec<String>) -> (r: Stepper)
        ensures
            r.wf(),
            r@ == (StepperModel { steps: steps@.map_values(|s: String| s@), current: 0, disabled: false }),
    {
        Stepper { steps, current: 0, disabled: false }
    }

    /// Starts at step `idx` (past the end: nothing changes).
    pub fn start_at(self, idx: usize) -> (r: Stepper)
        requires
            self.wf(),
        ensures
            r.wf(),
            r@ == (if idx < self@.steps.len() { StepperModel { current: idx as int, ..self@ } } else { self@ }),
    {
        if idx < self.steps.len() {
            Stepper { current: idx, ..self }
        } else {
            self
        }
    }

    /// Marks disabled (or enabled).
    pub fn disabled(self, d: bool) -> (r: Stepper)
        requires
            self.wf(),
        ensures
            r.wf(),
            r@ == (StepperModel { disabled: d, ..self@ }),
    {
        Stepper { disabled: d, ..self }
    }

    /// The current step index.
    pub fn current(&self) -> (r: usize)
        ensures
            r == self@.current,
    {
        self.current
    }

    /// The number of steps.
    pub fn len(&self) -> (r: usize)
        ensures
            r == self@.steps.len(),
    {
        self.steps.len()
    }

    /// Whether there are no steps.
    pub fn is_empty(&self) -> (r: bool)
        ensures
            r == (self@.steps.len() == 0),
    {
        self.steps.len() == 0
    }

    /// Whether step `i` may be navigated to right now.
    pub fn is_reachable(&self, i: usize) -> (r: bool)
        requires
            self.wf(),
        ensures
            r == self@.is_reachable(i as int),
    {
        i < self.steps.len() && i <= self.current + 1
    }

    /// The widget family.
    pub fn kind(&self) -> (r: WidgetKind)
        ensures
            r == WidgetKind::Other,
    {
        WidgetKind::Other
    }

    /// Whether the stepper takes focus (unless disabled).
    pub fn focusable(&self) -> (r: bool)
        ensures
            r == !self@.disabled,
    {
        !self.disabled
    }

    fn goto(&mut self, idx: usize) -> (out: WidgetOutcome)
        requires
            old(self).wf(),
        ensures
            final(self).wf(),
            (final(self)@, out@) == old(self)@.goto(idx as int),
    {
        if idx >= self.steps.len() || idx == self.current || !self.is_reachable(idx) {
            return WidgetOutcome::Ignored;
        }
        self.current = idx;
        WidgetOutcome::action_with(CHANGED_ACTION, decimal(idx))
    }

    fn next(&mut self) -> (out: WidgetOutcome)
        requires
            old(self).wf(),
        ensures
            final(self).wf(),
            (final(self)@, out@) == old(self)@.next(),
    {
        assert(self.steps@.len() == self@.steps.len());
        assert(self.current < self.steps.len() || self.current == 0);
        if self.current + 1 >= self.steps.len() {
            return WidgetOutcome::Ignored;
        }
        self.goto(self.current + 1)
    }

    fn back(&mut self) -> (out: WidgetOutcome)
        requires
            old(self).wf(),
        ensures
            final(self).wf(),
            (final(self)@, out@) == old(self)@.back(),
    {
        if self.current == 0 {
            return WidgetOutcome::Ignored;
        }
        self.goto(self.current - 1)
    }

    /// Handles a key press.
    pub fn on_keyboard(&mut self, key: KeyInput) -> (out: WidgetOutcome)
        requires
            old(self).wf(),
        ensures
            final(self).wf(),
            (final(self)@, out@) == old(self)@.on_key(key),
    {
        if self.disabled {
            return WidgetOutcome::Ignored;
        }
        if key.key == keys::ARROW_RIGHT {
            self.next()
        } else if key.key == keys::ARROW_LEFT {
            self.back()
        } else {
            WidgetOutcome::Ignored
        }
    }

    /// Handles a left click on a control or marker (or on none).
    pub fn on_click(&mut self, hit: Option<StepperHit>) -> (out: WidgetOutcome)
        requires
            old(self).wf(),
        ensures
            final(self).wf(),
            (final(self)@, out@) == old(self)@.on_click(hit),
    {
        if self.disabled {
            return WidgetOutcome::Ignored;
        }
        match hit {
            Some(StepperHit::Next) => self.next(),
            Some(StepperHit::Back) => self.back(),
            Some(StepperHit::Step(i)) => self.goto(i),
            None => WidgetOutcome::Ignored,
        }
    }

    fn step_marker(&self, i: usize) -> (r: Node)
        requires
            self.wf(),
            i < self@.steps.len(),
        ensures
            self@.step_rendered(i as int, r),
    {
        let completed = i < self.current;
        let current = i == self.current;
        let reachable = self.is_reachable(i) && !self.disabled;
        let part = prefixed("step-", i);
        let index = decimal(i);
        assert(self.steps@.len() == self@.steps.len());
        assert(i < self.steps.len());
        let number = decimal(i + 1);
        let marker = Node::el("lq-step-marker").attr("data-part", "marker").child(Node::text(number.as_str()));
        let label = Node::el("lq-step-label").attr("data-part", "label").child(Node::text(self.steps[i].as_str()));
        let r = Node::el("lq-step")
            .key(part.as_str())
            .attr("data-part", part.as_str())
            .attr("data-index", index.as_str())
            .attr("role", "tab")
            .attr("aria-selected", bool_text(current))
            .class_if("completed", completed)
            .class_if("current", current)
            .class_if("upcoming", !completed && !current)
            .class_if("reachable", reachable)
            .pseudo_if(PseudoFlag::Checked, completed)
            .pseudo_if(PseudoFlag::Focus, current)
            .pseudo_if(PseudoFlag::Disabled, !reachable)
            .child(marker)
            .child(label);
        assert(r.attr_views() =~= seq![
            ("data-part"@, "step-"@ + dec(i as nat)),
            ("data-index"@, dec(i as nat)),
            ("role"@, "tab"@),
            ("aria-selected"@, bool_str(current)),
        ]);
        assert(r.class_views() =~= (if completed { seq!["completed"@] } else { Seq::empty() })
            + (if current { seq!["current"@] } else { Seq::empty() })
            + (if !completed && !current { seq!["upcoming"@] } else { Seq::empty() })
            + (if reachable { seq!["reachable"@] } else { Seq::empty() }));
        assert(r.children@[0].attr_views() =~= seq![("data-part"@, "marker"@)]);
        assert(r.children@[1].attr_views() =~= seq![("data-part"@, "label"@)]);
        r
    }

    fn connector(&self, i: usize) -> (r: Node)
        ensures
            self@.connector_rendered(i as int, r),
    {
        let key = prefixed("conn-", i);
        let r = Node::el("lq-step-connector").key(key.as_str()).class_if("filled", i < self.current);
        assert(r.class_views() =~= (if i < self.current { seq!["filled"@] } else { Seq::<Seq<char>>::empty() }));
        r
    }

    fn control(tag: &str, part: &str, label: &str, off: bool) -> (r: Node)
        ensures
            StepperModel::control_rendered(r, tag@, part@, label@, off),
    {
        let r = Node::el(tag)
            .attr("data-part", part)
            .attr("role", "button")
            .class_if("disabled", off)
            .pseudo_if(PseudoFlag::Disabled, off)
            .child(Node::text(label));
        assert(r.attr_views() =~= seq![("data-part"@, part@), ("role"@, "button"@)]);
        assert(r.class_views() =~= (if off { seq!["disabled"@] } else { Seq::<Seq<char>>::empty() }));
        r
    }

    /// The render tree: an `lq-stepper` holding the header strip (markers
    /// and connectors) and the footer with the `back` and `next` controls.
    pub fn render(&self) -> (r: Node)
        requires
            self.wf(),
        ensures
            r.tag@ == "lq-stepper"@,
            r.attr_views() == seq![
                (FOCUSABLE_ATTR@, bool_str(!self@.disabled)),
                ("role"@, "group"@),
                ("aria-valuenow"@, dec(self@.current as nat)),
            ] + (if self@.disabled { seq![("disabled"@, "true"@)] } else { Seq::empty() }),
            r.pseudo.disabled == self@.disabled,
            r.children@.len() == 2,
            r.children@[0].tag@ == "lq-stepper-head"@,
            r.children@[0].attr_views() == seq![("data-part"@, "head"@)],
            r.children@[0].children@.len() == (if self@.steps.len() == 0 { 0 } else { 2 * self@.steps.len() - 1 }),
            forall|i: int| 0 <= i < self@.steps.len() ==> #[trigger] self@.header_slot(r.children@[0], i),
            r.children@[1].tag@ == "lq-stepper-foot"@,
            r.children@[1].attr_views() == seq![("data-part"@, "foot"@)],
            r.children@[1].children@.len() == 2,
            StepperModel::control_rendered(r.children@[1].children@[0], "lq-step-back"@, "back"@, "Back"@, self@.current == 0),
            StepperModel::control_rendered(
                r.children@[1].children@[1],
                "lq-step-next"@,
                "next"@,
                "Next"@,
                self@.current + 1 >= self@.steps.len(),
            ),
    {
        let current_text = decimal(self.current);
        let mut root = Node::el("lq-stepper")
            .attr(FOCUSABLE_ATTR, bool_text(!self.disabled))
            .attr("role", "group")
            .attr("aria-valuenow", current_text.as_str())
            .pseudo_if(PseudoFlag::Disabled, self.disabled);
        let ghost head = root.attr_views();
        let mut header = Node::el("lq-stepper-head").attr("data-part", "head");
        assert(header.attr_views() =~= seq![("data-part"@, "head"@)]);
        let n = self.steps.len();
        let mut i: usize = 0;
        while i < n
            invariant
                self.wf(),
                n == self@.steps.len(),
                i <= n,
                header.tag@ == "lq-stepper-head"@,
                header.attr_views() == seq![("data-part"@, "head"@)],
                header.children@.len() == (if i == 0 { 0 } else if i < n { 2 * i } else { 2 * i - 1 }),
                forall|k: int| 0 <= k < i ==> #[trigger] self@.header_slot(header, k),
            decreases n - i,
        {
            let ghost before = header;
            header = header.child(self.step_marker(i));
            if i + 1 < n {
                header = header.child(self.connector(i));
            }
            assert forall|k: int| 0 <= k < i + 1 implies #[trigger] self@.header_slot(header, k) by {
                if k < i {
                    assert(self@.header_slot(before, k));
                    assert(header.children@[2 * k] == before.children@[2 * k]);
                    if k + 1 < n {
                        assert(header.children@[2 * k + 1] == before.children@[2 * k + 1]);
                    }
                }
            }
            i = i + 1;
        }
        root = root.child(header);
        let back = Self::control("lq-step-back", "back", "Back", self.current == 0);
        let next = Self::control("lq-step-next", "next", "Next", self.current + 1 >= n);
        let footer = Node::el("lq-stepper-foot").attr("data-part", "foot").child(back).child(next);
        assert(footer.attr_views() =~= seq![("data-part"@, "foot"@)]);
        root = root.child(footer);
        if self.disabled {
            root = root.attr("disabled", "true");
        }
        assert(root.attr_views() =~= seq![
            (FOCUSABLE_ATTR@, bool_str(!self@.disabled)),
            ("role"@, "group"@),
            ("aria-valuenow"@, dec(self@.current as nat)),
        ] + (if self@.disabled { seq![("disabled"@, "true"@)] } else { Seq::empty() }));
        root
    }
}

} // verus!
