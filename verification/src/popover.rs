//! `<lq-popover>` — a floating panel anchored to a trigger.
//!
//! - Clicking the trigger toggles the panel.
//! - While open, a click inside the panel is swallowed; a click anywhere else
//!   closes it with [`CLOSE_ACTION`].
//! - Escape closes an open popover.
//!
//! Where the panel lands is measured by the host from the laid-out trigger
//! and panel boxes; the render tree takes that position as its CSS `left` /
//! `top` values.

use vstd::prelude::*;

use crate::behavior::{KeyInput, OutcomeView, WidgetKind, WidgetOutcome};
use crate::keys;
use crate::node::{bool_str, bool_text, Node, Pseudo, PseudoFlag, FOCUSABLE_ATTR};

verus! {

/// Emitted when the popover closes by an outside click or Escape.
pub const CLOSE_ACTION: &'static str = "close";

/// Where the panel floats relative to the trigger.
#[derive(Clone, Copy, Debug, PartialEq, Eq, Structural)]
pub enum Placement {
    /// Above the trigger.
    Top,
    /// Below the trigger.
    Bottom,
    /// Left of the trigger.
    Left,
    /// Right of the trigger.
    Right,
}

/// The name of a placement, as rendered.
pub open spec fn placement_name(p: Placement) -> Seq<char> {
    match p {
        Placement::Top => "top"@,
        Placement::Bottom => "bottom"@,
        Placement::Left => "left"@,
        Placement::Right => "right"@,
    }
}

impl Placement {
    /// The placement's name (`"top"`, `"bottom"`, `"left"`, `"right"`).
    pub fn as_str(self) -> (r: &'static str)
        ensures
            r@ == placement_name(self),
    {
        match self {
            Placement::Top => "top",
            Placement::Bottom => "bottom",
            Placement::Left => "left",
            Placement::Right => "right",
        }
    }
}

/// Which part of the popover a click landed in, resolved by the host from
/// the laid-out `trigger` and `panel` boxes (the trigger wins where both
/// apply).
#[derive(Clone, Copy, Debug, PartialEq, Eq, Structural)]
pub enum PopoverHit {
    Trigger,
    Panel,
}

/// An anchored floating popover.
pub struct Popover {
    placement: Placement,
    open: bool,
    label: String,
    content: String,
}

/// The abstract state of a [`Popover`].
pub struct PopoverModel {
    pub placement: Placement,
    pub open: bool,
    pub label: Seq<char>,
    pub content: Seq<char>,
}

impl PopoverModel {
    /// Closing: an open popover closes and reports it.
    pub open spec fn close(self) -> (PopoverModel, OutcomeView) {
        if !self.open {
            (self, OutcomeView::Ignored)
        } else {
            (PopoverModel { open: false, ..self }, OutcomeView::Action(CLOSE_ACTION@, None))
        }
    }

    /// A left click on `hit` (or outside the trigger and the panel).
    pub open spec fn on_click(self, hit: Option<PopoverHit>) -> (PopoverModel, OutcomeView) {
        match hit {
            Some(PopoverHit::Trigger) => (PopoverModel { open: !self.open, ..self }, OutcomeView::Changed),
            Some(PopoverHit::Panel) => (self, OutcomeView::Ignored),
            None => if self.open { self.close() } else { (self, OutcomeView::Ignored) },
        }
    }

    /// A key press: Escape closes an open popover.
    pub open spec fn on_keyboard(self, key: u32) -> (PopoverModel, OutcomeView) {
        if self.open && key == keys::ESCAPE {
            self.close()
        } else {
            (self, OutcomeView::Ignored)
        }
    }
}

impl View for Popover {
    type V = PopoverModel;

    closed spec fn view(&self) -> PopoverModel {
        PopoverModel {
            placement: self.placement,
            open: self.open,
            label: self.label@,
            content: self.content@,
        }
    }
}

/// The inline position of the panel: `left` and `top` CSS values, or none
/// before the host has measured it.
pub open spec fn position_styles(at: Option<(&str, &str)>) -> Seq<(Seq<char>, Seq<char>)> {
    match at {
        Some((l, t)) => seq![("left"@, l@), ("top"@, t@)],
        None => Seq::empty(),
    }
}

impl Popover {
    /// A closed popover whose trigger shows `label`, its panel floated by
    /// `placement`.
    pub fn new(label: &str, placement: Placement) -> (r: Popover)
        ensures
            r@ == (PopoverModel { placement, open: false, label: label@, content: Seq::empty() }),
    {
        Popover { placement, open: false, label: label.to_string(), content: String::new() }
    }

    /// Starts open (or closed).
    pub fn open(self, o: bool) -> (r: Popover)
        ensures
            r@ == (PopoverModel { open: o, ..self@ }),
    {
        Popover { open: o, ..self }
    }

    /// Sets the panel content.
    pub fn content(self, c: &str) -> (r: Popover)
        ensures
            r@ == (PopoverModel { content: c@, ..self@ }),
    {
        Popover { content: c.to_string(), ..self }
    }

    /// Whether the panel is open.
    pub fn is_open(&self) -> (r: bool)
        ensures
            r == self@.open,
    {
        self.open
    }

    /// The placement.
    pub fn placement(&self) -> (r: Placement)
        ensures
            r == self@.placement,
    {
        self.placement
    }

    /// The widget family.
    pub fn kind(&self) -> (r: WidgetKind)
        ensures
            r == WidgetKind::Other,
    {
        WidgetKind::Other
    }

    /// A popover always takes part in the focus ring.
    pub fn focusable(&self) -> (r: bool)
        ensures
            r,
    {
        true
    }

    fn close(&mut self) -> (out: WidgetOutcome)
        ensures
            (final(self)@, out@) == old(self)@.close(),
    {
        if !self.open {
            return WidgetOutcome::Ignored;
        }
        self.open = false;
        WidgetOutcome::action(CLOSE_ACTION)
    }

    /// Handles a left click on `hit` (or outside both parts).
    pub fn on_click(&mut self, hit: Option<PopoverHit>) -> (out: WidgetOutcome)
        ensures
            (final(self)@, out@) == old(self)@.on_click(hit),
    {
        match hit {
            Some(PopoverHit::Trigger) => {
                self.open = !self.open;
                WidgetOutcome::Changed
            },
            Some(PopoverHit::Panel) => WidgetOutcome::Ignored,
            None => if self.open { self.close() } else { WidgetOutcome::Ignored },
        }
    }

    /// Handles a key press.
    pub fn on_keyboard(&mut self, key: KeyInput) -> (out: WidgetOutcome)
        ensures
            (final(self)@, out@) == old(self)@.on_keyboard(key.key),
    {
        if self.open && key.key == keys::ESCAPE {
            self.close()
        } else {
            WidgetOutcome::Ignored
        }
    }

    /// The render tree: the trigger, and while open the panel, placed at
    /// `panel_at` (its CSS `left` and `top`) once measured.
    pub fn render(&self, panel_at: Option<(&str, &str)>) -> (r: Node)
        ensures
            r.tag@ == "lq-popover"@,
            r.attr_views() == seq![
                (FOCUSABLE_ATTR@, "true"@),
                ("data-placement"@, placement_name(self@.placement)),
                ("aria-expanded"@, bool_str(self@.open)),
            ],
            r.class_views() == (if self@.open { seq!["open"@] } else { Seq::<Seq<char>>::empty() }),
            r.pseudo == (Pseudo { hover: false, active: self@.open, focus: false, checked: false, disabled: false }),
            r.children@.len() == (if self@.open { 2int } else { 1int }),
            r.children@[0].tag@ == "lq-popover-trigger"@,
            r.children@[0].attr_views() == seq![("data-part"@, "trigger"@), ("role"@, "button"@)],
            r.children@[0].pseudo.active == self@.open,
            r.children@[0].children@.len() == 1,
            r.children@[0].first_text() == self@.label,
            self@.open ==> {
                let p = r.children@[1];
                &&& p.tag@ == "lq-popover-panel"@
                &&& p.attr_views() == seq![
                    ("data-part"@, "panel"@),
                    ("data-placement"@, placement_name(self@.placement)),
                    ("role"@, "dialog"@),
                ]
                &&& p.class_views() == seq![placement_name(self@.placement)]
                &&& p.style_views() == position_styles(panel_at)
                &&& p.children@.len() == 1
                &&& p.first_text() == self@.content
            },
    {
        let place = self.placement.as_str();
        let mut root = Node::el("lq-popover")
            .attr(FOCUSABLE_ATTR, "true")
            .attr("data-placement", place)
            .attr("aria-expanded", bool_text(self.open))
            .class_if("open", self.open)
            .pseudo_if(PseudoFlag::Active, self.open);
        assert(root.attr_views() =~= seq![
            (FOCUSABLE_ATTR@, "true"@),
            ("data-placement"@, placement_name(self@.placement)),
            ("aria-expanded"@, bool_str(self@.open)),
        ]);
        assert(root.class_views() =~= (if self@.open { seq!["open"@] } else { Seq::<Seq<char>>::empty() }));
        let trigger = Node::el("lq-popover-trigger")
            .attr("data-part", "trigger")
            .attr("role", "button")
            .pseudo_if(PseudoFlag::Active, self.open)
            .child(Node::text(self.label.as_str()));
        assert(trigger.attr_views() =~= seq![("data-part"@, "trigger"@), ("role"@, "button"@)]);
        root = root.child(trigger);
        if self.open {
            let mut panel = Node::el("lq-popover-panel")
                .attr("data-part", "panel")
                .attr("data-placement", place)
                .class(place)
                .attr("role", "dialog");
            assert(panel.attr_views() =~= seq![
                ("data-part"@, "panel"@),
                ("data-placement"@, placement_name(self@.placement)),
                ("role"@, "dialog"@),
            ]);
            assert(panel.class_views() =~= seq![placement_name(self@.placement)]);
            match panel_at {
                Some((left, top)) => {
                    panel = panel.style("left", left).style("top", top);
                },
                None => {},
            }
            assert(panel.style_views() =~= position_styles(panel_at));
            panel = panel.child(Node::text(self.content.as_str()));
            root = root.child(panel);
        }
        root
    }
}

/// Two clicks on the trigger leave the popover as it was.
pub proof fn lemma_trigger_twice(m: PopoverModel)
    ensures
        m.on_click(Some(PopoverHit::Trigger)).0.on_click(Some(PopoverHit::Trigger)).0 == m,
{
}

/// Escape and an outside click close an open popover and report it; on a
/// closed popover they do nothing; a click in the panel never closes it.
pub proof fn lemma_dismissal(m: PopoverModel)
    ensures
        m.on_keyboard(keys::ESCAPE) == m.on_click(None),
        m.on_click(None) == (if m.open {
            (PopoverModel { open: false, ..m }, OutcomeView::Action(CLOSE_ACTION@, None))
        } else {
            (m, OutcomeView::Ignored)
        }),
        m.on_click(Some(PopoverHit::Panel)).0 == m,
{
}

/// A click on the trigger opens a closed popover and closes an open one;
/// nothing else about it changes.
pub proof fn lemma_trigger_flips_open(m: PopoverModel)
    ensures
        m.on_click(Some(PopoverHit::Trigger)).0 == (PopoverModel { open: !m.open, ..m }),
        m.on_click(Some(PopoverHit::Trigger)).1 == OutcomeView::Changed,
{
}

} // verus!
