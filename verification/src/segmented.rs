//! `<lq-segmented>` — a horizontal exclusive segment group: exactly one
//! segment selected (a single `selected` index is the only source of truth).
//!
//! Clicking a segment selects it; Left/Right (and Up/Down) move the selection
//! wrapping, Home/End jump to the first/last. A change emits `changed` with
//! the selected segment's value.

use vstd::prelude::*;

use crate::behavior::{lemma_wrap, opt_int, KeyInput, OutcomeView, WidgetKind, WidgetOutcome};
use crate::keys;
use crate::list::opt_below;
use crate::tabs::key_tab;
use crate::node::{bool_str, bool_text, Node, Pseudo, PseudoFlag, FOCUSABLE_ATTR};
use crate::text::{dec, prefixed};

verus! {

/// Emitted when the selected segment changes (payload: the segment value).
pub const CHANGED_ACTION: &'static str = "changed";

/// A horizontal exclusive segment group.
pub struct Segmented {
    segments: Vec<(String, String)>,
    selected: usize,
    hovered: Option<usize>,
    disabled: bool,
}

/// The abstract state of a [`Segmented`].
pub struct SegmentedModel {
    pub segments: Seq<(Seq<char>, Seq<char>)>,
    pub selected: int,
    pub hovered: Option<int>,
    pub disabled: bool,
}

impl SegmentedModel {
    /// The selection is a segment (or 0 when there are none); the hover is a
    /// segment.
    pub open spec fn valid(self) -> bool {
        &&& (self.selected == 0 || 0 <= self.selected < self.segments.len())
        &&& 0 <= self.selected
        &&& opt_below(self.hovered, self.segments.len() as int)
    }

    /// Selecting segment `idx`: `changed` with its value; ignored when
    /// disabled, out of range or already selected.
    pub open spec fn set_selected(self, idx: int) -> (SegmentedModel, OutcomeView) {
        if self.disabled || idx < 0 || idx >= self.segments.len() || idx == self.selected {
            (self, OutcomeView::Ignored)
        } else {
            (SegmentedModel { selected: idx, ..self }, OutcomeView::Action(CHANGED_ACTION@, Some(self.segments[idx].0)))
        }
    }

    /// The keyboard transition (arrows wrap).
    pub open spec fn on_key(self, key: KeyInput) -> (SegmentedModel, OutcomeView) {
        let n = self.segments.len() as int;
        let k = key.key;
        if self.disabled || n == 0 {
            (self, OutcomeView::Ignored)
        } else if k == keys::ARROW_RIGHT || k == keys::ARROW_DOWN {
            self.set_selected((self.selected + 1) % n)
        } else if k == keys::ARROW_LEFT || k == keys::ARROW_UP {
            self.set_selected((self.selected + n - 1) % n)
        } else if k == keys::HOME {
            self.set_selected(0)
        } else if k == keys::END {
            self.set_selected(n - 1)
        } else {
            (self, OutcomeView::Ignored)
        }
    }

    /// Pointer move over segment `hit`.
    pub open spec fn on_move(self, hit: Option<int>) -> (SegmentedModel, OutcomeView) {
        if self.disabled || hit == self.hovered {
            (self, OutcomeView::Ignored)
        } else {
            (SegmentedModel { hovered: hit, ..self }, OutcomeView::Changed)
        }
    }

    /// Pointer leaving the group.
    pub open spec fn on_leave(self) -> (SegmentedModel, OutcomeView) {
        if self.disabled || self.hovered is None {
            (self, OutcomeView::Ignored)
        } else {
            (SegmentedModel { hovered: None, ..self }, OutcomeView::Changed)
        }
    }

    /// Left click on segment `hit`.
    pub open spec fn on_click(self, hit: Option<int>) -> (SegmentedModel, OutcomeView) {
        if self.disabled {
            (self, OutcomeView::Ignored)
        } else {
            match hit {
                Some(i) => self.set_selected(i),
                None => (self, OutcomeView::Ignored),
            }
        }
    }

    /// Whether `c` renders segment `i`.
    pub open spec fn segment_rendered(self, i: int, c: Node) -> bool {
        let sel = i == self.selected;
        &&& c.tag@ == "lq-segment"@
        &&& c.key matches Some(k) && k@ == self.segments[i].0
        &&& c.attr_views() == seq![
            ("data-part"@, "seg-"@ + dec(i as nat)),
            ("data-value"@, self.segments[i].0),
            ("role"@, "radio"@),
            ("aria-checked"@, bool_str(sel)),
        ]
        &&& c.class_views() == (if sel { seq!["selected"@] } else { Seq::empty() })
        &&& c.pseudo == (Pseudo {
            hover: self.hovered == Some(i) && !self.disabled,
            active: false,
            focus: false,
            checked: sel,
            disabled: self.disabled,
        })
        &&& c.children@.len() == 1
        &&& c.first_text() == self.segments[i].1
    }
}

impl View for Segmented {
    type V = SegmentedModel;

    closed spec fn view(&self) -> SegmentedModel {
        SegmentedModel {
            segments: self.segments@.map_values(|p: (String, String)| (p.0@, p.1@)),
            selected: self.selected as int,
            hovered: opt_int(self.hovered),
            disabled: self.disabled,
        }
    }
}

impl Segmented {
    /// The representation invariant.
    pub open spec fn wf(&self) -> bool {
        self@.valid()
    }

    /// A segment group over `(value, label)` pairs; the first is selected.
    pub fn new(segments: Vec<(String, String)>) -> (r: Segmented)
        ensures
            r.wf(),
            r@ == (SegmentedModel {
                segments: segments@.map_values(|p: (String, String)| (p.0@, p.1@)),
                selected: 0,
                hovered: None,
                disabled: false,
            }),
    {
        Segmented { segments, selected: 0, hovered: None, disabled: false }
    }

    /// Pre-selects segment `idx` (past the end: nothing changes).
    pub fn select(self, idx: usize) -> (r: Segmented)
        requires
            self.wf(),
        ensures
            r.wf(),
            r@ == (if idx < self@.segments.len() { SegmentedModel { selected: idx as int, ..self@ } } else { self@ }),
    {
        if idx < self.segments.len() {
            Segmented { selected: idx, ..self }
        } else {
            self
        }
    }

    /// Marks the group disabled (or enabled).
    pub fn disabled(self, d: bool) -> (r: Segmented)
        requires
            self.wf(),
        ensures
            r.wf(),
            r@ == (SegmentedModel { disabled: d, ..self@ }),
    {
        Segmented { disabled: d, ..self }
    }

    /// The selected segment index.
    pub fn selected_index(&self) -> (r: usize)
        ensures
            r == self@.selected,
    {
        self.selected
    }

    /// The selected segment value (none when there are no segments).
    pub fn selected_value(&self) -> (r: Option<&str>)
        requires
            self.wf(),
        ensures
            r matches Some(v) ==> self@.selected < self@.segments.len() && v@ == self@.segments[self@.selected].0,
            r is None <==> self@.segments.len() == 0,
    {
        if self.selected < self.segments.len() {
            Some(self.segments[self.selected].0.as_str())
        } else {
            None
        }
    }

    /// Number of segments.
    pub fn len(&self) -> (r: usize)
        ensures
            r == self@.segments.len(),
    {
        self.segments.len()
    }

    /// Whether there are no segments.
    pub fn is_empty(&self) -> (r: bool)
        ensures
            r == (self@.segments.len() == 0),
    {
        self.segments.len() == 0
    }

    /// The widget family.
    pub fn kind(&self) -> (r: WidgetKind)
        ensures
            r == WidgetKind::Toggle,
    {
        WidgetKind::Toggle
    }

    /// Whether the group takes focus (unless disabled).
    pub fn focusable(&self) -> (r: bool)
        ensures
            r == !self@.disabled,
    {
        !self.disabled
    }

    fn set_selected(&mut self, idx: usize) -> (out: WidgetOutcome)
        requires
            old(self).wf(),
        ensures
            final(self).wf(),
            (final(self)@, out@) == old(self)@.set_selected(idx as int),
    {
        if self.disabled || idx >= self.segments.len() || idx == self.selected {
            return WidgetOutcome::Ignored;
        }
        self.selected = idx;
        WidgetOutcome::action_with(CHANGED_ACTION, self.segments[idx].0.clone())
    }

    /// Handles a key press.
    pub fn on_keyboard(&mut self, key: KeyInput) -> (out: WidgetOutcome)
        requires
            old(self).wf(),
        ensures
            final(self).wf(),
            (final(self)@, out@) == old(self)@.on_key(key),
    {
        let n = self.segments.len();
        if self.disabled || n == 0 {
            return WidgetOutcome::Ignored;
        }
        let sel = self.selected;
        proof {
            lemma_wrap(sel + 1, n as int);
            lemma_wrap(sel + n - 1, n as int);
        }
        let k = key.key;
        if k == keys::ARROW_RIGHT || k == keys::ARROW_DOWN {
            self.set_selected(if sel + 1 == n { 0 } else { sel + 1 })
        } else if k == keys::ARROW_LEFT || k == keys::ARROW_UP {
            self.set_selected(if sel == 0 { n - 1 } else { sel - 1 })
        } else if k == keys::HOME {
            self.set_selected(0)
        } else if k == keys::END {
            self.set_selected(n - 1)
        } else {
            WidgetOutcome::Ignored
        }
    }

    /// Handles the pointer moving over segment `hit` (or over none).
    pub fn on_mouse_move(&mut self, hit: Option<usize>) -> (out: WidgetOutcome)
        requires
            old(self).wf(),
            hit matches Some(i) ==> i < old(self)@.segments.len(),
        ensures
            final(self).wf(),
            (final(self)@, out@) == old(self)@.on_move(opt_int(hit)),
    {
        if self.disabled || hit == self.hovered {
            return WidgetOutcome::Ignored;
        }
        self.hovered = hit;
        WidgetOutcome::Changed
    }

    /// Handles the pointer leaving the group.
    pub fn on_mouse_leave(&mut self) -> (out: WidgetOutcome)
        requires
            old(self).wf(),
        ensures
            final(self).wf(),
            (final(self)@, out@) == old(self)@.on_leave(),
    {
        if self.disabled || self.hovered.is_none() {
            return WidgetOutcome::Ignored;
        }
        self.hovered = None;
        WidgetOutcome::Changed
    }

    /// Handles a left click on segment `hit` (or on none).
    pub fn on_click(&mut self, hit: Option<usize>) -> (out: WidgetOutcome)
        requires
            old(self).wf(),
        ensures
            final(self).wf(),
            (final(self)@, out@) == old(self)@.on_click(opt_int(hit)),
    {
        if self.disabled {
            return WidgetOutcome::Ignored;
        }
        match hit {
            Some(i) => self.set_selected(i),
            None => WidgetOutcome::Ignored,
        }
    }

    /// The render tree: an `lq-segmented` (radiogroup role) with one rendered
    /// segment per entry.
    pub fn render(&self) -> (r: Node)
        requires
            self.wf(),
        ensures
            r.tag@ == "lq-segmented"@,
            r.attr_views() == seq![(FOCUSABLE_ATTR@, bool_str(!self@.disabled)), ("role"@, "radiogroup"@)]
                + (if self@.disabled { seq![("disabled"@, "true"@)] } else { Seq::empty() }),
            r.pseudo.disabled == self@.disabled,
            r.children@.len() == self@.segments.len(),
            forall|i: int| 0 <= i < self@.segments.len() ==> self@.segment_rendered(i, #[trigger] r.children@[i]),
    {
        let mut group = Node::el("lq-segmented")
            .attr(FOCUSABLE_ATTR, bool_text(!self.disabled))
            .attr("role", "radiogroup")
            .pseudo_if(PseudoFlag::Disabled, self.disabled);
        let ghost head = group.attr_views();
        let mut i: usize = 0;
        while i < self.segments.len()
            invariant
                self.wf(),
                i <= self@.segments.len(),
                group.tag@ == "lq-segmented"@,
                group.attr_views() == head,
                group.pseudo.disabled == self@.disabled,
                group.children@.len() == i,
                forall|k: int| 0 <= k < i ==> self@.segment_rendered(k, #[trigger] group.children@[k]),
            decreases self@.segments.len() - i,
        {
            let sel = i == self.selected;
            let value = self.segments[i].0.as_str();
            let part = prefixed("seg-", i);
            let seg = Node::el("lq-segment")
                .key(value)
                .attr("data-part", part.as_str())
                .attr("data-value", value)
                .attr("role", "radio")
                .attr("aria-checked", bool_text(sel))
                .class_if("selected", sel)
                .pseudo_if(PseudoFlag::Checked, sel)
                .pseudo_if(PseudoFlag::Hover, self.hovered == Some(i) && !self.disabled)
                .pseudo_if(PseudoFlag::Disabled, self.disabled)
                .child(Node::text(self.segments[i].1.as_str()));
            assert(seg.attr_views() =~= seq![
                ("data-part"@, "seg-"@ + dec(i as nat)),
                ("data-value"@, self@.segments[i as int].0),
                ("role"@, "radio"@),
                ("aria-checked"@, bool_str(sel)),
            ]);
            assert(seg.class_views() =~= (if sel { seq!["selected"@] } else { Seq::<Seq<char>>::empty() }));
            group = group.child(seg);
            i = i + 1;
        }
        if self.disabled {
            group = group.attr("disabled", "true");
        }
        assert(group.attr_views() =~= seq![(FOCUSABLE_ATTR@, bool_str(!self@.disabled)), ("role"@, "radiogroup"@)]
                + (if self@.disabled { seq![("disabled"@, "true"@)] } else { Seq::empty() }));
        group
    }
}

/// Every input keeps the selection on a segment and the hover on a segment.
pub proof fn lemma_transitions_keep_valid(m: SegmentedModel, key: KeyInput, hit: Option<int>)
    requires
        m.valid(),
        opt_below(hit, m.segments.len() as int),
    ensures
        m.on_key(key).0.valid(),
        m.on_click(hit).0.valid(),
        m.on_move(hit).0.valid(),
        m.on_leave().0.valid(),
{
    let n = m.segments.len() as int;
    if n > 0 {
        lemma_wrap(m.selected + 1, n);
        lemma_wrap(m.selected + n - 1, n);
    }
}

/// With two or more segments, Right then Left comes back to the same
/// selection (and emits a change each time).
pub proof fn lemma_right_then_left(m: SegmentedModel, mods: u32)
    requires
        m.valid(),
        !m.disabled,
        m.segments.len() >= 2,
    ensures
        m.on_key(KeyInput { key: keys::ARROW_RIGHT, modifiers: mods }).0.on_key(
            KeyInput { key: keys::ARROW_LEFT, modifiers: mods },
        ).0 == m,
        m.on_key(KeyInput { key: keys::ARROW_RIGHT, modifiers: mods }).1 is Action,
{
    let n = m.segments.len() as int;
    let s = m.selected;
    lemma_wrap(s + 1, n);
    let t = (s + 1) % n;
    lemma_wrap(t + n - 1, n);
}

/// On an enabled group, the arrow keys, Home and End select the segment
/// [`key_tab`] names (the next or previous one, wrapping, or the first or
/// last) and report its value; when that is the current one nothing happens.
pub proof fn lemma_keys_select_segment(m: SegmentedModel, key: KeyInput)
    requires
        m.valid(),
        !m.disabled,
        m.segments.len() >= 1,
        key.key == keys::ARROW_RIGHT || key.key == keys::ARROW_DOWN || key.key == keys::ARROW_LEFT || key.key
            == keys::ARROW_UP || key.key == keys::HOME || key.key == keys::END,
    ensures
        ({
            let t = key_tab(key.key, m.selected, m.segments.len() as int);
            let (n, out) = m.on_key(key);
            &&& n.selected == t
            &&& n.segments == m.segments
            &&& out == (if t == m.selected {
                OutcomeView::Ignored
            } else {
                OutcomeView::Action(CHANGED_ACTION@, Some(m.segments[t].0))
            })
        }),
{
    let n = m.segments.len() as int;
    lemma_wrap(m.selected + 1, n);
    lemma_wrap(m.selected + n - 1, n);
}

} // verus!
