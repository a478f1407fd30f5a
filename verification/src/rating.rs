//! `<lq-rating>` — an N-star (or heart) rating control.
//!
//! Values are counted in half-symbol units: a value of `7` means three and a
//! half symbols. Without half steps every value the control settles on is a
//! whole number of symbols.
//!
//! - Hovering a symbol previews the fill up to it; leaving drops the preview.
//! - Clicking sets the value to the hovered position; clicking the current
//!   value again clears it to 0.
//! - Left/Right (Down/Up) step by one step; Home/End jump to 0 / the maximum.
//! - With half steps, which half of the symbol box the pointer is in decides
//!   between `i + 0.5` and `i + 1`.
//! - A change of value emits [`CHANGED_ACTION`] with the value as payload.

use vstd::prelude::*;

use crate::behavior::{KeyInput, OutcomeView, WidgetKind, WidgetOutcome};
use crate::keys;
use crate::node::{bool_str, bool_text, Node, Pseudo, PseudoFlag, FOCUSABLE_ATTR};
use crate::text::{dec, decimal, prefixed, push_char};

verus! {

/// Emitted when the rating value changes (payload: the value, e.g. `"4"` or
/// `"2.5"`).
pub const CHANGED_ACTION: &'static str = "changed";

/// The default symbol, a star.
pub const STAR_GLYPH: char = '\u{2605}';

/// The heart symbol.
pub const HEART_GLYPH: char = '\u{2665}';

/// Where the pointer is over the symbol row: which symbol box (0-based), and
/// whether in the left half of it. Resolved by the host from the laid-out
/// `star-<i>` boxes.
#[derive(Clone, Copy, Debug, PartialEq, Eq, Structural)]
pub struct RatingHit {
    pub star: usize,
    pub left_half: bool,
}

/// A star/heart rating control.
pub struct Rating {
    count: usize,
    /// Current value, in half-symbol units.
    value: usize,
    /// Hover-preview value, in half-symbol units.
    hover: Option<usize>,
    half: bool,
    symbol: char,
    disabled: bool,
}

/// The abstract state of a [`Rating`]; values in half-symbol units.
pub struct RatingModel {
    pub count: nat,
    pub value: nat,
    pub hover: Option<nat>,
    pub half: bool,
    pub symbol: char,
    pub disabled: bool,
}

/// The text of a value given in half units: `"3"`, `"2.5"`.
pub open spec fn value_text(h: nat) -> Seq<char> {
    if h % 2 == 0 {
        dec(h / 2)
    } else {
        dec(h / 2) + ".5"@
    }
}

impl RatingModel {
    /// The largest value: every symbol full.
    pub open spec fn top(self) -> nat {
        2 * self.count
    }

    /// Values in range; the maximum fits in a `usize`.
    pub open spec fn valid(self) -> bool {
        &&& 2 * self.count <= usize::MAX
        &&& self.value <= self.top()
        &&& (self.hover matches Some(h) ==> h <= self.top())
    }

    /// The size of one keyboard step.
    pub open spec fn step(self) -> nat {
        if self.half { 1 } else { 2 }
    }

    /// `v` clamped to `[0, top]`, then rounded to a whole symbol (halves
    /// round up) unless half steps are on.
    pub open spec fn snap(self, v: int) -> nat {
        let c: nat = if v < 0 { 0 } else if v > self.top() { self.top() } else { v as nat };
        if !self.half && c % 2 == 1 { c + 1 } else { c }
    }

    /// The value a pointer hit indicates (`None` off every symbol).
    pub open spec fn hit_value(self, hit: Option<RatingHit>) -> Option<nat> {
        match hit {
            Some(h) => if h.star < self.count {
                if self.half && h.left_half {
                    Some((2 * h.star + 1) as nat)
                } else {
                    Some((2 * h.star + 2) as nat)
                }
            } else {
                None
            },
            None => None,
        }
    }

    /// Setting the value to `v` (snapped): a change emits the new value.
    pub open spec fn set_value(self, v: int) -> (RatingModel, OutcomeView) {
        let nv = self.snap(v);
        if nv == self.value {
            (self, OutcomeView::Ignored)
        } else {
            (RatingModel { value: nv, ..self }, OutcomeView::Action(CHANGED_ACTION@, Some(value_text(nv))))
        }
    }

    /// A key press.
    pub open spec fn on_keyboard(self, key: u32) -> (RatingModel, OutcomeView) {
        if self.disabled {
            (self, OutcomeView::Ignored)
        } else if key == keys::ARROW_RIGHT || key == keys::ARROW_UP {
            self.set_value((self.value + self.step()) as int)
        } else if key == keys::ARROW_LEFT || key == keys::ARROW_DOWN {
            self.set_value(self.value - self.step())
        } else if key == keys::HOME {
            self.set_value(0)
        } else if key == keys::END {
            self.set_value(self.top() as int)
        } else {
            (self, OutcomeView::Ignored)
        }
    }

    /// The pointer moving to `hit`: the preview follows it.
    pub open spec fn on_mouse_move(self, hit: Option<RatingHit>) -> (RatingModel, OutcomeView) {
        let h = self.hit_value(hit);
        if self.disabled || h == self.hover {
            (self, OutcomeView::Ignored)
        } else {
            (RatingModel { hover: h, ..self }, OutcomeView::Changed)
        }
    }

    /// The pointer leaving the control: the preview is dropped.
    pub open spec fn on_mouse_leave(self) -> (RatingModel, OutcomeView) {
        if self.disabled || self.hover is None {
            (self, OutcomeView::Ignored)
        } else {
            (RatingModel { hover: None, ..self }, OutcomeView::Changed)
        }
    }

    /// A left click at `hit`: sets the value there, or clears it when it is
    /// the current value.
    pub open spec fn on_click(self, hit: Option<RatingHit>) -> (RatingModel, OutcomeView) {
        if self.disabled {
            (self, OutcomeView::Ignored)
        } else {
            match self.hit_value(hit) {
                Some(v) => if v == self.value { self.set_value(0) } else { self.set_value(v as int) },
                None => (self, OutcomeView::Ignored),
            }
        }
    }

    /// The value the symbols are painted with: the preview, else the value.
    pub open spec fn shown(self) -> nat {
        match self.hover {
            Some(h) => h,
            None => self.value,
        }
    }

    /// Whether symbol `i` is painted full.
    pub open spec fn star_full(self, i: int) -> bool {
        self.shown() >= 2 * i + 2
    }

    /// Whether symbol `i` is painted half full.
    pub open spec fn star_half(self, i: int) -> bool {
        !self.star_full(i) && self.shown() >= 2 * i + 1
    }

    /// `n` is symbol `i`: an `lq-star` box whose fill is a class and a
    /// `:checked` state, holding the glyph.
    pub open spec fn star_rendered(self, i: int, n: Node) -> bool {
        &&& n.tag@ == "lq-star"@
        &&& n.attr_views() == seq![("data-part"@, "star-"@ + dec(i as nat)), ("data-index"@, dec(i as nat))]
        &&& n.class_views() == (if self.star_full(i) { seq!["filled"@] } else { Seq::empty() })
            + (if self.star_half(i) { seq!["half"@] } else { Seq::empty() })
        &&& n.pseudo == (Pseudo {
            hover: false,
            active: false,
            focus: false,
            checked: self.star_full(i),
            disabled: self.disabled,
        })
        &&& n.children@.len() == 1
        &&& n.children@[0].tag@ == "lq-star-base"@
        &&& n.children@[0].attr_views() == seq![("data-part"@, "star-base-"@ + dec(i as nat))]
        &&& n.children@[0].children@.len() == 1
        &&& n.children@[0].first_text() == seq![self.symbol]
    }
}

impl View for Rating {
    type V = RatingModel;

    closed spec fn view(&self) -> RatingModel {
        RatingModel {
            count: self.count as nat,
            value: self.value as nat,
            hover: match self.hover {
                Some(h) => Some(h as nat),
                None => None,
            },
            half: self.half,
            symbol: self.symbol,
            disabled: self.disabled,
        }
    }
}

/// The text of a value given in half units.
fn value_string(h: usize) -> (r: String)
    ensures
        r@ == value_text(h as nat),
{
    let mut s = decimal(h / 2);
    if h % 2 == 1 {
        s.append(".5");
    }
    s
}

impl Rating {
    /// A rating with `count` symbols starting at `value` half units, clamped
    /// to the maximum and rounded to a whole symbol (halves round up).
    pub fn new(count: usize, value: usize) -> (r: Rating)
        requires
            2 * count <= usize::MAX,
        ensures
            r@.valid(),
            r@ == (RatingModel {
                count: count as nat,
                value: r@.value,
                hover: None,
                half: false,
                symbol: STAR_GLYPH,
                disabled: false,
            }),
            r@.value == r@.snap(value as int),
    {
        let top = 2 * count;
        let c = if value > top { top } else { value };
        let v = if c % 2 == 1 { c + 1 } else { c };
        Rating { count, value: v, hover: None, half: false, symbol: STAR_GLYPH, disabled: false }
    }

    /// Allows half-symbol values.
    pub fn half_steps(self, h: bool) -> (r: Rating)
        ensures
            r@ == (RatingModel { half: h, ..self@ }),
    {
        Rating { half: h, ..self }
    }

    /// Uses hearts instead of stars.
    pub fn hearts(self) -> (r: Rating)
        ensures
            r@ == (RatingModel { symbol: HEART_GLYPH, ..self@ }),
    {
        Rating { symbol: HEART_GLYPH, ..self }
    }

    /// Uses a custom symbol glyph.
    pub fn symbol(self, c: char) -> (r: Rating)
        ensures
            r@ == (RatingModel { symbol: c, ..self@ }),
    {
        Rating { symbol: c, ..self }
    }

    /// Marks the control disabled.
    pub fn disabled(self, d: bool) -> (r: Rating)
        ensures
            r@ == (RatingModel { disabled: d, ..self@ }),
    {
        Rating { disabled: d, ..self }
    }

    /// The current value, in half-symbol units.
    pub fn value(&self) -> (r: usize)
        ensures
            r == self@.value,
    {
        self.value
    }

    /// The hover-preview value, in half-symbol units (if hovering).
    pub fn hover_value(&self) -> (r: Option<usize>)
        ensures
            match r {
                Some(h) => self@.hover == Some(h as nat),
                None => self@.hover is None,
            },
    {
        self.hover
    }

    /// The number of symbols.
    pub fn count(&self) -> (r: usize)
        ensures
            r == self@.count,
    {
        self.count
    }

    /// The widget family.
    pub fn kind(&self) -> (r: WidgetKind)
        ensures
            r == WidgetKind::Slider,
    {
        WidgetKind::Slider
    }

    /// Whether the control takes part in the focus ring.
    pub fn focusable(&self) -> (r: bool)
        ensures
            r == !self@.disabled,
    {
        !self.disabled
    }

    fn hit_value(&self, hit: Option<RatingHit>) -> (r: Option<usize>)
        requires
            self@.valid(),
        ensures
            match r {
                Some(v) => self@.hit_value(hit) == Some(v as nat) && v <= self@.top(),
                None => self@.hit_value(hit) is None,
            },
    {
        match hit {
            Some(h) => if h.star < self.count {
                if self.half && h.left_half {
                    Some(2 * h.star + 1)
                } else {
                    Some(2 * h.star + 2)
                }
            } else {
                None
            },
            None => None,
        }
    }

    /// Sets the value to `v` half units (already within range).
    fn set_value(&mut self, v: usize) -> (out: WidgetOutcome)
        requires
            old(self)@.valid(),
            v <= old(self)@.top(),
        ensures
            final(self)@.valid(),
            (final(self)@, out@) == old(self)@.set_value(v as int),
    {
        let nv = if !self.half && v % 2 == 1 { v + 1 } else { v };
        if nv == self.value {
            return WidgetOutcome::Ignored;
        }
        self.value = nv;
        WidgetOutcome::action_with(CHANGED_ACTION, value_string(nv))
    }

    /// Handles a key press.
    pub fn on_keyboard(&mut self, key: KeyInput) -> (out: WidgetOutcome)
        requires
            old(self)@.valid(),
        ensures
            final(self)@.valid(),
            (final(self)@, out@) == old(self)@.on_keyboard(key.key),
    {
        if self.disabled {
            return WidgetOutcome::Ignored;
        }
        let step: usize = if self.half { 1 } else { 2 };
        let top = 2 * self.count;
        if key.key == keys::ARROW_RIGHT || key.key == keys::ARROW_UP {
            let target = if top - self.value <= step { top } else { self.value + step };
            self.set_value(target)
        } else if key.key == keys::ARROW_LEFT || key.key == keys::ARROW_DOWN {
            let target = if self.value <= step { 0 } else { self.value - step };
            self.set_value(target)
        } else if key.key == keys::HOME {
            self.set_value(0)
        } else if key.key == keys::END {
            self.set_value(top)
        } else {
            WidgetOutcome::Ignored
        }
    }

    /// Handles the pointer moving over `hit` (or off every symbol).
    pub fn on_mouse_move(&mut self, hit: Option<RatingHit>) -> (out: WidgetOutcome)
        requires
            old(self)@.valid(),
        ensures
            final(self)@.valid(),
            (final(self)@, out@) == old(self)@.on_mouse_move(hit),
    {
        if self.disabled {
            return WidgetOutcome::Ignored;
        }
        let h = self.hit_value(hit);
        if h == self.hover {
            return WidgetOutcome::Ignored;
        }
        self.hover = h;
        WidgetOutcome::Changed
    }

    /// Handles the pointer leaving the control.
    pub fn on_mouse_leave(&mut self) -> (out: WidgetOutcome)
        requires
            old(self)@.valid(),
        ensures
            final(self)@.valid(),
            (final(self)@, out@) == old(self)@.on_mouse_leave(),
    {
        if self.disabled || self.hover.is_none() {
            return WidgetOutcome::Ignored;
        }
        self.hover = None;
        WidgetOutcome::Changed
    }

    /// Handles a left click at `hit` (or off every symbol).
    pub fn on_click(&mut self, hit: Option<RatingHit>) -> (out: WidgetOutcome)
        requires
            old(self)@.valid(),
        ensures
            final(self)@.valid(),
            (final(self)@, out@) == old(self)@.on_click(hit),
    {
        if self.disabled {
            return WidgetOutcome::Ignored;
        }
        match self.hit_value(hit) {
            Some(v) => if v == self.value { self.set_value(0) } else { self.set_value(v) },
            None => WidgetOutcome::Ignored,
        }
    }

    fn star(&self, i: usize) -> (r: Node)
        requires
            self@.valid(),
            i < self@.count,
        ensures
            self@.star_rendered(i as int, r),
    {
        let shown = match self.hover {
            Some(h) => h,
            None => self.value,
        };
        let full = shown >= 2 * i + 2;
        let half = !full && shown >= 2 * i + 1;
        let part = prefixed("star-", i);
        let index = decimal(i);
        let base_part = prefixed("star-base-", i);
        let mut glyph = String::new();
        push_char(&mut glyph, self.symbol);
        let base = Node::el("lq-star-base").attr("data-part", base_part.as_str()).child(Node::text(glyph.as_str()));
        assert(base.attr_views() =~= seq![("data-part"@, "star-base-"@ + dec(i as nat))]);
        assert(glyph@ =~= seq![self.symbol]);
        let r = Node::el("lq-star")
            .attr("data-part", part.as_str())
            .attr("data-index", index.as_str())
            .class_if("filled", full)
            .class_if("half", half)
            .pseudo_if(PseudoFlag::Checked, full)
            .pseudo_if(PseudoFlag::Disabled, self.disabled)
            .child(base);
        assert(r.attr_views() =~= seq![("data-part"@, "star-"@ + dec(i as nat)), ("data-index"@, dec(i as nat))]);
        assert(r.class_views() =~= (if full { seq!["filled"@] } else { Seq::empty() })
            + (if half { seq!["half"@] } else { Seq::empty() }));
        r
    }

    /// The render tree: an `lq-rating` slider holding one `lq-star` per
    /// symbol, filled up to the shown value (the preview while hovering).
    pub fn render(&self) -> (r: Node)
        requires
            self@.valid(),
        ensures
            r.tag@ == "lq-rating"@,
            r.attr_views() == seq![
                (FOCUSABLE_ATTR@, bool_str(!self@.disabled)),
                ("role"@, "slider"@),
                ("data-value"@, value_text(self@.value)),
            ] + (if self@.disabled { seq![("disabled"@, "true"@)] } else { Seq::empty() }),
            r.class_views() == (if self@.hover is Some { seq!["previewing"@] } else { Seq::<Seq<char>>::empty() }),
            r.pseudo.disabled == self@.disabled,
            r.children@.len() == self@.count,
            forall|i: int| 0 <= i < self@.count ==> #[trigger] self@.star_rendered(i, r.children@[i]),
    {
        let value = value_string(self.value);
        let mut root = Node::el("lq-rating")
            .attr(FOCUSABLE_ATTR, bool_text(!self.disabled))
            .attr("role", "slider")
            .attr("data-value", value.as_str())
            .class_if("previewing", self.hover.is_some())
            .pseudo_if(PseudoFlag::Disabled, self.disabled);
        assert(root.class_views() =~= (if self@.hover is Some { seq!["previewing"@] } else { Seq::<Seq<char>>::empty() }));
        let ghost head = root.attr_views();
        let ghost classes = root.class_views();
        let mut i: usize = 0;
        while i < self.count
            invariant
                self@.valid(),
                i <= self@.count,
                root.tag@ == "lq-rating"@,
                root.attr_views() == head,
                root.class_views() == classes,
                root.pseudo.disabled == self@.disabled,
                root.children@.len() == i,
                forall|k: int| 0 <= k < i ==> #[trigger] self@.star_rendered(k, root.children@[k]),
            decreases self@.count - i,
        {
            let ghost before = root;
            root = root.child(self.star(i));
            assert forall|k: int| 0 <= k < i + 1 implies #[trigger] self@.star_rendered(k, root.children@[k]) by {
                if k < i {
                    assert(root.children@[k] == before.children@[k]);
                }
            }
            i = i + 1;
        }
        if self.disabled {
            root = root.attr("disabled", "true");
        }
        assert(root.attr_views() =~= seq![
            (FOCUSABLE_ATTR@, bool_str(!self@.disabled)),
            ("role"@, "slider"@),
            ("data-value"@, value_text(self@.value)),
        ] + (if self@.disabled { seq![("disabled"@, "true"@)] } else { Seq::empty() }));
        root
    }
}

/// Clicking the current value clears it, and clicking the same spot again
/// brings it back.
pub proof fn lemma_click_toggles(m: RatingModel, hit: Option<RatingHit>)
    requires
        m.valid(),
        !m.disabled,
        m.value > 0,
        m.hit_value(hit) == Some(m.value),
    ensures
        m.on_click(hit).0.value == 0,
        m.on_click(hit).0.on_click(hit).0.value == m.value,
{
}

/// A step up followed by a step down restores the value, when there was room
/// to step up and the value sits on a step.
pub proof fn lemma_up_then_down(m: RatingModel)
    requires
        m.valid(),
        !m.disabled,
        m.value + m.step() <= m.top(),
        m.half || m.value % 2 == 0,
    ensures
        m.on_keyboard(keys::ARROW_RIGHT).0.on_keyboard(keys::ARROW_LEFT).0 == m,
{
}

/// Hovering and leaving only move the preview: the value is never committed
/// by them.
pub proof fn lemma_preview_keeps_value(m: RatingModel, hit: Option<RatingHit>)
    ensures
        m.on_mouse_move(hit).0.value == m.value,
        m.on_mouse_leave().0.value == m.value,
        m.on_mouse_move(hit).0.hover == (if m.disabled { m.hover } else { m.hit_value(hit) }),
{
}

/// Without half steps, a whole value stays whole under every input.
pub proof fn lemma_whole_values_stay_whole(m: RatingModel, key: u32, hit: Option<RatingHit>)
    requires
        m.valid(),
        !m.half,
        m.value % 2 == 0,
    ensures
        m.on_keyboard(key).0.value % 2 == 0,
        m.on_click(hit).0.value % 2 == 0,
{
}

/// On an enabled control whose value sits on a step, Right/Up raise the value
/// by one step (a half symbol with half steps on, a whole one otherwise) and
/// Left/Down lower it by one, stopping at the ends; Home clears it and End
/// fills every symbol. A change reports the new value.
pub proof fn lemma_keys_step_value(m: RatingModel, key: u32)
    requires
        m.valid(),
        !m.disabled,
        m.half || m.value % 2 == 0,
        key == keys::ARROW_RIGHT || key == keys::ARROW_UP || key == keys::ARROW_LEFT || key == keys::ARROW_DOWN
            || key == keys::HOME || key == keys::END,
    ensures
        ({
            let d: int = if m.half { 1 } else { 2 };
            let want: int = if key == keys::ARROW_RIGHT || key == keys::ARROW_UP {
                if m.value + d <= 2 * m.count { m.value + d } else { (2 * m.count) as int }
            } else if key == keys::ARROW_LEFT || key == keys::ARROW_DOWN {
                if m.value >= d { m.value - d } else { 0 }
            } else if key == keys::HOME {
                0
            } else {
                (2 * m.count) as int
            };
            let (n, out) = m.on_keyboard(key);
            &&& n.value == want
            &&& n.count == m.count && n.half == m.half
            &&& out == (if want == m.value {
                OutcomeView::Ignored
            } else {
                OutcomeView::Action(CHANGED_ACTION@, Some(value_text(want as nat)))
            })
        }),
{
}

/// A click on the right half of symbol `i` (or anywhere on it without half
/// steps) sets the value to `i + 1` symbols, and clears it when that already
/// was the value.
pub proof fn lemma_click_sets_symbols(m: RatingModel, i: usize, left: bool)
    requires
        m.valid(),
        !m.disabled,
        i < m.count,
        !(m.half && left),
    ensures
        m.on_click(Some(RatingHit { star: i, left_half: left })).0.value == (if m.value == 2 * i + 2 {
            0
        } else {
            2 * i + 2
        }),
{
}

} // verus!
