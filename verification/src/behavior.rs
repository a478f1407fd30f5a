//! The input/outcome vocabulary shared by every widget behaviour.

use vstd::prelude::*;

verus! {

/// What a widget reports after handling an input.
pub enum WidgetOutcome {
    /// The input did not concern the widget; nothing changed.
    Ignored,
    /// Visible state changed (re-render), no semantic action.
    Changed,
    /// A semantic action (`name`) with an optional payload.
    Action { name: String, payload: Option<String> },
}

/// The mathematical form of an outcome: strings are taken by their characters.
pub enum OutcomeView {
    Ignored,
    Changed,
    Action(Seq<char>, Option<Seq<char>>),
}

impl View for WidgetOutcome {
    type V = OutcomeView;

    open spec fn view(&self) -> OutcomeView {
        match self {
            WidgetOutcome::Ignored => OutcomeView::Ignored,
            WidgetOutcome::Changed => OutcomeView::Changed,
            WidgetOutcome::Action { name, payload } => OutcomeView::Action(
                name@,
                match payload {
                    Some(p) => Some(p@),
                    None => None,
                },
            ),
        }
    }
}

impl WidgetOutcome {
    /// An action without a payload.
    pub fn action(name: &str) -> (r: WidgetOutcome)
        ensures
            r@ == OutcomeView::Action(name@, None),
    {
        WidgetOutcome::Action { name: name.to_string(), payload: None }
    }

    /// An action carrying `payload`.
    pub fn action_with(name: &str, payload: String) -> (r: WidgetOutcome)
        ensures
            r@ == OutcomeView::Action(name@, Some(payload@)),
    {
        WidgetOutcome::Action { name: name.to_string(), payload: Some(payload) }
    }

    /// Whether the outcome asks the host to re-render.
    pub fn needs_render(&self) -> (r: bool)
        ensures
            r == !(self@ is Ignored),
    {
        match self {
            WidgetOutcome::Ignored => false,
            _ => true,
        }
    }
}

/// A keyboard input: a key code (see [`crate::keys`]) plus a modifier bitmask
/// (see [`crate::keys::modifiers`]).
#[derive(Clone, Copy)]
pub struct KeyInput {
    pub key: u32,
    pub modifiers: u32,
}

impl KeyInput {
    /// A key press with the given modifiers.
    pub fn new(key: u32, modifiers: u32) -> (r: KeyInput)
        ensures
            r.key == key,
            r.modifiers == modifiers,
    {
        KeyInput { key, modifiers }
    }
}

/// An optional index taken as a mathematical integer.
pub open spec fn opt_int(o: Option<usize>) -> Option<int> {
    match o {
        Some(x) => Some(x as int),
        None => None,
    }
}

/// `x % n` for `0 <= x < 2n`.
pub proof fn lemma_wrap(x: int, n: int)
    requires
        n > 0,
        0 <= x < 2 * n,
    ensures
        x % n == (if x < n { x } else { x - n }),
{
    if x < n {
        vstd::arithmetic::div_mod::lemma_small_mod(x as nat, n as nat);
    } else {
        vstd::arithmetic::div_mod::lemma_small_mod((x - n) as nat, n as nat);
        vstd::arithmetic::div_mod::lemma_mod_sub_multiples_vanish(x, n);
    }
}

/// The broad family a widget belongs to (used by hosts for focus/ARIA policy).
#[derive(Clone, Copy, Debug, PartialEq, Eq, Structural)]
pub enum WidgetKind {
    Label,
    Button,
    Input,
    Toggle,
    Container,
    Collection,
    /// A value picked on a range (sliders, ratings).
    Slider,
    /// The infrastructure reference box.
    Reference,
    Other,
}

} // verus!
