//! `<lq-spinner>` — an indeterminate busy indicator. It has no state beyond
//! an optional accessible label, ignores every input and never takes focus;
//! the spinning arc is pure CSS.

use vstd::prelude::*;

use crate::behavior::WidgetKind;
use crate::node::{no_pseudo, Node};

verus! {

/// An indeterminate spinner.
pub struct Spinner {
    label: Option<String>,
}

impl View for Spinner {
    type V = Option<Seq<char>>;

    closed spec fn view(&self) -> Option<Seq<char>> {
        match self.label {
            Some(l) => Some(l@),
            None => None,
        }
    }
}

impl Spinner {
    /// A spinner with no label.
    pub fn new() -> (r: Spinner)
        ensures
            r@ is None,
    {
        Spinner { label: None }
    }

    /// A spinner with an accessible label.
    pub fn labelled(label: &str) -> (r: Spinner)
        ensures
            r@ == Some(label@),
    {
        Spinner { label: Some(label.to_string()) }
    }

    /// The widget family.
    pub fn kind(&self) -> (r: WidgetKind)
        ensures
            r == WidgetKind::Other,
    {
        WidgetKind::Other
    }

    /// A spinner never takes focus.
    pub fn focusable(&self) -> (r: bool)
        ensures
            !r,
    {
        false
    }

    /// The render tree: an `lq-spinner` status with its arc part, labelled
    /// when a label was given.
    pub fn render(&self) -> (r: Node)
        ensures
            r.tag@ == "lq-spinner"@,
            r.attr_views() == seq![("role"@, "status"@), ("aria-busy"@, "true"@)] + match self@ {
                Some(l) => seq![("aria-label"@, l)],
                None => Seq::empty(),
            },
            r.pseudo == no_pseudo(),
            r.children@.len() == 1,
            r.children@[0].tag@ == "lq-spinner-arc"@,
            r.children@[0].attr_views() == seq![("data-part"@, "arc"@)],
            r.children@[0].children@.len() == 0,
    {
        let arc = Node::el("lq-spinner-arc").attr("data-part", "arc");
        assert(arc.attr_views() =~= seq![("data-part"@, "arc"@)]);
        let mut node = Node::el("lq-spinner").attr("role", "status").attr("aria-busy", "true").child(arc);
        match &self.label {
            Some(l) => {
                node = node.attr("aria-label", l.as_str());
            },
            None => {},
        }
        assert(node.attr_views() =~= seq![("role"@, "status"@), ("aria-busy"@, "true"@)] + match self@ {
            Some(l) => seq![("aria-label"@, l)],
            None => Seq::empty(),
        });
        node
    }
}

} // verus!
