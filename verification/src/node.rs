//! A plain render tree: what a widget's appearance emits (element tags,
//! attributes, classes, pseudo-states, text and children). A host turns it
//! into its own DOM template.

use vstd::prelude::*;

verus! {

/// The attribute that marks an element as a focus-ring participant.
pub const FOCUSABLE_ATTR: &'static str = "data-focusable";

/// `"true"` or `"false"`.
pub open spec fn bool_str(b: bool) -> Seq<char> {
    if b { "true"@ } else { "false"@ }
}

/// `"true"` or `"false"` as text.
pub fn bool_text(b: bool) -> (r: &'static str)
    ensures
        r@ == bool_str(b),
{
    if b { "true" } else { "false" }
}

/// The pseudo-states a node carries for CSS (`:hover`, `:active`, `:focus`,
/// `:checked`, `:disabled`).
#[derive(Clone, Copy)]
pub struct Pseudo {
    pub hover: bool,
    pub active: bool,
    pub focus: bool,
    pub checked: bool,
    pub disabled: bool,
}

/// One pseudo-state.
#[derive(Clone, Copy, Debug, PartialEq, Eq, Structural)]
pub enum PseudoFlag {
    Hover,
    Active,
    Focus,
    Checked,
    Disabled,
}

/// The state set `p` with `flag` switched on when `on` holds (and left as is
/// otherwise).
pub open spec fn with_flag(p: Pseudo, flag: PseudoFlag, on: bool) -> Pseudo {
    if !on {
        p
    } else {
        match flag {
            PseudoFlag::Hover => Pseudo { hover: true, ..p },
            PseudoFlag::Active => Pseudo { active: true, ..p },
            PseudoFlag::Focus => Pseudo { focus: true, ..p },
            PseudoFlag::Checked => Pseudo { checked: true, ..p },
            PseudoFlag::Disabled => Pseudo { disabled: true, ..p },
        }
    }
}

/// No pseudo-state set.
pub open spec fn no_pseudo() -> Pseudo {
    Pseudo { hover: false, active: false, focus: false, checked: false, disabled: false }
}

/// An element (non-empty `tag`) or a text node (empty `tag`, content in
/// `text`).
pub struct Node {
    pub tag: String,
    pub text: String,
    pub key: Option<String>,
    pub attrs: Vec<(String, String)>,
    pub classes: Vec<String>,
    pub pseudo: Pseudo,
    pub children: Vec<Node>,
    /// Inline style declarations, in insertion order.
    pub styles: Vec<(String, String)>,
}

/// The view of an optional string.
pub open spec fn opt_view(o: Option<String>) -> Option<Seq<char>> {
    match o {
        Some(s) => Some(s@),
        None => None,
    }
}

/// Whether `a` and `b` are the same tree, compared by content.
pub open spec fn same(a: Node, b: Node) -> bool
    decreases a,
{
    &&& a.tag@ == b.tag@
    &&& a.text@ == b.text@
    &&& opt_view(a.key) == opt_view(b.key)
    &&& a.attr_views() == b.attr_views()
    &&& a.class_views() == b.class_views()
    &&& a.style_views() == b.style_views()
    &&& a.pseudo == b.pseudo
    &&& a.children@.len() == b.children@.len()
    &&& forall|i: int| 0 <= i < a.children@.len() ==> {
        proof {
            vstd::std_specs::vec::axiom_vec_index_decreases(a.children, i);
        }
        same(#[trigger] a.children@[i], b.children@[i])
    }
}

impl Node {
    /// The attributes as character sequences, in insertion order.
    pub open spec fn attr_views(&self) -> Seq<(Seq<char>, Seq<char>)> {
        self.attrs@.map_values(|a: (String, String)| (a.0@, a.1@))
    }

    /// The classes as character sequences, in insertion order.
    pub open spec fn class_views(&self) -> Seq<Seq<char>> {
        self.classes@.map_values(|c: String| c@)
    }

    /// The inline style declarations as character sequences, in order.
    pub open spec fn style_views(&self) -> Seq<(Seq<char>, Seq<char>)> {
        self.styles@.map_values(|a: (String, String)| (a.0@, a.1@))
    }

    /// Whether the node carries attribute `name` with value `value`.
    pub open spec fn has_attr(&self, name: Seq<char>, value: Seq<char>) -> bool {
        self.attr_views().contains((name, value))
    }

    /// Whether the node's reconciliation key is `k`.
    pub open spec fn has_key(&self, k: Seq<char>) -> bool {
        self.key matches Some(x) && x@ == k
    }

    /// Whether the node carries class `c`.
    pub open spec fn has_class(&self, c: Seq<char>) -> bool {
        self.class_views().contains(c)
    }

    /// The text content of the node's first child (a node's label).
    pub open spec fn first_text(&self) -> Seq<char> {
        self.children@[0].text@
    }

    /// An element node with tag `tag`.
    pub fn el(tag: &str) -> (r: Node)
        ensures
            r.tag@ == tag@,
            r.text@ == Seq::<char>::empty(),
            r.key is None,
            r.attrs@.len() == 0,
            r.classes@.len() == 0,
            r.pseudo == no_pseudo(),
            r.children@.len() == 0,
            r.styles@.len() == 0,
    {
        Node {
            tag: tag.to_string(),
            text: String::new(),
            key: None,
            attrs: Vec::new(),
            classes: Vec::new(),
            pseudo: Pseudo { hover: false, active: false, focus: false, checked: false, disabled: false },
            children: Vec::new(),
            styles: Vec::new(),
        }
    }

    /// A text node.
    pub fn text(t: &str) -> (r: Node)
        ensures
            r.tag@ == Seq::<char>::empty(),
            r.text@ == t@,
            r.key is None,
            r.attrs@.len() == 0,
            r.classes@.len() == 0,
            r.pseudo == no_pseudo(),
            r.children@.len() == 0,
            r.styles@.len() == 0,
    {
        Node {
            tag: String::new(),
            text: t.to_string(),
            key: None,
            attrs: Vec::new(),
            classes: Vec::new(),
            pseudo: Pseudo { hover: false, active: false, focus: false, checked: false, disabled: false },
            children: Vec::new(),
            styles: Vec::new(),
        }
    }

    /// Sets the reconciliation key.
    pub fn key(self, k: &str) -> (r: Node)
        ensures
            r.key matches Some(s) && s@ == k@,
            r.tag == self.tag,
            r.text == self.text,
            r.attrs == self.attrs,
            r.classes == self.classes,
            r.pseudo == self.pseudo,
            r.children == self.children,
            r.styles == self.styles,
    {
        Node { key: Some(k.to_string()), ..self }
    }

    /// Adds attribute `name="value"`.
    pub fn attr(self, name: &str, value: &str) -> (r: Node)
        ensures
            r.attr_views() == self.attr_views().push((name@, value@)),
            r.tag == self.tag,
            r.text == self.text,
            r.key == self.key,
            r.classes == self.classes,
            r.pseudo == self.pseudo,
            r.children == self.children,
            r.styles == self.styles,
    {
        let mut n = self;
        n.attrs.push((name.to_string(), value.to_string()));
        assert(n.attr_views() =~= self.attr_views().push((name@, value@)));
        n
    }

    /// Adds the inline style declaration `name: value`.
    pub fn style(self, name: &str, value: &str) -> (r: Node)
        ensures
            r.style_views() == self.style_views().push((name@, value@)),
            r.tag == self.tag,
            r.text == self.text,
            r.key == self.key,
            r.attrs == self.attrs,
            r.classes == self.classes,
            r.pseudo == self.pseudo,
            r.children == self.children,
    {
        let mut n = self;
        n.styles.push((name.to_string(), value.to_string()));
        assert(n.style_views() =~= self.style_views().push((name@, value@)));
        n
    }

    /// Adds class `c`.
    pub fn class(self, c: &str) -> (r: Node)
        ensures
            r.class_views() == self.class_views().push(c@),
            r.tag == self.tag,
            r.text == self.text,
            r.key == self.key,
            r.attrs == self.attrs,
            r.pseudo == self.pseudo,
            r.children == self.children,
            r.styles == self.styles,
    {
        let mut n = self;
        n.classes.push(c.to_string());
        assert(n.class_views() =~= self.class_views().push(c@));
        n
    }

    /// Adds class `c` when `on` holds.
    pub fn class_if(self, c: &str, on: bool) -> (r: Node)
        ensures
            r.class_views() == (if on { self.class_views().push(c@) } else { self.class_views() }),
            r.tag == self.tag,
            r.text == self.text,
            r.key == self.key,
            r.attrs == self.attrs,
            r.pseudo == self.pseudo,
            r.children == self.children,
            r.styles == self.styles,
    {
        if on {
            self.class(c)
        } else {
            self
        }
    }

    /// Switches pseudo-state `flag` on when `on` holds.
    pub fn pseudo_if(self, flag: PseudoFlag, on: bool) -> (r: Node)
        ensures
            r.pseudo == with_flag(self.pseudo, flag, on),
            r.tag == self.tag,
            r.text == self.text,
            r.key == self.key,
            r.attrs == self.attrs,
            r.classes == self.classes,
            r.children == self.children,
            r.styles == self.styles,
    {
        if !on {
            return self;
        }
        let mut n = self;
        match flag {
            PseudoFlag::Hover => n.pseudo.hover = true,
            PseudoFlag::Active => n.pseudo.active = true,
            PseudoFlag::Focus => n.pseudo.focus = true,
            PseudoFlag::Checked => n.pseudo.checked = true,
            PseudoFlag::Disabled => n.pseudo.disabled = true,
        }
        n
    }

    /// Appends every node of `cs` as a child, in order.
    pub fn children(self, cs: Vec<Node>) -> (r: Node)
        ensures
            r.children@ == self.children@ + cs@,
            r.tag == self.tag,
            r.text == self.text,
            r.key == self.key,
            r.attrs == self.attrs,
            r.classes == self.classes,
            r.pseudo == self.pseudo,
            r.styles == self.styles,
    {
        let mut n = self;
        let mut cs = cs;
        let ghost start = n.children@;
        let ghost added = cs@;
        n.children.append(&mut cs);
        n
    }

    /// A copy of this tree.
    pub fn duplicate(&self) -> (r: Node)
        ensures
            same(r, *self),
        decreases self,
    {
        let mut children: Vec<Node> = Vec::new();
        let mut i: usize = 0;
        while i < self.children.len()
            invariant
                i <= self.children@.len(),
                children@.len() == i,
                forall|k: int| 0 <= k < i ==> same(#[trigger] children@[k], self.children@[k]),
            decreases self.children@.len() - i,
        {
            proof {
                vstd::std_specs::vec::axiom_vec_index_decreases(self.children, i as int);
                assert(decreases_to!(*self => self.children@[i as int]));
            }
            let c = self.children[i].duplicate();
            children.push(c);
            i = i + 1;
        }
        let mut attrs: Vec<(String, String)> = Vec::new();
        let mut j: usize = 0;
        while j < self.attrs.len()
            invariant
                j <= self.attrs@.len(),
                attrs@.len() == j,
                forall|q: int| 0 <= q < j ==> (#[trigger] attrs@[q]).0@ == self.attrs@[q].0@ && attrs@[q].1@ == self.attrs@[q].1@,
            decreases self.attrs@.len() - j,
        {
            let a0 = self.attrs[j].0.clone();
            let a1 = self.attrs[j].1.clone();
            attrs.push((a0, a1));
            j = j + 1;
        }
        let mut classes: Vec<String> = Vec::new();
        let mut k: usize = 0;
        while k < self.classes.len()
            invariant
                k <= self.classes@.len(),
                classes@.len() == k,
                forall|q: int| 0 <= q < k ==> (#[trigger] classes@[q])@ == self.classes@[q]@,
            decreases self.classes@.len() - k,
        {
            let c = self.classes[k].clone();
            classes.push(c);
            k = k + 1;
        }
        let key = match &self.key {
            Some(s) => Some(s.clone()),
            None => None,
        };
        let mut styles: Vec<(String, String)> = Vec::new();
        let mut q: usize = 0;
        while q < self.styles.len()
            invariant
                q <= self.styles@.len(),
                styles@.len() == q,
                forall|z: int| 0 <= z < q ==> (#[trigger] styles@[z]).0@ == self.styles@[z].0@ && styles@[z].1@ == self.styles@[z].1@,
            decreases self.styles@.len() - q,
        {
            let s0 = self.styles[q].0.clone();
            let s1 = self.styles[q].1.clone();
            styles.push((s0, s1));
            q = q + 1;
        }
        let r = Node { tag: self.tag.clone(), text: self.text.clone(), key, attrs, classes, pseudo: self.pseudo, children, styles };
        assert(r.style_views() =~= self.style_views());
        assert(r.attr_views() =~= self.attr_views());
        assert(r.class_views() =~= self.class_views());
        r
    }

    /// Appends child `c`.
    pub fn child(self, c: Node) -> (r: Node)
        ensures
            r.children@ == self.children@.push(c),
            r.tag == self.tag,
            r.text == self.text,
            r.key == self.key,
            r.attrs == self.attrs,
            r.classes == self.classes,
            r.pseudo == self.pseudo,
            r.styles == self.styles,
    {
        let mut n = self;
        n.children.push(c);
        n
    }
}

} // verus!
