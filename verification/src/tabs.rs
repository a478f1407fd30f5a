//! `<lq-tabs>` — a tab strip with panels.
//!
//! N (label, content) tabs and a selected index. A click on a tab
//! (`data-part="tab-<i>"`) makes it active; Left/Up and Right/Down move the
//! selection (wrapping), Home/End jump to the first/last. Only the active
//! panel is rendered. Every change emits `changed` with the new index.

use vstd::prelude::*;

use crate::behavior::{lemma_wrap, opt_int, KeyInput, OutcomeView, WidgetKind, WidgetOutcome};
use crate::keys;
use crate::list::opt_below;
use crate::node::{bool_str, bool_text, same, Node, Pseudo, PseudoFlag, FOCUSABLE_ATTR};
use crate::text::{dec, decimal, prefixed};

verus! {

/// The action a tabs widget emits when the active tab changes.
pub const CHANGED_ACTION: &'static str = "changed";

/// One tab: a label shown in the strip and its panel content.
struct Tab {
    label: String,
    content: Vec<Node>,
}

/// A tabbed container.
pub struct Tabs {
    tabs: Vec<Tab>,
    selected: usize,
    hovered: Option<usize>,
    disabled: bool,
}

/// The abstract state of a [`Tabs`] widget.
pub struct TabsModel {
    pub labels: Seq<Seq<char>>,
    pub contents: Seq<Seq<Node>>,
    pub selected: int,
    pub hovered: Option<int>,
    pub disabled: bool,
}

/// Whether `n` is a text node holding `t`.
pub open spec fn is_text_node(n: Node, t: Seq<char>) -> bool {
    &&& n.tag@ == Seq::<char>::empty()
    &&& n.text@ == t
    &&& n.children@.len() == 0
}

impl TabsModel {
    /// Labels and contents parallel each other; the selection is a tab (or
    /// 0 when there are none); the hover is a tab.
    pub open spec fn valid(self) -> bool {
        &&& self.labels.len() == self.contents.len()
        &&& 0 <= self.selected
        &&& (self.selected == 0 || self.selected < self.labels.len())
        &&& opt_below(self.hovered, self.labels.len() as int)
    }

    /// Selecting tab `idx`: `changed` with the index; ignored when disabled,
    /// out of range or already active.
    pub open spec fn set_selected(self, idx: int) -> (TabsModel, OutcomeView) {
        if self.disabled || idx < 0 || idx >= self.labels.len() || idx == self.selected {
            (self, OutcomeView::Ignored)
        } else {
            (TabsModel { selected: idx, ..self }, OutcomeView::Action(CHANGED_ACTION@, Some(dec(idx as nat))))
        }
    }

    /// The keyboard transition (arrows wrap).
    pub open spec fn on_key(self, key: KeyInput) -> (TabsModel, OutcomeView) {
        let n = self.labels.len() as int;
        let k = key.key;
        if self.disabled || n == 0 {
            (self, OutcomeView::Ignored)
        } else if k == keys::ARROW_RIGHT || k == keys::ARROW_DOWN {
            self.set_selected((self.selected + 1) % n)
        } else if k == keys::ARROW_LEFT || k == keys::ARROW_UP {
            self.set_selected((self.selected + n - 1) % n)
        } else if k == keys::HOME {
            self.set_selected(0)
        } else if k == keys::END {
            self.set_selected(n - 1)
        } else {
            (self, OutcomeView::Ignored)
        }
    }

    /// The pointer moving over tab `hit` (or over none).
    pub open spec fn on_move(self, hit: Option<int>) -> (TabsModel, OutcomeView) {
        if self.disabled || hit == self.hovered {
            (self, OutcomeView::Ignored)
        } else {
            (TabsModel { hovered: hit, ..self }, OutcomeView::Changed)
        }
    }

    /// The pointer leaving the widget.
    pub open spec fn on_leave(self) -> (TabsModel, OutcomeView) {
        if self.disabled || self.hovered is None {
            (self, OutcomeView::Ignored)
        } else {
            (TabsModel { hovered: None, ..self }, OutcomeView::Changed)
        }
    }

    /// A left click on tab `hit` (or on none).
    pub open spec fn on_click(self, hit: Option<int>) -> (TabsModel, OutcomeView) {
        if self.disabled {
            (self, OutcomeView::Ignored)
        } else {
            match hit {
                Some(i) => self.set_selected(i),
                None => (self, OutcomeView::Ignored),
            }
        }
    }

    /// Whether `c` renders the strip entry of tab `i`.
    pub open spec fn tab_rendered(self, i: int, c: Node) -> bool {
        let active = i == self.selected;
        &&& c.tag@ == "lq-tab"@
        &&& c.key matches Some(k) && k@ == "tab-"@ + dec(i as nat)
        &&& c.attr_views() == seq![
            ("data-part"@, "tab-"@ + dec(i as nat)),
            ("data-index"@, dec(i as nat)),
            ("role"@, "tab"@),
            ("aria-selected"@, bool_str(active)),
        ]
        &&& c.pseudo == (Pseudo {
            hover: self.hovered == Some(i) && !self.disabled,
            active: false,
            focus: false,
            checked: active,
            disabled: false,
        })
        &&& c.children@.len() == 1
        &&& c.first_text() == self.labels[i]
    }
}

/// Right then Left brings the selection back (on an enabled widget with at
/// least two tabs).
pub proof fn lemma_right_then_left(m: TabsModel, right: KeyInput, left: KeyInput)
    requires
        m.valid(),
        !m.disabled,
        m.labels.len() >= 2,
        right.key == keys::ARROW_RIGHT,
        left.key == keys::ARROW_LEFT,
    ensures
        m.on_key(right).0.on_key(left).0 == m,
        m.on_key(right).0.valid(),
{
    let n = m.labels.len() as int;
    lemma_wrap(m.selected + 1, n);
    let s = (m.selected + 1) % n;
    lemma_wrap(s + n - 1, n);
}

/// The tab a key moves to from tab `s` of `n`: Right/Down the next one and
/// Left/Up the previous one, wrapping at the ends; Home the first, End the
/// last.
pub open spec fn key_tab(key: u32, s: int, n: int) -> int {
    if key == keys::ARROW_RIGHT || key == keys::ARROW_DOWN {
        if s == n - 1 { 0 } else { s + 1 }
    } else if key == keys::ARROW_LEFT || key == keys::ARROW_UP {
        if s == 0 { n - 1 } else { s - 1 }
    } else if key == keys::HOME {
        0
    } else {
        n - 1
    }
}

/// On an enabled widget with tabs, the arrow keys, Home and End select the
/// tab [`key_tab`] names and report its index; when that is the current tab
/// nothing happens.
pub proof fn lemma_keys_select_tab(m: TabsModel, key: KeyInput)
    requires
        m.valid(),
        !m.disabled,
        m.labels.len() >= 1,
        key.key == keys::ARROW_RIGHT || key.key == keys::ARROW_DOWN || key.key == keys::ARROW_LEFT || key.key
            == keys::ARROW_UP || key.key == keys::HOME || key.key == keys::END,
    ensures
        ({
            let t = key_tab(key.key, m.selected, m.labels.len() as int);
            let (n, out) = m.on_key(key);
            &&& n.selected == t
            &&& n.labels == m.labels && n.contents == m.contents
            &&& out == (if t == m.selected {
                OutcomeView::Ignored
            } else {
                OutcomeView::Action(CHANGED_ACTION@, Some(dec(t as nat)))
            })
        }),
{
    let n = m.labels.len() as int;
    lemma_wrap(m.selected + 1, n);
    lemma_wrap(m.selected + n - 1, n);
}

impl View for Tabs {
    type V = TabsModel;

    closed spec fn view(&self) -> TabsModel {
        TabsModel {
            labels: self.tabs@.map_values(|t: Tab| t.label@),
            contents: self.tabs@.map_values(|t: Tab| t.content@),
            selected: self.selected as int,
            hovered: opt_int(self.hovered),
            disabled: self.disabled,
        }
    }
}

impl Tabs {
    /// The representation invariant.
    pub open spec fn wf(&self) -> bool {
        self@.valid()
    }

    /// An empty tabs widget.
    pub fn new() -> (r: Tabs)
        ensures
            r.wf(),
            r@ == (TabsModel { labels: Seq::empty(), contents: Seq::empty(), selected: 0, hovered: None, disabled: false }),
    {
        let r = Tabs { tabs: Vec::new(), selected: 0, hovered: None, disabled: false };
        assert(r@.labels =~= Seq::<Seq<char>>::empty());
        assert(r@.contents =~= Seq::<Seq<Node>>::empty());
        r
    }

    /// Appends a tab labelled `label` whose panel is the text `content`.
    pub fn tab(self, label: &str, content: &str) -> (r: Tabs)
        requires
            self.wf(),
        ensures
            r.wf(),
            r@.labels == self@.labels.push(label@),
            r@.contents.len() == self@.contents.len() + 1,
            r@.contents.take(self@.contents.len() as int) == self@.contents,
            r@.contents.last().len() == 1,
            is_text_node(r@.contents.last()[0], content@),
            r@.selected == self@.selected,
            r@.hovered == self@.hovered,
            r@.disabled == self@.disabled,
    {
        let mut v: Vec<Node> = Vec::new();
        v.push(Node::text(content));
        self.tab_with(label, v)
    }

    /// Appends a tab labelled `label` whose panel holds `content`.
    pub fn tab_with(self, label: &str, content: Vec<Node>) -> (r: Tabs)
        requires
            self.wf(),
        ensures
            r.wf(),
            r@ == (TabsModel { labels: self@.labels.push(label@), contents: self@.contents.push(content@), ..self@ }),
    {
        let mut t = self;
        let ghost before = t@;
        t.tabs.push(Tab { label: label.to_string(), content });
        assert(t@.labels =~= before.labels.push(label@));
        assert(t@.contents =~= before.contents.push(content@));
        t
    }

    /// Pre-selects tab `idx` (past the end: nothing changes).
    pub fn select(self, idx: usize) -> (r: Tabs)
        requires
            self.wf(),
        ensures
            r.wf(),
            r@ == (if idx < self@.labels.len() { TabsModel { selected: idx as int, ..self@ } } else { self@ }),
    {
        if idx < self.tabs.len() {
            Tabs { selected: idx, ..self }
        } else {
            self
        }
    }

    /// Marks the whole widget disabled (or enabled).
    pub fn disabled(self, d: bool) -> (r: Tabs)
        requires
            self.wf(),
        ensures
            r.wf(),
            r@ == (TabsModel { disabled: d, ..self@ }),
    {
        Tabs { disabled: d, ..self }
    }

    /// The active tab index.
    pub fn selected_index(&self) -> (r: usize)
        ensures
            r == self@.selected,
    {
        self.selected
    }

    /// The active tab label (none when there are no tabs).
    pub fn selected_label(&self) -> (r: Option<&str>)
        requires
            self.wf(),
        ensures
            r matches Some(l) ==> self@.selected < self@.labels.len() && l@ == self@.labels[self@.selected],
            r is None <==> self@.labels.len() == 0,
    {
        if self.selected < self.tabs.len() {
            Some(self.tabs[self.selected].label.as_str())
        } else {
            None
        }
    }

    /// Number of tabs.
    pub fn len(&self) -> (r: usize)
        ensures
            r == self@.labels.len(),
    {
        self.tabs.len()
    }

    /// Whether there are no tabs.
    pub fn is_empty(&self) -> (r: bool)
        ensures
            r == (self@.labels.len() == 0),
    {
        self.tabs.len() == 0
    }

    /// The widget family.
    pub fn kind(&self) -> (r: WidgetKind)
        ensures
            r == WidgetKind::Container,
    {
        WidgetKind::Container
    }

    /// Whether the widget takes focus (unless disabled).
    pub fn focusable(&self) -> (r: bool)
        ensures
            r == !self@.disabled,
    {
        !self.disabled
    }

    fn set_selected(&mut self, idx: usize) -> (out: WidgetOutcome)
        requires
            old(self).wf(),
        ensures
            final(self).wf(),
            (final(self)@, out@) == old(self)@.set_selected(idx as int),
    {
        if self.disabled || idx >= self.tabs.len() || idx == self.selected {
            return WidgetOutcome::Ignored;
        }
        self.selected = idx;
        WidgetOutcome::action_with(CHANGED_ACTION, decimal(idx))
    }

    /// Handles a key press.
    pub fn on_keyboard(&mut self, key: KeyInput) -> (out: WidgetOutcome)
        requires
            old(self).wf(),
        ensures
            final(self).wf(),
            (final(self)@, out@) == old(self)@.on_key(key),
    {
        let n = self.tabs.len();
        if self.disabled || n == 0 {
            return WidgetOutcome::Ignored;
        }
        let sel = self.selected;
        proof {
            lemma_wrap(sel + 1, n as int);
            lemma_wrap(sel + n - 1, n as int);
        }
        let k = key.key;
        if k == keys::ARROW_RIGHT || k == keys::ARROW_DOWN {
            self.set_selected(if sel + 1 == n { 0 } else { sel + 1 })
        } else if k == keys::ARROW_LEFT || k == keys::ARROW_UP {
            self.set_selected(if sel == 0 { n - 1 } else { sel - 1 })
        } else if k == keys::HOME {
            self.set_selected(0)
        } else if k == keys::END {
            self.set_selected(n - 1)
        } else {
            WidgetOutcome::Ignored
        }
    }

    /// Handles the pointer moving over tab `hit` (or over none).
    pub fn on_mouse_move(&mut self, hit: Option<usize>) -> (out: WidgetOutcome)
        requires
            old(self).wf(),
            hit matches Some(i) ==> i < old(self)@.labels.len(),
        ensures
            final(self).wf(),
            (final(self)@, out@) == old(self)@.on_move(opt_int(hit)),
    {
        if self.disabled || hit == self.hovered {
            return WidgetOutcome::Ignored;
        }
        self.hovered = hit;
        WidgetOutcome::Changed
    }

    /// Handles the pointer leaving the widget.
    pub fn on_mouse_leave(&mut self) -> (out: WidgetOutcome)
        requires
            old(self).wf(),
        ensures
            final(self).wf(),
            (final(self)@, out@) == old(self)@.on_leave(),
    {
        if self.disabled || self.hovered.is_none() {
            return WidgetOutcome::Ignored;
        }
        self.hovered = None;
        WidgetOutcome::Changed
    }

    /// Handles a left click on tab `hit` (or on none).
    pub fn on_click(&mut self, hit: Option<usize>) -> (out: WidgetOutcome)
        requires
            old(self).wf(),
        ensures
            final(self).wf(),
            (final(self)@, out@) == old(self)@.on_click(opt_int(hit)),
    {
        if self.disabled {
            return WidgetOutcome::Ignored;
        }
        match hit {
            Some(i) => self.set_selected(i),
            None => WidgetOutcome::Ignored,
        }
    }

    /// The render tree: an `lq-tabs` holding the tab strip and a single
    /// panel with the active tab's content (inactive panels are not emitted).
    pub fn render(&self) -> (r: Node)
        requires
            self.wf(),
        ensures
            r.tag@ == "lq-tabs"@,
            r.pseudo.disabled == self@.disabled,
            r.children@.len() == 2,
            r.children@[0].tag@ == "lq-tablist"@,
            r.children@[0].attr_views() == seq![("role"@, "tablist"@), (FOCUSABLE_ATTR@, bool_str(!self@.disabled))],
            r.children@[0].pseudo.disabled == self@.disabled,
            r.children@[0].children@.len() == self@.labels.len(),
            forall|i: int| 0 <= i < self@.labels.len() ==> self@.tab_rendered(i, #[trigger] r.children@[0].children@[i]),
            r.children@[1].tag@ == "lq-tabpanel"@,
            r.children@[1].attr_views() == seq![("data-part"@, "panel"@), ("role"@, "tabpanel"@)],
            self@.labels.len() == 0 ==> r.children@[1].children@.len() == 0,
            self@.selected < self@.labels.len() ==> r.children@[1].children@.len() == self@.contents[self@.selected].len(),
            self@.selected < self@.labels.len() ==> forall|i: int|
                0 <= i < self@.contents[self@.selected].len() ==> same(
                    #[trigger] r.children@[1].children@[i],
                    self@.contents[self@.selected][i],
                ),
    {
        let mut strip = Node::el("lq-tablist")
            .attr("role", "tablist")
            .attr(FOCUSABLE_ATTR, bool_text(!self.disabled))
            .pseudo_if(PseudoFlag::Disabled, self.disabled);
        assert(strip.attr_views() =~= seq![("role"@, "tablist"@), (FOCUSABLE_ATTR@, bool_str(!self@.disabled))]);
        let mut i: usize = 0;
        while i < self.tabs.len()
            invariant
                self.wf(),
                i <= self@.labels.len(),
                strip.tag@ == "lq-tablist"@,
                strip.attr_views() == seq![("role"@, "tablist"@), (FOCUSABLE_ATTR@, bool_str(!self@.disabled))],
                strip.pseudo.disabled == self@.disabled,
                strip.children@.len() == i,
                forall|k: int| 0 <= k < i ==> self@.tab_rendered(k, #[trigger] strip.children@[k]),
            decreases self@.labels.len() - i,
        {
            let active = i == self.selected;
            let part = prefixed("tab-", i);
            let index = decimal(i);
            let t = Node::el("lq-tab")
                .key(part.as_str())
                .attr("data-part", part.as_str())
                .attr("data-index", index.as_str())
                .attr("role", "tab")
                .attr("aria-selected", bool_text(active))
                .pseudo_if(PseudoFlag::Checked, active)
                .pseudo_if(PseudoFlag::Hover, self.hovered == Some(i) && !self.disabled)
                .child(Node::text(self.tabs[i].label.as_str()));
            assert(t.attr_views() =~= seq![
                ("data-part"@, "tab-"@ + dec(i as nat)),
                ("data-index"@, dec(i as nat)),
                ("role"@, "tab"@),
                ("aria-selected"@, bool_str(active)),
            ]);
            strip = strip.child(t);
            i = i + 1;
        }
        let mut panel = Node::el("lq-tabpanel").attr("data-part", "panel").attr("role", "tabpanel");
        assert(panel.attr_views() =~= seq![("data-part"@, "panel"@), ("role"@, "tabpanel"@)]);
        if self.selected < self.tabs.len() {
            let content = &self.tabs[self.selected].content;
            let ghost want = self@.contents[self@.selected];
            assert(content@ == want);
            let mut j: usize = 0;
            while j < content.len()
                invariant
                    j <= want.len(),
                    content@ == want,
                    panel.tag@ == "lq-tabpanel"@,
                    panel.attr_views() == seq![("data-part"@, "panel"@), ("role"@, "tabpanel"@)],
                    panel.children@.len() == j,
                    forall|k: int| 0 <= k < j ==> same(#[trigger] panel.children@[k], want[k]),
                decreases want.len() - j,
            {
                panel = panel.child(content[j].duplicate());
                j = j + 1;
            }
        }
        Node::el("lq-tabs").pseudo_if(PseudoFlag::Disabled, self.disabled).child(strip).child(panel)
    }
}

/// A click on tab `i` of an enabled widget selects it and reports its index
/// (nothing happens when it already is the selected tab).
pub proof fn lemma_click_selects_tab(m: TabsModel, i: int)
    requires
        m.valid(),
        !m.disabled,
        0 <= i < m.labels.len(),
    ensures
        m.on_click(Some(i)).0.selected == i,
        i != m.selected ==> m.on_click(Some(i)).1 == OutcomeView::Action(CHANGED_ACTION@, Some(dec(i as nat))),
{
}

} // verus!
