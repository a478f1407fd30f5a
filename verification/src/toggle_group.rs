//! `<lq-toggle-group>` — a row of toggle-buttons, single-select (radio-like)
//! or multi-select.
//!
//! A click on a button (`data-part="opt-<i>"`) toggles or selects it; arrows
//! move a roving focus cursor (wrapping), Home/End jump it, Space/Enter
//! toggles the focused button. A selection change emits `changed` with the
//! comma-joined active values.

use vstd::prelude::*;

use crate::behavior::{lemma_wrap, opt_int, KeyInput, OutcomeView, WidgetKind, WidgetOutcome};
use crate::keys;
use crate::tabs::key_tab;
use crate::list::opt_below;
use crate::node::{bool_str, bool_text, Node, Pseudo, PseudoFlag, FOCUSABLE_ATTR};
use crate::text::{dec, join, join_strings, prefixed};

verus! {

/// Emitted when the selection changes (payload: comma-joined active values).
pub const CHANGED_ACTION: &'static str = "changed";

/// Selection mode of a toggle group.
#[derive(Clone, Copy, Debug, PartialEq, Eq, Structural)]
pub enum ToggleMode {
    /// At most one button active (radio-like).
    Single,
    /// Any subset of buttons active.
    Multi,
}

/// A group of toggle-buttons.
pub struct ToggleGroup {
    options: Vec<(String, String)>,
    active: Vec<bool>,
    mode: ToggleMode,
    allow_deselect: bool,
    cursor: usize,
    hovered: Option<usize>,
    disabled: bool,
}

/// The abstract state of a [`ToggleGroup`].
pub struct ToggleGroupModel {
    pub options: Seq<(Seq<char>, Seq<char>)>,
    pub active: Seq<bool>,
    pub mode: ToggleMode,
    pub allow_deselect: bool,
    pub cursor: int,
    pub hovered: Option<int>,
    pub disabled: bool,
}

/// The values of the active options among the first `k`, in order.
pub open spec fn active_values(options: Seq<(Seq<char>, Seq<char>)>, active: Seq<bool>, k: int) -> Seq<Seq<char>>
    decreases k,
{
    if k <= 0 {
        Seq::empty()
    } else if active[k - 1] {
        active_values(options, active, k - 1).push(options[k - 1].0)
    } else {
        active_values(options, active, k - 1)
    }
}

/// `n` flags with only `idx` set.
pub open spec fn only(n: nat, idx: int) -> Seq<bool> {
    Seq::new(n, |i: int| i == idx)
}

/// Whether no two distinct flags are set.
pub open spec fn at_most_one(active: Seq<bool>) -> bool {
    forall|i: int, j: int| 0 <= i < active.len() && 0 <= j < active.len() && #[trigger] active[i] && #[trigger] active[j] ==> i == j
}

/// Whether some flag is set.
pub open spec fn some_active(active: Seq<bool>) -> bool {
    exists|i: int| 0 <= i < active.len() && #[trigger] active[i]
}

impl ToggleGroupModel {
    /// The flags parallel the options, the cursor is an option (or 0 when
    /// there are none), the hover is an option, and a single-select group
    /// never has two active buttons.
    pub open spec fn valid(self) -> bool {
        &&& self.active.len() == self.options.len()
        &&& (self.cursor == 0 || 0 <= self.cursor < self.options.len())
        &&& 0 <= self.cursor
        &&& opt_below(self.hovered, self.options.len() as int)
        &&& (self.mode == ToggleMode::Single ==> at_most_one(self.active))
    }

    /// The active values, in order.
    pub open spec fn selection(self) -> Seq<Seq<char>> {
        active_values(self.options, self.active, self.options.len() as int)
    }

    /// The `changed` outcome for this state.
    pub open spec fn changed(self) -> OutcomeView {
        OutcomeView::Action(CHANGED_ACTION@, Some(join(self.selection(), ","@)))
    }

    /// Toggling or selecting option `idx` according to the mode.
    pub open spec fn toggle(self, idx: int) -> (ToggleGroupModel, OutcomeView) {
        if idx < 0 || idx >= self.options.len() {
            (self, OutcomeView::Ignored)
        } else if self.mode == ToggleMode::Multi {
            let m = ToggleGroupModel { active: self.active.update(idx, !self.active[idx]), cursor: idx, ..self };
            (m, m.changed())
        } else if self.active[idx] {
            if self.allow_deselect {
                let m = ToggleGroupModel { active: self.active.update(idx, false), cursor: idx, ..self };
                (m, m.changed())
            } else if self.cursor != idx {
                (ToggleGroupModel { cursor: idx, ..self }, OutcomeView::Changed)
            } else {
                (self, OutcomeView::Ignored)
            }
        } else {
            let m = ToggleGroupModel { active: only(self.options.len(), idx), cursor: idx, ..self };
            (m, m.changed())
        }
    }

    /// Moving the focus cursor to `next`.
    pub open spec fn move_cursor(self, next: int) -> (ToggleGroupModel, OutcomeView) {
        if next == self.cursor {
            (self, OutcomeView::Ignored)
        } else {
            (ToggleGroupModel { cursor: next, ..self }, OutcomeView::Changed)
        }
    }

    /// The keyboard transition.
    pub open spec fn on_key(self, key: KeyInput) -> (ToggleGroupModel, OutcomeView) {
        let n = self.options.len() as int;
        let k = key.key;
        if self.disabled || n == 0 {
            (self, OutcomeView::Ignored)
        } else if k == keys::ARROW_RIGHT || k == keys::ARROW_DOWN {
            self.move_cursor((self.cursor + 1) % n)
        } else if k == keys::ARROW_LEFT || k == keys::ARROW_UP {
            self.move_cursor((self.cursor + n - 1) % n)
        } else if k == keys::HOME {
            self.move_cursor(0)
        } else if k == keys::END {
            self.move_cursor(n - 1)
        } else if k == keys::SPACE || k == keys::ENTER {
            self.toggle(self.cursor)
        } else {
            (self, OutcomeView::Ignored)
        }
    }

    /// The pointer moving over option `hit` (or over none).
    pub open spec fn on_move(self, hit: Option<int>) -> (ToggleGroupModel, OutcomeView) {
        if self.disabled || hit == self.hovered {
            (self, OutcomeView::Ignored)
        } else {
            (ToggleGroupModel { hovered: hit, ..self }, OutcomeView::Changed)
        }
    }

    /// The pointer leaving the group.
    pub open spec fn on_leave(self) -> (ToggleGroupModel, OutcomeView) {
        if self.disabled || self.hovered is None {
            (self, OutcomeView::Ignored)
        } else {
            (ToggleGroupModel { hovered: None, ..self }, OutcomeView::Changed)
        }
    }

    /// A left click on option `hit` (or on none).
    pub open spec fn on_click(self, hit: Option<int>) -> (ToggleGroupModel, OutcomeView) {
        if self.disabled {
            (self, OutcomeView::Ignored)
        } else {
            match hit {
                Some(i) => self.toggle(i),
                None => (self, OutcomeView::Ignored),
            }
        }
    }

    /// Whether `c` renders option `i`.
    pub open spec fn option_rendered(self, i: int, c: Node) -> bool {
        let single = self.mode == ToggleMode::Single;
        let act = self.active[i];
        &&& c.tag@ == "lq-toggle-opt"@
        &&& c.key matches Some(k) && k@ == self.options[i].0
        &&& c.attr_views() == seq![
            ("data-part"@, "opt-"@ + dec(i as nat)),
            ("data-value"@, self.options[i].0),
            ("role"@, if single { "radio"@ } else { "button"@ }),
            ("aria-pressed"@, bool_str(act)),
        ]
        &&& c.class_views() == (if act { seq!["active"@] } else { Seq::empty() })
        &&& c.pseudo == (Pseudo {
            hover: self.hovered == Some(i) && !self.disabled,
            active: false,
            focus: i == self.cursor && !self.disabled,
            checked: act,
            disabled: self.disabled,
        })
        &&& c.children@.len() == 1
        &&& c.first_text() == self.options[i].1
    }
}

/// In a single-select group that does not allow deselecting, a button that
/// is active stays so: a toggle never leaves the group with none active.
pub proof fn lemma_single_keeps_selection(m: ToggleGroupModel, idx: int)
    requires
        m.valid(),
        m.mode == ToggleMode::Single,
        !m.allow_deselect,
        some_active(m.active),
    ensures
        some_active(m.toggle(idx).0.active),
        m.toggle(idx).0.valid(),
{
    let n = m.options.len();
    if 0 <= idx < n && !m.active[idx] {
        let a = only(n, idx);
        assert(a[idx]);
    }
}

/// Every transition of a valid state yields a valid state.
pub proof fn lemma_toggle_keeps_valid(m: ToggleGroupModel, idx: int)
    requires
        m.valid(),
    ensures
        m.toggle(idx).0.valid(),
{
    let n = m.options.len();
    if 0 <= idx < n && m.mode == ToggleMode::Single && m.active[idx] && m.allow_deselect {
        let a = m.active.update(idx, false);
        assert forall|i: int, j: int| 0 <= i < a.len() && 0 <= j < a.len() && #[trigger] a[i] && #[trigger] a[j] implies i == j by {
            assert(m.active[i] && m.active[j]);
        }
    }
}

impl View for ToggleGroup {
    type V = ToggleGroupModel;

    closed spec fn view(&self) -> ToggleGroupModel {
        ToggleGroupModel {
            options: self.options@.map_values(|p: (String, String)| (p.0@, p.1@)),
            active: self.active@,
            mode: self.mode,
            allow_deselect: self.allow_deselect,
            cursor: self.cursor as int,
            hovered: opt_int(self.hovered),
            disabled: self.disabled,
        }
    }
}

impl ToggleGroup {
    /// The representation invariant.
    pub open spec fn wf(&self) -> bool {
        self@.valid()
    }

    fn flags(n: usize, first: bool) -> (r: Vec<bool>)
        ensures
            r@ == (if first && n > 0 { only(n as nat, 0) } else { Seq::new(n as nat, |i: int| false) }),
    {
        let mut r: Vec<bool> = Vec::new();
        let mut i: usize = 0;
        while i < n
            invariant
                i <= n,
                r@ == (if first && n > 0 { only(n as nat, 0).take(i as int) } else { Seq::new(i as nat, |k: int| false) }),
            decreases n - i,
        {
            r.push(first && i == 0);
            assert(r@ =~= (if first && n > 0 { only(n as nat, 0).take(i + 1) } else { Seq::new((i + 1) as nat, |k: int| false) }));
            i = i + 1;
        }
        assert(only(n as nat, 0).take(n as int) =~= only(n as nat, 0));
        r
    }

    /// A single-select group over `(value, label)` options; the first is
    /// selected.
    pub fn single(options: Vec<(String, String)>) -> (r: ToggleGroup)
        ensures
            r.wf(),
            r@ == (ToggleGroupModel {
                options: options@.map_values(|p: (String, String)| (p.0@, p.1@)),
                active: if options@.len() > 0 { only(options@.len(), 0) } else { Seq::empty() },
                mode: ToggleMode::Single,
                allow_deselect: false,
                cursor: 0,
                hovered: None,
                disabled: false,
            }),
    {
        let active = Self::flags(options.len(), true);
        assert(options@.len() == 0 ==> active@ =~= Seq::<bool>::empty());
        ToggleGroup { options, active, mode: ToggleMode::Single, allow_deselect: false, cursor: 0, hovered: None, disabled: false }
    }

    /// A multi-select group over `(value, label)` options; none selected.
    pub fn multi(options: Vec<(String, String)>) -> (r: ToggleGroup)
        ensures
            r.wf(),
            r@ == (ToggleGroupModel {
                options: options@.map_values(|p: (String, String)| (p.0@, p.1@)),
                active: Seq::new(options@.len(), |i: int| false),
                mode: ToggleMode::Multi,
                allow_deselect: true,
                cursor: 0,
                hovered: None,
                disabled: false,
            }),
    {
        let active = Self::flags(options.len(), false);
        ToggleGroup { options, active, mode: ToggleMode::Multi, allow_deselect: true, cursor: 0, hovered: None, disabled: false }
    }

    /// In single mode, whether clicking the active button deselects it.
    pub fn allow_deselect(self, a: bool) -> (r: ToggleGroup)
        requires
            self.wf(),
        ensures
            r.wf(),
            r@ == (ToggleGroupModel { allow_deselect: a, ..self@ }),
    {
        ToggleGroup { allow_deselect: a, ..self }
    }

    /// Pre-selects option `idx` (in single mode, alone) and puts the cursor
    /// on it; past the end nothing changes.
    pub fn select(self, idx: usize) -> (r: ToggleGroup)
        requires
            self.wf(),
        ensures
            r.wf(),
            r@ == (if idx < self@.options.len() {
                ToggleGroupModel {
                    active: if self@.mode == ToggleMode::Single {
                        only(self@.options.len(), idx as int)
                    } else {
                        self@.active.update(idx as int, true)
                    },
                    cursor: idx as int,
                    ..self@
                }
            } else {
                self@
            }),
    {
        let mut g = self;
        if idx < g.active.len() {
            if g.mode == ToggleMode::Single {
                g.clear();
            }
            g.active.set(idx, true);
            g.cursor = idx;
            assert(g.mode == ToggleMode::Single ==> g.active@ =~= only(g.options@.len(), idx as int));
            assert(g.mode == ToggleMode::Multi ==> g.active@ =~= self@.active.update(idx as int, true));
        }
        g
    }

    /// Marks the group disabled (or enabled).
    pub fn disabled(self, d: bool) -> (r: ToggleGroup)
        requires
            self.wf(),
        ensures
            r.wf(),
            r@ == (ToggleGroupModel { disabled: d, ..self@ }),
    {
        ToggleGroup { disabled: d, ..self }
    }

    /// The selection mode.
    pub fn mode(&self) -> (r: ToggleMode)
        ensures
            r == self@.mode,
    {
        self.mode
    }

    /// Whether option `idx` is active (false past the end).
    pub fn is_active(&self, idx: usize) -> (r: bool)
        requires
            self.wf(),
        ensures
            r == (idx < self@.options.len() && self@.active[idx as int]),
    {
        idx < self.active.len() && self.active[idx]
    }

    /// The active option values, in order.
    pub fn selection(&self) -> (r: Vec<String>)
        requires
            self.wf(),
        ensures
            r@.map_values(|s: String| s@) == self@.selection(),
    {
        let mut r: Vec<String> = Vec::new();
        let mut i: usize = 0;
        while i < self.options.len()
            invariant
                self.wf(),
                i <= self@.options.len(),
                r@.map_values(|s: String| s@) == active_values(self@.options, self@.active, i as int),
            decreases self@.options.len() - i,
        {
            if self.active[i] {
                r.push(self.options[i].0.clone());
            }
            assert(r@.map_values(|s: String| s@) =~= active_values(self@.options, self@.active, i + 1));
            i = i + 1;
        }
        r
    }

    /// The roving focus cursor index.
    pub fn cursor(&self) -> (r: usize)
        ensures
            r == self@.cursor,
    {
        self.cursor
    }

    /// Number of options.
    pub fn len(&self) -> (r: usize)
        ensures
            r == self@.options.len(),
    {
        self.options.len()
    }

    /// Whether there are no options.
    pub fn is_empty(&self) -> (r: bool)
        ensures
            r == (self@.options.len() == 0),
    {
        self.options.len() == 0
    }

    /// The widget family.
    pub fn kind(&self) -> (r: WidgetKind)
        ensures
            r == WidgetKind::Toggle,
    {
        WidgetKind::Toggle
    }

    /// Whether the group takes focus (unless disabled).
    pub fn focusable(&self) -> (r: bool)
        ensures
            r == !self@.disabled,
    {
        !self.disabled
    }

    fn clear(&mut self)
        ensures
            final(self)@ == (ToggleGroupModel { active: Seq::new(old(self)@.active.len(), |i: int| false), ..old(self)@ }),
    {
        let ghost start = self@;
        let mut i: usize = 0;
        while i < self.active.len()
            invariant
                i <= self.active@.len(),
                self.active@.len() == start.active.len(),
                forall|k: int| 0 <= k < i ==> !self.active@[k],
                self@ == (ToggleGroupModel { active: self.active@, ..start }),
            decreases self.active@.len() - i,
        {
            self.active.set(i, false);
            i = i + 1;
        }
        assert(self.active@ =~= Seq::new(start.active.len(), |i: int| false));
    }

    fn changed(&self) -> (out: WidgetOutcome)
        requires
            self.wf(),
        ensures
            out@ == self@.changed(),
    {
        let sel = self.selection();
        WidgetOutcome::action_with(CHANGED_ACTION, join_strings(&sel, ","))
    }

    fn toggle(&mut self, idx: usize) -> (out: WidgetOutcome)
        requires
            old(self).wf(),
        ensures
            final(self).wf(),
            (final(self)@, out@) == old(self)@.toggle(idx as int),
    {
        proof {
            lemma_toggle_keeps_valid(self@, idx as int);
        }
        if idx >= self.options.len() {
            return WidgetOutcome::Ignored;
        }
        let ghost target = self@.toggle(idx as int).0;
        match self.mode {
            ToggleMode::Multi => {
                let a = self.active[idx];
                self.active.set(idx, !a);
                self.cursor = idx;
                assert(self@ == target);
                self.changed()
            },
            ToggleMode::Single => {
                if self.active[idx] {
                    if self.allow_deselect {
                        self.active.set(idx, false);
                        self.cursor = idx;
                        assert(self@ == target);
                        self.changed()
                    } else {
                        if self.cursor != idx {
                            self.cursor = idx;
                            return WidgetOutcome::Changed;
                        }
                        WidgetOutcome::Ignored
                    }
                } else {
                    self.clear();
                    self.active.set(idx, true);
                    self.cursor = idx;
                    assert(self.active@ =~= only(self@.options.len(), idx as int));
                    assert(self@ == target);
                    self.changed()
                }
            },
        }
    }

    fn move_cursor(&mut self, next: usize) -> (out: WidgetOutcome)
        requires
            old(self).wf(),
            next < old(self)@.options.len(),
        ensures
            final(self).wf(),
            (final(self)@, out@) == old(self)@.move_cursor(next as int),
    {
        if next == self.cursor {
            return WidgetOutcome::Ignored;
        }
        self.cursor = next;
        WidgetOutcome::Changed
    }

    /// Handles a key press.
    pub fn on_keyboard(&mut self, key: KeyInput) -> (out: WidgetOutcome)
        requires
            old(self).wf(),
        ensures
            final(self).wf(),
            (final(self)@, out@) == old(self)@.on_key(key),
    {
        let n = self.options.len();
        if self.disabled || n == 0 {
            return WidgetOutcome::Ignored;
        }
        let c = self.cursor;
        proof {
            lemma_wrap(c + 1, n as int);
            lemma_wrap(c + n - 1, n as int);
        }
        let k = key.key;
        if k == keys::ARROW_RIGHT || k == keys::ARROW_DOWN {
            self.move_cursor(if c + 1 == n { 0 } else { c + 1 })
        } else if k == keys::ARROW_LEFT || k == keys::ARROW_UP {
            self.move_cursor(if c == 0 { n - 1 } else { c - 1 })
        } else if k == keys::HOME {
            self.move_cursor(0)
        } else if k == keys::END {
            self.move_cursor(n - 1)
        } else if k == keys::SPACE || k == keys::ENTER {
            self.toggle(c)
        } else {
            WidgetOutcome::Ignored
        }
    }

    /// Handles the pointer moving over option `hit` (or over none).
    pub fn on_mouse_move(&mut self, hit: Option<usize>) -> (out: WidgetOutcome)
        requires
            old(self).wf(),
            hit matches Some(i) ==> i < old(self)@.options.len(),
        ensures
            final(self).wf(),
            (final(self)@, out@) == old(self)@.on_move(opt_int(hit)),
    {
        if self.disabled || hit == self.hovered {
            return WidgetOutcome::Ignored;
        }
        self.hovered = hit;
        WidgetOutcome::Changed
    }

    /// Handles the pointer leaving the group.
    pub fn on_mouse_leave(&mut self) -> (out: WidgetOutcome)
        requires
            old(self).wf(),
        ensures
            final(self).wf(),
            (final(self)@, out@) == old(self)@.on_leave(),
    {
        if self.disabled || self.hovered.is_none() {
            return WidgetOutcome::Ignored;
        }
        self.hovered = None;
        WidgetOutcome::Changed
    }

    /// Handles a left click on option `hit` (or on none).
    pub fn on_click(&mut self, hit: Option<usize>) -> (out: WidgetOutcome)
        requires
            old(self).wf(),
        ensures
            final(self).wf(),
            (final(self)@, out@) == old(self)@.on_click(opt_int(hit)),
    {
        if self.disabled {
            return WidgetOutcome::Ignored;
        }
        match hit {
            Some(i) => self.toggle(i),
            None => WidgetOutcome::Ignored,
        }
    }

    /// The render tree: an `lq-toggle-group` with one `lq-toggle-opt` per
    /// option.
    pub fn render(&self) -> (r: Node)
        requires
            self.wf(),
        ensures
            r.tag@ == "lq-toggle-group"@,
            r.attr_views() == seq![
                (FOCUSABLE_ATTR@, bool_str(!self@.disabled)),
                ("role"@, if self@.mode == ToggleMode::Single { "radiogroup"@ } else { "group"@ }),
            ] + (if self@.disabled { seq![("disabled"@, "true"@)] } else { Seq::empty() }),
            r.class_views() == (if self@.mode == ToggleMode::Single { seq!["single"@] } else { seq!["multi"@] }),
            r.pseudo.disabled == self@.disabled,
            r.children@.len() == self@.options.len(),
            forall|i: int| 0 <= i < self@.options.len() ==> self@.option_rendered(i, #[trigger] r.children@[i]),
    {
        let single = self.mode == ToggleMode::Single;
        let mut group = Node::el("lq-toggle-group")
            .attr(FOCUSABLE_ATTR, bool_text(!self.disabled))
            .attr("role", if single { "radiogroup" } else { "group" })
            .class_if("single", single)
            .class_if("multi", !single)
            .pseudo_if(PseudoFlag::Disabled, self.disabled);
        assert(group.class_views() =~= (if single { seq!["single"@] } else { seq!["multi"@] }));
        let ghost head = group.attr_views();
        let mut i: usize = 0;
        while i < self.options.len()
            invariant
                self.wf(),
                single == (self@.mode == ToggleMode::Single),
                i <= self@.options.len(),
                group.tag@ == "lq-toggle-group"@,
                group.attr_views() == head,
                group.class_views() == (if single { seq!["single"@] } else { seq!["multi"@] }),
                group.pseudo.disabled == self@.disabled,
                group.children@.len() == i,
                forall|k: int| 0 <= k < i ==> self@.option_rendered(k, #[trigger] group.children@[k]),
            decreases self@.options.len() - i,
        {
            let act = self.active[i];
            let value = self.options[i].0.as_str();
            let part = prefixed("opt-", i);
            let opt = Node::el("lq-toggle-opt")
                .key(value)
                .attr("data-part", part.as_str())
                .attr("data-value", value)
                .attr("role", if single { "radio" } else { "button" })
                .attr("aria-pressed", bool_text(act))
                .class_if("active", act)
                .pseudo_if(PseudoFlag::Checked, act)
                .pseudo_if(PseudoFlag::Focus, i == self.cursor && !self.disabled)
                .pseudo_if(PseudoFlag::Hover, self.hovered == Some(i) && !self.disabled)
                .pseudo_if(PseudoFlag::Disabled, self.disabled)
                .child(Node::text(self.options[i].1.as_str()));
            assert(opt.attr_views() =~= seq![
                ("data-part"@, "opt-"@ + dec(i as nat)),
                ("data-value"@, self@.options[i as int].0),
                ("role"@, if single { "radio"@ } else { "button"@ }),
                ("aria-pressed"@, bool_str(act)),
            ]);
            assert(opt.class_views() =~= (if act { seq!["active"@] } else { Seq::<Seq<char>>::empty() }));
            group = group.child(opt);
            i = i + 1;
        }
        if self.disabled {
            group = group.attr("disabled", "true");
        }
        assert(group.attr_views() =~= seq![
            (FOCUSABLE_ATTR@, bool_str(!self@.disabled)),
            ("role"@, if self@.mode == ToggleMode::Single { "radiogroup"@ } else { "group"@ }),
        ] + (if self@.disabled { seq![("disabled"@, "true"@)] } else { Seq::empty() }));
        group
    }
}

/// Whether exactly one flag is set.
pub open spec fn exactly_one(active: Seq<bool>) -> bool {
    some_active(active) && at_most_one(active)
}

/// A single-select group that does not allow deselecting keeps exactly one
/// active option under every key press, click and pointer move.
pub proof fn lemma_single_exactly_one(m: ToggleGroupModel, key: KeyInput, hit: Option<int>)
    requires
        m.valid(),
        m.mode == ToggleMode::Single,
        !m.allow_deselect,
        exactly_one(m.active),
    ensures
        exactly_one(m.on_key(key).0.active),
        exactly_one(m.on_click(hit).0.active),
        exactly_one(m.on_move(hit).0.active),
        exactly_one(m.on_leave().0.active),
{
    lemma_single_keeps_selection(m, m.cursor);
    match hit {
        Some(i) => lemma_single_keeps_selection(m, i),
        None => {},
    }
}

/// A single-select group over at least one option starts with exactly one
/// active option (the first, or the one selected).
pub proof fn lemma_single_starts_with_one(n: nat, idx: int)
    requires
        0 <= idx < n,
    ensures
        exactly_one(only(n, idx)),
{
    assert(only(n, idx)[idx]);
}


/// The number of set flags among the first `k`.
pub open spec fn count_active(active: Seq<bool>, k: int) -> nat
    decreases k,
{
    if k <= 0 {
        0
    } else if active[k - 1] {
        count_active(active, k - 1) + 1
    } else {
        count_active(active, k - 1)
    }
}

proof fn lemma_values_count(options: Seq<(Seq<char>, Seq<char>)>, active: Seq<bool>, k: int)
    ensures
        active_values(options, active, k).len() == count_active(active, k),
    decreases k,
{
    if k > 0 {
        lemma_values_count(options, active, k - 1);
    }
}

proof fn lemma_count_zero(active: Seq<bool>, k: int)
    requires
        0 <= k <= active.len(),
    ensures
        count_active(active, k) == 0 <==> (forall|i: int| 0 <= i < k ==> !#[trigger] active[i]),
    decreases k,
{
    if k > 0 {
        lemma_count_zero(active, k - 1);
    }
}

proof fn lemma_count_at_most_one(active: Seq<bool>, k: int)
    requires
        0 <= k <= active.len(),
        at_most_one(active),
    ensures
        count_active(active, k) <= 1,
    decreases k,
{
    if k > 0 {
        lemma_count_at_most_one(active, k - 1);
        if active[k - 1] {
            assert forall|i: int| 0 <= i < k - 1 implies !#[trigger] active[i] by {
                if active[i] {
                    assert(active[k - 1]);
                }
            }
            lemma_count_zero(active, k - 1);
        }
    }
}

/// The selection holds one value per active option: its length is the
/// number of set flags. So a single-select group selects at most one value,
/// and exactly one while exactly one option is active.
pub proof fn lemma_selection_counts_active(m: ToggleGroupModel)
    requires
        m.valid(),
    ensures
        m.selection().len() == count_active(m.active, m.options.len() as int),
        m.mode == ToggleMode::Single ==> m.selection().len() <= 1,
        exactly_one(m.active) ==> m.selection().len() == 1,
{
    let n = m.options.len() as int;
    lemma_values_count(m.options, m.active, n);
    if m.mode == ToggleMode::Single {
        lemma_count_at_most_one(m.active, n);
    }
    if exactly_one(m.active) {
        lemma_count_at_most_one(m.active, n);
        lemma_count_zero(m.active, n);
        let w = choose|i: int| 0 <= i < m.active.len() && #[trigger] m.active[i];
        assert(m.active[w]);
    }
}

/// On an enabled group, the arrow keys, Home and End move only the focus
/// cursor: to the next or previous option (wrapping), or to the first or
/// last one; no option changes state.
pub proof fn lemma_keys_move_cursor(m: ToggleGroupModel, key: KeyInput)
    requires
        m.valid(),
        !m.disabled,
        m.options.len() >= 1,
        key.key == keys::ARROW_RIGHT || key.key == keys::ARROW_DOWN || key.key == keys::ARROW_LEFT || key.key
            == keys::ARROW_UP || key.key == keys::HOME || key.key == keys::END,
    ensures
        ({
            let t = key_tab(key.key, m.cursor, m.options.len() as int);
            let (n, out) = m.on_key(key);
            &&& n.cursor == t
            &&& n.active == m.active
            &&& out == (if t == m.cursor { OutcomeView::Ignored } else { OutcomeView::Changed })
        }),
{
    let n = m.options.len() as int;
    lemma_wrap(m.cursor + 1, n);
    lemma_wrap(m.cursor + n - 1, n);
}

/// Space and Enter press the option under the cursor: in a multi-select
/// group it flips alone; in a single-select group an inactive option becomes
/// the only active one, and an active one is released when deselecting is
/// allowed and stays otherwise.
pub proof fn lemma_space_presses_cursor_option(m: ToggleGroupModel, key: KeyInput)
    requires
        m.valid(),
        !m.disabled,
        m.options.len() >= 1,
        key.key == keys::SPACE || key.key == keys::ENTER,
    ensures
        ({
            let c = m.cursor;
            let n = m.on_key(key).0;
            &&& n.active.len() == m.active.len()
            &&& m.mode == ToggleMode::Multi ==> (n.active[c] == !m.active[c] && forall|i: int|
                0 <= i < m.active.len() && i != c ==> #[trigger] n.active[i] == m.active[i])
            &&& m.mode == ToggleMode::Single && !m.active[c] ==> forall|i: int|
                0 <= i < m.active.len() ==> (#[trigger] n.active[i] <==> i == c)
            &&& m.mode == ToggleMode::Single && m.active[c] && m.allow_deselect ==> forall|i: int|
                0 <= i < m.active.len() ==> !#[trigger] n.active[i]
            &&& m.mode == ToggleMode::Single && m.active[c] && !m.allow_deselect ==> n.active == m.active
        }),
{
    let c = m.cursor;
    if m.mode == ToggleMode::Single && m.active[c] && m.allow_deselect {
        assert forall|i: int| 0 <= i < m.active.len() implies !#[trigger] m.on_key(key).0.active[i] by {
            if i != c && m.active[i] {
                assert(m.active[c]);
            }
        }
    }
}

} // verus!
