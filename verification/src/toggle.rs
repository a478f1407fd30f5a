//! `<lq-checkbox>` / `<lq-switch>` / `<lq-radio>` — two-state and exclusive
//! toggles.
//!
//! [`Toggle`] is a self-contained checkbox or switch: a click inside its box
//! (or Space when focused) flips `checked` and emits `changed` with
//! `"true"`/`"false"`. [`RadioGroup`] owns N options under one mount; a single
//! `selected` index makes the selection exclusive by construction.

use vstd::prelude::*;

use crate::behavior::{lemma_wrap, opt_int, KeyInput, OutcomeView, WidgetKind, WidgetOutcome};
use crate::keys;
use crate::tabs::key_tab;
use crate::list::opt_below;
use crate::node::{bool_str, bool_text, Node, Pseudo, PseudoFlag, FOCUSABLE_ATTR};
use crate::text::{dec, prefixed};

verus! {

/// The action a toggle or radio group emits on change.
pub const CHANGED_ACTION: &'static str = "changed";

/// Whether a [`Toggle`] renders as a checkbox or a switch.
#[derive(Clone, Copy, Debug, PartialEq, Eq, Structural)]
pub enum ToggleStyle {
    /// A box with a check glyph (`<lq-checkbox>`).
    Checkbox,
    /// A sliding switch (`<lq-switch>`).
    Switch,
}

/// The element tag of a style.
pub open spec fn style_tag(s: ToggleStyle) -> Seq<char> {
    match s {
        ToggleStyle::Checkbox => "lq-checkbox"@,
        ToggleStyle::Switch => "lq-switch"@,
    }
}

impl ToggleStyle {
    /// The element tag of this style.
    pub fn tag(self) -> (r: &'static str)
        ensures
            r@ == style_tag(self),
    {
        match self {
            ToggleStyle::Checkbox => "lq-checkbox",
            ToggleStyle::Switch => "lq-switch",
        }
    }
}

/// A self-contained two-state toggle (checkbox or switch).
pub struct Toggle {
    style: ToggleStyle,
    label: String,
    checked: bool,
    hovered: bool,
    disabled: bool,
}

/// The abstract state of a [`Toggle`].
pub struct ToggleModel {
    pub style: ToggleStyle,
    pub label: Seq<char>,
    pub checked: bool,
    pub hovered: bool,
    pub disabled: bool,
}

impl ToggleModel {
    /// Flipping the state: `changed` with the new state; ignored when disabled.
    pub open spec fn toggled(self) -> (ToggleModel, OutcomeView) {
        if self.disabled {
            (self, OutcomeView::Ignored)
        } else {
            (ToggleModel { checked: !self.checked, ..self }, OutcomeView::Action(CHANGED_ACTION@, Some(bool_str(!self.checked))))
        }
    }

    /// Space flips the state; other keys are ignored.
    pub open spec fn on_key(self, key: KeyInput) -> (ToggleModel, OutcomeView) {
        if key.key == keys::SPACE {
            self.toggled()
        } else {
            (self, OutcomeView::Ignored)
        }
    }

    /// The pointer entering the toggle.
    pub open spec fn on_enter(self) -> (ToggleModel, OutcomeView) {
        if self.hovered {
            (self, OutcomeView::Ignored)
        } else {
            (ToggleModel { hovered: true, ..self }, OutcomeView::Changed)
        }
    }

    /// The pointer leaving the toggle.
    pub open spec fn on_leave(self) -> (ToggleModel, OutcomeView) {
        if !self.hovered {
            (self, OutcomeView::Ignored)
        } else {
            (ToggleModel { hovered: false, ..self }, OutcomeView::Changed)
        }
    }

    /// A left click, `inside` the toggle's box or not.
    pub open spec fn on_click(self, inside: bool) -> (ToggleModel, OutcomeView) {
        if !inside {
            (self, OutcomeView::Ignored)
        } else {
            self.toggled()
        }
    }
}

impl View for Toggle {
    type V = ToggleModel;

    closed spec fn view(&self) -> ToggleModel {
        ToggleModel {
            style: self.style,
            label: self.label@,
            checked: self.checked,
            hovered: self.hovered,
            disabled: self.disabled,
        }
    }
}

/// Whether `c` is the indicator surface (check glyph / switch thumb).
pub open spec fn indicator_rendered(c: Node) -> bool {
    &&& c.tag@ == "lq-indicator"@
    &&& c.attr_views() == seq![("data-part"@, "indicator"@)]
    &&& c.children@.len() == 0
}

/// Whether `c` is the label part showing `label`.
pub open spec fn label_rendered(c: Node, label: Seq<char>) -> bool {
    &&& c.tag@ == "lq-label"@
    &&& c.attr_views() == seq![("data-part"@, "label"@)]
    &&& c.children@.len() == 1
    &&& c.first_text() == label
}

/// Builds the indicator part.
fn indicator() -> (r: Node)
    ensures
        indicator_rendered(r),
        r.key is None,
        r.pseudo == crate::node::no_pseudo(),
{
    let r = Node::el("lq-indicator").attr("data-part", "indicator");
    assert(r.attr_views() =~= seq![("data-part"@, "indicator"@)]);
    r
}

/// Builds the label part.
fn label_part(label: &str) -> (r: Node)
    ensures
        label_rendered(r, label@),
{
    let r = Node::el("lq-label").attr("data-part", "label").child(Node::text(label));
    assert(r.attr_views() =~= seq![("data-part"@, "label"@)]);
    r
}

impl Toggle {
    fn new(style: ToggleStyle, label: &str) -> (r: Toggle)
        ensures
            r@ == (ToggleModel { style, label: label@, checked: false, hovered: false, disabled: false }),
    {
        Toggle { style, label: label.to_string(), checked: false, hovered: false, disabled: false }
    }

    /// A checkbox labelled `label`.
    pub fn checkbox(label: &str) -> (r: Toggle)
        ensures
            r@ == (ToggleModel { style: ToggleStyle::Checkbox, label: label@, checked: false, hovered: false, disabled: false }),
    {
        Self::new(ToggleStyle::Checkbox, label)
    }

    /// A switch labelled `label`.
    pub fn switch(label: &str) -> (r: Toggle)
        ensures
            r@ == (ToggleModel { style: ToggleStyle::Switch, label: label@, checked: false, hovered: false, disabled: false }),
    {
        Self::new(ToggleStyle::Switch, label)
    }

    /// Starts checked (or not).
    pub fn checked(self, c: bool) -> (r: Toggle)
        ensures
            r@ == (ToggleModel { checked: c, ..self@ }),
    {
        Toggle { checked: c, ..self }
    }

    /// Marks disabled (or enabled).
    pub fn disabled(self, d: bool) -> (r: Toggle)
        ensures
            r@ == (ToggleModel { disabled: d, ..self@ }),
    {
        Toggle { disabled: d, ..self }
    }

    /// Whether currently checked.
    pub fn is_checked(&self) -> (r: bool)
        ensures
            r == self@.checked,
    {
        self.checked
    }

    /// Whether disabled.
    pub fn is_disabled(&self) -> (r: bool)
        ensures
            r == self@.disabled,
    {
        self.disabled
    }

    fn toggle(&mut self) -> (out: WidgetOutcome)
        ensures
            (final(self)@, out@) == old(self)@.toggled(),
    {
        if self.disabled {
            return WidgetOutcome::Ignored;
        }
        self.checked = !self.checked;
        WidgetOutcome::action_with(CHANGED_ACTION, bool_text(self.checked).to_string())
    }

    /// The widget family.
    pub fn kind(&self) -> (r: WidgetKind)
        ensures
            r == WidgetKind::Toggle,
    {
        WidgetKind::Toggle
    }

    /// Whether the toggle takes focus (unless disabled).
    pub fn focusable(&self) -> (r: bool)
        ensures
            r == !self@.disabled,
    {
        !self.disabled
    }

    /// Handles a key press.
    pub fn on_keyboard(&mut self, key: KeyInput) -> (out: WidgetOutcome)
        ensures
            (final(self)@, out@) == old(self)@.on_key(key),
    {
        if key.key == keys::SPACE {
            return self.toggle();
        }
        WidgetOutcome::Ignored
    }

    /// Handles the pointer entering the toggle.
    pub fn on_mouse_enter(&mut self) -> (out: WidgetOutcome)
        ensures
            (final(self)@, out@) == old(self)@.on_enter(),
    {
        if self.hovered {
            return WidgetOutcome::Ignored;
        }
        self.hovered = true;
        WidgetOutcome::Changed
    }

    /// Handles the pointer leaving the toggle.
    pub fn on_mouse_leave(&mut self) -> (out: WidgetOutcome)
        ensures
            (final(self)@, out@) == old(self)@.on_leave(),
    {
        if !self.hovered {
            return WidgetOutcome::Ignored;
        }
        self.hovered = false;
        WidgetOutcome::Changed
    }

    /// Handles a left click; `inside` says whether it landed in the toggle's
    /// laid-out box.
    pub fn on_click(&mut self, inside: bool) -> (out: WidgetOutcome)
        ensures
            (final(self)@, out@) == old(self)@.on_click(inside),
    {
        if !inside {
            return WidgetOutcome::Ignored;
        }
        self.toggle()
    }

    /// The render tree: the style's element with the indicator and label
    /// parts.
    pub fn render(&self) -> (r: Node)
        ensures
            r.tag@ == style_tag(self@.style),
            r.attr_views() == seq![(FOCUSABLE_ATTR@, bool_str(!self@.disabled))]
                + (if self@.disabled { seq![("disabled"@, "true"@)] } else { Seq::empty() }),
            r.pseudo == (Pseudo {
                hover: self@.hovered && !self@.disabled,
                active: false,
                focus: false,
                checked: self@.checked,
                disabled: self@.disabled,
            }),
            r.children@.len() == 2,
            indicator_rendered(r.children@[0]),
            label_rendered(r.children@[1], self@.label),
    {
        let mut node = Node::el(self.style.tag())
            .attr(FOCUSABLE_ATTR, bool_text(!self.disabled))
            .pseudo_if(PseudoFlag::Checked, self.checked)
            .pseudo_if(PseudoFlag::Hover, self.hovered && !self.disabled)
            .pseudo_if(PseudoFlag::Disabled, self.disabled)
            .child(indicator())
            .child(label_part(self.label.as_str()));
        if self.disabled {
            node = node.attr("disabled", "true");
        }
        assert(node.attr_views() =~= seq![(FOCUSABLE_ATTR@, bool_str(!self@.disabled))]
            + (if self@.disabled { seq![("disabled"@, "true"@)] } else { Seq::empty() }));
        node
    }
}

/// An exclusive radio group: one option selected at a time.
pub struct RadioGroup {
    name: String,
    options: Vec<(String, String)>,
    selected: usize,
    hovered: Option<usize>,
    disabled: bool,
}

/// The abstract state of a [`RadioGroup`].
pub struct RadioModel {
    pub name: Seq<char>,
    pub options: Seq<(Seq<char>, Seq<char>)>,
    pub selected: int,
    pub hovered: Option<int>,
    pub disabled: bool,
}

impl RadioModel {
    /// The selection is an option (or 0 when there are none); the hover is an
    /// option.
    pub open spec fn valid(self) -> bool {
        &&& (self.selected == 0 || 0 <= self.selected < self.options.len())
        &&& 0 <= self.selected
        &&& opt_below(self.hovered, self.options.len() as int)
    }

    /// Selecting option `idx`: `changed` with its value; ignored when
    /// disabled, out of range or already selected.
    pub open spec fn set_selected(self, idx: int) -> (RadioModel, OutcomeView) {
        if self.disabled || idx < 0 || idx >= self.options.len() || idx == self.selected {
            (self, OutcomeView::Ignored)
        } else {
            (RadioModel { selected: idx, ..self }, OutcomeView::Action(CHANGED_ACTION@, Some(self.options[idx].0)))
        }
    }

    /// Arrows move the selection, wrapping.
    pub open spec fn on_key(self, key: KeyInput) -> (RadioModel, OutcomeView) {
        let n = self.options.len() as int;
        let k = key.key;
        if self.disabled || n == 0 {
            (self, OutcomeView::Ignored)
        } else if k == keys::ARROW_DOWN || k == keys::ARROW_RIGHT {
            self.set_selected((self.selected + 1) % n)
        } else if k == keys::ARROW_UP || k == keys::ARROW_LEFT {
            self.set_selected((self.selected + n - 1) % n)
        } else {
            (self, OutcomeView::Ignored)
        }
    }

    /// The pointer moving over option `hit` (or over none).
    pub open spec fn on_move(self, hit: Option<int>) -> (RadioModel, OutcomeView) {
        if hit == self.hovered {
            (self, OutcomeView::Ignored)
        } else {
            (RadioModel { hovered: hit, ..self }, OutcomeView::Changed)
        }
    }

    /// The pointer leaving the group.
    pub open spec fn on_leave(self) -> (RadioModel, OutcomeView) {
        if self.hovered is None {
            (self, OutcomeView::Ignored)
        } else {
            (RadioModel { hovered: None, ..self }, OutcomeView::Changed)
        }
    }

    /// A left click on option `hit` (or on none).
    pub open spec fn on_click(self, hit: Option<int>) -> (RadioModel, OutcomeView) {
        match hit {
            Some(i) => self.set_selected(i),
            None => (self, OutcomeView::Ignored),
        }
    }

    /// Whether `c` renders option `i`.
    pub open spec fn option_rendered(self, i: int, c: Node) -> bool {
        &&& c.tag@ == "lq-radio"@
        &&& c.key matches Some(k) && k@ == self.options[i].0
        &&& c.attr_views() == seq![("data-part"@, "option-"@ + dec(i as nat)), ("data-value"@, self.options[i].0)]
        &&& c.pseudo == (Pseudo {
            hover: self.hovered == Some(i) && !self.disabled,
            active: false,
            focus: false,
            checked: i == self.selected,
            disabled: self.disabled,
        })
        &&& c.children@.len() == 2
        &&& indicator_rendered(c.children@[0])
        &&& label_rendered(c.children@[1], self.options[i].1)
    }
}

impl View for RadioGroup {
    type V = RadioModel;

    closed spec fn view(&self) -> RadioModel {
        RadioModel {
            name: self.name@,
            options: self.options@.map_values(|p: (String, String)| (p.0@, p.1@)),
            selected: self.selected as int,
            hovered: opt_int(self.hovered),
            disabled: self.disabled,
        }
    }
}

impl RadioGroup {
    /// The representation invariant.
    pub open spec fn wf(&self) -> bool {
        self@.valid()
    }

    /// A radio group named `name` over `(value, label)` options; the first is
    /// selected.
    pub fn new(name: &str, options: Vec<(String, String)>) -> (r: RadioGroup)
        ensures
            r.wf(),
            r@ == (RadioModel {
                name: name@,
                options: options@.map_values(|p: (String, String)| (p.0@, p.1@)),
                selected: 0,
                hovered: None,
                disabled: false,
            }),
    {
        RadioGroup { name: name.to_string(), options, selected: 0, hovered: None, disabled: false }
    }

    /// Pre-selects option `idx` (past the end: nothing changes).
    pub fn select(self, idx: usize) -> (r: RadioGroup)
        requires
            self.wf(),
        ensures
            r.wf(),
            r@ == (if idx < self@.options.len() { RadioModel { selected: idx as int, ..self@ } } else { self@ }),
    {
        if idx < self.options.len() {
            RadioGroup { selected: idx, ..self }
        } else {
            self
        }
    }

    /// Marks the whole group disabled (or enabled).
    pub fn disabled(self, d: bool) -> (r: RadioGroup)
        requires
            self.wf(),
        ensures
            r.wf(),
            r@ == (RadioModel { disabled: d, ..self@ }),
    {
        RadioGroup { disabled: d, ..self }
    }

    /// The selected option index.
    pub fn selected_index(&self) -> (r: usize)
        ensures
            r == self@.selected,
    {
        self.selected
    }

    /// The selected option value (none when there are no options).
    pub fn selected_value(&self) -> (r: Option<&str>)
        requires
            self.wf(),
        ensures
            r matches Some(v) ==> self@.selected < self@.options.len() && v@ == self@.options[self@.selected].0,
            r is None <==> self@.options.len() == 0,
    {
        if self.selected < self.options.len() {
            Some(self.options[self.selected].0.as_str())
        } else {
            None
        }
    }

    /// The widget family.
    pub fn kind(&self) -> (r: WidgetKind)
        ensures
            r == WidgetKind::Toggle,
    {
        WidgetKind::Toggle
    }

    /// Whether the group takes focus (unless disabled).
    pub fn focusable(&self) -> (r: bool)
        ensures
            r == !self@.disabled,
    {
        !self.disabled
    }

    fn set_selected(&mut self, idx: usize) -> (out: WidgetOutcome)
        requires
            old(self).wf(),
        ensures
            final(self).wf(),
            (final(self)@, out@) == old(self)@.set_selected(idx as int),
    {
        if self.disabled || idx >= self.options.len() || idx == self.selected {
            return WidgetOutcome::Ignored;
        }
        self.selected = idx;
        WidgetOutcome::action_with(CHANGED_ACTION, self.options[idx].0.clone())
    }

    /// Handles a key press.
    pub fn on_keyboard(&mut self, key: KeyInput) -> (out: WidgetOutcome)
        requires
            old(self).wf(),
        ensures
            final(self).wf(),
            (final(self)@, out@) == old(self)@.on_key(key),
    {
        let n = self.options.len();
        if self.disabled || n == 0 {
            return WidgetOutcome::Ignored;
        }
        let sel = self.selected;
        proof {
            lemma_wrap(sel + 1, n as int);
            lemma_wrap(sel + n - 1, n as int);
        }
        let k = key.key;
        if k == keys::ARROW_DOWN || k == keys::ARROW_RIGHT {
            self.set_selected(if sel + 1 == n { 0 } else { sel + 1 })
        } else if k == keys::ARROW_UP || k == keys::ARROW_LEFT {
            self.set_selected(if sel == 0 { n - 1 } else { sel - 1 })
        } else {
            WidgetOutcome::Ignored
        }
    }

    /// Handles the pointer moving over option `hit` (or over none).
    pub fn on_mouse_move(&mut self, hit: Option<usize>) -> (out: WidgetOutcome)
        requires
            old(self).wf(),
            hit matches Some(i) ==> i < old(self)@.options.len(),
        ensures
            final(self).wf(),
            (final(self)@, out@) == old(self)@.on_move(opt_int(hit)),
    {
        if hit == self.hovered {
            return WidgetOutcome::Ignored;
        }
        self.hovered = hit;
        WidgetOutcome::Changed
    }

    /// Handles the pointer leaving the group.
    pub fn on_mouse_leave(&mut self) -> (out: WidgetOutcome)
        requires
            old(self).wf(),
        ensures
            final(self).wf(),
            (final(self)@, out@) == old(self)@.on_leave(),
    {
        if self.hovered.is_none() {
            return WidgetOutcome::Ignored;
        }
        self.hovered = None;
        WidgetOutcome::Changed
    }

    /// Handles a left click on option `hit` (or on none).
    pub fn on_click(&mut self, hit: Option<usize>) -> (out: WidgetOutcome)
        requires
            old(self).wf(),
        ensures
            final(self).wf(),
            (final(self)@, out@) == old(self)@.on_click(opt_int(hit)),
    {
        match hit {
            Some(i) => self.set_selected(i),
            None => WidgetOutcome::Ignored,
        }
    }

    /// The render tree: an `lq-radiogroup` with one `lq-radio` per option.
    pub fn render(&self) -> (r: Node)
        requires
            self.wf(),
        ensures
            r.tag@ == "lq-radiogroup"@,
            r.attr_views() == seq![("name"@, self@.name), (FOCUSABLE_ATTR@, bool_str(!self@.disabled)), ("role"@, "radiogroup"@)]
                + (if self@.disabled { seq![("disabled"@, "true"@)] } else { Seq::empty() }),
            r.pseudo.disabled == self@.disabled,
            r.children@.len() == self@.options.len(),
            forall|i: int| 0 <= i < self@.options.len() ==> self@.option_rendered(i, #[trigger] r.children@[i]),
    {
        let mut group = Node::el("lq-radiogroup")
            .attr("name", self.name.as_str())
            .attr(FOCUSABLE_ATTR, bool_text(!self.disabled))
            .attr("role", "radiogroup")
            .pseudo_if(PseudoFlag::Disabled, self.disabled);
        let ghost head = group.attr_views();
        let mut i: usize = 0;
        while i < self.options.len()
            invariant
                self.wf(),
                i <= self@.options.len(),
                group.tag@ == "lq-radiogroup"@,
                group.attr_views() == head,
                group.pseudo.disabled == self@.disabled,
                group.children@.len() == i,
                forall|k: int| 0 <= k < i ==> self@.option_rendered(k, #[trigger] group.children@[k]),
            decreases self@.options.len() - i,
        {
            let value = self.options[i].0.as_str();
            let part = prefixed("option-", i);
            let opt = Node::el("lq-radio")
                .key(value)
                .attr("data-part", part.as_str())
                .attr("data-value", value)
                .pseudo_if(PseudoFlag::Checked, i == self.selected)
                .pseudo_if(PseudoFlag::Hover, self.hovered == Some(i) && !self.disabled)
                .pseudo_if(PseudoFlag::Disabled, self.disabled)
                .child(indicator())
                .child(label_part(self.options[i].1.as_str()));
            assert(opt.attr_views() =~= seq![
                ("data-part"@, "option-"@ + dec(i as nat)),
                ("data-value"@, self@.options[i as int].0),
            ]);
            group = group.child(opt);
            i = i + 1;
        }
        if self.disabled {
            group = group.attr("disabled", "true");
        }
        assert(group.attr_views() =~= seq![("name"@, self@.name), (FOCUSABLE_ATTR@, bool_str(!self@.disabled)), ("role"@, "radiogroup"@)]
            + (if self@.disabled { seq![("disabled"@, "true"@)] } else { Seq::empty() }));
        group
    }
}

/// Two clicks inside a toggle (or two Space presses) leave it as it was; an
/// enabled toggle reports each flip with its new state.
pub proof fn lemma_toggle_twice(m: ToggleModel, key: KeyInput)
    requires
        key.key == keys::SPACE,
    ensures
        m.on_click(true).0.on_click(true).0 == m,
        m.on_key(key).0.on_key(key).0 == m,
        !m.disabled ==> m.on_click(true).1 == OutcomeView::Action(CHANGED_ACTION@, Some(bool_str(!m.checked))),
{
}

/// Every input keeps a radio group's selection on an option.
pub proof fn lemma_radio_keeps_valid(m: RadioModel, key: KeyInput, hit: Option<int>)
    requires
        m.valid(),
        opt_below(hit, m.options.len() as int),
    ensures
        m.on_key(key).0.valid(),
        m.on_click(hit).0.valid(),
        m.on_move(hit).0.valid(),
        m.on_leave().0.valid(),
{
    let n = m.options.len() as int;
    if n > 0 {
        lemma_wrap(m.selected + 1, n);
        lemma_wrap(m.selected + n - 1, n);
    }
}

/// Space and a click inside flip an enabled toggle and report the new state;
/// a disabled toggle keeps its state and reports nothing.
pub proof fn lemma_space_and_click_flip(m: ToggleModel, mods: u32)
    ensures
        m.on_key(KeyInput { key: keys::SPACE, modifiers: mods }).0.checked == (m.checked != !m.disabled),
        m.on_click(true).0.checked == (m.checked != !m.disabled),
        !m.disabled ==> m.on_key(KeyInput { key: keys::SPACE, modifiers: mods }).1 == OutcomeView::Action(
            CHANGED_ACTION@,
            Some(bool_str(!m.checked)),
        ),
        m.disabled ==> m.on_key(KeyInput { key: keys::SPACE, modifiers: mods }).1 == OutcomeView::Ignored,
{
}

/// In an enabled radio group, Down/Right select the next option and Up/Left
/// the previous one, wrapping at the ends, reporting the new value (nothing
/// happens when that is the current option).
pub proof fn lemma_radio_arrows_select(m: RadioModel, key: KeyInput)
    requires
        m.valid(),
        !m.disabled,
        m.options.len() >= 1,
        key.key == keys::ARROW_RIGHT || key.key == keys::ARROW_DOWN || key.key == keys::ARROW_LEFT || key.key
            == keys::ARROW_UP,
    ensures
        ({
            let t = key_tab(key.key, m.selected, m.options.len() as int);
            let (n, out) = m.on_key(key);
            &&& n.selected == t
            &&& out == (if t == m.selected {
                OutcomeView::Ignored
            } else {
                OutcomeView::Action(CHANGED_ACTION@, Some(m.options[t].0))
            })
        }),
{
    let n = m.options.len() as int;
    lemma_wrap(m.selected + 1, n);
    lemma_wrap(m.selected + n - 1, n);
}

} // verus!
