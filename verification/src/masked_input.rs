//! `<lq-masked-input>` — a text input constrained by a format mask.
//!
//! Mask characters: `#` a digit slot, `A` a letter slot, `*` an alphanumeric
//! slot, anything else a literal shown as is. The widget stores the raw
//! entered characters (editable slots only) and renders the formatted value:
//! each editable slot shows its character or the placeholder, each literal
//! shows itself. A typed character fills the next editable slot only if it
//! fits that slot's kind; Backspace removes the last one. A change emits
//! `changed` with `"raw|formatted"`.

use vstd::prelude::*;

use crate::behavior::{KeyInput, OutcomeView, WidgetKind, WidgetOutcome};
use crate::keys;
use crate::keys::modifiers::has_command;
use crate::keys::{is_control_code, is_scalar, printable_char};
use crate::node::{bool_str, bool_text, Node, Pseudo, PseudoFlag, FOCUSABLE_ATTR};
use crate::text::{
    char_is_alphabetic, char_is_alphanumeric, dec, is_alphabetic, is_alphanumeric, is_ascii_digit, prefixed, push_char,
};

verus! {

/// Emitted when the value changes (payload: `"raw|formatted"`).
pub const CHANGED_ACTION: &'static str = "changed";

/// One mask slot.
#[derive(Clone, Copy, Debug, PartialEq, Eq, Structural)]
pub enum Slot {
    /// A required digit (`#`).
    Digit,
    /// A required letter (`A`).
    Letter,
    /// Any alphanumeric (`*`).
    Any,
    /// A literal character shown as is.
    Literal(char),
}

/// The slot a mask character stands for.
pub open spec fn slot_of(c: char) -> Slot {
    if c == '#' {
        Slot::Digit
    } else if c == 'A' {
        Slot::Letter
    } else if c == '*' {
        Slot::Any
    } else {
        Slot::Literal(c)
    }
}

/// Whether a slot takes typed input.
pub open spec fn is_editable(s: Slot) -> bool {
    !(s is Literal)
}

/// Whether slot `s` takes character `c`.
pub open spec fn accepts(s: Slot, c: char) -> bool {
    match s {
        Slot::Digit => is_ascii_digit(c),
        Slot::Letter => char_is_alphabetic(c),
        Slot::Any => char_is_alphanumeric(c),
        Slot::Literal(_) => false,
    }
}

/// The editable slots of `mask`, in order.
pub open spec fn editables(mask: Seq<Slot>) -> Seq<Slot>
    decreases mask.len(),
{
    if mask.len() == 0 {
        Seq::empty()
    } else if is_editable(mask.last()) {
        editables(mask.drop_last()).push(mask.last())
    } else {
        editables(mask.drop_last())
    }
}

/// What a mask position shows, given the number `e` of editable slots
/// before it.
pub open spec fn cell(s: Slot, e: int, filled: Seq<char>, placeholder: char) -> char {
    match s {
        Slot::Literal(c) => c,
        _ => if e < filled.len() { filled[e] } else { placeholder },
    }
}

/// The formatted value of the mask prefix `mask`.
pub open spec fn formatted_of(mask: Seq<Slot>, filled: Seq<char>, placeholder: char) -> Seq<char>
    decreases mask.len(),
{
    if mask.len() == 0 {
        Seq::empty()
    } else {
        formatted_of(mask.drop_last(), filled, placeholder).push(
            cell(mask.last(), editables(mask.drop_last()).len() as int, filled, placeholder),
        )
    }
}

/// The first position at or after `i` of the editable slot that the
/// `f`-th typed character goes to (the mask length when there is none).
pub open spec fn find_slot(mask: Seq<Slot>, f: int, i: int) -> int
    decreases mask.len() - i,
{
    if i < 0 || i >= mask.len() {
        mask.len() as int
    } else if is_editable(mask[i]) && editables(mask.take(i)).len() == f {
        i
    } else {
        find_slot(mask, f, i + 1)
    }
}

/// The editable slots of a prefix come first among those of a longer
/// prefix.
pub proof fn lemma_editables_prefix(mask: Seq<Slot>, i: int, j: int)
    requires
        0 <= i <= j <= mask.len(),
    ensures
        editables(mask.take(i)).len() <= editables(mask.take(j)).len() <= j,
        forall|k: int| 0 <= k < editables(mask.take(i)).len()
            ==> #[trigger] editables(mask.take(i))[k] == editables(mask.take(j))[k],
    decreases j,
{
    if j > 0 {
        assert(mask.take(j).drop_last() =~= mask.take(j - 1));
        if i < j {
            lemma_editables_prefix(mask, i, j - 1);
        } else {
            lemma_editables_prefix(mask, j - 1, j - 1);
        }
    }
}

/// The formatted value has one character per mask position.
pub proof fn lemma_formatted_len(mask: Seq<Slot>, filled: Seq<char>, placeholder: char)
    ensures
        formatted_of(mask, filled, placeholder).len() == mask.len(),
    decreases mask.len(),
{
    if mask.len() > 0 {
        lemma_formatted_len(mask.drop_last(), filled, placeholder);
    }
}

/// A masked text input.
pub struct MaskedInput {
    mask: Vec<Slot>,
    filled: Vec<char>,
    placeholder: char,
    disabled: bool,
    focused: bool,
}

/// The abstract state of a [`MaskedInput`].
pub struct MaskModel {
    pub mask: Seq<Slot>,
    pub filled: Seq<char>,
    pub placeholder: char,
    pub disabled: bool,
    pub focused: bool,
}

impl MaskModel {
    /// No more characters than editable slots, and each typed character
    /// fits the kind of the slot it fills.
    pub open spec fn valid(self) -> bool {
        &&& self.filled.len() <= editables(self.mask).len()
        &&& forall|k: int| 0 <= k < self.filled.len() ==> accepts(editables(self.mask)[k], #[trigger] self.filled[k])
    }

    /// The raw value (typed characters only).
    pub open spec fn raw(self) -> Seq<char> {
        self.filled
    }

    /// The formatted value.
    pub open spec fn formatted(self) -> Seq<char> {
        formatted_of(self.mask, self.filled, self.placeholder)
    }

    /// Whether every editable slot is filled.
    pub open spec fn is_complete(self) -> bool {
        self.filled.len() == editables(self.mask).len()
    }

    /// The slot the next typed character goes to (none when full).
    pub open spec fn next_slot(self) -> Option<Slot> {
        if self.filled.len() < editables(self.mask).len() {
            Some(editables(self.mask)[self.filled.len() as int])
        } else {
            None
        }
    }

    /// The mask position of the caret: the next slot to fill, or the end.
    pub open spec fn caret_index(self) -> int {
        find_slot(self.mask, self.filled.len() as int, 0)
    }

    /// The `changed` outcome for this state.
    pub open spec fn changed(self) -> OutcomeView {
        OutcomeView::Action(CHANGED_ACTION@, Some(self.raw() + "|"@ + self.formatted()))
    }

    /// Typing `c`: it fills the next slot when it fits that slot's kind.
    pub open spec fn insert(self, c: char) -> (MaskModel, OutcomeView) {
        match self.next_slot() {
            Some(s) => if accepts(s, c) {
                let m = MaskModel { filled: self.filled.push(c), ..self };
                (m, m.changed())
            } else {
                (self, OutcomeView::Ignored)
            },
            None => (self, OutcomeView::Ignored),
        }
    }

    /// Backspace: the last typed character goes.
    pub open spec fn backspace(self) -> (MaskModel, OutcomeView) {
        if self.filled.len() == 0 {
            (self, OutcomeView::Ignored)
        } else {
            let m = MaskModel { filled: self.filled.drop_last(), ..self };
            (m, m.changed())
        }
    }

    /// The keyboard transition.
    pub open spec fn on_key(self, key: KeyInput) -> (MaskModel, OutcomeView) {
        let k = key.key;
        if self.disabled {
            (self, OutcomeView::Ignored)
        } else if k == keys::BACKSPACE {
            self.backspace()
        } else if has_command(key.modifiers) || !is_scalar(k) || is_control_code(k) {
            (self, OutcomeView::Ignored)
        } else {
            self.insert(k as char)
        }
    }

    /// A left click, `inside` the widget's box or not: it focuses the field.
    pub open spec fn on_click(self, inside: bool) -> (MaskModel, OutcomeView) {
        if self.disabled || !inside || self.focused {
            (self, OutcomeView::Ignored)
        } else {
            (MaskModel { focused: true, ..self }, OutcomeView::Changed)
        }
    }

    /// Whether `c` renders mask position `i`.
    pub open spec fn slot_rendered(self, i: int, c: Node) -> bool {
        let s = self.mask[i];
        let e = editables(self.mask.take(i)).len() as int;
        &&& c.tag@ == "lq-mask-slot"@
        &&& c.children@.len() == 1
        &&& c.first_text() == seq![cell(s, e, self.filled, self.placeholder)]
        &&& match s {
            Slot::Literal(_) => {
                &&& c.attr_views() == seq![("data-part"@, "slot-"@ + dec(i as nat)), ("data-literal"@, "true"@)]
                &&& c.class_views() == seq!["literal"@]
            },
            _ => {
                &&& c.attr_views() == seq![("data-part"@, "slot-"@ + dec(i as nat)), ("data-editable"@, "true"@)]
                &&& c.class_views() == (if e < self.filled.len() { seq!["filled"@] } else { seq!["empty"@] })
            },
        }
    }

    /// The child position of mask position `i` in the field (after the caret
    /// when the caret comes first).
    pub open spec fn slot_pos(self, i: int) -> int {
        if self.focused && self.caret_index() <= i { i + 1 } else { i }
    }

    /// Whether the field holds mask position `i` at its place.
    pub open spec fn field_slot(self, f: Node, i: int) -> bool {
        self.slot_rendered(i, f.children@[self.slot_pos(i)])
    }
}

/// Typing a printable character fills the next free editable slot with it
/// (every earlier character kept) when the slot's kind accepts it (a digit
/// slot takes exactly the ASCII digits) and reports the new value; a
/// rejected character or a full mask changes nothing. Backspace removes the
/// last typed character.
pub proof fn lemma_typing_fills_next_slot(m: MaskModel, key: KeyInput, mods: u32)
    requires
        m.valid(),
        !m.disabled,
        is_scalar(key.key),
        !is_control_code(key.key),
        !has_command(key.modifiers),
    ensures
        ({
            let c = key.key as char;
            let k = m.filled.len() as int;
            let free = k < editables(m.mask).len();
            let (n, out) = m.on_key(key);
            &&& free && accepts(editables(m.mask)[k], c) ==> n.filled == m.filled.push(c) && out
                == OutcomeView::Action(CHANGED_ACTION@, Some(n.filled + "|"@ + n.formatted()))
            &&& !(free && accepts(editables(m.mask)[k], c)) ==> n == m && out == OutcomeView::Ignored
            &&& free && editables(m.mask)[k] == Slot::Digit ==> (n.filled.len() == k + 1 <==> '0' <= c <= '9')
        }),
        ({
            let (n, _) = m.on_key(KeyInput { key: keys::BACKSPACE, modifiers: mods });
            &&& m.filled.len() > 0 ==> n.filled.len() == m.filled.len() - 1 && (forall|i: int|
                0 <= i < n.filled.len() ==> #[trigger] n.filled[i] == m.filled[i])
            &&& m.filled.len() == 0 ==> n == m
        }),
{
    assert(key.key != keys::BACKSPACE);
}

/// Backspace undoes an accepted keystroke.
pub proof fn lemma_backspace_undoes_insert(m: MaskModel, c: char)
    requires
        m.valid(),
        m.insert(c).1 != OutcomeView::Ignored,
    ensures
        m.insert(c).0.backspace().0 == m,
        m.insert(c).0.valid(),
{
    let n = m.insert(c).0;
    assert(n.filled.drop_last() =~= m.filled);
}

/// Every transition keeps the state valid, and the formatted value always
/// has one character per mask position.
pub proof fn lemma_transitions_keep_valid(m: MaskModel, key: KeyInput, inside: bool)
    requires
        m.valid(),
    ensures
        m.on_key(key).0.valid(),
        m.on_click(inside).0.valid(),
        m.on_key(key).0.formatted().len() == m.mask.len(),
{
    lemma_formatted_len(m.on_key(key).0.mask, m.on_key(key).0.filled, m.on_key(key).0.placeholder);
    if m.filled.len() > 0 {
        let d = m.filled.drop_last();
        assert forall|k: int| 0 <= k < d.len() implies accepts(editables(m.mask)[k], #[trigger] d[k]) by {
            assert(d[k] == m.filled[k]);
        }
    }
}

impl View for MaskedInput {
    type V = MaskModel;

    closed spec fn view(&self) -> MaskModel {
        MaskModel {
            mask: self.mask@,
            filled: self.filled@,
            placeholder: self.placeholder,
            disabled: self.disabled,
            focused: self.focused,
        }
    }
}

/// Whether slot `s` takes character `c`.
fn slot_accepts(s: Slot, c: char) -> (r: bool)
    ensures
        r == accepts(s, c),
{
    match s {
        Slot::Digit => '0' <= c && c <= '9',
        Slot::Letter => is_alphabetic(c),
        Slot::Any => is_alphanumeric(c),
        Slot::Literal(_) => false,
    }
}

/// The one-character text `c`.
fn char_text(c: char) -> (r: String)
    ensures
        r@ == seq![c],
{
    let mut s = String::new();
    push_char(&mut s, c);
    assert(s@ =~= seq![c]);
    s
}

impl MaskedInput {
    /// The representation invariant.
    pub open spec fn wf(&self) -> bool {
        self@.valid()
    }

    /// An empty input over the mask string `mask` (placeholder `_`).
    pub fn new(mask: &str) -> (r: MaskedInput)
        ensures
            r.wf(),
            r@ == (MaskModel {
                mask: mask@.map_values(|c: char| slot_of(c)),
                filled: Seq::empty(),
                placeholder: '_',
                disabled: false,
                focused: false,
            }),
    {
        let n = mask.unicode_len();
        let mut slots: Vec<Slot> = Vec::new();
        let mut i: usize = 0;
        while i < n
            invariant
                n == mask@.len(),
                i <= n,
                slots@ == mask@.take(i as int).map_values(|c: char| slot_of(c)),
            decreases n - i,
        {
            let c = mask.get_char(i);
            let s = if c == '#' {
                Slot::Digit
            } else if c == 'A' {
                Slot::Letter
            } else if c == '*' {
                Slot::Any
            } else {
                Slot::Literal(c)
            };
            slots.push(s);
            assert(slots@ =~= mask@.take(i + 1).map_values(|c: char| slot_of(c)));
            i = i + 1;
        }
        assert(mask@.take(n as int) =~= mask@);
        let r = MaskedInput { mask: slots, filled: Vec::new(), placeholder: '_', disabled: false, focused: false };
        assert(r@.filled =~= Seq::<char>::empty());
        r
    }

    /// Sets the character shown in empty editable slots.
    pub fn placeholder_char(self, c: char) -> (r: MaskedInput)
        requires
            self.wf(),
        ensures
            r.wf(),
            r@ == (MaskModel { placeholder: c, ..self@ }),
    {
        MaskedInput { placeholder: c, ..self }
    }

    /// Marks disabled (or enabled).
    pub fn disabled(self, d: bool) -> (r: MaskedInput)
        requires
            self.wf(),
        ensures
            r.wf(),
            r@ == (MaskModel { disabled: d, ..self@ }),
    {
        MaskedInput { disabled: d, ..self }
    }

    /// Whether focused.
    pub fn is_focused(&self) -> (r: bool)
        ensures
            r == self@.focused,
    {
        self.focused
    }

    /// Sets focus (host plumbing).
    pub fn set_focused(&mut self, f: bool)
        requires
            old(self).wf(),
        ensures
            final(self).wf(),
            final(self)@ == (MaskModel { focused: f, ..old(self)@ }),
    {
        self.focused = f;
    }

    /// The number of editable slots of the mask.
    fn editable_count(&self) -> (r: usize)
        ensures
            r == editables(self@.mask).len(),
    {
        let mut count: usize = 0;
        let mut i: usize = 0;
        while i < self.mask.len()
            invariant
                i <= self.mask@.len(),
                count == editables(self.mask@.take(i as int)).len(),
            decreases self.mask@.len() - i,
        {
            proof {
                assert(self.mask@.take(i + 1).drop_last() =~= self.mask@.take(i as int));
                lemma_editables_prefix(self.mask@, i + 1, i + 1);
            }
            match self.mask[i] {
                Slot::Literal(_) => {},
                _ => {
                    count = count + 1;
                },
            }
            i = i + 1;
        }
        assert(self.mask@.take(self.mask@.len() as int) =~= self.mask@);
        count
    }

    /// The raw value (typed characters only).
    pub fn raw(&self) -> (r: String)
        ensures
            r@ == self@.raw(),
    {
        let mut s = String::new();
        let mut i: usize = 0;
        while i < self.filled.len()
            invariant
                i <= self.filled@.len(),
                s@ == self.filled@.take(i as int),
            decreases self.filled@.len() - i,
        {
            push_char(&mut s, self.filled[i]);
            assert(s@ =~= self.filled@.take(i + 1));
            i = i + 1;
        }
        assert(self.filled@.take(self.filled@.len() as int) =~= self.filled@);
        s
    }

    /// The formatted value: literals inserted, empty editable slots shown
    /// with the placeholder.
    pub fn formatted(&self) -> (r: String)
        ensures
            r@ == self@.formatted(),
    {
        let mut out = String::new();
        let mut e: usize = 0;
        let mut i: usize = 0;
        while i < self.mask.len()
            invariant
                i <= self.mask@.len(),
                e == editables(self.mask@.take(i as int)).len(),
                out@ == formatted_of(self.mask@.take(i as int), self.filled@, self.placeholder),
            decreases self.mask@.len() - i,
        {
            proof {
                assert(self.mask@.take(i + 1).drop_last() =~= self.mask@.take(i as int));
                lemma_editables_prefix(self.mask@, i + 1, i + 1);
            }
            match self.mask[i] {
                Slot::Literal(c) => push_char(&mut out, c),
                _ => {
                    if e < self.filled.len() {
                        push_char(&mut out, self.filled[e]);
                    } else {
                        push_char(&mut out, self.placeholder);
                    }
                    e = e + 1;
                },
            }
            i = i + 1;
        }
        assert(self.mask@.take(self.mask@.len() as int) =~= self.mask@);
        out
    }

    /// Whether the value is complete (every editable slot filled).
    pub fn is_complete(&self) -> (r: bool)
        ensures
            r == self@.is_complete(),
    {
        self.filled.len() == self.editable_count()
    }

    /// The caret's mask position, with what it says of the next slot.
    fn caret_index(&self) -> (r: usize)
        requires
            self.wf(),
        ensures
            r == self@.caret_index(),
            r <= self@.mask.len(),
            r < self@.mask.len() ==> self@.next_slot() == Some(self@.mask[r as int]),
            r == self@.mask.len() ==> self@.next_slot() is None,
    {
        let f = self.filled.len();
        let ghost mask = self@.mask;
        let mut seen: usize = 0;
        let mut i: usize = 0;
        while i < self.mask.len()
            invariant
                self.wf(),
                mask == self@.mask,
                f == self@.filled.len(),
                i <= mask.len(),
                seen == editables(mask.take(i as int)).len(),
                seen <= f,
                find_slot(mask, f as int, 0) == find_slot(mask, f as int, i as int),
            decreases mask.len() - i,
        {
            proof {
                assert(mask.take(i + 1).drop_last() =~= mask.take(i as int));
                lemma_editables_prefix(mask, i + 1, i + 1);
                lemma_editables_prefix(mask, i + 1, mask.len() as int);
                assert(mask.take(mask.len() as int) =~= mask);
            }
            match self.mask[i] {
                Slot::Literal(_) => {},
                _ => {
                    if seen == f {
                        assert(editables(mask.take(i + 1))[f as int] == mask[i as int]);
                        return i;
                    }
                    seen = seen + 1;
                },
            }
            i = i + 1;
        }
        proof {
            assert(mask.take(mask.len() as int) =~= mask);
        }
        i
    }

    /// The widget family.
    pub fn kind(&self) -> (r: WidgetKind)
        ensures
            r == WidgetKind::Input,
    {
        WidgetKind::Input
    }

    /// Whether the input takes focus (unless disabled).
    pub fn focusable(&self) -> (r: bool)
        ensures
            r == !self@.disabled,
    {
        !self.disabled
    }

    fn changed(&self) -> (out: WidgetOutcome)
        ensures
            out@ == self@.changed(),
    {
        let mut payload = self.raw();
        payload.append("|");
        let f = self.formatted();
        payload.append(f.as_str());
        WidgetOutcome::action_with(CHANGED_ACTION, payload)
    }

    fn insert(&mut self, c: char) -> (out: WidgetOutcome)
        requires
            old(self).wf(),
        ensures
            final(self).wf(),
            (final(self)@, out@) == old(self)@.insert(c),
    {
        let at = self.caret_index();
        if at >= self.mask.len() {
            return WidgetOutcome::Ignored;
        }
        if !slot_accepts(self.mask[at], c) {
            return WidgetOutcome::Ignored;
        }
        let ghost before = self@;
        self.filled.push(c);
        assert forall|k: int| 0 <= k < self@.filled.len() implies accepts(editables(self@.mask)[k], #[trigger] self@.filled[k]) by {
            if k < before.filled.len() {
                assert(self@.filled[k] == before.filled[k]);
            }
        }
        self.changed()
    }

    fn backspace(&mut self) -> (out: WidgetOutcome)
        requires
            old(self).wf(),
        ensures
            final(self).wf(),
            (final(self)@, out@) == old(self)@.backspace(),
    {
        if self.filled.len() == 0 {
            return WidgetOutcome::Ignored;
        }
        let ghost before = self@;
        self.filled.pop();
        assert(self@.filled =~= before.filled.drop_last());
        assert forall|k: int| 0 <= k < self@.filled.len() implies accepts(editables(self@.mask)[k], #[trigger] self@.filled[k]) by {
            assert(self@.filled[k] == before.filled[k]);
        }
        self.changed()
    }

    /// Handles a key press.
    pub fn on_keyboard(&mut self, key: KeyInput) -> (out: WidgetOutcome)
        requires
            old(self).wf(),
        ensures
            final(self).wf(),
            (final(self)@, out@) == old(self)@.on_key(key),
    {
        if self.disabled {
            return WidgetOutcome::Ignored;
        }
        if key.key == keys::BACKSPACE {
            return self.backspace();
        }
        if key.modifiers & (keys::modifiers::CTRL | keys::modifiers::ALT | keys::modifiers::SUPER) != 0 {
            return WidgetOutcome::Ignored;
        }
        match printable_char(key.key) {
            Some(c) => self.insert(c),
            None => WidgetOutcome::Ignored,
        }
    }

    /// Handles a left click; `inside` says whether it landed in the widget's
    /// laid-out box.
    pub fn on_click(&mut self, inside: bool) -> (out: WidgetOutcome)
        requires
            old(self).wf(),
        ensures
            final(self).wf(),
            (final(self)@, out@) == old(self)@.on_click(inside),
    {
        if self.disabled || !inside || self.focused {
            return WidgetOutcome::Ignored;
        }
        self.focused = true;
        WidgetOutcome::Changed
    }

    fn caret_node() -> (r: Node)
        ensures
            r.tag@ == "lq-caret"@,
            r.attr_views() == seq![("data-part"@, "caret"@)],
            r.pseudo.focus,
    {
        let r = Node::el("lq-caret").attr("data-part", "caret").pseudo_if(PseudoFlag::Focus, true);
        assert(r.attr_views() =~= seq![("data-part"@, "caret"@)]);
        r
    }

    fn slot_node(&self, i: usize, e: usize) -> (r: Node)
        requires
            self.wf(),
            i < self@.mask.len(),
            e == editables(self@.mask.take(i as int)).len(),
        ensures
            self@.slot_rendered(i as int, r),
    {
        let part = prefixed("slot-", i);
        match self.mask[i] {
            Slot::Literal(c) => {
                let t = char_text(c);
                let r = Node::el("lq-mask-slot")
                    .attr("data-part", part.as_str())
                    .attr("data-literal", "true")
                    .class("literal")
                    .child(Node::text(t.as_str()));
                assert(r.attr_views() =~= seq![("data-part"@, "slot-"@ + dec(i as nat)), ("data-literal"@, "true"@)]);
                assert(r.class_views() =~= seq!["literal"@]);
                r
            },
            _ => {
                let is_filled = e < self.filled.len();
                let shown = if is_filled { self.filled[e] } else { self.placeholder };
                let t = char_text(shown);
                let r = Node::el("lq-mask-slot")
                    .attr("data-part", part.as_str())
                    .attr("data-editable", "true")
                    .class_if("filled", is_filled)
                    .class_if("empty", !is_filled)
                    .child(Node::text(t.as_str()));
                assert(r.attr_views() =~= seq![("data-part"@, "slot-"@ + dec(i as nat)), ("data-editable"@, "true"@)]);
                assert(r.class_views() =~= (if is_filled { seq!["filled"@] } else { seq!["empty"@] }));
                r
            },
        }
    }

    /// The render tree: an `lq-masked-input` holding the field of mask cells,
    /// with the caret (while focused) just before the next slot to fill.
    pub fn render(&self) -> (r: Node)
        requires
            self.wf(),
        ensures
            r.tag@ == "lq-masked-input"@,
            r.attr_views() == seq![
                (FOCUSABLE_ATTR@, bool_str(!self@.disabled)),
                ("role"@, "textbox"@),
                ("data-raw"@, self@.raw()),
            ] + (if self@.disabled { seq![("disabled"@, "true"@)] } else { Seq::empty() }),
            r.class_views() == (if self@.is_complete() { seq!["complete"@] } else { Seq::empty() }),
            r.pseudo == (Pseudo {
                hover: false,
                active: false,
                focus: self@.focused && !self@.disabled,
                checked: false,
                disabled: self@.disabled,
            }),
            r.children@.len() == 1,
            r.children@[0].tag@ == "lq-mask-field"@,
            r.children@[0].attr_views() == seq![("data-part"@, "field"@)],
            r.children@[0].children@.len() == self@.mask.len() + (if self@.focused { 1int } else { 0int }),
            forall|i: int| 0 <= i < self@.mask.len() ==> #[trigger] self@.field_slot(r.children@[0], i),
            self@.focused ==> r.children@[0].children@[self@.caret_index()].tag@ == "lq-caret"@,
            self@.focused ==> r.children@[0].children@[self@.caret_index()].attr_views() == seq![("data-part"@, "caret"@)],
    {
        let caret = self.caret_index();
        let n = self.mask.len();
        let mut field = Node::el("lq-mask-field").attr("data-part", "field");
        assert(field.attr_views() =~= seq![("data-part"@, "field"@)]);
        let mut e: usize = 0;
        let mut i: usize = 0;
        while i < n
            invariant
                self.wf(),
                n == self@.mask.len(),
                caret == self@.caret_index(),
                caret <= n,
                i <= n,
                e == editables(self@.mask.take(i as int)).len(),
                field.tag@ == "lq-mask-field"@,
                field.attr_views() == seq![("data-part"@, "field"@)],
                field.children@.len() == i + (if self@.focused && caret < i { 1int } else { 0int }),
                forall|k: int| 0 <= k < i ==> #[trigger] self@.field_slot(field, k),
                self@.focused && caret < i ==> field.children@[caret as int].tag@ == "lq-caret"@,
                self@.focused && caret < i ==> field.children@[caret as int].attr_views() == seq![("data-part"@, "caret"@)],
            decreases n - i,
        {
            let ghost before = field;
            if self.focused && i == caret {
                field = field.child(Self::caret_node());
            }
            let ghost mid = field;
            proof {
                assert(self@.mask.take(i + 1).drop_last() =~= self@.mask.take(i as int));
                lemma_editables_prefix(self@.mask, i + 1, i + 1);
                lemma_editables_prefix(self@.mask, i as int, i + 1);
            }
            field = field.child(self.slot_node(i, e));
            match self.mask[i] {
                Slot::Literal(_) => {},
                _ => {
                    e = e + 1;
                },
            }
            assert forall|k: int| 0 <= k < i + 1 implies #[trigger] self@.field_slot(field, k) by {
                if k < i {
                    assert(self@.field_slot(before, k));
                    assert(field.children@[self@.slot_pos(k)] == before.children@[self@.slot_pos(k)]);
                }
            }
            i = i + 1;
        }
        let ghost done = field;
        if self.focused && caret >= n {
            field = field.child(Self::caret_node());
        }
        assert forall|k: int| 0 <= k < n implies #[trigger] self@.field_slot(field, k) by {
            assert(self@.field_slot(done, k));
            assert(field.children@[self@.slot_pos(k)] == done.children@[self@.slot_pos(k)]);
        }
        let raw = self.raw();
        let mut node = Node::el("lq-masked-input")
            .attr(FOCUSABLE_ATTR, bool_text(!self.disabled))
            .attr("role", "textbox")
            .attr("data-raw", raw.as_str())
            .class_if("complete", self.is_complete())
            .pseudo_if(PseudoFlag::Focus, self.focused && !self.disabled)
            .pseudo_if(PseudoFlag::Disabled, self.disabled)
            .child(field);
        if self.disabled {
            node = node.attr("disabled", "true");
        }
        assert(node.attr_views() =~= seq![
            (FOCUSABLE_ATTR@, bool_str(!self@.disabled)),
            ("role"@, "textbox"@),
            ("data-raw"@, self@.raw()),
        ] + (if self@.disabled { seq![("disabled"@, "true"@)] } else { Seq::empty() }));
        assert(node.class_views() =~= (if self@.is_complete() { seq!["complete"@] } else { Seq::<Seq<char>>::empty() }));
        node
    }
}

/// In every valid state the raw value holds at most one character per
/// editable slot, the input is complete exactly when every editable slot is
/// filled, and the formatted value has one character per mask position.
pub proof fn lemma_value_lengths(m: MaskModel)
    requires
        m.valid(),
    ensures
        m.raw().len() <= editables(m.mask).len(),
        m.is_complete() <==> m.raw().len() == editables(m.mask).len(),
        m.formatted().len() == m.mask.len(),
{
    lemma_formatted_len(m.mask, m.filled, m.placeholder);
}

} // verus!
