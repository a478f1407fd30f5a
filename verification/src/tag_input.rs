//! `<lq-tag-input>` — a token field: entered text becomes removable chips.
//!
//! Typing edits an inline buffer (with a caret counted in characters);
//! Enter commits the trimmed buffer as a new tag unless it is empty or, by
//! default, a duplicate; Backspace on an empty buffer removes the last tag; a
//! click on a tag's × (`data-part="remove-<i>"`) removes that tag. Every
//! change of the tag list emits `changed` with the comma-joined tags.

use vstd::prelude::*;

use crate::behavior::{KeyInput, OutcomeView, WidgetKind, WidgetOutcome};
use crate::keys;
use crate::keys::modifiers::has_command;
use crate::keys::{is_control_code, is_scalar, printable_char};
use crate::node::{bool_str, bool_text, Node, Pseudo, PseudoFlag, FOCUSABLE_ATTR};
use crate::text::{dec, join, join_strings, lemma_trim_idempotent, prefixed, splice, trim, trimmed};

verus! {

/// Emitted when the set of tags changes (payload: comma-joined tags).
pub const CHANGED_ACTION: &'static str = "changed";

/// The glyph of a tag's remove button (a multiplication sign).
pub const REMOVE_GLYPH: &'static str = "\u{00D7}";

/// What a click landed on, as resolved by the host against the laid-out
/// boxes: a tag's × box first, then the widget itself.
#[derive(Clone, Copy, Debug, PartialEq, Eq, Structural)]
pub enum TagHit {
    Remove(usize),
    Field,
}

/// A token / tag input field.
pub struct TagInput {
    tags: Vec<String>,
    buffer: String,
    caret: usize,
    placeholder: String,
    allow_duplicates: bool,
    disabled: bool,
    focused: bool,
}

/// The abstract state of a [`TagInput`].
pub struct TagModel {
    pub tags: Seq<Seq<char>>,
    pub buffer: Seq<char>,
    pub caret: int,
    pub placeholder: Seq<char>,
    pub allow_duplicates: bool,
    pub disabled: bool,
    pub focused: bool,
}

/// The tags after seeding `start` with the first `k` of `items`: each is
/// trimmed, and kept when non-empty and (unless duplicates are allowed) not
/// already present.
pub open spec fn seeded(start: Seq<Seq<char>>, items: Seq<Seq<char>>, allow: bool, k: int) -> Seq<Seq<char>>
    decreases k,
{
    if k <= 0 {
        start
    } else {
        let prev = seeded(start, items, allow, k - 1);
        let t = trimmed(items[k - 1]);
        if t.len() > 0 && (allow || !prev.contains(t)) {
            prev.push(t)
        } else {
            prev
        }
    }
}

/// Whether no tag occurs twice.
pub open spec fn distinct(tags: Seq<Seq<char>>) -> bool {
    forall|i: int, j: int| 0 <= i < j < tags.len() ==> tags[i] != tags[j]
}

impl TagModel {
    /// The caret lies within the buffer and every tag is non-empty.
    pub open spec fn valid(self) -> bool {
        &&& 0 <= self.caret <= self.buffer.len()
        &&& forall|i: int| 0 <= i < self.tags.len() ==> (#[trigger] self.tags[i]).len() > 0
    }

    /// The `changed` outcome for this state.
    pub open spec fn changed(self) -> OutcomeView {
        OutcomeView::Action(CHANGED_ACTION@, Some(join(self.tags, ","@)))
    }

    /// Enter: commit the trimmed buffer as a tag. An empty buffer changes
    /// nothing; a rejected duplicate only clears the buffer.
    pub open spec fn commit(self) -> (TagModel, OutcomeView) {
        let t = trimmed(self.buffer);
        if t.len() == 0 {
            (self, OutcomeView::Changed)
        } else if !self.allow_duplicates && self.tags.contains(t) {
            (TagModel { buffer: Seq::empty(), caret: 0, ..self }, OutcomeView::Changed)
        } else {
            let m = TagModel { tags: self.tags.push(t), buffer: Seq::empty(), caret: 0, ..self };
            (m, m.changed())
        }
    }

    /// Removing tag `idx`.
    pub open spec fn remove_tag(self, idx: int) -> (TagModel, OutcomeView) {
        if idx < 0 || idx >= self.tags.len() {
            (self, OutcomeView::Ignored)
        } else {
            let m = TagModel { tags: self.tags.remove(idx), ..self };
            (m, m.changed())
        }
    }

    /// Backspace: at the very start of an empty buffer it removes the last
    /// tag; otherwise it deletes the character before the caret.
    pub open spec fn backspace(self) -> (TagModel, OutcomeView) {
        if self.caret == 0 {
            if self.buffer.len() == 0 && self.tags.len() > 0 {
                let m = TagModel { tags: self.tags.drop_last(), ..self };
                (m, m.changed())
            } else {
                (self, OutcomeView::Ignored)
            }
        } else {
            (
                TagModel {
                    buffer: self.buffer.subrange(0, self.caret - 1) + self.buffer.subrange(self.caret, self.buffer.len() as int),
                    caret: self.caret - 1,
                    ..self
                },
                OutcomeView::Changed,
            )
        }
    }

    /// Typing `c` at the caret.
    pub open spec fn insert(self, c: char) -> TagModel {
        TagModel {
            buffer: self.buffer.subrange(0, self.caret) + seq![c] + self.buffer.subrange(self.caret, self.buffer.len() as int),
            caret: self.caret + 1,
            ..self
        }
    }

    /// The keyboard transition.
    pub open spec fn on_key(self, key: KeyInput) -> (TagModel, OutcomeView) {
        let k = key.key;
        let n = self.buffer.len() as int;
        if self.disabled {
            (self, OutcomeView::Ignored)
        } else if k == keys::ENTER {
            self.commit()
        } else if k == keys::BACKSPACE {
            self.backspace()
        } else if k == keys::DELETE {
            if self.caret >= n {
                (self, OutcomeView::Ignored)
            } else {
                (
                    TagModel { buffer: self.buffer.subrange(0, self.caret) + self.buffer.subrange(self.caret + 1, n), ..self },
                    OutcomeView::Changed,
                )
            }
        } else if k == keys::ARROW_LEFT {
            if self.caret == 0 { (self, OutcomeView::Ignored) } else { (TagModel { caret: self.caret - 1, ..self }, OutcomeView::Changed) }
        } else if k == keys::ARROW_RIGHT {
            if self.caret >= n { (self, OutcomeView::Ignored) } else { (TagModel { caret: self.caret + 1, ..self }, OutcomeView::Changed) }
        } else if k == keys::HOME {
            if self.caret == 0 { (self, OutcomeView::Ignored) } else { (TagModel { caret: 0, ..self }, OutcomeView::Changed) }
        } else if k == keys::END {
            if self.caret >= n { (self, OutcomeView::Ignored) } else { (TagModel { caret: n, ..self }, OutcomeView::Changed) }
        } else if has_command(key.modifiers) || !is_scalar(k) || is_control_code(k) {
            (self, OutcomeView::Ignored)
        } else {
            (self.insert(k as char), OutcomeView::Changed)
        }
    }

    /// A left click on `hit` (or outside the widget).
    pub open spec fn on_click(self, hit: Option<TagHit>) -> (TagModel, OutcomeView) {
        if self.disabled {
            (self, OutcomeView::Ignored)
        } else {
            match hit {
                Some(TagHit::Remove(i)) => self.remove_tag(i as int),
                Some(TagHit::Field) => if self.focused {
                    (self, OutcomeView::Ignored)
                } else {
                    (TagModel { focused: true, ..self }, OutcomeView::Changed)
                },
                None => (self, OutcomeView::Ignored),
            }
        }
    }

    /// Whether `c` renders tag `i` as a chip with its label and × button.
    pub open spec fn token_rendered(self, i: int, c: Node) -> bool {
        &&& c.tag@ == "lq-token"@
        &&& c.key matches Some(k) && k@ == self.tags[i]
        &&& c.attr_views() == seq![("data-part"@, "token-"@ + dec(i as nat)), ("data-value"@, self.tags[i])]
        &&& c.children@.len() == 2
        &&& c.children@[0].tag@ == "lq-token-label"@
        &&& c.children@[0].attr_views() == seq![("data-part"@, "label-"@ + dec(i as nat))]
        &&& c.children@[0].children@.len() == 1
        &&& c.children@[0].first_text() == self.tags[i]
        &&& c.children@[1].tag@ == "lq-token-remove"@
        &&& c.children@[1].attr_views() == seq![
            ("data-part"@, "remove-"@ + dec(i as nat)),
            ("role"@, "button"@),
            ("aria-label"@, "Remove tag"@),
        ]
        &&& c.children@[1].children@.len() == 1
        &&& c.children@[1].first_text() == REMOVE_GLYPH@
    }

    /// Whether the whole control is empty (then the placeholder shows).
    pub open spec fn shows_placeholder(self) -> bool {
        self.buffer.len() == 0 && self.tags.len() == 0
    }

    /// Whether `c` renders the inline edit field: text before the caret,
    /// the caret, text after it (or the placeholder when empty).
    pub open spec fn field_rendered(self, c: Node) -> bool {
        let ph = self.shows_placeholder();
        &&& c.tag@ == "lq-tag-field"@
        &&& c.attr_views() == seq![("data-part"@, "field"@)]
        &&& c.class_views() == (if ph { seq!["placeholder"@] } else { Seq::empty() })
        &&& c.children@.len() == 3
        &&& c.children@[0].tag@ == "lq-label"@
        &&& c.children@[0].attr_views() == seq![("data-part"@, "text-before"@)]
        &&& c.children@[0].children@.len() == 1
        &&& c.children@[0].first_text() == (if ph { self.placeholder } else { self.buffer.subrange(0, self.caret) })
        &&& c.children@[1].tag@ == "lq-caret"@
        &&& c.children@[1].attr_views() == seq![("data-part"@, "caret"@)]
        &&& c.children@[1].pseudo.focus == self.focused
        &&& c.children@[2].tag@ == "lq-label"@
        &&& c.children@[2].attr_views() == seq![("data-part"@, "text-after"@)]
        &&& c.children@[2].children@.len() == 1
        &&& c.children@[2].first_text() == (if ph { Seq::empty() } else { self.buffer.subrange(self.caret, self.buffer.len() as int) })
    }
}

/// With duplicates rejected, a distinct tag list stays distinct under every
/// key press and click.
pub proof fn lemma_keeps_distinct(m: TagModel, key: KeyInput, hit: Option<TagHit>)
    requires
        m.valid(),
        !m.allow_duplicates,
        distinct(m.tags),
    ensures
        distinct(m.on_key(key).0.tags),
        distinct(m.on_click(hit).0.tags),
        m.on_key(key).0.valid(),
        m.on_click(hit).0.valid(),
{
    let t = trimmed(m.buffer);
    let p = m.tags.push(t);
    if !m.tags.contains(t) {
        assert forall|i: int, j: int| 0 <= i < j < p.len() implies p[i] != p[j] by {
            if j == m.tags.len() {
                assert(m.tags[i] == p[i]);
            }
        }
    }
    if m.tags.len() > 0 {
        let d = m.tags.drop_last();
        assert forall|i: int, j: int| 0 <= i < j < d.len() implies d[i] != d[j] by {
            assert(d[i] == m.tags[i] && d[j] == m.tags[j]);
        }
        assert forall|i: int| 0 <= i < d.len() implies (#[trigger] d[i]).len() > 0 by {
            assert(d[i] == m.tags[i]);
        }
    }
    match hit {
        Some(TagHit::Remove(x)) => {
            let idx = x as int;
            if 0 <= idx < m.tags.len() {
                let r = m.tags.remove(idx);
                assert forall|i: int, j: int| 0 <= i < j < r.len() implies r[i] != r[j] by {
                    let a = if i < idx { i } else { i + 1 };
                    let b = if j < idx { j } else { j + 1 };
                    assert(r[i] == m.tags[a] && r[j] == m.tags[b]);
                }
                assert forall|i: int| 0 <= i < r.len() implies (#[trigger] r[i]).len() > 0 by {
                    let a = if i < idx { i } else { i + 1 };
                    assert(r[i] == m.tags[a]);
                }
            }
        },
        _ => {},
    }
    assert forall|i: int| 0 <= i < p.len() && t.len() > 0 implies (#[trigger] p[i]).len() > 0 by {
        if i < m.tags.len() {
            assert(p[i] == m.tags[i]);
        }
    }
}

impl View for TagInput {
    type V = TagModel;

    closed spec fn view(&self) -> TagModel {
        TagModel {
            tags: self.tags@.map_values(|s: String| s@),
            buffer: self.buffer@,
            caret: self.caret as int,
            placeholder: self.placeholder@,
            allow_duplicates: self.allow_duplicates,
            disabled: self.disabled,
            focused: self.focused,
        }
    }
}

/// Whether `tags` holds a tag equal to `t`.
fn has_tag(tags: &Vec<String>, t: &String) -> (r: bool)
    ensures
        r == tags@.map_values(|s: String| s@).contains(t@),
{
    let ghost views = tags@.map_values(|s: String| s@);
    let mut i: usize = 0;
    while i < tags.len()
        invariant
            i <= tags@.len(),
            views == tags@.map_values(|s: String| s@),
            forall|k: int| 0 <= k < i ==> views[k] != t@,
        decreases tags@.len() - i,
    {
        if tags[i] == *t {
            assert(views[i as int] == t@);
            return true;
        }
        i = i + 1;
    }
    assert(!views.contains(t@)) by {
        if views.contains(t@) {
            let k = choose|k: int| 0 <= k < views.len() && views[k] == t@;
            assert(views[k] != t@);
        }
    }
    false
}

impl TagInput {
    /// The representation invariant.
    pub open spec fn wf(&self) -> bool {
        self@.valid()
    }

    /// An empty tag input with the given `placeholder`.
    pub fn new(placeholder: &str) -> (r: TagInput)
        ensures
            r.wf(),
            r@ == (TagModel {
                tags: Seq::empty(),
                buffer: Seq::empty(),
                caret: 0,
                placeholder: placeholder@,
                allow_duplicates: false,
                disabled: false,
                focused: false,
            }),
    {
        let r = TagInput {
            tags: Vec::new(),
            buffer: String::new(),
            caret: 0,
            placeholder: placeholder.to_string(),
            allow_duplicates: false,
            disabled: false,
            focused: false,
        };
        assert(r@.tags =~= Seq::<Seq<char>>::empty());
        r
    }

    /// Seeds the input with `items`: each is trimmed and added when
    /// non-empty and (unless duplicates are allowed) new.
    pub fn with_tags(self, items: Vec<String>) -> (r: TagInput)
        requires
            self.wf(),
        ensures
            r.wf(),
            r@ == (TagModel {
                tags: seeded(self@.tags, items@.map_values(|s: String| s@), self@.allow_duplicates, items@.len() as int),
                ..self@
            }),
    {
        let ghost views = items@.map_values(|s: String| s@);
        let mut g = self;
        let ghost start = g@;
        let mut i: usize = 0;
        while i < items.len()
            invariant
                g.wf(),
                i <= items@.len(),
                views == items@.map_values(|s: String| s@),
                g@ == (TagModel { tags: seeded(start.tags, views, start.allow_duplicates, i as int), ..start }),
            decreases items@.len() - i,
        {
            let t = trim(items[i].as_str()).to_string();
            let dup = has_tag(&g.tags, &t);
            let ghost before = g@.tags;
            if t.unicode_len() > 0 && (g.allow_duplicates || !dup) {
                g.tags.push(t);
                assert(g@.tags =~= before.push(t@));
            }
            i = i + 1;
        }
        g
    }

    /// Allows duplicate tag values (by default they are rejected).
    pub fn allow_duplicates(self, a: bool) -> (r: TagInput)
        requires
            self.wf(),
        ensures
            r.wf(),
            r@ == (TagModel { allow_duplicates: a, ..self@ }),
    {
        TagInput { allow_duplicates: a, ..self }
    }

    /// Marks disabled (or enabled).
    pub fn disabled(self, d: bool) -> (r: TagInput)
        requires
            self.wf(),
        ensures
            r.wf(),
            r@ == (TagModel { disabled: d, ..self@ }),
    {
        TagInput { disabled: d, ..self }
    }

    /// The committed tags.
    pub fn tags(&self) -> (r: &[String])
        ensures
            r@.map_values(|s: String| s@) == self@.tags,
    {
        self.tags.as_slice()
    }

    /// The current edit buffer.
    pub fn buffer(&self) -> (r: &str)
        ensures
            r@ == self@.buffer,
    {
        self.buffer.as_str()
    }

    /// Whether focused.
    pub fn is_focused(&self) -> (r: bool)
        ensures
            r == self@.focused,
    {
        self.focused
    }

    /// Sets focus (host plumbing).
    pub fn set_focused(&mut self, f: bool)
        requires
            old(self).wf(),
        ensures
            final(self).wf(),
            final(self)@ == (TagModel { focused: f, ..old(self)@ }),
    {
        self.focused = f;
    }

    /// The widget family.
    pub fn kind(&self) -> (r: WidgetKind)
        ensures
            r == WidgetKind::Input,
    {
        WidgetKind::Input
    }

    /// Whether the input takes focus (unless disabled).
    pub fn focusable(&self) -> (r: bool)
        ensures
            r == !self@.disabled,
    {
        !self.disabled
    }

    fn changed(&self) -> (out: WidgetOutcome)
        ensures
            out@ == self@.changed(),
    {
        WidgetOutcome::action_with(CHANGED_ACTION, join_strings(&self.tags, ","))
    }

    fn commit(&mut self) -> (out: WidgetOutcome)
        requires
            old(self).wf(),
        ensures
            final(self).wf(),
            (final(self)@, out@) == old(self)@.commit(),
    {
        let t = trim(self.buffer.as_str()).to_string();
        if t.unicode_len() == 0 {
            return WidgetOutcome::Changed;
        }
        if !self.allow_duplicates && has_tag(&self.tags, &t) {
            self.buffer = String::new();
            self.caret = 0;
            assert(self@.tags == old(self)@.tags);
            return WidgetOutcome::Changed;
        }
        let ghost before = self@.tags;
        self.tags.push(t);
        self.buffer = String::new();
        self.caret = 0;
        assert(self@.tags =~= before.push(trimmed(old(self)@.buffer)));
        self.changed()
    }

    fn remove_tag(&mut self, idx: usize) -> (out: WidgetOutcome)
        requires
            old(self).wf(),
        ensures
            final(self).wf(),
            (final(self)@, out@) == old(self)@.remove_tag(idx as int),
    {
        if idx >= self.tags.len() {
            return WidgetOutcome::Ignored;
        }
        let ghost before = self@.tags;
        self.tags.remove(idx);
        assert(self@.tags =~= before.remove(idx as int));
        assert forall|i: int| 0 <= i < self@.tags.len() implies (#[trigger] self@.tags[i]).len() > 0 by {
            let a = if i < idx { i } else { i + 1 };
            assert(self@.tags[i] == before[a]);
        }
        self.changed()
    }

    /// Handles a key press (the buffer's length must leave room for one
    /// more character).
    pub fn on_keyboard(&mut self, key: KeyInput) -> (out: WidgetOutcome)
        requires
            old(self).wf(),
            old(self)@.buffer.len() < usize::MAX,
        ensures
            final(self).wf(),
            (final(self)@, out@) == old(self)@.on_key(key),
    {
        if self.disabled {
            return WidgetOutcome::Ignored;
        }
        let n = self.buffer.as_str().unicode_len();
        let k = key.key;
        if k == keys::ENTER {
            self.commit()
        } else if k == keys::BACKSPACE {
            if self.caret == 0 {
                if n == 0 && self.tags.len() > 0 {
                    let ghost before = self@.tags;
                    self.tags.pop();
                    assert(self@.tags =~= before.drop_last());
                    assert forall|i: int| 0 <= i < self@.tags.len() implies (#[trigger] self@.tags[i]).len() > 0 by {
                        assert(self@.tags[i] == before[i]);
                    }
                    return self.changed();
                }
                return WidgetOutcome::Ignored;
            }
            let b = splice(self.buffer.as_str(), self.caret - 1, self.caret, None);
            self.buffer = b;
            self.caret = self.caret - 1;
            WidgetOutcome::Changed
        } else if k == keys::DELETE {
            if self.caret >= n {
                return WidgetOutcome::Ignored;
            }
            let b = splice(self.buffer.as_str(), self.caret, self.caret + 1, None);
            self.buffer = b;
            WidgetOutcome::Changed
        } else if k == keys::ARROW_LEFT {
            if self.caret == 0 {
                return WidgetOutcome::Ignored;
            }
            self.caret = self.caret - 1;
            WidgetOutcome::Changed
        } else if k == keys::ARROW_RIGHT {
            if self.caret >= n {
                return WidgetOutcome::Ignored;
            }
            self.caret = self.caret + 1;
            WidgetOutcome::Changed
        } else if k == keys::HOME {
            if self.caret == 0 {
                return WidgetOutcome::Ignored;
            }
            self.caret = 0;
            WidgetOutcome::Changed
        } else if k == keys::END {
            if self.caret >= n {
                return WidgetOutcome::Ignored;
            }
            self.caret = n;
            WidgetOutcome::Changed
        } else {
            if key.modifiers & (keys::modifiers::CTRL | keys::modifiers::ALT | keys::modifiers::SUPER) != 0 {
                return WidgetOutcome::Ignored;
            }
            match printable_char(k) {
                Some(c) => {
                    let b = splice(self.buffer.as_str(), self.caret, self.caret, Some(c));
                    self.buffer = b;
                    self.caret = self.caret + 1;
                    WidgetOutcome::Changed
                },
                None => WidgetOutcome::Ignored,
            }
        }
    }

    /// Handles a left click on `hit` (or outside the widget).
    pub fn on_click(&mut self, hit: Option<TagHit>) -> (out: WidgetOutcome)
        requires
            old(self).wf(),
        ensures
            final(self).wf(),
            (final(self)@, out@) == old(self)@.on_click(hit),
    {
        if self.disabled {
            return WidgetOutcome::Ignored;
        }
        match hit {
            Some(TagHit::Remove(i)) => self.remove_tag(i),
            Some(TagHit::Field) => {
                if self.focused {
                    return WidgetOutcome::Ignored;
                }
                self.focused = true;
                assert(self@.tags == old(self)@.tags);
                WidgetOutcome::Changed
            },
            None => WidgetOutcome::Ignored,
        }
    }

    fn token(&self, i: usize) -> (r: Node)
        requires
            i < self@.tags.len(),
        ensures
            self@.token_rendered(i as int, r),
    {
        let tag = self.tags[i].as_str();
        let token_part = prefixed("token-", i);
        let label_part = prefixed("label-", i);
        let remove_part = prefixed("remove-", i);
        let label = Node::el("lq-token-label").attr("data-part", label_part.as_str()).child(Node::text(tag));
        let remove = Node::el("lq-token-remove")
            .attr("data-part", remove_part.as_str())
            .attr("role", "button")
            .attr("aria-label", "Remove tag")
            .child(Node::text(REMOVE_GLYPH));
        let r = Node::el("lq-token")
            .key(tag)
            .attr("data-part", token_part.as_str())
            .attr("data-value", tag)
            .child(label)
            .child(remove);
        assert(r.attr_views() =~= seq![("data-part"@, "token-"@ + dec(i as nat)), ("data-value"@, self@.tags[i as int])]);
        assert(r.children@[0].attr_views() =~= seq![("data-part"@, "label-"@ + dec(i as nat))]);
        assert(r.children@[1].attr_views() =~= seq![
            ("data-part"@, "remove-"@ + dec(i as nat)),
            ("role"@, "button"@),
            ("aria-label"@, "Remove tag"@),
        ]);
        r
    }

    fn field(&self) -> (r: Node)
        requires
            self.wf(),
        ensures
            self@.field_rendered(r),
    {
        proof {
            reveal_strlit("");
        }
        assert(""@ =~= Seq::<char>::empty());
        let n = self.buffer.as_str().unicode_len();
        let ph = n == 0 && self.tags.len() == 0;
        let before = self.buffer.as_str().substring_char(0, self.caret);
        let after = self.buffer.as_str().substring_char(self.caret, n);
        let b = Node::el("lq-label").attr("data-part", "text-before").child(Node::text(if ph {
            self.placeholder.as_str()
        } else {
            before
        }));
        let c = Node::el("lq-caret").attr("data-part", "caret").pseudo_if(PseudoFlag::Focus, self.focused);
        let a = Node::el("lq-label").attr("data-part", "text-after").child(Node::text(if ph { "" } else { after }));
        let r = Node::el("lq-tag-field").attr("data-part", "field").class_if("placeholder", ph).child(b).child(c).child(a);
        assert(r.attr_views() =~= seq![("data-part"@, "field"@)]);
        assert(r.class_views() =~= (if ph { seq!["placeholder"@] } else { Seq::<Seq<char>>::empty() }));
        assert(r.children@[0].attr_views() =~= seq![("data-part"@, "text-before"@)]);
        assert(r.children@[1].attr_views() =~= seq![("data-part"@, "caret"@)]);
        assert(r.children@[2].attr_views() =~= seq![("data-part"@, "text-after"@)]);
        r
    }

    /// The render tree: an `lq-tag-input` with one chip per tag followed by
    /// the inline edit field.
    pub fn render(&self) -> (r: Node)
        requires
            self.wf(),
        ensures
            r.tag@ == "lq-tag-input"@,
            r.attr_views() == seq![(FOCUSABLE_ATTR@, bool_str(!self@.disabled)), ("role"@, "textbox"@)]
                + (if self@.disabled { seq![("disabled"@, "true"@)] } else { Seq::empty() }),
            r.pseudo == (Pseudo {
                hover: false,
                active: false,
                focus: self@.focused && !self@.disabled,
                checked: false,
                disabled: self@.disabled,
            }),
            r.children@.len() == self@.tags.len() + 1,
            forall|i: int| 0 <= i < self@.tags.len() ==> self@.token_rendered(i, #[trigger] r.children@[i]),
            self@.field_rendered(r.children@[self@.tags.len() as int]),
    {
        let mut node = Node::el("lq-tag-input")
            .attr(FOCUSABLE_ATTR, bool_text(!self.disabled))
            .attr("role", "textbox")
            .pseudo_if(PseudoFlag::Focus, self.focused && !self.disabled)
            .pseudo_if(PseudoFlag::Disabled, self.disabled);
        let ghost head = node.attr_views();
        let ghost ps = node.pseudo;
        let mut i: usize = 0;
        while i < self.tags.len()
            invariant
                self.wf(),
                i <= self@.tags.len(),
                node.tag@ == "lq-tag-input"@,
                node.attr_views() == head,
                node.pseudo == ps,
                node.children@.len() == i,
                forall|k: int| 0 <= k < i ==> self@.token_rendered(k, #[trigger] node.children@[k]),
            decreases self@.tags.len() - i,
        {
            node = node.child(self.token(i));
            i = i + 1;
        }
        node = node.child(self.field());
        if self.disabled {
            node = node.attr("disabled", "true");
        }
        assert(node.attr_views() =~= seq![(FOCUSABLE_ATTR@, bool_str(!self@.disabled)), ("role"@, "textbox"@)]
            + (if self@.disabled { seq![("disabled"@, "true"@)] } else { Seq::empty() }));
        node
    }
}

/// Whether every tag is non-empty and has no leading or trailing whitespace.
pub open spec fn tags_clean(tags: Seq<Seq<char>>) -> bool {
    forall|i: int| 0 <= i < tags.len() ==> (#[trigger] tags[i]).len() > 0 && trimmed(tags[i]) == tags[i]
}

/// Every tag stays non-empty and trimmed under every key press and click.
pub proof fn lemma_tags_stay_clean(m: TagModel, key: KeyInput, hit: Option<TagHit>)
    requires
        tags_clean(m.tags),
    ensures
        tags_clean(m.on_key(key).0.tags),
        tags_clean(m.on_click(hit).0.tags),
{
    let t = trimmed(m.buffer);
    lemma_trim_idempotent(m.buffer);
    let p = m.tags.push(t);
    assert forall|i: int| 0 <= i < p.len() && t.len() > 0 implies (#[trigger] p[i]).len() > 0 && trimmed(p[i]) == p[i] by {
        if i < m.tags.len() {
            assert(p[i] == m.tags[i]);
        }
    }
    if m.tags.len() > 0 {
        let d = m.tags.drop_last();
        assert forall|i: int| 0 <= i < d.len() implies (#[trigger] d[i]).len() > 0 && trimmed(d[i]) == d[i] by {
            assert(d[i] == m.tags[i]);
        }
    }
    match hit {
        Some(TagHit::Remove(x)) => {
            let idx = x as int;
            if 0 <= idx < m.tags.len() {
                let r = m.tags.remove(idx);
                assert forall|i: int| 0 <= i < r.len() implies (#[trigger] r[i]).len() > 0 && trimmed(r[i]) == r[i] by {
                    let a = if i < idx { i } else { i + 1 };
                    assert(r[i] == m.tags[a]);
                }
            }
        },
        _ => {},
    }
}

/// Seeding keeps the tags non-empty and trimmed, and, with duplicates
/// rejected, distinct.
pub proof fn lemma_seeded_clean(start: Seq<Seq<char>>, items: Seq<Seq<char>>, allow: bool, k: int)
    requires
        tags_clean(start),
        !allow ==> distinct(start),
        k <= items.len(),
    ensures
        tags_clean(seeded(start, items, allow, k)),
        !allow ==> distinct(seeded(start, items, allow, k)),
    decreases k,
{
    if k > 0 {
        lemma_seeded_clean(start, items, allow, k - 1);
        let prev = seeded(start, items, allow, k - 1);
        let t = trimmed(items[k - 1]);
        lemma_trim_idempotent(items[k - 1]);
        if t.len() > 0 && (allow || !prev.contains(t)) {
            let p = prev.push(t);
            assert forall|i: int| 0 <= i < p.len() implies (#[trigger] p[i]).len() > 0 && trimmed(p[i]) == p[i] by {
                if i < prev.len() {
                    assert(p[i] == prev[i]);
                }
            }
            if !allow {
                assert forall|i: int, j: int| 0 <= i < j < p.len() implies p[i] != p[j] by {
                    if j == prev.len() {
                        assert(prev[i] == p[i]);
                    }
                }
            }
        }
    }
}

/// Enter commits the trimmed buffer: a new tag is appended at the end (all
/// earlier tags kept in order) and reported, unless it is empty or a
/// rejected duplicate; the buffer is cleared whenever there was text.
pub proof fn lemma_enter_commits_buffer(m: TagModel, mods: u32)
    requires
        m.valid(),
        !m.disabled,
    ensures
        ({
            let t = trimmed(m.buffer);
            let (n, out) = m.on_key(KeyInput { key: keys::ENTER, modifiers: mods });
            &&& t.len() > 0 && (m.allow_duplicates || !m.tags.contains(t)) ==> {
                &&& n.tags.len() == m.tags.len() + 1
                &&& n.tags[m.tags.len() as int] == t
                &&& (forall|i: int| 0 <= i < m.tags.len() ==> #[trigger] n.tags[i] == m.tags[i])
                &&& n.buffer.len() == 0 && n.caret == 0
                &&& out == OutcomeView::Action(CHANGED_ACTION@, Some(join(n.tags, ","@)))
            }
            &&& t.len() > 0 && !m.allow_duplicates && m.tags.contains(t) ==> n.tags == m.tags && n.buffer.len() == 0
            &&& t.len() == 0 ==> n.tags == m.tags && n.buffer == m.buffer
        }),
{
}

/// Backspace at the start of an empty field removes the last tag (the others
/// stay, in order); with text before the caret it deletes exactly the one
/// character before the caret and keeps every tag.
pub proof fn lemma_backspace_removes_last_tag_or_char(m: TagModel, mods: u32)
    requires
        m.valid(),
        !m.disabled,
    ensures
        ({
            let (n, out) = m.on_key(KeyInput { key: keys::BACKSPACE, modifiers: mods });
            &&& m.caret == 0 && m.buffer.len() == 0 && m.tags.len() > 0 ==> {
                &&& n.tags.len() == m.tags.len() - 1
                &&& (forall|i: int| 0 <= i < n.tags.len() ==> #[trigger] n.tags[i] == m.tags[i])
                &&& out == OutcomeView::Action(CHANGED_ACTION@, Some(join(n.tags, ","@)))
            }
            &&& m.caret > 0 ==> {
                &&& n.tags == m.tags
                &&& n.caret == m.caret - 1
                &&& n.buffer.len() == m.buffer.len() - 1
                &&& (forall|i: int| 0 <= i < m.caret - 1 ==> #[trigger] n.buffer[i] == m.buffer[i])
                &&& (forall|i: int| m.caret - 1 <= i < n.buffer.len() ==> #[trigger] n.buffer[i] == m.buffer[i + 1])
            }
        }),
{
}

/// A click on the remove button of tag `i` removes exactly that tag: the
/// others stay, in order, and the new list is reported.
pub proof fn lemma_remove_click_removes_one(m: TagModel, i: usize)
    requires
        m.valid(),
        !m.disabled,
        i < m.tags.len(),
    ensures
        ({
            let (n, out) = m.on_click(Some(TagHit::Remove(i)));
            &&& n.tags.len() == m.tags.len() - 1
            &&& (forall|j: int| 0 <= j < i ==> #[trigger] n.tags[j] == m.tags[j])
            &&& (forall|j: int| i <= j < n.tags.len() ==> #[trigger] n.tags[j] == m.tags[j + 1])
            &&& out == OutcomeView::Action(CHANGED_ACTION@, Some(join(n.tags, ","@)))
        }),
{
}

/// Typing a printable character inserts it at the caret and moves the caret
/// past it; the tags stay.
pub proof fn lemma_typing_inserts_char(m: TagModel, key: KeyInput)
    requires
        m.valid(),
        !m.disabled,
        is_scalar(key.key),
        !is_control_code(key.key),
        !has_command(key.modifiers),
    ensures
        ({
            let n = m.on_key(key).0;
            &&& n.tags == m.tags
            &&& n.caret == m.caret + 1
            &&& n.buffer.len() == m.buffer.len() + 1
            &&& n.buffer[m.caret] == key.key as char
            &&& (forall|i: int| 0 <= i < m.caret ==> #[trigger] n.buffer[i] == m.buffer[i])
            &&& (forall|i: int| m.caret < i < n.buffer.len() ==> #[trigger] n.buffer[i] == m.buffer[i - 1])
        }),
{
    assert(key.key != keys::ENTER && key.key != keys::BACKSPACE && key.key != keys::DELETE);
    assert(key.key < keys::ARROW_LEFT);
}

} // verus!
