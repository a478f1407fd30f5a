//! `<lq-textarea>` — a multi-line editable text body with an optional
//! line-number gutter.
//!
//! The buffer is a list of lines (never empty) with a caret at a line and a
//! character column. Typing inserts at the caret; Enter splits the line;
//! Backspace/Delete remove a character or join lines at the edges; the
//! arrows, Home/End and PageUp/PageDown move the caret (vertical moves keep
//! the byte column, clamped back to a character boundary). Every edit emits
//! `changed` with the full text. The vertical scroll offset and the
//! click-to-caret geometry come from layout and are supplied by the host.

use vstd::prelude::*;
use vstd::utf8::encode_utf8;

use crate::behavior::{KeyInput, OutcomeView, WidgetKind, WidgetOutcome};
use crate::keys;
use crate::keys::modifiers::has_command;
use crate::keys::{is_control_code, is_scalar, printable_char};
use crate::node::{bool_str, bool_text, Node, Pseudo, PseudoFlag, FOCUSABLE_ATTR};
use crate::text::{dec, decimal, join, join_strings, prefixed, push_char, splice};

verus! {

/// The action emitted when the text changes (payload: the full text).
pub const CHANGED_ACTION: &'static str = "changed";

/// The lines of `s`, split at each `'\n'` (at least one, possibly empty).
pub open spec fn split_lines(s: Seq<char>) -> Seq<Seq<char>>
    decreases s.len(),
{
    if s.len() == 0 {
        seq![Seq::empty()]
    } else {
        let rest = split_lines(s.drop_last());
        if s.last() == '\n' {
            rest.push(Seq::empty())
        } else {
            rest.update(rest.len() - 1, rest.last().push(s.last()))
        }
    }
}

/// The UTF-8 byte length of the first `k` characters of `line`.
pub open spec fn byte_col(line: Seq<char>, k: int) -> usize {
    encode_utf8(line.subrange(0, k)).len() as usize
}

/// The largest column at or below `k` whose byte offset is at most `b`.
pub open spec fn fit_col(line: Seq<char>, b: usize, k: int) -> int
    decreases k,
{
    if k <= 0 {
        0
    } else if byte_col(line, k) <= b {
        k
    } else {
        fit_col(line, b, k - 1)
    }
}

/// The column of `line` nearest at or before the byte offset `b`.
pub open spec fn col_for_bytes(line: Seq<char>, b: usize) -> int {
    fit_col(line, b, line.len() as int)
}

/// Splitting always yields at least one line.
pub proof fn lemma_split_nonempty(s: Seq<char>)
    ensures
        split_lines(s).len() >= 1,
    decreases s.len(),
{
    if s.len() > 0 {
        lemma_split_nonempty(s.drop_last());
    }
}

/// Joining the lines of `s` with `'\n'` gives back `s`.
pub proof fn lemma_join_split(s: Seq<char>)
    ensures
        join(split_lines(s), seq!['\n']) == s,
    decreases s.len(),
{
    if s.len() > 0 {
        let t = s.drop_last();
        lemma_join_split(t);
        lemma_split_nonempty(t);
        let rest = split_lines(t);
        if s.last() == '\n' {
            let p = rest.push(Seq::<char>::empty());
            assert(p.drop_last() =~= rest);
            assert(join(p, seq!['\n']) =~= join(rest, seq!['\n']) + seq!['\n'] + Seq::<char>::empty());
            assert(t.push('\n') =~= s);
        } else {
            let p = rest.update(rest.len() - 1, rest.last().push(s.last()));
            if rest.len() == 1 {
                assert(p.len() == 1);
                assert(rest.last() =~= t);
                assert(t.push(s.last()) =~= s);
            } else {
                assert(p.drop_last() =~= rest.drop_last());
                assert(join(rest, seq!['\n']) == join(rest.drop_last(), seq!['\n']) + seq!['\n'] + rest.last());
                assert(join(p, seq!['\n']) =~= join(rest, seq!['\n']).push(s.last()));
                assert(t.push(s.last()) =~= s);
            }
        }
    }
}

/// A multi-line editable text area.
pub struct TextArea {
    lines: Vec<String>,
    caret_line: usize,
    caret_col: usize,
    placeholder: String,
    show_gutter: bool,
    disabled: bool,
    focused: bool,
}

/// The abstract state of a [`TextArea`]: the caret column counts characters.
pub struct TextAreaModel {
    pub lines: Seq<Seq<char>>,
    pub line: int,
    pub col: int,
    pub placeholder: Seq<char>,
    pub show_gutter: bool,
    pub disabled: bool,
    pub focused: bool,
}

impl TextAreaModel {
    /// There is a line; the caret sits on one, within it.
    pub open spec fn valid(self) -> bool {
        &&& self.lines.len() >= 1
        &&& 0 <= self.line < self.lines.len()
        &&& 0 <= self.col <= self.lines[self.line].len()
    }

    /// The caret line's text.
    pub open spec fn cur(self) -> Seq<char> {
        self.lines[self.line]
    }

    /// The full text: the lines joined with `'\n'`.
    pub open spec fn text(self) -> Seq<char> {
        join(self.lines, seq!['\n'])
    }

    /// Whether the whole buffer is empty (a single empty line).
    pub open spec fn is_empty(self) -> bool {
        self.lines.len() == 1 && self.lines[0].len() == 0
    }

    /// The `changed` outcome for this state.
    pub open spec fn changed(self) -> OutcomeView {
        OutcomeView::Action(CHANGED_ACTION@, Some(self.text()))
    }

    /// A state with line `i` replaced by `t`.
    pub open spec fn with_line(self, i: int, t: Seq<char>) -> TextAreaModel {
        TextAreaModel { lines: self.lines.update(i, t), ..self }
    }

    /// Typing `c` at the caret.
    pub open spec fn insert(self, c: char) -> (TextAreaModel, OutcomeView) {
        let l = self.cur();
        let m = TextAreaModel {
            col: self.col + 1,
            ..self.with_line(self.line, l.subrange(0, self.col) + seq![c] + l.subrange(self.col, l.len() as int))
        };
        (m, m.changed())
    }

    /// Enter: the caret line splits at the caret; the caret starts the new
    /// line.
    pub open spec fn newline(self) -> (TextAreaModel, OutcomeView) {
        let l = self.cur();
        let m = TextAreaModel {
            lines: self.lines.update(self.line, l.subrange(0, self.col)).insert(
                self.line + 1,
                l.subrange(self.col, l.len() as int),
            ),
            line: self.line + 1,
            col: 0,
            ..self
        };
        (m, m.changed())
    }

    /// Backspace: the character before the caret goes; at a line start the
    /// line joins the previous one (the caret lands on the seam).
    pub open spec fn backspace(self) -> (TextAreaModel, OutcomeView) {
        let l = self.cur();
        if self.col > 0 {
            let m = TextAreaModel {
                col: self.col - 1,
                ..self.with_line(self.line, l.subrange(0, self.col - 1) + l.subrange(self.col, l.len() as int))
            };
            (m, m.changed())
        } else if self.line == 0 {
            (self, OutcomeView::Ignored)
        } else {
            let prev = self.lines[self.line - 1];
            let m = TextAreaModel {
                lines: self.lines.remove(self.line).update(self.line - 1, prev + l),
                line: self.line - 1,
                col: prev.len() as int,
                ..self
            };
            (m, m.changed())
        }
    }

    /// Delete: the character after the caret goes; at a line end the next
    /// line joins this one.
    pub open spec fn delete_forward(self) -> (TextAreaModel, OutcomeView) {
        let l = self.cur();
        if self.col < l.len() {
            let m = self.with_line(self.line, l.subrange(0, self.col) + l.subrange(self.col + 1, l.len() as int));
            (m, m.changed())
        } else if self.line + 1 >= self.lines.len() {
            (self, OutcomeView::Ignored)
        } else {
            let m = TextAreaModel {
                lines: self.lines.remove(self.line + 1).update(self.line, l + self.lines[self.line + 1]),
                ..self
            };
            (m, m.changed())
        }
    }

    /// Left: one character back, wrapping to the end of the previous line.
    pub open spec fn move_left(self) -> (TextAreaModel, OutcomeView) {
        if self.col > 0 {
            (TextAreaModel { col: self.col - 1, ..self }, OutcomeView::Changed)
        } else if self.line == 0 {
            (self, OutcomeView::Ignored)
        } else {
            (TextAreaModel { line: self.line - 1, col: self.lines[self.line - 1].len() as int, ..self }, OutcomeView::Changed)
        }
    }

    /// Right: one character on, wrapping to the start of the next line.
    pub open spec fn move_right(self) -> (TextAreaModel, OutcomeView) {
        if self.col < self.cur().len() {
            (TextAreaModel { col: self.col + 1, ..self }, OutcomeView::Changed)
        } else if self.line + 1 >= self.lines.len() {
            (self, OutcomeView::Ignored)
        } else {
            (TextAreaModel { line: self.line + 1, col: 0, ..self }, OutcomeView::Changed)
        }
    }

    /// The caret on line `t`, keeping the current byte column (clamped).
    pub open spec fn to_line(self, t: int) -> TextAreaModel {
        TextAreaModel { line: t, col: col_for_bytes(self.lines[t], byte_col(self.cur(), self.col)), ..self }
    }

    /// Up: the previous line (top line: its start).
    pub open spec fn move_up(self) -> (TextAreaModel, OutcomeView) {
        if self.line == 0 {
            if self.col == 0 { (self, OutcomeView::Ignored) } else { (TextAreaModel { col: 0, ..self }, OutcomeView::Changed) }
        } else {
            (self.to_line(self.line - 1), OutcomeView::Changed)
        }
    }

    /// Down: the next line (bottom line: its end).
    pub open spec fn move_down(self) -> (TextAreaModel, OutcomeView) {
        let len = self.cur().len() as int;
        if self.line + 1 >= self.lines.len() {
            if self.col == len { (self, OutcomeView::Ignored) } else { (TextAreaModel { col: len, ..self }, OutcomeView::Changed) }
        } else {
            (self.to_line(self.line + 1), OutcomeView::Changed)
        }
    }

    /// Home: the line start.
    pub open spec fn home(self) -> (TextAreaModel, OutcomeView) {
        if self.col == 0 { (self, OutcomeView::Ignored) } else { (TextAreaModel { col: 0, ..self }, OutcomeView::Changed) }
    }

    /// End: the line end.
    pub open spec fn end(self) -> (TextAreaModel, OutcomeView) {
        let len = self.cur().len() as int;
        if self.col == len { (self, OutcomeView::Ignored) } else { (TextAreaModel { col: len, ..self }, OutcomeView::Changed) }
    }

    /// PageUp/PageDown: `page` lines up or down, clamped to the buffer; at
    /// the edge, the line start or end.
    pub open spec fn move_page(self, down: bool, page: int) -> (TextAreaModel, OutcomeView) {
        let last = self.lines.len() - 1;
        let t = if down {
            if self.line + page > last { last } else { self.line + page }
        } else {
            if self.line - page < 0 { 0 } else { self.line - page }
        };
        if t == self.line {
            if down { self.end() } else { self.home() }
        } else {
            (self.to_line(t), OutcomeView::Changed)
        }
    }

    /// The keyboard transition; `page` is the number of lines one viewport
    /// holds.
    pub open spec fn on_key(self, key: KeyInput, page: int) -> (TextAreaModel, OutcomeView) {
        let k = key.key;
        if self.disabled {
            (self, OutcomeView::Ignored)
        } else if k == keys::ENTER {
            self.newline()
        } else if k == keys::BACKSPACE {
            self.backspace()
        } else if k == keys::DELETE {
            self.delete_forward()
        } else if k == keys::ARROW_LEFT {
            self.move_left()
        } else if k == keys::ARROW_RIGHT {
            self.move_right()
        } else if k == keys::ARROW_UP {
            self.move_up()
        } else if k == keys::ARROW_DOWN {
            self.move_down()
        } else if k == keys::HOME {
            self.home()
        } else if k == keys::END {
            self.end()
        } else if k == keys::PAGE_UP {
            self.move_page(false, page)
        } else if k == keys::PAGE_DOWN {
            self.move_page(true, page)
        } else if has_command(key.modifiers) || !is_scalar(k) || is_control_code(k) {
            (self, OutcomeView::Ignored)
        } else {
            self.insert(k as char)
        }
    }

    /// A left click, `inside` the widget's box or not, with the caret
    /// position (line, character column) the host resolved from layout.
    pub open spec fn on_click(self, inside: bool, target: Option<(int, int)>) -> (TextAreaModel, OutcomeView) {
        if self.disabled || !inside {
            (self, OutcomeView::Ignored)
        } else {
            match target {
                Some((l, c)) => (TextAreaModel { focused: true, line: l, col: c, ..self }, OutcomeView::Changed),
                None => (
                    TextAreaModel { focused: true, ..self },
                    if self.focused { OutcomeView::Ignored } else { OutcomeView::Changed },
                ),
            }
        }
    }

    /// Whether the caret row is line `i` (only while focused).
    pub open spec fn is_caret_row(self, i: int) -> bool {
        i == self.line && self.focused
    }

    /// Whether `c` renders line `i`.
    pub open spec fn row_rendered(self, i: int, c: Node) -> bool {
        let l = self.lines[i];
        let ph = self.is_empty() && i == 0 && self.placeholder.len() > 0;
        &&& c.tag@ == "lq-textarea-row"@
        &&& c.class_views() == (if self.is_caret_row(i) { seq!["caret-row"@] } else { Seq::empty() })
        &&& if self.is_caret_row(i) {
            &&& c.attr_views() == seq![("data-part"@, "row-"@ + dec(i as nat)), ("data-caret-row"@, "true"@)]
            &&& c.children@.len() == 3
            &&& c.children@[0].tag@ == "lq-textarea-text"@
            &&& c.children@[0].attr_views() == seq![("data-part"@, "text-"@ + dec(i as nat)), ("data-sub"@, "before"@)]
            &&& c.children@[0].first_text() == l.subrange(0, self.col)
            &&& c.children@[1].tag@ == "lq-caret"@
            &&& c.children@[1].attr_views() == seq![("data-part"@, "caret"@)]
            &&& c.children@[1].pseudo.focus == self.focused
            &&& c.children@[2].tag@ == "lq-textarea-text"@
            &&& c.children@[2].attr_views() == seq![("data-sub"@, "after"@)]
            &&& c.children@[2].first_text() == l.subrange(self.col, l.len() as int)
        } else {
            &&& c.attr_views() == seq![("data-part"@, "row-"@ + dec(i as nat))]
            &&& c.children@.len() == 1
            &&& c.children@[0].tag@ == "lq-textarea-text"@
            &&& c.children@[0].attr_views() == seq![("data-part"@, "text-"@ + dec(i as nat))]
            &&& c.children@[0].class_views() == (if ph { seq!["placeholder"@] } else { Seq::empty() })
            &&& c.children@[0].first_text() == (if ph { self.placeholder } else { l })
        }
    }

    /// Whether `c` renders the gutter number of line `i`.
    pub open spec fn lineno_rendered(self, i: int, c: Node) -> bool {
        &&& c.tag@ == "lq-textarea-lineno"@
        &&& c.attr_views() == seq![("data-part"@, "lineno-"@ + dec(i as nat))]
        &&& c.class_views() == (if self.is_caret_row(i) { seq!["current"@] } else { Seq::empty() })
        &&& c.children@.len() == 1
        &&& c.first_text() == dec((i + 1) as nat)
    }
}

/// Every transition keeps the text area valid.
pub proof fn lemma_transitions_keep_valid(m: TextAreaModel, key: KeyInput, page: int, inside: bool, target: Option<(int, int)>)
    requires
        m.valid(),
        page >= 1,
        target matches Some((l, c)) ==> 0 <= l < m.lines.len() && 0 <= c <= m.lines[l].len(),
    ensures
        m.on_key(key, page).0.valid(),
        m.on_click(inside, target).0.valid(),
{
    let l = m.cur();
    if m.line > 0 {
        lemma_fit_col_bounds(m.lines[m.line - 1], byte_col(l, m.col), m.lines[m.line - 1].len() as int);
    }
    if m.line + 1 < m.lines.len() {
        lemma_fit_col_bounds(m.lines[m.line + 1], byte_col(l, m.col), m.lines[m.line + 1].len() as int);
    }
    let last = m.lines.len() - 1;
    let td = if m.line + page > last { last } else { m.line + page };
    let tu = if m.line - page < 0 { 0 } else { m.line - page };
    lemma_fit_col_bounds(m.lines[td], byte_col(l, m.col), m.lines[td].len() as int);
    lemma_fit_col_bounds(m.lines[tu], byte_col(l, m.col), m.lines[tu].len() as int);
}

/// The fitted column lies within the line.
pub proof fn lemma_fit_col_bounds(line: Seq<char>, b: usize, k: int)
    requires
        k <= line.len(),
    ensures
        0 <= fit_col(line, b, k) <= line.len(),
        k >= 0 ==> fit_col(line, b, k) <= k,
    decreases k,
{
    if k > 0 {
        lemma_fit_col_bounds(line, b, k - 1);
    }
}

/// Backspace right after Enter joins the split line back: buffer and caret
/// are as before.
pub proof fn lemma_backspace_undoes_newline(m: TextAreaModel)
    requires
        m.valid(),
    ensures
        m.newline().0.backspace().0 == m,
{
    let l = m.cur();
    let n = m.newline().0;
    let b = n.backspace().0;
    assert(n.col == 0 && n.line == m.line + 1 && n.line > 0);
    assert(n.lines[m.line] =~= l.subrange(0, m.col));
    assert(n.lines[m.line + 1] =~= l.subrange(m.col, l.len() as int));
    assert(l.subrange(0, m.col) + l.subrange(m.col, l.len() as int) =~= l);
    assert(b.lines =~= m.lines);
}

/// Backspace right after typing a character removes it again.
pub proof fn lemma_backspace_undoes_insert(m: TextAreaModel, c: char)
    requires
        m.valid(),
    ensures
        m.insert(c).0.backspace().0 == m,
{
    let l = m.cur();
    let n = m.insert(c).0;
    let nl = l.subrange(0, m.col) + seq![c] + l.subrange(m.col, l.len() as int);
    assert(n.lines[m.line] == nl);
    assert(nl.subrange(0, m.col) + nl.subrange(m.col + 1, nl.len() as int) =~= l);
    assert(n.backspace().0.lines =~= m.lines);
}

/// Delete removes exactly the one character after the caret: the caret line
/// loses that character and nothing else, every other line stays, the caret
/// stays, and the new text is reported. At the end of a line that has a
/// successor, the successor is joined onto it instead.
pub proof fn lemma_delete_removes_one_char(m: TextAreaModel, mods: u32, page: int)
    requires
        m.valid(),
        !m.disabled,
    ensures
        ({
            let (n, out) = m.on_key(KeyInput { key: keys::DELETE, modifiers: mods }, page);
            let l = m.lines[m.line];
            &&& n.line == m.line && n.col == m.col
            &&& out == OutcomeView::Ignored || out == OutcomeView::Action(CHANGED_ACTION@, Some(n.text()))
            &&& m.col < l.len() ==> {
                &&& n.lines.len() == m.lines.len()
                &&& n.lines[m.line].len() == l.len() - 1
                &&& (forall|i: int| 0 <= i < m.col ==> #[trigger] n.lines[m.line][i] == l[i])
                &&& (forall|i: int| m.col <= i < l.len() - 1 ==> #[trigger] n.lines[m.line][i] == l[i + 1])
                &&& (forall|j: int| 0 <= j < m.lines.len() && j != m.line ==> #[trigger] n.lines[j] == m.lines[j])
                &&& out == OutcomeView::Action(CHANGED_ACTION@, Some(n.text()))
            }
            &&& m.col == l.len() && m.line + 1 < m.lines.len() ==> {
                &&& n.lines.len() == m.lines.len() - 1
                &&& n.lines[m.line] == l + m.lines[m.line + 1]
                &&& (forall|j: int| 0 <= j < m.line ==> #[trigger] n.lines[j] == m.lines[j])
                &&& (forall|j: int| m.line < j < n.lines.len() ==> #[trigger] n.lines[j] == m.lines[j + 1])
            }
            &&& m.col == l.len() && m.line + 1 == m.lines.len() ==> n == m && out == OutcomeView::Ignored
        }),
{
}

/// Backspace removes exactly the one character before the caret and moves
/// the caret back over it; at a line start the line is joined onto the
/// previous one, the caret landing on the seam.
pub proof fn lemma_backspace_removes_one_char(m: TextAreaModel, mods: u32, page: int)
    requires
        m.valid(),
        !m.disabled,
    ensures
        ({
            let (n, out) = m.on_key(KeyInput { key: keys::BACKSPACE, modifiers: mods }, page);
            let l = m.lines[m.line];
            &&& m.col > 0 ==> {
                &&& n.line == m.line && n.col == m.col - 1
                &&& n.lines.len() == m.lines.len()
                &&& n.lines[m.line].len() == l.len() - 1
                &&& (forall|i: int| 0 <= i < m.col - 1 ==> #[trigger] n.lines[m.line][i] == l[i])
                &&& (forall|i: int| m.col - 1 <= i < l.len() - 1 ==> #[trigger] n.lines[m.line][i] == l[i + 1])
                &&& (forall|j: int| 0 <= j < m.lines.len() && j != m.line ==> #[trigger] n.lines[j] == m.lines[j])
                &&& out == OutcomeView::Action(CHANGED_ACTION@, Some(n.text()))
            }
            &&& m.col == 0 && m.line > 0 ==> {
                &&& n.line == m.line - 1 && n.col == m.lines[m.line - 1].len()
                &&& n.lines.len() == m.lines.len() - 1
                &&& n.lines[m.line - 1] == m.lines[m.line - 1] + l
                &&& (forall|j: int| 0 <= j < m.line - 1 ==> #[trigger] n.lines[j] == m.lines[j])
                &&& (forall|j: int| m.line <= j < n.lines.len() ==> #[trigger] n.lines[j] == m.lines[j + 1])
            }
            &&& m.col == 0 && m.line == 0 ==> n == m && out == OutcomeView::Ignored
        }),
{
}

/// Typing a printable character inserts exactly that character at the caret
/// and moves the caret past it.
pub proof fn lemma_typing_inserts_one_char(m: TextAreaModel, key: KeyInput, page: int)
    requires
        m.valid(),
        !m.disabled,
        is_scalar(key.key),
        !is_control_code(key.key),
        !has_command(key.modifiers),
    ensures
        ({
            let (n, out) = m.on_key(key, page);
            let l = m.lines[m.line];
            &&& n.line == m.line && n.col == m.col + 1
            &&& n.lines.len() == m.lines.len()
            &&& n.lines[m.line].len() == l.len() + 1
            &&& n.lines[m.line][m.col] == key.key as char
            &&& (forall|i: int| 0 <= i < m.col ==> #[trigger] n.lines[m.line][i] == l[i])
            &&& (forall|i: int| m.col < i < l.len() + 1 ==> #[trigger] n.lines[m.line][i] == l[i - 1])
            &&& (forall|j: int| 0 <= j < m.lines.len() && j != m.line ==> #[trigger] n.lines[j] == m.lines[j])
            &&& out == OutcomeView::Action(CHANGED_ACTION@, Some(n.text()))
        }),
{
    assert(key.key != keys::ENTER && key.key != keys::BACKSPACE && key.key != keys::DELETE);
    assert(key.key < keys::ARROW_LEFT);
}

/// Enter splits the caret line at the caret: the text before it stays, the
/// text after it becomes a new line right below, and the caret starts that
/// line.
pub proof fn lemma_enter_splits_line(m: TextAreaModel, mods: u32, page: int)
    requires
        m.valid(),
        !m.disabled,
    ensures
        ({
            let (n, out) = m.on_key(KeyInput { key: keys::ENTER, modifiers: mods }, page);
            let l = m.lines[m.line];
            &&& n.line == m.line + 1 && n.col == 0
            &&& n.lines.len() == m.lines.len() + 1
            &&& n.lines[m.line] == l.subrange(0, m.col)
            &&& n.lines[m.line + 1] == l.subrange(m.col, l.len() as int)
            &&& n.lines[m.line] + n.lines[m.line + 1] == l
            &&& (forall|j: int| 0 <= j < m.line ==> #[trigger] n.lines[j] == m.lines[j])
            &&& (forall|j: int| m.line + 1 < j < n.lines.len() ==> #[trigger] n.lines[j] == m.lines[j - 1])
            &&& out == OutcomeView::Action(CHANGED_ACTION@, Some(n.text()))
        }),
{
    let l = m.lines[m.line];
    assert(l.subrange(0, m.col) + l.subrange(m.col, l.len() as int) =~= l);
}

/// The caret keys leave the text alone: Left and Right step one character
/// (within the line), Home goes to the line start and End to the line end.
pub proof fn lemma_caret_keys_move_caret(m: TextAreaModel, mods: u32, page: int)
    requires
        m.valid(),
        !m.disabled,
    ensures
        ({
            let (n, _) = m.on_key(KeyInput { key: keys::ARROW_LEFT, modifiers: mods }, page);
            &&& n.lines == m.lines
            &&& m.col > 0 ==> n.line == m.line && n.col == m.col - 1
            &&& m.col == 0 && m.line > 0 ==> n.line == m.line - 1 && n.col == m.lines[m.line - 1].len()
        }),
        ({
            let (n, _) = m.on_key(KeyInput { key: keys::ARROW_RIGHT, modifiers: mods }, page);
            &&& n.lines == m.lines
            &&& m.col < m.lines[m.line].len() ==> n.line == m.line && n.col == m.col + 1
            &&& m.col == m.lines[m.line].len() && m.line + 1 < m.lines.len() ==> n.line == m.line + 1 && n.col == 0
        }),
        ({
            let (n, _) = m.on_key(KeyInput { key: keys::HOME, modifiers: mods }, page);
            n.lines == m.lines && n.line == m.line && n.col == 0
        }),
        ({
            let (n, _) = m.on_key(KeyInput { key: keys::END, modifiers: mods }, page);
            n.lines == m.lines && n.line == m.line && n.col == m.lines[m.line].len()
        }),
{
}

/// Up and Down move the caret to the line above or below, keeping the text
/// and keeping the caret within that line; on the first line Up goes to its
/// start and on the last line Down to its end. PageUp and PageDown move
/// `page` lines (at least one), stopping at the first and last line.
pub proof fn lemma_vertical_keys_change_line(m: TextAreaModel, mods: u32, page: int)
    requires
        m.valid(),
        !m.disabled,
        page >= 1,
    ensures
        ({
            let (n, _) = m.on_key(KeyInput { key: keys::ARROW_UP, modifiers: mods }, page);
            &&& n.lines == m.lines
            &&& n.line == (if m.line == 0 { 0 } else { m.line - 1 })
            &&& 0 <= n.col <= n.lines[n.line].len()
            &&& m.line == 0 ==> n.col == 0
        }),
        ({
            let (n, _) = m.on_key(KeyInput { key: keys::ARROW_DOWN, modifiers: mods }, page);
            &&& n.lines == m.lines
            &&& n.line == (if m.line == m.lines.len() - 1 { m.line } else { m.line + 1 })
            &&& 0 <= n.col <= n.lines[n.line].len()
            &&& m.line == m.lines.len() - 1 ==> n.col == m.lines[m.line].len()
        }),
        ({
            let (n, _) = m.on_key(KeyInput { key: keys::PAGE_UP, modifiers: mods }, page);
            &&& n.lines == m.lines
            &&& n.line == (if m.line >= page { m.line - page } else { 0 })
            &&& 0 <= n.col <= n.lines[n.line].len()
        }),
        ({
            let (n, _) = m.on_key(KeyInput { key: keys::PAGE_DOWN, modifiers: mods }, page);
            &&& n.lines == m.lines
            &&& n.line == (if m.line + page <= m.lines.len() - 1 { m.line + page } else { m.lines.len() - 1 })
            &&& 0 <= n.col <= n.lines[n.line].len()
        }),
{
    lemma_transitions_keep_valid(m, KeyInput { key: keys::ARROW_UP, modifiers: mods }, page, false, None);
    lemma_transitions_keep_valid(m, KeyInput { key: keys::ARROW_DOWN, modifiers: mods }, page, false, None);
    lemma_transitions_keep_valid(m, KeyInput { key: keys::PAGE_UP, modifiers: mods }, page, false, None);
    lemma_transitions_keep_valid(m, KeyInput { key: keys::PAGE_DOWN, modifiers: mods }, page, false, None);
}

impl View for TextArea {
    type V = TextAreaModel;

    closed spec fn view(&self) -> TextAreaModel {
        TextAreaModel {
            lines: self.lines@.map_values(|s: String| s@),
            line: self.caret_line as int,
            col: self.caret_col as int,
            placeholder: self.placeholder@,
            show_gutter: self.show_gutter,
            disabled: self.disabled,
            focused: self.focused,
        }
    }
}

/// The largest column of `line` whose byte offset is at most `b`.
fn fit_column(line: &str, b: usize) -> (r: usize)
    ensures
        r == col_for_bytes(line@, b),
        r <= line@.len(),
{
    let n = line.unicode_len();
    let mut k = n;
    while k > 0
        invariant
            k <= n,
            n == line@.len(),
            fit_col(line@, b, n as int) == fit_col(line@, b, k as int),
        decreases k,
    {
        let prefix = line.substring_char(0, k);
        if prefix.len() <= b {
            return k;
        }
        k = k - 1;
    }
    0
}

impl TextArea {
    /// The representation invariant.
    pub open spec fn wf(&self) -> bool {
        self@.valid()
    }

    /// An empty text area (one empty line) with the given placeholder.
    pub fn new(placeholder: &str) -> (r: TextArea)
        ensures
            r.wf(),
            r@ == (TextAreaModel {
                lines: seq![Seq::empty()],
                line: 0,
                col: 0,
                placeholder: placeholder@,
                show_gutter: false,
                disabled: false,
                focused: false,
            }),
    {
        let mut lines: Vec<String> = Vec::new();
        lines.push(String::new());
        let r = TextArea {
            lines,
            caret_line: 0,
            caret_col: 0,
            placeholder: placeholder.to_string(),
            show_gutter: false,
            disabled: false,
            focused: false,
        };
        assert(r@.lines =~= seq![Seq::<char>::empty()]);
        r
    }

    /// Replaces the buffer with `text` split into lines at `'\n'`, the caret
    /// at the very end.
    pub fn with_text(self, text: &str) -> (r: TextArea)
        requires
            self.wf(),
        ensures
            r.wf(),
            r@ == (TextAreaModel {
                lines: split_lines(text@),
                line: split_lines(text@).len() - 1,
                col: split_lines(text@).last().len() as int,
                ..self@
            }),
    {
        let n = text.unicode_len();
        let mut done: Vec<String> = Vec::new();
        let mut cur = String::new();
        let mut i: usize = 0;
        while i < n
            invariant
                n == text@.len(),
                i <= n,
                done@.map_values(|s: String| s@).push(cur@) == split_lines(text@.take(i as int)),
            decreases n - i,
        {
            let c = text.get_char(i);
            let ghost before = done@.map_values(|s: String| s@).push(cur@);
            assert(text@.take(i + 1).drop_last() =~= text@.take(i as int));
            if c == '\n' {
                let line = cur;
                done.push(line);
                cur = String::new();
                assert(done@.map_values(|s: String| s@).push(cur@) =~= before.push(Seq::empty()));
            } else {
                push_char(&mut cur, c);
                assert(done@.map_values(|s: String| s@).push(cur@) =~= before.update(
                    before.len() - 1,
                    before.last().push(c),
                ));
            }
            i = i + 1;
        }
        assert(text@.take(n as int) =~= text@);
        let ghost all = split_lines(text@);
        let col = cur.as_str().unicode_len();
        done.push(cur);
        let last = done.len() - 1;
        let mut t = self;
        t.lines = done;
        t.caret_line = last;
        t.caret_col = col;
        assert(t@.lines =~= all);
        t
    }

    /// Shows (or hides) the line-number gutter.
    pub fn with_gutter(self, show: bool) -> (r: TextArea)
        requires
            self.wf(),
        ensures
            r.wf(),
            r@ == (TextAreaModel { show_gutter: show, ..self@ }),
    {
        TextArea { show_gutter: show, ..self }
    }

    /// Marks disabled (or enabled).
    pub fn disabled(self, d: bool) -> (r: TextArea)
        requires
            self.wf(),
        ensures
            r.wf(),
            r@ == (TextAreaModel { disabled: d, ..self@ }),
    {
        TextArea { disabled: d, ..self }
    }

    /// Whether the gutter is shown.
    pub fn gutter_visible(&self) -> (r: bool)
        ensures
            r == self@.show_gutter,
    {
        self.show_gutter
    }

    /// Shows or hides the gutter at run time.
    pub fn set_gutter(&mut self, show: bool)
        requires
            old(self).wf(),
        ensures
            final(self).wf(),
            final(self)@ == (TextAreaModel { show_gutter: show, ..old(self)@ }),
    {
        self.show_gutter = show;
    }

    /// The full text (lines joined with `'\n'`).
    pub fn text(&self) -> (r: String)
        ensures
            r@ == self@.text(),
    {
        let r = join_strings(&self.lines, "\n");
        proof {
            reveal_strlit("\n");
        }
        assert("\n"@ =~= seq!['\n']);
        r
    }

    /// The number of lines.
    pub fn line_count(&self) -> (r: usize)
        ensures
            r == self@.lines.len(),
    {
        self.lines.len()
    }

    /// The caret position as (line, byte column).
    pub fn caret(&self) -> (r: (usize, usize))
        requires
            self.wf(),
        ensures
            r.0 == self@.line,
            r.1 == byte_col(self@.cur(), self@.col),
    {
        let line = self.lines[self.caret_line].as_str();
        let prefix = line.substring_char(0, self.caret_col);
        (self.caret_line, prefix.len())
    }

    /// The caret position as (line, character column).
    pub fn caret_chars(&self) -> (r: (usize, usize))
        ensures
            r.0 == self@.line,
            r.1 == self@.col,
    {
        (self.caret_line, self.caret_col)
    }

    /// Whether focused.
    pub fn is_focused(&self) -> (r: bool)
        ensures
            r == self@.focused,
    {
        self.focused
    }

    /// Sets focus (host plumbing).
    pub fn set_focused(&mut self, f: bool)
        requires
            old(self).wf(),
        ensures
            final(self).wf(),
            final(self)@ == (TextAreaModel { focused: f, ..old(self)@ }),
    {
        self.focused = f;
    }

    /// The number of characters of line `i` (0 past the end).
    pub fn line_len(&self, i: usize) -> (r: usize)
        ensures
            r == (if i < self@.lines.len() { self@.lines[i as int].len() as int } else { 0 }),
    {
        if i < self.lines.len() {
            self.lines[i].as_str().unicode_len()
        } else {
            0
        }
    }

    /// The widget family.
    pub fn kind(&self) -> (r: WidgetKind)
        ensures
            r == WidgetKind::Input,
    {
        WidgetKind::Input
    }

    /// Whether the area takes focus (unless disabled).
    pub fn focusable(&self) -> (r: bool)
        ensures
            r == !self@.disabled,
    {
        !self.disabled
    }

    fn changed(&self) -> (out: WidgetOutcome)
        ensures
            out@ == self@.changed(),
    {
        WidgetOutcome::action_with(CHANGED_ACTION, self.text())
    }

    fn cur_len(&self) -> (r: usize)
        requires
            self.wf(),
        ensures
            r == self@.cur().len(),
    {
        self.lines[self.caret_line].as_str().unicode_len()
    }

    fn set_line(&mut self, i: usize, t: String)
        requires
            i < old(self)@.lines.len(),
        ensures
            final(self)@ == old(self)@.with_line(i as int, t@),
    {
        let ghost before = self@;
        self.lines.set(i, t);
        assert(self@.lines =~= before.lines.update(i as int, t@));
    }

    fn insert_char(&mut self, c: char) -> (out: WidgetOutcome)
        requires
            old(self).wf(),
            old(self)@.col < usize::MAX,
        ensures
            final(self).wf(),
            (final(self)@, out@) == old(self)@.insert(c),
    {
        let line = self.caret_line;
        let col = self.caret_col;
        let t = splice(self.lines[line].as_str(), col, col, Some(c));
        self.set_line(line, t);
        self.caret_col = col + 1;
        self.changed()
    }

    fn newline(&mut self) -> (out: WidgetOutcome)
        requires
            old(self).wf(),
            old(self)@.lines.len() < usize::MAX,
        ensures
            final(self).wf(),
            (final(self)@, out@) == old(self)@.newline(),
    {
        let line = self.caret_line;
        let col = self.caret_col;
        let n = self.cur_len();
        let head = self.lines[line].as_str().substring_char(0, col).to_string();
        let rest = self.lines[line].as_str().substring_char(col, n).to_string();
        self.set_line(line, head);
        let ghost before = self@.lines;
        assert(self.lines@.len() == self@.lines.len());
        self.lines.insert(line + 1, rest);
        assert(self@.lines =~= before.insert(line + 1, rest@));
        self.caret_line = line + 1;
        self.caret_col = 0;
        self.changed()
    }

    fn backspace(&mut self) -> (out: WidgetOutcome)
        requires
            old(self).wf(),
        ensures
            final(self).wf(),
            (final(self)@, out@) == old(self)@.backspace(),
    {
        let line = self.caret_line;
        let col = self.caret_col;
        if col > 0 {
            let t = splice(self.lines[line].as_str(), col - 1, col, None);
            self.set_line(line, t);
            self.caret_col = col - 1;
            return self.changed();
        }
        if line == 0 {
            return WidgetOutcome::Ignored;
        }
        let ghost before = self@;
        let cur = self.lines.remove(line);
        let seam = self.lines[line - 1].as_str().unicode_len();
        let mut joined = self.lines[line - 1].clone();
        joined.append(cur.as_str());
        let ghost mid = self@.lines;
        self.lines.set(line - 1, joined);
        assert(self@.lines =~= before.lines.remove(line as int).update(line - 1, before.lines[line - 1] + before.lines[line as int]));
        self.caret_line = line - 1;
        self.caret_col = seam;
        self.changed()
    }

    fn delete_forward(&mut self) -> (out: WidgetOutcome)
        requires
            old(self).wf(),
        ensures
            final(self).wf(),
            (final(self)@, out@) == old(self)@.delete_forward(),
    {
        let line = self.caret_line;
        let col = self.caret_col;
        let len = self.cur_len();
        if col < len {
            let t = splice(self.lines[line].as_str(), col, col + 1, None);
            self.set_line(line, t);
            return self.changed();
        }
        assert(self.lines@.len() == self@.lines.len());
        assert(line < self.lines.len());
        if line + 1 >= self.lines.len() {
            return WidgetOutcome::Ignored;
        }
        let ghost before = self@;
        let next = self.lines.remove(line + 1);
        let mut joined = self.lines[line].clone();
        joined.append(next.as_str());
        self.lines.set(line, joined);
        assert(self@.lines =~= before.lines.remove(line + 1).update(line as int, before.lines[line as int] + before.lines[line + 1]));
        self.changed()
    }

    fn move_left(&mut self) -> (out: WidgetOutcome)
        requires
            old(self).wf(),
        ensures
            final(self).wf(),
            (final(self)@, out@) == old(self)@.move_left(),
    {
        if self.caret_col > 0 {
            self.caret_col = self.caret_col - 1;
            return WidgetOutcome::Changed;
        }
        if self.caret_line == 0 {
            return WidgetOutcome::Ignored;
        }
        self.caret_line = self.caret_line - 1;
        self.caret_col = self.cur_len();
        WidgetOutcome::Changed
    }

    fn move_right(&mut self) -> (out: WidgetOutcome)
        requires
            old(self).wf(),
        ensures
            final(self).wf(),
            (final(self)@, out@) == old(self)@.move_right(),
    {
        if self.caret_col < self.cur_len() {
            self.caret_col = self.caret_col + 1;
            return WidgetOutcome::Changed;
        }
        assert(self.lines@.len() == self@.lines.len());
        assert(self.caret_line < self.lines.len());
        if self.caret_line + 1 >= self.lines.len() {
            return WidgetOutcome::Ignored;
        }
        self.caret_line = self.caret_line + 1;
        self.caret_col = 0;
        WidgetOutcome::Changed
    }

    fn to_line(&mut self, t: usize)
        requires
            old(self).wf(),
            t < old(self)@.lines.len(),
        ensures
            final(self).wf(),
            final(self)@ == old(self)@.to_line(t as int),
    {
        let b = self.lines[self.caret_line].as_str().substring_char(0, self.caret_col).len();
        let col = fit_column(self.lines[t].as_str(), b);
        self.caret_line = t;
        self.caret_col = col;
    }

    fn move_up(&mut self) -> (out: WidgetOutcome)
        requires
            old(self).wf(),
        ensures
            final(self).wf(),
            (final(self)@, out@) == old(self)@.move_up(),
    {
        if self.caret_line == 0 {
            if self.caret_col == 0 {
                return WidgetOutcome::Ignored;
            }
            self.caret_col = 0;
            return WidgetOutcome::Changed;
        }
        self.to_line(self.caret_line - 1);
        WidgetOutcome::Changed
    }

    fn move_down(&mut self) -> (out: WidgetOutcome)
        requires
            old(self).wf(),
        ensures
            final(self).wf(),
            (final(self)@, out@) == old(self)@.move_down(),
    {
        assert(self.lines@.len() == self@.lines.len());
        assert(self.caret_line < self.lines.len());
        if self.caret_line + 1 >= self.lines.len() {
            let len = self.cur_len();
            if self.caret_col == len {
                return WidgetOutcome::Ignored;
            }
            self.caret_col = len;
            return WidgetOutcome::Changed;
        }
        self.to_line(self.caret_line + 1);
        WidgetOutcome::Changed
    }

    fn home(&mut self) -> (out: WidgetOutcome)
        requires
            old(self).wf(),
        ensures
            final(self).wf(),
            (final(self)@, out@) == old(self)@.home(),
    {
        if self.caret_col == 0 {
            return WidgetOutcome::Ignored;
        }
        self.caret_col = 0;
        WidgetOutcome::Changed
    }

    fn end(&mut self) -> (out: WidgetOutcome)
        requires
            old(self).wf(),
        ensures
            final(self).wf(),
            (final(self)@, out@) == old(self)@.end(),
    {
        let len = self.cur_len();
        if self.caret_col == len {
            return WidgetOutcome::Ignored;
        }
        self.caret_col = len;
        WidgetOutcome::Changed
    }

    fn move_page(&mut self, down: bool, page: usize) -> (out: WidgetOutcome)
        requires
            old(self).wf(),
        ensures
            final(self).wf(),
            (final(self)@, out@) == old(self)@.move_page(down, page as int),
    {
        let last = self.lines.len() - 1;
        let line = self.caret_line;
        let t = if down {
            if page > last - line { last } else { line + page }
        } else {
            if page > line { 0 } else { line - page }
        };
        if t == line {
            return if down { self.end() } else { self.home() };
        }
        self.to_line(t);
        WidgetOutcome::Changed
    }

    /// Handles a key press; `page` is the number of lines one viewport
    /// holds (PageUp/PageDown move by it). The buffer must leave room for
    /// one more line and character.
    pub fn on_keyboard(&mut self, key: KeyInput, page: usize) -> (out: WidgetOutcome)
        requires
            old(self).wf(),
            old(self)@.lines.len() < usize::MAX,
            old(self)@.cur().len() < usize::MAX,
        ensures
            final(self).wf(),
            (final(self)@, out@) == old(self)@.on_key(key, page as int),
    {
        if self.disabled {
            return WidgetOutcome::Ignored;
        }
        let k = key.key;
        if k == keys::ENTER {
            self.newline()
        } else if k == keys::BACKSPACE {
            self.backspace()
        } else if k == keys::DELETE {
            self.delete_forward()
        } else if k == keys::ARROW_LEFT {
            self.move_left()
        } else if k == keys::ARROW_RIGHT {
            self.move_right()
        } else if k == keys::ARROW_UP {
            self.move_up()
        } else if k == keys::ARROW_DOWN {
            self.move_down()
        } else if k == keys::HOME {
            self.home()
        } else if k == keys::END {
            self.end()
        } else if k == keys::PAGE_UP {
            self.move_page(false, page)
        } else if k == keys::PAGE_DOWN {
            self.move_page(true, page)
        } else {
            if key.modifiers & (keys::modifiers::CTRL | keys::modifiers::ALT | keys::modifiers::SUPER) != 0 {
                return WidgetOutcome::Ignored;
            }
            match printable_char(k) {
                Some(c) => self.insert_char(c),
                None => WidgetOutcome::Ignored,
            }
        }
    }

    /// Handles a left click; `inside` says whether it landed in the widget's
    /// laid-out box, and `target` is the (line, character column) the host
    /// resolved from the laid-out rows, if any.
    pub fn on_click(&mut self, inside: bool, target: Option<(usize, usize)>) -> (out: WidgetOutcome)
        requires
            old(self).wf(),
            target matches Some((l, c)) ==> l < old(self)@.lines.len() && c <= old(self)@.lines[l as int].len(),
        ensures
            final(self).wf(),
            (final(self)@, out@) == old(self)@.on_click(inside, match target {
                Some((l, c)) => Some((l as int, c as int)),
                None => None,
            }),
    {
        if self.disabled || !inside {
            return WidgetOutcome::Ignored;
        }
        let was_focused = self.focused;
        self.focused = true;
        match target {
            Some((l, c)) => {
                self.caret_line = l;
                self.caret_col = c;
                WidgetOutcome::Changed
            },
            None => {
                if !was_focused {
                    WidgetOutcome::Changed
                } else {
                    WidgetOutcome::Ignored
                }
            },
        }
    }

    fn row(&self, i: usize) -> (r: Node)
        requires
            self.wf(),
            i < self@.lines.len(),
        ensures
            self@.row_rendered(i as int, r),
    {
        let part = prefixed("row-", i);
        let text_part = prefixed("text-", i);
        let line = self.lines[i].as_str();
        let caret_row = i == self.caret_line && self.focused;
        let row = Node::el("lq-textarea-row").attr("data-part", part.as_str()).class_if("caret-row", caret_row);
        assert(row.class_views() =~= (if caret_row { seq!["caret-row"@] } else { Seq::<Seq<char>>::empty() }));
        if caret_row {
            let n = line.unicode_len();
            let before = line.substring_char(0, self.caret_col);
            let after = line.substring_char(self.caret_col, n);
            let b = Node::el("lq-textarea-text")
                .attr("data-part", text_part.as_str())
                .attr("data-sub", "before")
                .child(Node::text(before));
            let c = Node::el("lq-caret").attr("data-part", "caret").pseudo_if(PseudoFlag::Focus, self.focused);
            let a = Node::el("lq-textarea-text").attr("data-sub", "after").child(Node::text(after));
            let r = row.attr("data-caret-row", "true").child(b).child(c).child(a);
            assert(r.attr_views() =~= seq![("data-part"@, "row-"@ + dec(i as nat)), ("data-caret-row"@, "true"@)]);
            assert(r.children@[0].attr_views() =~= seq![("data-part"@, "text-"@ + dec(i as nat)), ("data-sub"@, "before"@)]);
            assert(r.children@[1].attr_views() =~= seq![("data-part"@, "caret"@)]);
            assert(r.children@[2].attr_views() =~= seq![("data-sub"@, "after"@)]);
            r
        } else {
            let empty = self.lines.len() == 1 && self.lines[0].as_str().unicode_len() == 0;
            let ph = empty && i == 0 && self.placeholder.as_str().unicode_len() > 0;
            let shown = if ph { self.placeholder.as_str() } else { line };
            let t = Node::el("lq-textarea-text")
                .attr("data-part", text_part.as_str())
                .class_if("placeholder", ph)
                .child(Node::text(shown));
            let r = row.child(t);
            assert(r.attr_views() =~= seq![("data-part"@, "row-"@ + dec(i as nat))]);
            assert(r.children@[0].attr_views() =~= seq![("data-part"@, "text-"@ + dec(i as nat))]);
            assert(r.children@[0].class_views() =~= (if ph { seq!["placeholder"@] } else { Seq::<Seq<char>>::empty() }));
            r
        }
    }

    fn lineno(&self, i: usize) -> (r: Node)
        requires
            self.wf(),
            i < self@.lines.len(),
        ensures
            self@.lineno_rendered(i as int, r),
    {
        let part = prefixed("lineno-", i);
        assert(self.lines@.len() == self@.lines.len());
        assert(i < self.lines.len());
        let number = decimal(i + 1);
        let cur = i == self.caret_line && self.focused;
        let r = Node::el("lq-textarea-lineno").attr("data-part", part.as_str()).class_if("current", cur).child(
            Node::text(number.as_str()),
        );
        assert(r.attr_views() =~= seq![("data-part"@, "lineno-"@ + dec(i as nat))]);
        assert(r.class_views() =~= (if cur { seq!["current"@] } else { Seq::<Seq<char>>::empty() }));
        r
    }

    /// The render tree: an `lq-textarea` with its body (the optional gutter
    /// of line numbers and the viewport holding one row per line, the caret
    /// row split around the caret). `scroll_y` is the current scroll offset
    /// as text and `margin` the matching `margin-top` (the negated offset in
    /// px) that shifts the content and gutter up.
    pub fn render(&self, scroll_y: &str, margin: &str) -> (r: Node)
        requires
            self.wf(),
        ensures
            r.tag@ == "lq-textarea"@,
            r.attr_views() == seq![(FOCUSABLE_ATTR@, bool_str(!self@.disabled)), ("data-scroll-y"@, scroll_y@)]
                + (if self@.disabled { seq![("disabled"@, "true"@)] } else { Seq::empty() }),
            r.class_views() == (if self@.show_gutter { seq!["with-gutter"@] } else { Seq::empty() }),
            r.pseudo == (Pseudo {
                hover: false,
                active: false,
                focus: self@.focused && !self@.disabled,
                checked: false,
                disabled: self@.disabled,
            }),
            r.children@.len() == 1,
            ({
                let body = r.children@[0];
                let vp = body.children@[body.children@.len() - 1];
                let content = vp.children@[0];
                &&& body.tag@ == "lq-textarea-body"@
                &&& body.attr_views() == seq![("data-part"@, "body"@)]
                &&& body.children@.len() == (if self@.show_gutter { 2int } else { 1int })
                &&& vp.tag@ == "lq-textarea-viewport"@
                &&& vp.attr_views() == seq![("data-part"@, "viewport"@)]
                &&& vp.children@.len() == 1
                &&& content.tag@ == "lq-textarea-content"@
                &&& content.attr_views() == seq![("data-part"@, "content"@)]
                &&& content.style_views() == seq![("margin-top"@, margin@)]
                &&& content.children@.len() == self@.lines.len()
                &&& forall|i: int| 0 <= i < self@.lines.len() ==> self@.row_rendered(i, #[trigger] content.children@[i])
            }),
            self@.show_gutter ==> ({
                let gutter = r.children@[0].children@[0];
                let inner = gutter.children@[0];
                &&& gutter.tag@ == "lq-textarea-gutter"@
                &&& gutter.attr_views() == seq![("data-part"@, "gutter"@)]
                &&& gutter.children@.len() == 1
                &&& inner.tag@ == "lq-textarea-gutter-inner"@
                &&& inner.attr_views() == seq![("data-part"@, "gutter-inner"@)]
                &&& inner.style_views() == seq![("margin-top"@, margin@)]
                &&& inner.children@.len() == self@.lines.len()
                &&& forall|i: int| 0 <= i < self@.lines.len() ==> self@.lineno_rendered(i, #[trigger] inner.children@[i])
            }),
    {
        let mut content = Node::el("lq-textarea-content").attr("data-part", "content").style("margin-top", margin);
        assert(content.attr_views() =~= seq![("data-part"@, "content"@)]);
        assert(content.style_views() =~= seq![("margin-top"@, margin@)]);
        let mut i: usize = 0;
        while i < self.lines.len()
            invariant
                self.wf(),
                i <= self@.lines.len(),
                content.tag@ == "lq-textarea-content"@,
                content.attr_views() == seq![("data-part"@, "content"@)],
                content.style_views() == seq![("margin-top"@, margin@)],
                content.children@.len() == i,
                forall|k: int| 0 <= k < i ==> self@.row_rendered(k, #[trigger] content.children@[k]),
            decreases self@.lines.len() - i,
        {
            content = content.child(self.row(i));
            i = i + 1;
        }
        let viewport = Node::el("lq-textarea-viewport").attr("data-part", "viewport").child(content);
        assert(viewport.attr_views() =~= seq![("data-part"@, "viewport"@)]);
        let mut body = Node::el("lq-textarea-body").attr("data-part", "body");
        assert(body.attr_views() =~= seq![("data-part"@, "body"@)]);
        if self.show_gutter {
            let mut inner = Node::el("lq-textarea-gutter-inner").attr("data-part", "gutter-inner").style("margin-top", margin);
            assert(inner.attr_views() =~= seq![("data-part"@, "gutter-inner"@)]);
            assert(inner.style_views() =~= seq![("margin-top"@, margin@)]);
            let mut j: usize = 0;
            while j < self.lines.len()
                invariant
                    self.wf(),
                    j <= self@.lines.len(),
                    inner.tag@ == "lq-textarea-gutter-inner"@,
                    inner.attr_views() == seq![("data-part"@, "gutter-inner"@)],
                    inner.style_views() == seq![("margin-top"@, margin@)],
                    inner.children@.len() == j,
                    forall|k: int| 0 <= k < j ==> self@.lineno_rendered(k, #[trigger] inner.children@[k]),
                decreases self@.lines.len() - j,
            {
                inner = inner.child(self.lineno(j));
                j = j + 1;
            }
            let gutter = Node::el("lq-textarea-gutter").attr("data-part", "gutter").child(inner);
            assert(gutter.attr_views() =~= seq![("data-part"@, "gutter"@)]);
            body = body.child(gutter);
        }
        body = body.child(viewport);
        let mut node = Node::el("lq-textarea")
            .attr(FOCUSABLE_ATTR, bool_text(!self.disabled))
            .attr("data-scroll-y", scroll_y)
            .class_if("with-gutter", self.show_gutter)
            .pseudo_if(PseudoFlag::Focus, self.focused && !self.disabled)
            .pseudo_if(PseudoFlag::Disabled, self.disabled)
            .child(body);
        if self.disabled {
            node = node.attr("disabled", "true");
        }
        assert(node.attr_views() =~= seq![(FOCUSABLE_ATTR@, bool_str(!self@.disabled)), ("data-scroll-y"@, scroll_y@)]
            + (if self@.disabled { seq![("disabled"@, "true"@)] } else { Seq::empty() }));
        assert(node.class_views() =~= (if self@.show_gutter { seq!["with-gutter"@] } else { Seq::<Seq<char>>::empty() }));
        node
    }
}

} // verus!
