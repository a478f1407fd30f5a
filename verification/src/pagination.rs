//! `<lq-pagination>` — prev/next plus a window of numbered page buttons with
//! ellipsis gaps.
//!
//! The page row always shows the first and last page, the current page with
//! `siblings` pages either side, and `…` where pages are skipped; small page
//! counts show every page. Clicking a page jumps to it, prev/next step by
//! one (inert at the ends); Left/Right step, Home/End jump to the first/last
//! page. A page change emits `changed` with the new 0-based page index.

use vstd::prelude::*;

use crate::behavior::{KeyInput, OutcomeView, WidgetKind, WidgetOutcome};
use crate::keys;
use crate::node::{bool_text, Node, Pseudo, PseudoFlag, FOCUSABLE_ATTR};
use crate::text::{dec, decimal, prefixed};

verus! {

/// Emitted when the current page changes (payload: the 0-based page index).
pub const CHANGED_ACTION: &'static str = "changed";

/// A rendered slot in the page row.
#[derive(Clone, Copy, Debug, PartialEq, Eq, Structural)]
pub enum Slot {
    /// A clickable page number (0-based page index).
    Page(usize),
    /// A non-interactive gap.
    Ellipsis,
}

/// The abstract form of a [`Slot`].
pub enum SlotModel {
    Page(int),
    Ellipsis,
}

/// A slot taken as a [`SlotModel`].
pub open spec fn slot_model(s: Slot) -> SlotModel {
    match s {
        Slot::Page(p) => SlotModel::Page(p as int),
        Slot::Ellipsis => SlotModel::Ellipsis,
    }
}

/// Page slots `a..b` (empty when `b <= a`).
pub open spec fn pages(a: int, b: int) -> Seq<SlotModel> {
    Seq::new(if b > a { (b - a) as nat } else { 0 }, |i: int| SlotModel::Page(a + i))
}

/// The visible page row for `n` pages, current page `cur` and `sib`
/// siblings: every page when `n <= 2*sib + 5`; otherwise the first page, an
/// ellipsis (or pages `1..left`), the window `max(left,1)..=min(right,n-2)`
/// around `cur`, an ellipsis (or the pages up to the last) and the last page,
/// where `left = max(cur - sib, 0)` and `right = min(cur + sib, n - 1)`.
pub open spec fn spec_slots(n: int, cur: int, sib: int) -> Seq<SlotModel> {
    if n <= sib * 2 + 5 {
        pages(0, n)
    } else {
        let left = if cur - sib > 0 { cur - sib } else { 0 };
        let right = if cur + sib < n - 1 { cur + sib } else { n - 1 };
        let lo = if left > 1 { left } else { 1 };
        let hi = if right < n - 2 { right } else { n - 2 };
        seq![SlotModel::Page(0)] + (if left > 2 { seq![SlotModel::Ellipsis] } else { pages(1, left) })
            + pages(lo, hi + 1) + (if right < n - 3 {
            seq![SlotModel::Ellipsis]
        } else {
            pages(right + 1, n - 1)
        }) + seq![SlotModel::Page(n - 1)]
    }
}

/// Every page slot of the visible row names an existing page.
pub proof fn lemma_slots_in_range(n: int, cur: int, sib: int, i: int)
    requires
        1 <= n,
        0 <= cur < n,
        0 <= sib,
        0 <= i < spec_slots(n, cur, sib).len(),
    ensures
        spec_slots(n, cur, sib)[i] matches SlotModel::Page(p) ==> 0 <= p < n,
{
    let s = spec_slots(n, cur, sib);
    if n > sib * 2 + 5 {
        let left = if cur - sib > 0 { cur - sib } else { 0 };
        let right = if cur + sib < n - 1 { cur + sib } else { n - 1 };
        let lo = if left > 1 { left } else { 1 };
        let hi = if right < n - 2 { right } else { n - 2 };
        let a = seq![SlotModel::Page(0)];
        let b = if left > 2 { seq![SlotModel::Ellipsis] } else { pages(1, left) };
        let c = pages(lo, hi + 1);
        let d = if right < n - 3 { seq![SlotModel::Ellipsis] } else { pages(right + 1, n - 1) };
        let e = seq![SlotModel::Page(n - 1)];
        assert(s == a + b + c + d + e);
        let la = a.len() as int;
        let lb = b.len() as int;
        let lc = c.len() as int;
        let ld = d.len() as int;
        if i < la {
        } else if i < la + lb {
            assert(s[i] == b[i - la]);
        } else if i < la + lb + lc {
            assert(s[i] == c[i - la - lb]);
        } else if i < la + lb + lc + ld {
            assert(s[i] == d[i - la - lb - lc]);
        } else {
            assert(s[i] == e[i - la - lb - lc - ld]);
        }
    }
}

/// The visible row always starts with the first page, ends with the last
/// page and shows the current page.
pub proof fn lemma_slots_show_ends_and_current(n: int, cur: int, sib: int)
    requires
        1 <= n,
        0 <= cur < n,
        0 <= sib,
    ensures
        spec_slots(n, cur, sib).len() > 0,
        spec_slots(n, cur, sib)[0] == SlotModel::Page(0),
        spec_slots(n, cur, sib).last() == SlotModel::Page(n - 1),
        spec_slots(n, cur, sib).contains(SlotModel::Page(cur)),
{
    let s = spec_slots(n, cur, sib);
    if n <= sib * 2 + 5 {
        assert(s[cur] == SlotModel::Page(cur));
    } else {
        let left = if cur - sib > 0 { cur - sib } else { 0 };
        let right = if cur + sib < n - 1 { cur + sib } else { n - 1 };
        let lo = if left > 1 { left } else { 1 };
        let hi = if right < n - 2 { right } else { n - 2 };
        let a = seq![SlotModel::Page(0)];
        let b = if left > 2 { seq![SlotModel::Ellipsis] } else { pages(1, left) };
        let c = pages(lo, hi + 1);
        let d = if right < n - 3 { seq![SlotModel::Ellipsis] } else { pages(right + 1, n - 1) };
        let e = seq![SlotModel::Page(n - 1)];
        assert(s == a + b + c + d + e);
        let lb = b.len() as int;
        let lc = c.len() as int;
        let ld = d.len() as int;
        assert(s[0] == a[0]);
        assert(s[1 + lb + lc + ld] == e[0]);
        if cur == 0 {
            assert(s[0] == SlotModel::Page(cur));
        } else if cur == n - 1 {
            assert(s[1 + lb + lc + ld] == SlotModel::Page(cur));
        } else {
            assert(c[cur - lo] == SlotModel::Page(cur));
            assert(s[1 + lb + (cur - lo)] == c[cur - lo]);
        }
    }
}

/// The page a slot shows (`-1` for an ellipsis).
pub open spec fn page_of(s: SlotModel) -> int {
    match s {
        SlotModel::Page(p) => p,
        SlotModel::Ellipsis => -1,
    }
}

/// The row is well formed around position `i`: two neighbouring page
/// buttons are consecutive pages, and an ellipsis sits between two page
/// buttons at least three pages apart.
pub open spec fn row_ok_at(s: Seq<SlotModel>, i: int) -> bool {
    &&& (0 <= i < s.len() - 1 && s[i] is Page && s[i + 1] is Page ==> page_of(s[i + 1]) == page_of(s[i]) + 1)
    &&& (0 <= i < s.len() && s[i] is Ellipsis ==> {
        &&& 0 < i < s.len() - 1
        &&& s[i - 1] is Page
        &&& s[i + 1] is Page
        &&& page_of(s[i + 1]) >= page_of(s[i - 1]) + 3
    })
}

/// A well-formed page row: it starts and ends with a page button and is
/// well formed at every position.
pub open spec fn row_ok(s: Seq<SlotModel>) -> bool {
    &&& s.len() > 0
    &&& s[0] is Page
    &&& s.last() is Page
    &&& forall|i: int| 0 <= i < s.len() ==> #[trigger] row_ok_at(s, i)
}

proof fn lemma_pages_row(a: int, b: int)
    requires
        a < b,
    ensures
        row_ok(pages(a, b)),
        page_of(pages(a, b)[0]) == a,
        page_of(pages(a, b).last()) == b - 1,
{
    let s = pages(a, b);
    assert forall|i: int| 0 <= i < s.len() implies #[trigger] row_ok_at(s, i) by {}
}

/// Joining two rows where the second continues the first page by page.
proof fn lemma_join_adjacent(x: Seq<SlotModel>, y: Seq<SlotModel>)
    requires
        row_ok(x),
        row_ok(y),
        page_of(y[0]) == page_of(x.last()) + 1,
    ensures
        row_ok(x + y),
        (x + y)[0] == x[0],
        (x + y).last() == y.last(),
{
    let s = x + y;
    assert forall|i: int| 0 <= i < s.len() implies #[trigger] row_ok_at(s, i) by {
        if i < x.len() {
            assert(row_ok_at(x, i));
            assert(s[i] == x[i]);
            if i + 1 < x.len() {
                assert(s[i + 1] == x[i + 1]);
            } else {
                assert(s[i + 1] == y[0]);
            }
            if i > 0 {
                assert(s[i - 1] == x[i - 1]);
            }
        } else {
            let k = i - x.len();
            assert(row_ok_at(y, k));
            assert(s[i] == y[k]);
            if k + 1 < y.len() {
                assert(s[i + 1] == y[k + 1]);
            }
            if k > 0 {
                assert(s[i - 1] == y[k - 1]);
            }
        }
    }
}

/// Joining two rows with an ellipsis over a gap of at least two pages.
proof fn lemma_join_gap(x: Seq<SlotModel>, y: Seq<SlotModel>)
    requires
        row_ok(x),
        row_ok(y),
        page_of(y[0]) >= page_of(x.last()) + 3,
    ensures
        row_ok(x + seq![SlotModel::Ellipsis] + y),
        (x + seq![SlotModel::Ellipsis] + y)[0] == x[0],
        (x + seq![SlotModel::Ellipsis] + y).last() == y.last(),
{
    let e = seq![SlotModel::Ellipsis];
    let s = x + e + y;
    let n = x.len();
    assert forall|i: int| 0 <= i < s.len() implies #[trigger] row_ok_at(s, i) by {
        if i < n {
            assert(row_ok_at(x, i));
            assert(s[i] == x[i]);
            if i + 1 < n {
                assert(s[i + 1] == x[i + 1]);
            } else {
                assert(s[i + 1] == SlotModel::Ellipsis);
            }
            if i > 0 {
                assert(s[i - 1] == x[i - 1]);
            }
        } else if i == n {
            assert(s[i] == SlotModel::Ellipsis);
            assert(s[i - 1] == x.last());
            assert(s[i + 1] == y[0]);
        } else {
            let k = i - n - 1;
            assert(row_ok_at(y, k));
            assert(s[i] == y[k]);
            if k + 1 < y.len() {
                assert(s[i + 1] == y[k + 1]);
            }
            if k > 0 {
                assert(s[i - 1] == y[k - 1]);
            } else {
                assert(s[i - 1] == SlotModel::Ellipsis);
            }
        }
    }
}

/// In a well-formed row the page buttons increase strictly from left to
/// right.
pub proof fn lemma_row_increasing(s: Seq<SlotModel>, i: int, j: int)
    requires
        row_ok(s),
        0 <= i < j < s.len(),
        s[i] is Page,
        s[j] is Page,
    ensures
        page_of(s[i]) < page_of(s[j]),
    decreases j - i,
{
    assert(row_ok_at(s, i));
    if s[i + 1] is Page {
        if i + 1 < j {
            lemma_row_increasing(s, i + 1, j);
        }
    } else {
        assert(row_ok_at(s, i + 1));
        if i + 2 < j {
            lemma_row_increasing(s, i + 2, j);
        }
    }
}

/// The structure of the visible row: every page when there are few; else a
/// well-formed row (consecutive page buttons are consecutive pages, each
/// ellipsis stands for a gap of at least two pages, no ellipsis at either
/// end or twice in a row) that starts at the first page, ends at the last
/// and holds every page within `sib` of the current one.
pub proof fn lemma_slots_structure(n: int, cur: int, sib: int, q: int)
    requires
        1 <= n,
        0 <= cur < n,
        0 <= sib,
    ensures
        n <= sib * 2 + 5 ==> spec_slots(n, cur, sib) == pages(0, n),
        row_ok(spec_slots(n, cur, sib)),
        spec_slots(n, cur, sib)[0] == SlotModel::Page(0),
        spec_slots(n, cur, sib).last() == SlotModel::Page(n - 1),
        0 <= q < n && cur - sib <= q <= cur + sib ==> spec_slots(n, cur, sib).contains(SlotModel::Page(q)),
{
    let s = spec_slots(n, cur, sib);
    if n <= sib * 2 + 5 {
        lemma_pages_row(0, n);
        if 0 <= q < n {
            assert(s[q] == SlotModel::Page(q));
        }
    } else {
        let left = if cur - sib > 0 { cur - sib } else { 0 };
        let right = if cur + sib < n - 1 { cur + sib } else { n - 1 };
        let lo = if left > 1 { left } else { 1 };
        let hi = if right < n - 2 { right } else { n - 2 };
        let a = seq![SlotModel::Page(0)];
        let b = if left > 2 { seq![SlotModel::Ellipsis] } else { pages(1, left) };
        let c = pages(lo, hi + 1);
        let d = if right < n - 3 { seq![SlotModel::Ellipsis] } else { pages(right + 1, n - 1) };
        let e = seq![SlotModel::Page(n - 1)];
        assert(s == a + b + c + d + e);
        assert(lo <= hi + 1);
        if left <= 2 {
            assert(a + b =~= pages(0, lo));
        }
        if right >= n - 3 {
            assert(c + d + e =~= pages(lo, n));
        }
        lemma_pages_row(0, lo);
        if left > 2 {
            assert(a =~= pages(0, 1));
        }
        // Build the row from its runs.
        if right < n - 3 {
            lemma_pages_row(n - 1, n);
            assert(e =~= pages(n - 1, n));
            let tail: Seq<SlotModel> = if lo <= hi {
                lemma_pages_row(lo, hi + 1);
                lemma_join_gap(c, e);
                c + seq![SlotModel::Ellipsis] + e
            } else {
                assert(c =~= Seq::<SlotModel>::empty());
                e
            };
            assert(row_ok(tail));
            if left > 2 {
                lemma_join_gap(a, tail);
                assert(s =~= a + seq![SlotModel::Ellipsis] + tail);
            } else {
                if lo <= hi {
                    lemma_join_adjacent(pages(0, lo), tail);
                    assert(s =~= pages(0, lo) + tail);
                } else {
                    lemma_join_gap(pages(0, lo), e);
                    assert(s =~= pages(0, lo) + seq![SlotModel::Ellipsis] + e);
                }
            }
        } else {
            lemma_pages_row(lo, n);
            if left > 2 {
                lemma_join_gap(a, pages(lo, n));
                assert(s =~= a + seq![SlotModel::Ellipsis] + pages(lo, n));
            } else {
                lemma_join_adjacent(pages(0, lo), pages(lo, n));
                assert(s =~= pages(0, lo) + pages(lo, n));
            }
        }
        if 0 <= q < n && cur - sib <= q <= cur + sib {
            if q == 0 {
                assert(s[0] == SlotModel::Page(q));
            } else if q == n - 1 {
                assert(s.last() == SlotModel::Page(q));
                assert(s[s.len() - 1] == SlotModel::Page(q));
            } else {
                let k = a.len() + b.len() + (q - lo);
                assert(c[q - lo] == SlotModel::Page(q));
                assert(s[k] == SlotModel::Page(q));
            }
        }
    }
}

/// What a click landed on, as resolved by the host against the laid-out
/// `prev`/`next`/`page-<n>` buttons.
#[derive(Clone, Copy, Debug, PartialEq, Eq, Structural)]
pub enum PageHit {
    Prev,
    Next,
    Page(usize),
}

/// A numbered pagination control.
pub struct Pagination {
    total: usize,
    current: usize,
    siblings: usize,
    hovered: Option<usize>,
}

/// The abstract state of a [`Pagination`].
pub struct PaginationModel {
    pub total: int,
    pub current: int,
    pub siblings: int,
    pub hovered: Option<int>,
}

impl PaginationModel {
    /// At least one page; the current page exists.
    pub open spec fn valid(self) -> bool {
        1 <= self.total && 0 <= self.current < self.total && self.total <= usize::MAX && 0 <= self.siblings
            <= usize::MAX
    }

    /// Whether the page-window arithmetic stays within `usize`.
    pub open spec fn window_fits(self) -> bool {
        self.siblings * 2 + 5 <= usize::MAX && self.current + self.siblings <= usize::MAX
    }

    /// The visible page row.
    pub open spec fn slots(self) -> Seq<SlotModel> {
        spec_slots(self.total, self.current, self.siblings)
    }

    /// Going to page `p` (clamped to the last page): `changed` with the page
    /// index, ignored when it is already current.
    pub open spec fn set_page(self, p: int) -> (PaginationModel, OutcomeView) {
        let q = if p < self.total - 1 { p } else { self.total - 1 };
        if q == self.current {
            (self, OutcomeView::Ignored)
        } else {
            (PaginationModel { current: q, ..self }, OutcomeView::Action(CHANGED_ACTION@, Some(dec(q as nat))))
        }
    }

    /// One page back (ignored on the first page).
    pub open spec fn prev(self) -> (PaginationModel, OutcomeView) {
        if self.current == 0 {
            (self, OutcomeView::Ignored)
        } else {
            self.set_page(self.current - 1)
        }
    }

    /// One page forward (ignored on the last page).
    pub open spec fn next(self) -> (PaginationModel, OutcomeView) {
        if self.current + 1 >= self.total {
            (self, OutcomeView::Ignored)
        } else {
            self.set_page(self.current + 1)
        }
    }

    /// The keyboard transition.
    pub open spec fn on_key(self, key: KeyInput) -> (PaginationModel, OutcomeView) {
        let k = key.key;
        if k == keys::ARROW_LEFT {
            self.prev()
        } else if k == keys::ARROW_RIGHT {
            self.next()
        } else if k == keys::HOME {
            self.set_page(0)
        } else if k == keys::END {
            self.set_page(self.total - 1)
        } else {
            (self, OutcomeView::Ignored)
        }
    }

    /// Pointer move: only page buttons are hovered.
    pub open spec fn on_move(self, hit: Option<PageHit>) -> (PaginationModel, OutcomeView) {
        let h = match hit {
            Some(PageHit::Page(p)) => Some(p as int),
            _ => None,
        };
        if h == self.hovered {
            (self, OutcomeView::Ignored)
        } else {
            (PaginationModel { hovered: h, ..self }, OutcomeView::Changed)
        }
    }

    /// Pointer leaving the control.
    pub open spec fn on_leave(self) -> (PaginationModel, OutcomeView) {
        if self.hovered is None {
            (self, OutcomeView::Ignored)
        } else {
            (PaginationModel { hovered: None, ..self }, OutcomeView::Changed)
        }
    }

    /// Left click.
    pub open spec fn on_click(self, hit: Option<PageHit>) -> (PaginationModel, OutcomeView) {
        match hit {
            Some(PageHit::Prev) => self.prev(),
            Some(PageHit::Next) => self.next(),
            Some(PageHit::Page(p)) => self.set_page(p as int),
            None => (self, OutcomeView::Ignored),
        }
    }

    /// Whether `c` renders slot `s` at row position `si`.
    pub open spec fn slot_rendered(self, si: int, s: SlotModel, c: Node) -> bool {
        match s {
            SlotModel::Page(p) => {
                let cur = p == self.current;
                &&& c.tag@ == "lq-page-btn"@
                &&& c.key matches Some(k) && k@ == "page-"@ + dec(p as nat)
                &&& c.attr_views() == seq![
                    ("data-part"@, "page-"@ + dec(p as nat)),
                    ("data-page"@, dec(p as nat)),
                    ("aria-current"@, if cur { "page"@ } else { "false"@ }),
                ]
                &&& c.class_views() == seq!["page"@] + (if cur { seq!["current"@] } else { Seq::empty() })
                &&& c.pseudo == (Pseudo {
                    hover: self.hovered == Some(p) && !cur,
                    active: false,
                    focus: false,
                    checked: cur,
                    disabled: false,
                })
                &&& c.children@.len() == 1
                &&& c.first_text() == dec((p + 1) as nat)
            },
            SlotModel::Ellipsis => {
                &&& c.tag@ == "lq-page-ellipsis"@
                &&& c.key matches Some(k) && k@ == "ellipsis-"@ + dec(si as nat)
                &&& c.attr_views() == seq![("data-part"@, "ellipsis"@)]
                &&& c.children@.len() == 1
                &&& c.first_text() == "\u{2026}"@
            },
        }
    }
}

/// Left goes back one page and Right forward one (staying put at the first
/// and last page), Home goes to the first page and End to the last; a click
/// on a page button goes to that page (clamped to the last), on Prev/Next
/// like Left/Right. Each change reports the new page index.
pub proof fn lemma_keys_and_clicks_change_page(m: PaginationModel, mods: u32, p: usize)
    requires
        m.valid(),
    ensures
        ({
            let want = if m.current == 0 { 0 } else { m.current - 1 };
            let (n, out) = m.on_key(KeyInput { key: keys::ARROW_LEFT, modifiers: mods });
            &&& n.current == want && n.total == m.total
            &&& out == (if want == m.current { OutcomeView::Ignored } else { OutcomeView::Action(CHANGED_ACTION@, Some(dec(want as nat))) })
            &&& m.on_click(Some(PageHit::Prev)) == (n, out)
        }),
        ({
            let want = if m.current == m.total - 1 { m.current } else { m.current + 1 };
            let (n, out) = m.on_key(KeyInput { key: keys::ARROW_RIGHT, modifiers: mods });
            &&& n.current == want && n.total == m.total
            &&& out == (if want == m.current { OutcomeView::Ignored } else { OutcomeView::Action(CHANGED_ACTION@, Some(dec(want as nat))) })
            &&& m.on_click(Some(PageHit::Next)) == (n, out)
        }),
        m.on_key(KeyInput { key: keys::HOME, modifiers: mods }).0.current == 0,
        m.on_key(KeyInput { key: keys::END, modifiers: mods }).0.current == m.total - 1,
        m.on_click(Some(PageHit::Page(p))).0.current == (if p < m.total { p as int } else { m.total - 1 }),
{
}

impl View for Pagination {
    type V = PaginationModel;

    closed spec fn view(&self) -> PaginationModel {
        PaginationModel {
            total: self.total as int,
            current: self.current as int,
            siblings: self.siblings as int,
            hovered: match self.hovered {
                Some(p) => Some(p as int),
                None => None,
            },
        }
    }
}

impl Pagination {
    /// The representation invariant.
    pub open spec fn wf(&self) -> bool {
        self@.valid()
    }

    /// A control over `total` pages (at least one) on page 0, one sibling.
    pub fn new(total: usize) -> (r: Pagination)
        ensures
            r.wf(),
            r@ == (PaginationModel {
                total: if total >= 1 { total as int } else { 1 },
                current: 0,
                siblings: 1,
                hovered: None,
            }),
    {
        let total = if total >= 1 { total } else { 1 };
        Pagination { total, current: 0, siblings: 1, hovered: None }
    }

    /// Sets the current page (clamped to the last page).
    pub fn page(self, page: usize) -> (r: Pagination)
        requires
            self.wf(),
        ensures
            r.wf(),
            r@ == (PaginationModel {
                current: if page < self@.total - 1 { page as int } else { self@.total - 1 },
                ..self@
            }),
    {
        let p = if page < self.total - 1 { page } else { self.total - 1 };
        Pagination { current: p, ..self }
    }

    /// Sets the sibling count (page numbers shown either side of the current
    /// page).
    pub fn siblings(self, n: usize) -> (r: Pagination)
        requires
            self.wf(),
        ensures
            r.wf(),
            r@ == (PaginationModel { siblings: n as int, ..self@ }),
    {
        Pagination { siblings: n, ..self }
    }

    /// The current page (0-based).
    pub fn current_page(&self) -> (r: usize)
        ensures
            r == self@.current,
    {
        self.current
    }

    /// The total page count.
    pub fn total_pages(&self) -> (r: usize)
        ensures
            r == self@.total,
    {
        self.total
    }

    /// The widget family.
    pub fn kind(&self) -> (r: WidgetKind)
        ensures
            r == WidgetKind::Other,
    {
        WidgetKind::Other
    }

    fn push_pages(out: &mut Vec<Slot>, a: usize, b: usize)
        ensures
            final(out)@.map_values(|s: Slot| slot_model(s)) == old(out)@.map_values(|s: Slot| slot_model(s))
                + pages(a as int, b as int),
    {
        let ghost start = old(out)@.map_values(|s: Slot| slot_model(s));
        let mut p = a;
        while p < b
            invariant
                a <= p,
                b >= a ==> p <= b,
                b < a ==> p == a,
                out@.map_values(|s: Slot| slot_model(s)) == start + pages(a as int, p as int),
            decreases b - p,
        {
            let ghost before = out@;
            out.push(Slot::Page(p));
            assert(out@ == before.push(Slot::Page(p)));
            assert(out@.map_values(|s: Slot| slot_model(s)) =~= before.map_values(|s: Slot| slot_model(s)).push(
                SlotModel::Page(p as int),
            ));
            assert(pages(a as int, (p + 1) as int) =~= pages(a as int, p as int).push(SlotModel::Page(p as int)));
            p = p + 1;
        }
        if b >= a {
            assert(p == b);
        } else {
            assert(p == a);
            assert(pages(a as int, b as int).len() == 0);
        }
        assert(pages(a as int, b as int) =~= pages(a as int, p as int));
    }

    /// Whether the page-window arithmetic fits in `usize` (the visible row
    /// can be computed).
    pub fn window_fits(&self) -> (r: bool)
        ensures
            r == self@.window_fits(),
    {
        self.siblings <= (usize::MAX - 5) / 2 && self.current <= usize::MAX - self.siblings
    }

    /// The visible page row (see [`spec_slots`]).
    pub fn slots(&self) -> (r: Vec<Slot>)
        requires
            self.wf(),
            self@.window_fits(),
        ensures
            r@.map_values(|s: Slot| slot_model(s)) == self@.slots(),
    {
        let n = self.total;
        let max_numbers = self.siblings * 2 + 5;
        let mut out: Vec<Slot> = Vec::new();
        if n <= max_numbers {
            Self::push_pages(&mut out, 0, n);
            assert(out@.map_values(|s: Slot| slot_model(s)) =~= self@.slots());
            return out;
        }
        let left = if self.current > self.siblings { self.current - self.siblings } else { 0 };
        let right = if self.current + self.siblings < n - 1 { self.current + self.siblings } else { n - 1 };
        let ghost e = out@;
        out.push(Slot::Page(0));
        assert(out@.map_values(|s: Slot| slot_model(s)) =~= seq![SlotModel::Page(0)]);
        if left > 2 {
            let ghost before = out@;
            out.push(Slot::Ellipsis);
            assert(out@.map_values(|s: Slot| slot_model(s)) =~= before.map_values(|s: Slot| slot_model(s)).push(
                SlotModel::Ellipsis,
            ));
        } else {
            Self::push_pages(&mut out, 1, left);
        }
        let win_lo = if left > 1 { left } else { 1 };
        let win_hi = if right < n - 2 { right } else { n - 2 };
        Self::push_pages(&mut out, win_lo, win_hi + 1);
        if right < n - 3 {
            let ghost before = out@;
            out.push(Slot::Ellipsis);
            assert(out@.map_values(|s: Slot| slot_model(s)) =~= before.map_values(|s: Slot| slot_model(s)).push(
                SlotModel::Ellipsis,
            ));
        } else {
            Self::push_pages(&mut out, right + 1, n - 1);
        }
        let ghost before = out@;
        out.push(Slot::Page(n - 1));
        assert(out@.map_values(|s: Slot| slot_model(s)) =~= before.map_values(|s: Slot| slot_model(s)).push(
            SlotModel::Page(n - 1),
        ));
        assert(out@.map_values(|s: Slot| slot_model(s)) =~= self@.slots());
        out
    }

    fn set_page(&mut self, page: usize) -> (out: WidgetOutcome)
        requires
            old(self).wf(),
        ensures
            final(self).wf(),
            (final(self)@, out@) == old(self)@.set_page(page as int),
    {
        let p = if page < self.total - 1 { page } else { self.total - 1 };
        if p == self.current {
            return WidgetOutcome::Ignored;
        }
        self.current = p;
        WidgetOutcome::action_with(CHANGED_ACTION, decimal(p))
    }

    fn prev(&mut self) -> (out: WidgetOutcome)
        requires
            old(self).wf(),
        ensures
            final(self).wf(),
            (final(self)@, out@) == old(self)@.prev(),
    {
        if self.current == 0 {
            return WidgetOutcome::Ignored;
        }
        self.set_page(self.current - 1)
    }

    fn next(&mut self) -> (out: WidgetOutcome)
        requires
            old(self).wf(),
        ensures
            final(self).wf(),
            (final(self)@, out@) == old(self)@.next(),
    {
        if self.current + 1 >= self.total {
            return WidgetOutcome::Ignored;
        }
        self.set_page(self.current + 1)
    }

    /// Handles a key press.
    pub fn on_keyboard(&mut self, key: KeyInput) -> (out: WidgetOutcome)
        requires
            old(self).wf(),
        ensures
            final(self).wf(),
            (final(self)@, out@) == old(self)@.on_key(key),
    {
        let k = key.key;
        if k == keys::ARROW_LEFT {
            self.prev()
        } else if k == keys::ARROW_RIGHT {
            self.next()
        } else if k == keys::HOME {
            self.set_page(0)
        } else if k == keys::END {
            let last = self.total - 1;
            self.set_page(last)
        } else {
            WidgetOutcome::Ignored
        }
    }

    /// Handles the pointer moving over `hit`.
    pub fn on_mouse_move(&mut self, hit: Option<PageHit>) -> (out: WidgetOutcome)
        requires
            old(self).wf(),
        ensures
            final(self).wf(),
            (final(self)@, out@) == old(self)@.on_move(hit),
    {
        let h = match hit {
            Some(PageHit::Page(p)) => Some(p),
            _ => None,
        };
        if h == self.hovered {
            return WidgetOutcome::Ignored;
        }
        self.hovered = h;
        WidgetOutcome::Changed
    }

    /// Handles the pointer leaving the control.
    pub fn on_mouse_leave(&mut self) -> (out: WidgetOutcome)
        requires
            old(self).wf(),
        ensures
            final(self).wf(),
            (final(self)@, out@) == old(self)@.on_leave(),
    {
        if self.hovered.is_none() {
            return WidgetOutcome::Ignored;
        }
        self.hovered = None;
        WidgetOutcome::Changed
    }

    /// Handles a left click on `hit`.
    pub fn on_click(&mut self, hit: Option<PageHit>) -> (out: WidgetOutcome)
        requires
            old(self).wf(),
        ensures
            final(self).wf(),
            (final(self)@, out@) == old(self)@.on_click(hit),
    {
        match hit {
            Some(PageHit::Prev) => self.prev(),
            Some(PageHit::Next) => self.next(),
            Some(PageHit::Page(p)) => self.set_page(p),
            None => WidgetOutcome::Ignored,
        }
    }

    fn render_slot(&self, si: usize, slot: Slot) -> (r: Node)
        requires
            self.wf(),
            slot matches Slot::Page(p) ==> p < usize::MAX,
        ensures
            self@.slot_rendered(si as int, slot_model(slot), r),
    {
        match slot {
            Slot::Page(p) => {
                let cur = p == self.current;
                let key = prefixed("page-", p);
                let pd = decimal(p);
                let label = decimal(p + 1);
                let n = Node::el("lq-page-btn")
                    .key(key.as_str())
                    .attr("data-part", key.as_str())
                    .attr("data-page", pd.as_str())
                    .class("page")
                    .class_if("current", cur)
                    .attr("aria-current", if cur { "page" } else { "false" })
                    .pseudo_if(PseudoFlag::Checked, cur)
                    .pseudo_if(PseudoFlag::Hover, self.hovered == Some(p) && !cur)
                    .child(Node::text(label.as_str()));
                assert(n.attr_views() =~= seq![
                    ("data-part"@, "page-"@ + dec(p as nat)),
                    ("data-page"@, dec(p as nat)),
                    ("aria-current"@, if cur { "page"@ } else { "false"@ }),
                ]);
                assert(n.class_views() =~= seq!["page"@] + (if cur { seq!["current"@] } else { Seq::<Seq<char>>::empty() }));
                n
            },
            Slot::Ellipsis => {
                let key = prefixed("ellipsis-", si);
                let n = Node::el("lq-page-ellipsis")
                    .key(key.as_str())
                    .attr("data-part", "ellipsis")
                    .child(Node::text("\u{2026}"));
                assert(n.attr_views() =~= seq![("data-part"@, "ellipsis"@)]);
                n
            },
        }
    }

    /// The render tree: an `lq-pagination` (navigation role, focusable) with
    /// the prev button (`:disabled` and `.disabled` on the first page), one
    /// rendered node per visible slot, and the next button (`:disabled` and
    /// `.disabled` on the last page).
    pub fn render(&self) -> (r: Node)
        requires
            self.wf(),
            self@.window_fits(),
        ensures
            r.tag@ == "lq-pagination"@,
            r.attr_views() == seq![(FOCUSABLE_ATTR@, "true"@), ("role"@, "navigation"@)],
            r.children@.len() == self@.slots().len() + 2,
            ({
                let p = r.children@[0];
                let at_start = self@.current == 0;
                &&& p.tag@ == "lq-page-btn"@
                &&& p.attr_views() == seq![("data-part"@, "prev"@), ("data-action"@, "prev"@)]
                &&& p.class_views() == seq!["prev"@] + (if at_start { seq!["disabled"@] } else { Seq::empty() })
                &&& p.pseudo.disabled == at_start
                &&& p.key matches Some(k) && k@ == "prev"@
                &&& p.children@.len() == 1
                &&& p.first_text() == "\u{2039}"@
            }),
            ({
                let q = r.children@[r.children@.len() - 1];
                let at_end = self@.current + 1 >= self@.total;
                &&& q.tag@ == "lq-page-btn"@
                &&& q.attr_views() == seq![("data-part"@, "next"@), ("data-action"@, "next"@)]
                &&& q.class_views() == seq!["next"@] + (if at_end { seq!["disabled"@] } else { Seq::empty() })
                &&& q.pseudo.disabled == at_end
                &&& q.key matches Some(k) && k@ == "next"@
                &&& q.children@.len() == 1
                &&& q.first_text() == "\u{203A}"@
            }),
            forall|si: int|
                0 <= si < self@.slots().len() ==> self@.slot_rendered(si, self@.slots()[si], #[trigger] r.children@[si + 1]),
    {
        let at_start = self.current == 0;
        let at_end = self.current + 1 >= self.total;
        let mut nav = Node::el("lq-pagination").attr(FOCUSABLE_ATTR, bool_text(true)).attr("role", "navigation");
        let prev = Node::el("lq-page-btn")
            .key("prev")
            .attr("data-part", "prev")
            .attr("data-action", "prev")
            .class("prev")
            .class_if("disabled", at_start)
            .pseudo_if(PseudoFlag::Disabled, at_start)
            .child(Node::text("\u{2039}"));
        assert(prev.attr_views() =~= seq![("data-part"@, "prev"@), ("data-action"@, "prev"@)]);
        assert(prev.class_views() =~= seq!["prev"@] + (if at_start { seq!["disabled"@] } else { Seq::<Seq<char>>::empty() }));
        nav = nav.child(prev);
        let slots = self.slots();
        let ghost sm = self@.slots();
        let mut si: usize = 0;
        while si < slots.len()
            invariant
                self.wf(),
                sm == self@.slots(),
                slots@.map_values(|s: Slot| slot_model(s)) == sm,
                si <= slots@.len(),
                nav.tag@ == "lq-pagination"@,
                nav.attr_views() == seq![(FOCUSABLE_ATTR@, "true"@), ("role"@, "navigation"@)],
                nav.children@.len() == si + 1,
                nav.children@[0] == prev,
                forall|k: int| 0 <= k < si ==> self@.slot_rendered(k, sm[k], #[trigger] nav.children@[k + 1]),
            decreases slots@.len() - si,
        {
            let slot = slots[si];
            assert(sm[si as int] == slot_model(slot));
            proof {
                lemma_slots_in_range(self@.total, self@.current, self@.siblings, si as int);
            }
            let node = self.render_slot(si, slot);
            let ghost before = nav.children@;
            nav = nav.child(node);
            assert forall|k: int| 0 <= k < si + 1 implies self@.slot_rendered(k, sm[k], #[trigger] nav.children@[k + 1]) by {
                if k < si {
                    assert(nav.children@[k + 1] == before[k + 1]);
                }
            }
            si = si + 1;
        }
        let next = Node::el("lq-page-btn")
            .key("next")
            .attr("data-part", "next")
            .attr("data-action", "next")
            .class("next")
            .class_if("disabled", at_end)
            .pseudo_if(PseudoFlag::Disabled, at_end)
            .child(Node::text("\u{203A}"));
        assert(next.attr_views() =~= seq![("data-part"@, "next"@), ("data-action"@, "next"@)]);
        assert(next.class_views() =~= seq!["next"@] + (if at_end { seq!["disabled"@] } else { Seq::<Seq<char>>::empty() }));
        nav = nav.child(next);
        nav
    }
}

} // verus!
