//! `<lq-month-calendar>` — an always-visible month grid with a weekday
//! header, prev/next month navigation, a "today" marker and day selection.
//!
//! Clicking prev/next shifts the displayed month; clicking a day selects it.
//! Arrows move the focused day (Left/Right by one, Up/Down by a week),
//! crossing month boundaries as a continuous calendar; Home/End jump to the
//! first/last day; PageUp/PageDown change the month; Enter/Space select the
//! focused day. A selection emits `changed` (`YYYY-MM-DD`), a month change
//! emits `month` (`YYYY-MM`).

use vstd::prelude::*;

use crate::behavior::{KeyInput, OutcomeView, WidgetKind, WidgetOutcome};
use crate::calendar::{
    day_number, day_of_week_first, days_in_month, fmt_date, fmt_month, format_date, format_month,
    is_date, lemma_year_length, push_year, spec_days_in_month, weekday, year_text,
};
use crate::keys;
use crate::node::{bool_str, bool_text, Node, Pseudo, PseudoFlag, FOCUSABLE_ATTR};
use crate::text::{dec, prefixed, push_char, push_decimal};

verus! {

/// Emitted when a date is selected (payload: `YYYY-MM-DD`).
pub const CHANGED_ACTION: &'static str = "changed";

/// Emitted when the displayed month changes (payload: `YYYY-MM`).
pub const MONTH_ACTION: &'static str = "month";

/// English month names, January first.
pub open spec fn month_names() -> Seq<Seq<char>> {
    seq![
        "January"@, "February"@, "March"@, "April"@, "May"@, "June"@, "July"@, "August"@,
        "September"@, "October"@, "November"@, "December"@,
    ]
}

/// Two-letter weekday names, Sunday first.
pub open spec fn weekday_names() -> Seq<Seq<char>> {
    seq!["Su"@, "Mo"@, "Tu"@, "We"@, "Th"@, "Fr"@, "Sa"@]
}

fn month_name(m: u32) -> (r: &'static str)
    requires
        1 <= m <= 12,
    ensures
        r@ == month_names()[m - 1],
{
    match m {
        1 => "January",
        2 => "February",
        3 => "March",
        4 => "April",
        5 => "May",
        6 => "June",
        7 => "July",
        8 => "August",
        9 => "September",
        10 => "October",
        11 => "November",
        _ => "December",
    }
}

fn weekday_name(i: usize) -> (r: &'static str)
    requires
        i < 7,
    ensures
        r@ == weekday_names()[i as int],
{
    match i {
        0 => "Su",
        1 => "Mo",
        2 => "Tu",
        3 => "We",
        4 => "Th",
        5 => "Fr",
        _ => "Sa",
    }
}

/// What a click landed on, as resolved by the host against the laid-out
/// `prev`/`next` buttons and `day-<n>` cells.
#[derive(Clone, Copy, Debug, PartialEq, Eq, Structural)]
pub enum CalendarHit {
    Prev,
    Next,
    Day(u32),
}

/// A standalone month-calendar widget.
pub struct MonthCalendar {
    view: (i32, u32),
    selected: Option<(i32, u32, u32)>,
    focus_day: u32,
    today: Option<(i32, u32, u32)>,
    hovered: Option<u32>,
    disabled: bool,
}

/// The abstract state of a [`MonthCalendar`].
pub struct CalendarModel {
    pub year: int,
    pub month: int,
    pub selected: Option<(int, int, int)>,
    pub focus_day: int,
    pub today: Option<(int, int, int)>,
    pub hovered: Option<int>,
    pub disabled: bool,
}

/// An optional date taken as integers.
pub open spec fn opt_date(o: Option<(i32, u32, u32)>) -> Option<(int, int, int)> {
    match o {
        Some((y, m, d)) => Some((y as int, m as int, d as int)),
        None => None,
    }
}

/// `v` clamped into `lo..=hi`.
pub open spec fn clamp(v: int, lo: int, hi: int) -> int {
    if v < lo { lo } else if v > hi { hi } else { v }
}

impl CalendarModel {
    /// The displayed month is a month, the focused and hovered days are days
    /// of it, selected and today are dates, and the year is an `i32`.
    pub open spec fn valid(self) -> bool {
        &&& i32::MIN <= self.year <= i32::MAX
        &&& 1 <= self.month <= 12
        &&& 1 <= self.focus_day <= self.dim()
        &&& (self.selected matches Some((y, m, d)) ==> is_date(y, m, d) && i32::MIN <= y <= i32::MAX)
        &&& (self.today matches Some((y, m, d)) ==> is_date(y, m, d) && i32::MIN <= y <= i32::MAX)
    }

    /// Days in the displayed month.
    pub open spec fn dim(self) -> int {
        spec_days_in_month(self.year, self.month)
    }

    /// The month one step forward (or back) from the displayed one.
    pub open spec fn shifted(self, forward: bool) -> (int, int) {
        if forward {
            if self.month == 12 { (self.year + 1, 1) } else { (self.year, self.month + 1) }
        } else {
            if self.month == 1 { (self.year - 1, 12) } else { (self.year, self.month - 1) }
        }
    }

    /// Whether that step leaves the `i32` year range.
    pub open spec fn shift_overflows(self, forward: bool) -> bool {
        let (y, _) = self.shifted(forward);
        y < i32::MIN || y > i32::MAX
    }

    /// Showing the next (previous) month: the focused day is clamped to it,
    /// the hover clears, and `month` is emitted.
    pub open spec fn shift_month(self, forward: bool) -> (CalendarModel, OutcomeView) {
        let (y, m) = self.shifted(forward);
        let f = clamp(self.focus_day, 1, spec_days_in_month(y, m));
        (
            CalendarModel { year: y, month: m, focus_day: f, hovered: None, ..self },
            OutcomeView::Action(MONTH_ACTION@, Some(fmt_month(y, m))),
        )
    }

    /// The date `delta` days (|delta| <= 7) from the focused day, as a
    /// continuous calendar.
    pub open spec fn moved(self, delta: int) -> (int, int, int) {
        let d = self.focus_day + delta;
        if d < 1 {
            let (py, pm) = self.shifted(false);
            (py, pm, d + spec_days_in_month(py, pm))
        } else if d > self.dim() {
            let (ny, nm) = self.shifted(true);
            (ny, nm, d - self.dim())
        } else {
            (self.year, self.month, d)
        }
    }

    /// Whether moving by `delta` leaves the `i32` year range.
    pub open spec fn move_overflows(self, delta: int) -> bool {
        let (y, _, _) = self.moved(delta);
        y < i32::MIN || y > i32::MAX
    }

    /// Moving the focus by `delta` days: the displayed month follows the
    /// focused day; `month` when the month changed, a re-render otherwise.
    pub open spec fn move_focus(self, delta: int) -> (CalendarModel, OutcomeView) {
        let (y, m, d) = self.moved(delta);
        let moved_month = y != self.year || m != self.month;
        if !moved_month && d == self.focus_day {
            (self, OutcomeView::Ignored)
        } else {
            (
                CalendarModel { year: y, month: m, focus_day: d, hovered: None, ..self },
                if moved_month {
                    OutcomeView::Action(MONTH_ACTION@, Some(fmt_month(y, m)))
                } else {
                    OutcomeView::Changed
                },
            )
        }
    }

    /// Choosing day `day` (clamped into the month): it becomes the selection
    /// and the focus; `changed` with the date unless already selected.
    pub open spec fn choose_day(self, day: int) -> (CalendarModel, OutcomeView) {
        let d = clamp(day, 1, self.dim());
        let m = CalendarModel { selected: Some((self.year, self.month, d)), focus_day: d, ..self };
        if self.selected == Some((self.year, self.month, d)) {
            (m, OutcomeView::Changed)
        } else {
            (m, OutcomeView::Action(CHANGED_ACTION@, Some(fmt_date(self.year, self.month, d))))
        }
    }

    /// The day offset a navigation key moves by (0 for other keys).
    pub open spec fn key_delta(key: u32) -> int {
        if key == keys::ARROW_LEFT {
            -1
        } else if key == keys::ARROW_RIGHT {
            1
        } else if key == keys::ARROW_UP {
            -7
        } else if key == keys::ARROW_DOWN {
            7
        } else {
            0
        }
    }

    /// Whether handling `key` would leave the `i32` year range.
    pub open spec fn key_overflows(self, key: u32) -> bool {
        if key == keys::PAGE_UP {
            self.shift_overflows(false)
        } else if key == keys::PAGE_DOWN {
            self.shift_overflows(true)
        } else if Self::key_delta(key) != 0 {
            self.move_overflows(Self::key_delta(key))
        } else {
            false
        }
    }

    /// The keyboard transition.
    pub open spec fn on_key(self, key: KeyInput) -> (CalendarModel, OutcomeView) {
        let k = key.key;
        if self.disabled {
            (self, OutcomeView::Ignored)
        } else if Self::key_delta(k) != 0 {
            self.move_focus(Self::key_delta(k))
        } else if k == keys::HOME {
            if self.focus_day == 1 {
                (self, OutcomeView::Ignored)
            } else {
                (CalendarModel { focus_day: 1, ..self }, OutcomeView::Changed)
            }
        } else if k == keys::END {
            if self.focus_day == self.dim() {
                (self, OutcomeView::Ignored)
            } else {
                (CalendarModel { focus_day: self.dim(), ..self }, OutcomeView::Changed)
            }
        } else if k == keys::PAGE_UP {
            self.shift_month(false)
        } else if k == keys::PAGE_DOWN {
            self.shift_month(true)
        } else if k == keys::ENTER || k == keys::SPACE {
            self.choose_day(self.focus_day)
        } else {
            (self, OutcomeView::Ignored)
        }
    }

    /// Pointer move over day `hit`.
    pub open spec fn on_move(self, hit: Option<int>) -> (CalendarModel, OutcomeView) {
        if self.disabled || hit == self.hovered {
            (self, OutcomeView::Ignored)
        } else {
            (CalendarModel { hovered: hit, ..self }, OutcomeView::Changed)
        }
    }

    /// Pointer leaving the calendar.
    pub open spec fn on_leave(self) -> (CalendarModel, OutcomeView) {
        if self.disabled || self.hovered is None {
            (self, OutcomeView::Ignored)
        } else {
            (CalendarModel { hovered: None, ..self }, OutcomeView::Changed)
        }
    }

    /// Left click on `hit`.
    pub open spec fn on_click(self, hit: Option<CalendarHit>) -> (CalendarModel, OutcomeView) {
        if self.disabled {
            (self, OutcomeView::Ignored)
        } else {
            match hit {
                Some(CalendarHit::Prev) => self.shift_month(false),
                Some(CalendarHit::Next) => self.shift_month(true),
                Some(CalendarHit::Day(d)) => self.choose_day(d as int),
                None => (self, OutcomeView::Ignored),
            }
        }
    }

    /// Whether `c` renders day `d` of the displayed month.
    pub open spec fn day_rendered(self, d: int, c: Node) -> bool {
        let sel = self.selected == Some((self.year, self.month, d));
        let today = self.today == Some((self.year, self.month, d));
        &&& c.tag@ == "lq-cal-day"@
        &&& c.key matches Some(k) && k@ == "day-"@ + year_text(self.year) + seq!['-'] + dec(
            self.month as nat,
        ) + seq!['-'] + dec(d as nat)
        &&& c.attr_views() == seq![
            ("data-part"@, "day-"@ + dec(d as nat)),
            ("data-day"@, dec(d as nat)),
            ("role"@, "gridcell"@),
            ("aria-selected"@, bool_str(sel)),
        ]
        &&& c.class_views() == (if sel { seq!["selected"@] } else { Seq::empty() }) + (if today {
            seq!["today"@]
        } else {
            Seq::empty()
        })
        &&& c.pseudo == (Pseudo {
            hover: self.hovered == Some(d) && !self.disabled,
            active: today,
            focus: self.focus_day == d && !self.disabled,
            checked: sel,
            disabled: false,
        })
        &&& c.children@.len() == 1
        &&& c.first_text() == dec(d as nat)
    }
}

impl MonthCalendar {
    /// The abstract state.
    pub closed spec fn model(&self) -> CalendarModel {
        CalendarModel {
            year: self.view.0 as int,
            month: self.view.1 as int,
            selected: opt_date(self.selected),
            focus_day: self.focus_day as int,
            today: opt_date(self.today),
            hovered: match self.hovered {
                Some(d) => Some(d as int),
                None => None,
            },
            disabled: self.disabled,
        }
    }
}

fn clamp_u32(v: u32, lo: u32, hi: u32) -> (r: u32)
    requires
        lo <= hi,
    ensures
        r as int == clamp(v as int, lo as int, hi as int),
{
    if v < lo {
        lo
    } else if v > hi {
        hi
    } else {
        v
    }
}

impl MonthCalendar {
    /// The representation invariant.
    pub open spec fn wf(&self) -> bool {
        self.model().valid()
    }

    /// A calendar showing `year`/`month` (clamped into 1..=12), nothing
    /// selected, focus on day 1.
    pub fn new(year: i32, month: u32) -> (r: MonthCalendar)
        ensures
            r.wf(),
            r.model() == (CalendarModel {
                year: year as int,
                month: clamp(month as int, 1, 12),
                selected: None,
                focus_day: 1,
                today: None,
                hovered: None,
                disabled: false,
            }),
    {
        let month = clamp_u32(month, 1, 12);
        MonthCalendar { view: (year, month), selected: None, focus_day: 1, today: None, hovered: None, disabled: false }
    }

    /// Pre-selects a date (month clamped into 1..=12, day into the month);
    /// the calendar shows its month with the focus on it.
    pub fn select(self, year: i32, month: u32, day: u32) -> (r: MonthCalendar)
        requires
            self.wf(),
        ensures
            r.wf(),
            ({
                let m = clamp(month as int, 1, 12);
                let d = clamp(day as int, 1, spec_days_in_month(year as int, m));
                r.model() == CalendarModel {
                    year: year as int,
                    month: m,
                    selected: Some((year as int, m, d)),
                    focus_day: d,
                    ..self.model()
                }
            }),
    {
        let month = clamp_u32(month, 1, 12);
        let dim = days_in_month(year, month);
        let day = clamp_u32(day, 1, dim);
        MonthCalendar { selected: Some((year, month, day)), view: (year, month), focus_day: day, ..self }
    }

    /// Marks a date as "today" (month and day clamped).
    pub fn today(self, year: i32, month: u32, day: u32) -> (r: MonthCalendar)
        requires
            self.wf(),
        ensures
            r.wf(),
            ({
                let m = clamp(month as int, 1, 12);
                let d = clamp(day as int, 1, spec_days_in_month(year as int, m));
                r.model() == CalendarModel { today: Some((year as int, m, d)), ..self.model() }
            }),
    {
        let month = clamp_u32(month, 1, 12);
        let dim = days_in_month(year, month);
        let day = clamp_u32(day, 1, dim);
        MonthCalendar { today: Some((year, month, day)), ..self }
    }

    /// Marks the calendar disabled (or enabled).
    pub fn disabled(self, d: bool) -> (r: MonthCalendar)
        requires
            self.wf(),
        ensures
            r.wf(),
            r.model() == (CalendarModel { disabled: d, ..self.model() }),
    {
        MonthCalendar { disabled: d, ..self }
    }

    /// The displayed (year, month).
    pub fn view(&self) -> (r: (i32, u32))
        ensures
            r.0 as int == self.model().year && r.1 as int == self.model().month,
    {
        self.view
    }

    /// The selected date, if any.
    pub fn selected(&self) -> (r: Option<(i32, u32, u32)>)
        ensures
            opt_date(r) == self.model().selected,
    {
        self.selected
    }

    /// The keyboard-focused day.
    pub fn focus_day(&self) -> (r: u32)
        ensures
            r as int == self.model().focus_day,
    {
        self.focus_day
    }

    /// The widget family.
    pub fn kind(&self) -> (r: WidgetKind)
        ensures
            r == WidgetKind::Other,
    {
        WidgetKind::Other
    }

    /// Whether the calendar takes focus (unless disabled).
    pub fn focusable(&self) -> (r: bool)
        ensures
            r == !self.model().disabled,
    {
        !self.disabled
    }

    /// Whether stepping the displayed month forward (back) would leave the
    /// `i32` year range.
    pub fn shift_overflows(&self, forward: bool) -> (r: bool)
        requires
            self.wf(),
        ensures
            r == self.model().shift_overflows(forward),
    {
        let (y, m) = self.view;
        if forward {
            m == 12 && y == i32::MAX
        } else {
            m == 1 && y == i32::MIN
        }
    }

    /// Whether handling `key` would leave the `i32` year range.
    pub fn key_overflows(&self, key: u32) -> (r: bool)
        requires
            self.wf(),
        ensures
            r == self.model().key_overflows(key),
    {
        if key == keys::PAGE_UP {
            return self.shift_overflows(false);
        }
        if key == keys::PAGE_DOWN {
            return self.shift_overflows(true);
        }
        let delta: i32 = if key == keys::ARROW_LEFT {
            -1
        } else if key == keys::ARROW_RIGHT {
            1
        } else if key == keys::ARROW_UP {
            -7
        } else if key == keys::ARROW_DOWN {
            7
        } else {
            0
        };
        if delta == 0 {
            return false;
        }
        let (y, m) = self.view;
        let d = self.focus_day as i32 + delta;
        if d < 1 {
            self.shift_overflows(false)
        } else if d > days_in_month(y, m) as i32 {
            self.shift_overflows(true)
        } else {
            false
        }
    }

    fn shifted(&self, forward: bool) -> (r: (i32, u32))
        requires
            self.wf(),
            !self.model().shift_overflows(forward),
        ensures
            (r.0 as int, r.1 as int) == self.model().shifted(forward),
            1 <= r.1 <= 12,
    {
        let (y, m) = self.view;
        if forward {
            if m == 12 { (y + 1, 1) } else { (y, m + 1) }
        } else {
            if m == 1 { (y - 1, 12) } else { (y, m - 1) }
        }
    }

    fn shift_month(&mut self, forward: bool) -> (out: WidgetOutcome)
        requires
            old(self).wf(),
            !old(self).model().shift_overflows(forward),
        ensures
            final(self).wf(),
            (final(self).model(), out@) == old(self).model().shift_month(forward),
    {
        let (y, m) = self.shifted(forward);
        let dim = days_in_month(y, m);
        self.view = (y, m);
        self.focus_day = clamp_u32(self.focus_day, 1, dim);
        self.hovered = None;
        WidgetOutcome::action_with(MONTH_ACTION, format_month(y, m))
    }

    fn choose_day(&mut self, day: u32) -> (out: WidgetOutcome)
        requires
            old(self).wf(),
        ensures
            final(self).wf(),
            (final(self).model(), out@) == old(self).model().choose_day(day as int),
    {
        let (y, m) = self.view;
        let dim = days_in_month(y, m);
        let d = clamp_u32(day, 1, dim);
        let changed = self.selected != Some((y, m, d));
        self.selected = Some((y, m, d));
        self.focus_day = d;
        if changed {
            WidgetOutcome::action_with(CHANGED_ACTION, format_date(y, m, d))
        } else {
            WidgetOutcome::Changed
        }
    }

    fn move_focus(&mut self, delta: i32) -> (out: WidgetOutcome)
        requires
            old(self).wf(),
            -7 <= delta <= 7,
            !old(self).model().move_overflows(delta as int),
        ensures
            final(self).wf(),
            (final(self).model(), out@) == old(self).model().move_focus(delta as int),
    {
        let (y0, m0) = self.view;
        let dim0 = days_in_month(y0, m0);
        let d = self.focus_day as i32 + delta;
        let (y, m, nd): (i32, u32, u32) = if d < 1 {
            let (py, pm) = if m0 == 1 { (y0 - 1, 12u32) } else { (y0, m0 - 1) };
            let pdim = days_in_month(py, pm);
            (py, pm, (d + pdim as i32) as u32)
        } else if d > dim0 as i32 {
            let (ny, nm) = if m0 == 12 { (y0 + 1, 1u32) } else { (y0, m0 + 1) };
            (ny, nm, (d - dim0 as i32) as u32)
        } else {
            (y0, m0, d as u32)
        };
        let moved_month = y != y0 || m != m0;
        if !moved_month && nd == self.focus_day {
            return WidgetOutcome::Ignored;
        }
        self.view = (y, m);
        self.focus_day = nd;
        self.hovered = None;
        if moved_month {
            WidgetOutcome::action_with(MONTH_ACTION, format_month(y, m))
        } else {
            WidgetOutcome::Changed
        }
    }

    /// Handles a key press.
    pub fn on_keyboard(&mut self, key: KeyInput) -> (out: WidgetOutcome)
        requires
            old(self).wf(),
            !old(self).model().disabled ==> !old(self).model().key_overflows(key.key),
        ensures
            final(self).wf(),
            (final(self).model(), out@) == old(self).model().on_key(key),
    {
        if self.disabled {
            return WidgetOutcome::Ignored;
        }
        let k = key.key;
        if k == keys::ARROW_LEFT {
            self.move_focus(-1)
        } else if k == keys::ARROW_RIGHT {
            self.move_focus(1)
        } else if k == keys::ARROW_UP {
            self.move_focus(-7)
        } else if k == keys::ARROW_DOWN {
            self.move_focus(7)
        } else if k == keys::HOME {
            if self.focus_day == 1 {
                WidgetOutcome::Ignored
            } else {
                self.focus_day = 1;
                WidgetOutcome::Changed
            }
        } else if k == keys::END {
            let last = days_in_month(self.view.0, self.view.1);
            if self.focus_day == last {
                WidgetOutcome::Ignored
            } else {
                self.focus_day = last;
                WidgetOutcome::Changed
            }
        } else if k == keys::PAGE_UP {
            self.shift_month(false)
        } else if k == keys::PAGE_DOWN {
            self.shift_month(true)
        } else if k == keys::ENTER || k == keys::SPACE {
            let f = self.focus_day;
            self.choose_day(f)
        } else {
            WidgetOutcome::Ignored
        }
    }

    /// Handles the pointer moving over day `hit` (or over no day cell).
    pub fn on_mouse_move(&mut self, hit: Option<u32>) -> (out: WidgetOutcome)
        requires
            old(self).wf(),
            hit matches Some(d) ==> 1 <= d <= old(self).model().dim(),
        ensures
            final(self).wf(),
            (final(self).model(), out@) == old(self).model().on_move(match hit {
                Some(d) => Some(d as int),
                None => None,
            }),
    {
        if self.disabled || hit == self.hovered {
            return WidgetOutcome::Ignored;
        }
        self.hovered = hit;
        WidgetOutcome::Changed
    }

    /// Handles the pointer leaving the calendar.
    pub fn on_mouse_leave(&mut self) -> (out: WidgetOutcome)
        requires
            old(self).wf(),
        ensures
            final(self).wf(),
            (final(self).model(), out@) == old(self).model().on_leave(),
    {
        if self.disabled || self.hovered.is_none() {
            return WidgetOutcome::Ignored;
        }
        self.hovered = None;
        WidgetOutcome::Changed
    }

    /// Handles a left click on `hit` (prev/next button or a day cell).
    pub fn on_click(&mut self, hit: Option<CalendarHit>) -> (out: WidgetOutcome)
        requires
            old(self).wf(),
            !old(self).model().disabled && hit == Some(CalendarHit::Prev)
                ==> !old(self).model().shift_overflows(false),
            !old(self).model().disabled && hit == Some(CalendarHit::Next)
                ==> !old(self).model().shift_overflows(true),
        ensures
            final(self).wf(),
            (final(self).model(), out@) == old(self).model().on_click(hit),
    {
        if self.disabled {
            return WidgetOutcome::Ignored;
        }
        match hit {
            Some(CalendarHit::Prev) => self.shift_month(false),
            Some(CalendarHit::Next) => self.shift_month(true),
            Some(CalendarHit::Day(d)) => self.choose_day(d),
            None => WidgetOutcome::Ignored,
        }
    }

    fn render_day(&self, d: u32) -> (r: Node)
        requires
            self.wf(),
            1 <= d <= self.model().dim(),
        ensures
            self.model().day_rendered(d as int, r),
    {
        let (vy, vm) = self.view;
        let is_sel = self.selected == Some((vy, vm, d));
        let is_focus = self.focus_day == d && !self.disabled;
        let is_today = self.today == Some((vy, vm, d));
        let mut key = "day-".to_string();
        push_year(&mut key, vy);
        push_char(&mut key, '-');
        push_decimal(&mut key, vm as usize);
        push_char(&mut key, '-');
        push_decimal(&mut key, d as usize);
        assert(key@ =~= "day-"@ + year_text(vy as int) + seq!['-'] + dec(vm as nat) + seq!['-'] + dec(d as nat));
        let part = prefixed("day-", d as usize);
        let dd = crate::text::decimal(d as usize);
        let cell = Node::el("lq-cal-day")
            .key(key.as_str())
            .attr("data-part", part.as_str())
            .attr("data-day", dd.as_str())
            .attr("role", "gridcell")
            .attr("aria-selected", bool_text(is_sel))
            .class_if("selected", is_sel)
            .class_if("today", is_today)
            .pseudo_if(PseudoFlag::Checked, is_sel)
            .pseudo_if(PseudoFlag::Focus, is_focus)
            .pseudo_if(PseudoFlag::Active, is_today)
            .pseudo_if(PseudoFlag::Hover, self.hovered == Some(d) && !self.disabled)
            .child(Node::text(dd.as_str()));
        assert(cell.attr_views() =~= seq![
            ("data-part"@, "day-"@ + dec(d as nat)),
            ("data-day"@, dec(d as nat)),
            ("role"@, "gridcell"@),
            ("aria-selected"@, bool_str(is_sel)),
        ]);
        assert(cell.class_views() =~= (if is_sel { seq!["selected"@] } else { Seq::<Seq<char>>::empty() }) + (
        if is_today {
            seq!["today"@]
        } else {
            Seq::<Seq<char>>::empty()
        }));
        cell
    }

    /// The render tree: an `lq-month-calendar` (grid role, `data-view` the
    /// displayed `YYYY-MM`) with a navigation header (prev, "Month YYYY"
    /// title, next), a weekday row (Su..Sa) and the day grid: one blank per
    /// weekday before the 1st, then one rendered cell per day.
    pub fn render(&self) -> (r: Node)
        requires
            self.wf(),
        ensures
            r.tag@ == "lq-month-calendar"@,
            r.attr_views() == seq![
                ("role"@, "grid"@),
                ("data-view"@, fmt_month(self.model().year, self.model().month)),
                (FOCUSABLE_ATTR@, bool_str(!self.model().disabled)),
            ] + (if self.model().disabled { seq![("disabled"@, "true"@)] } else { Seq::empty() }),
            r.pseudo.disabled == self.model().disabled,
            r.children@.len() == 3,
            ({
                let nav = r.children@[0];
                &&& nav.tag@ == "lq-cal-nav"@
                &&& nav.children@.len() == 3
                &&& nav.children@[0].tag@ == "lq-cal-prev"@
                &&& nav.children@[0].attr_views() == seq![
                    ("data-part"@, "prev"@),
                    ("role"@, "button"@),
                    ("aria-label"@, "Previous month"@),
                ]
                &&& nav.children@[0].children@.len() == 1
                &&& nav.children@[0].first_text() == "\u{2039}"@
                &&& nav.children@[1].tag@ == "lq-cal-title"@
                &&& nav.children@[1].attr_views() == seq![("data-part"@, "title"@)]
                &&& nav.children@[1].children@.len() == 1
                &&& nav.children@[1].first_text() == month_names()[self.model().month - 1] + seq![' '] + year_text(
                    self.model().year,
                )
                &&& nav.children@[2].tag@ == "lq-cal-next"@
                &&& nav.children@[2].attr_views() == seq![
                    ("data-part"@, "next"@),
                    ("role"@, "button"@),
                    ("aria-label"@, "Next month"@),
                ]
                &&& nav.children@[2].children@.len() == 1
                &&& nav.children@[2].first_text() == "\u{203A}"@
            }),
            ({
                let wk = r.children@[1];
                &&& wk.tag@ == "lq-cal-weekdays"@
                &&& wk.attr_views() == seq![("data-part"@, "weekdays"@)]
                &&& wk.children@.len() == 7
                &&& forall|i: int|
                    0 <= i < 7 ==> {
                        &&& (#[trigger] wk.children@[i]).tag@ == "lq-cal-weekday"@
                        &&& wk.children@[i].has_key("wd-"@ + dec(i as nat))
                        &&& wk.children@[i].children@.len() == 1
                        &&& wk.children@[i].first_text() == weekday_names()[i]
                    }
            }),
            ({
                let grid = r.children@[2];
                let lead = weekday(self.model().year, self.model().month, 1);
                &&& grid.tag@ == "lq-cal-grid"@
                &&& grid.attr_views() == seq![("data-part"@, "grid"@)]
                &&& grid.children@.len() == lead + self.model().dim()
                &&& forall|b: int|
                    0 <= b < lead ==> {
                        &&& (#[trigger] grid.children@[b]).tag@ == "lq-cal-blank"@
                        &&& grid.children@[b].has_key("blank-"@ + dec(b as nat))
                        &&& grid.children@[b].attr_views() == seq![("data-part"@, "blank"@)]
                    }
                &&& forall|d: int|
                    1 <= d <= self.model().dim() ==> self.model().day_rendered(d, #[trigger] grid.children@[lead + d - 1])
            }),
    {
        let (vy, vm) = self.view;
        let data_view = format_month(vy, vm);
        let mut root = Node::el("lq-month-calendar")
            .attr("role", "grid")
            .attr("data-view", data_view.as_str())
            .attr(FOCUSABLE_ATTR, bool_text(!self.disabled))
            .pseudo_if(PseudoFlag::Disabled, self.disabled);
        let mut title = month_name(vm).to_string();
        push_char(&mut title, ' ');
        push_year(&mut title, vy);
        let prev = Node::el("lq-cal-prev")
            .attr("data-part", "prev")
            .attr("role", "button")
            .attr("aria-label", "Previous month")
            .child(Node::text("\u{2039}"));
        assert(prev.attr_views() =~= seq![
            ("data-part"@, "prev"@),
            ("role"@, "button"@),
            ("aria-label"@, "Previous month"@),
        ]);
        let next = Node::el("lq-cal-next")
            .attr("data-part", "next")
            .attr("role", "button")
            .attr("aria-label", "Next month")
            .child(Node::text("\u{203A}"));
        assert(next.attr_views() =~= seq![
            ("data-part"@, "next"@),
            ("role"@, "button"@),
            ("aria-label"@, "Next month"@),
        ]);
        let title_node = Node::el("lq-cal-title").attr("data-part", "title").child(Node::text(title.as_str()));
        assert(title_node.attr_views() =~= seq![("data-part"@, "title"@)]);
        let header = Node::el("lq-cal-nav").child(prev).child(title_node).child(next);
        root = root.child(header);

        let mut wk = Node::el("lq-cal-weekdays").attr("data-part", "weekdays");
        assert(wk.attr_views() =~= seq![("data-part"@, "weekdays"@)]);
        let mut i: usize = 0;
        while i < 7
            invariant
                i <= 7,
                wk.tag@ == "lq-cal-weekdays"@,
                wk.attr_views() == seq![("data-part"@, "weekdays"@)],
                wk.children@.len() == i,
                forall|k: int|
                    0 <= k < i ==> {
                        &&& (#[trigger] wk.children@[k]).tag@ == "lq-cal-weekday"@
                        &&& wk.children@[k].has_key("wd-"@ + dec(k as nat))
                        &&& wk.children@[k].children@.len() == 1
                        &&& wk.children@[k].first_text() == weekday_names()[k]
                    },
            decreases 7 - i,
        {
            let key = prefixed("wd-", i);
            let ghost before = wk.children@;
            wk = wk.child(Node::el("lq-cal-weekday").key(key.as_str()).child(Node::text(weekday_name(i))));
            assert forall|k: int| 0 <= k < i implies wk.children@[k] == before[k] by {}
            i = i + 1;
        }
        root = root.child(wk);

        let mut grid = Node::el("lq-cal-grid").attr("data-part", "grid");
        assert(grid.attr_views() =~= seq![("data-part"@, "grid"@)]);
        let lead = day_of_week_first(vy, vm);
        let mut b: u32 = 0;
        while b < lead
            invariant
                b <= lead < 7,
                grid.tag@ == "lq-cal-grid"@,
                grid.attr_views() == seq![("data-part"@, "grid"@)],
                grid.children@.len() == b,
                forall|k: int|
                    0 <= k < b ==> {
                        &&& (#[trigger] grid.children@[k]).tag@ == "lq-cal-blank"@
                        &&& grid.children@[k].has_key("blank-"@ + dec(k as nat))
                        &&& grid.children@[k].attr_views() == seq![("data-part"@, "blank"@)]
                    },
            decreases lead - b,
        {
            let key = prefixed("blank-", b as usize);
            let blank = Node::el("lq-cal-blank").key(key.as_str()).attr("data-part", "blank");
            assert(blank.attr_views() =~= seq![("data-part"@, "blank"@)]);
            let ghost before = grid.children@;
            grid = grid.child(blank);
            assert forall|k: int| 0 <= k < b implies grid.children@[k] == before[k] by {}
            b = b + 1;
        }
        let dim = days_in_month(vy, vm);
        let mut d: u32 = 1;
        while d <= dim
            invariant
                self.wf(),
                dim as int == self.model().dim(),
                1 <= d <= dim + 1,
                lead as int == weekday(self.model().year, self.model().month, 1),
                grid.tag@ == "lq-cal-grid"@,
                grid.attr_views() == seq![("data-part"@, "grid"@)],
                grid.children@.len() == lead + d - 1,
                forall|k: int|
                    0 <= k < lead ==> {
                        &&& (#[trigger] grid.children@[k]).tag@ == "lq-cal-blank"@
                        &&& grid.children@[k].has_key("blank-"@ + dec(k as nat))
                        &&& grid.children@[k].attr_views() == seq![("data-part"@, "blank"@)]
                    },
                forall|e: int| 1 <= e < d ==> self.model().day_rendered(e, #[trigger] grid.children@[lead + e - 1]),
            decreases dim + 1 - d,
        {
            let cell = self.render_day(d);
            let ghost before = grid.children@;
            grid = grid.child(cell);
            assert forall|k: int| 0 <= k < lead implies grid.children@[k] == before[k] by {}
            d = d + 1;
        }
        root = root.child(grid);
        if self.disabled {
            root = root.attr("disabled", "true");
        }
        assert(root.attr_views() =~= seq![
                ("role"@, "grid"@),
                ("data-view"@, fmt_month(self.model().year, self.model().month)),
                (FOCUSABLE_ATTR@, bool_str(!self.model().disabled)),
            ] + (if self.model().disabled { seq![("disabled"@, "true"@)] } else { Seq::empty() }));
        root
    }
}

/// The focused date of a calendar state.
pub open spec fn focused_date(m: CalendarModel) -> (int, int, int) {
    (m.year, m.month, m.focus_day)
}

/// Focus moves are reversible across month and year boundaries: Right then
/// Left, and Down then Up, return the focus to the same date.
pub proof fn lemma_focus_moves_reverse(m: CalendarModel, mods: u32)
    requires
        m.valid(),
        !m.disabled,
        !m.move_overflows(1),
        !m.move_overflows(7),
    ensures
        focused_date(
            m.on_key(KeyInput { key: keys::ARROW_RIGHT, modifiers: mods }).0.on_key(
                KeyInput { key: keys::ARROW_LEFT, modifiers: mods },
            ).0,
        ) == focused_date(m),
        focused_date(
            m.on_key(KeyInput { key: keys::ARROW_DOWN, modifiers: mods }).0.on_key(
                KeyInput { key: keys::ARROW_UP, modifiers: mods },
            ).0,
        ) == focused_date(m),
{
}

/// PageDown then PageUp shows the same month again.
pub proof fn lemma_page_down_then_up(m: CalendarModel, mods: u32)
    requires
        m.valid(),
        !m.disabled,
        !m.shift_overflows(true),
    ensures
        ({
            let r = m.on_key(KeyInput { key: keys::PAGE_DOWN, modifiers: mods }).0.on_key(
                KeyInput { key: keys::PAGE_UP, modifiers: mods },
            ).0;
            r.year == m.year && r.month == m.month
        }),
{
}

/// Every handled key keeps the calendar valid: the focus stays a day of the
/// displayed month and the selection a date.
pub proof fn lemma_keys_keep_valid(m: CalendarModel, key: KeyInput)
    requires
        m.valid(),
        !m.key_overflows(key.key),
    ensures
        m.on_key(key).0.valid(),
{
}

/// The focused date's day number.
pub open spec fn focus_serial(m: CalendarModel) -> int {
    day_number(m.year, m.month, m.focus_day)
}

/// Moving the focus by up to a week lands on a date exactly `delta` days
/// later (or earlier) in the continuous calendar, across month and year
/// boundaries.
pub proof fn lemma_moved_counts_days(m: CalendarModel, delta: int)
    requires
        m.valid(),
        -7 <= delta <= 7,
    ensures
        ({
            let (y, mo, d) = m.moved(delta);
            &&& is_date(y, mo, d)
            &&& day_number(y, mo, d) == focus_serial(m) + delta
        }),
{
    let d = m.focus_day + delta;
    if d < 1 {
        if m.month == 1 {
            lemma_year_length(m.year - 1);
        }
    } else if d > m.dim() {
        if m.month == 12 {
            lemma_year_length(m.year);
        }
    }
}

/// The arrow keys move the focused date by one day (Left/Right) or one week
/// (Up/Down) in the continuous calendar, keep it a date of the displayed
/// month, and leave the selection alone.
pub proof fn lemma_arrows_move_by_days(m: CalendarModel, key: KeyInput)
    requires
        m.valid(),
        !m.disabled,
        CalendarModel::key_delta(key.key) != 0,
    ensures
        focus_serial(m.on_key(key).0) == focus_serial(m) + CalendarModel::key_delta(key.key),
        1 <= m.on_key(key).0.focus_day <= m.on_key(key).0.dim(),
        m.on_key(key).0.selected == m.selected,
{
    lemma_moved_counts_days(m, CalendarModel::key_delta(key.key));
}

/// Home jumps the focus to the first day of the displayed month and End to
/// its last day; the displayed month and the selection stay. The outcome is a
/// re-render when the focus moved and `Ignored` when it was already there.
pub proof fn lemma_home_end_jump(m: CalendarModel, mods: u32)
    requires
        m.valid(),
        !m.disabled,
    ensures
        ({
            let (h, ho) = m.on_key(KeyInput { key: keys::HOME, modifiers: mods });
            &&& h.focus_day == 1
            &&& h.year == m.year && h.month == m.month && h.selected == m.selected
            &&& ho == (if m.focus_day == 1 { OutcomeView::Ignored } else { OutcomeView::Changed })
        }),
        ({
            let (e, eo) = m.on_key(KeyInput { key: keys::END, modifiers: mods });
            &&& e.focus_day == spec_days_in_month(m.year, m.month)
            &&& e.year == m.year && e.month == m.month && e.selected == m.selected
            &&& eo == (if m.focus_day == spec_days_in_month(m.year, m.month) {
                OutcomeView::Ignored
            } else {
                OutcomeView::Changed
            })
        }),
{
}

/// Each arrow key moves the focused date by its own fixed number of days:
/// Left one back, Right one forward, Up seven back, Down seven forward.
pub proof fn lemma_arrow_offsets(m: CalendarModel, mods: u32)
    requires
        m.valid(),
        !m.disabled,
        !m.move_overflows(-1),
        !m.move_overflows(1),
        !m.move_overflows(-7),
        !m.move_overflows(7),
    ensures
        focus_serial(m.on_key(KeyInput { key: keys::ARROW_LEFT, modifiers: mods }).0) == focus_serial(m) - 1,
        focus_serial(m.on_key(KeyInput { key: keys::ARROW_RIGHT, modifiers: mods }).0) == focus_serial(m) + 1,
        focus_serial(m.on_key(KeyInput { key: keys::ARROW_UP, modifiers: mods }).0) == focus_serial(m) - 7,
        focus_serial(m.on_key(KeyInput { key: keys::ARROW_DOWN, modifiers: mods }).0) == focus_serial(m) + 7,
{
    lemma_moved_counts_days(m, -1);
    lemma_moved_counts_days(m, 1);
    lemma_moved_counts_days(m, -7);
    lemma_moved_counts_days(m, 7);
}

/// PageUp shows the previous month and PageDown the next one (rolling the
/// year over), announcing the new month; the focused day is kept when the
/// new month has it and otherwise clamped to its last day.
pub proof fn lemma_page_keys_step_month(m: CalendarModel, mods: u32)
    requires
        m.valid(),
        !m.disabled,
    ensures
        !m.shift_overflows(false) ==> ({
            let (p, po) = m.on_key(KeyInput { key: keys::PAGE_UP, modifiers: mods });
            let (py, pm) = if m.month == 1 { (m.year - 1, 12int) } else { (m.year, m.month - 1) };
            &&& p.year == py && p.month == pm
            &&& p.focus_day == (if m.focus_day <= spec_days_in_month(py, pm) { m.focus_day } else { spec_days_in_month(py, pm) })
            &&& p.selected == m.selected
            &&& po == OutcomeView::Action(MONTH_ACTION@, Some(fmt_month(py, pm)))
        }),
        !m.shift_overflows(true) ==> ({
            let (n, no) = m.on_key(KeyInput { key: keys::PAGE_DOWN, modifiers: mods });
            let (ny, nm) = if m.month == 12 { (m.year + 1, 1int) } else { (m.year, m.month + 1) };
            &&& n.year == ny && n.month == nm
            &&& n.focus_day == (if m.focus_day <= spec_days_in_month(ny, nm) { m.focus_day } else { spec_days_in_month(ny, nm) })
            &&& n.selected == m.selected
            &&& no == OutcomeView::Action(MONTH_ACTION@, Some(fmt_month(ny, nm)))
        }),
{
}

/// Enter and Space select the focused date (without moving the focus or the
/// displayed month) and report it, unless it already was the selection.
pub proof fn lemma_enter_selects_focus(m: CalendarModel, key: KeyInput)
    requires
        m.valid(),
        !m.disabled,
        key.key == keys::ENTER || key.key == keys::SPACE,
    ensures
        ({
            let (n, out) = m.on_key(key);
            &&& n.selected == Some((m.year, m.month, m.focus_day))
            &&& n.year == m.year && n.month == m.month && n.focus_day == m.focus_day
            &&& out == (if m.selected == Some((m.year, m.month, m.focus_day)) {
                OutcomeView::Changed
            } else {
                OutcomeView::Action(CHANGED_ACTION@, Some(fmt_date(m.year, m.month, m.focus_day)))
            })
        }),
{
}

/// A click on day `d` of an enabled calendar selects that date of the
/// displayed month (clamped into it) and focuses it; a click on Prev or Next
/// shows the previous or next month.
pub proof fn lemma_clicks_select_and_navigate(m: CalendarModel, d: u32)
    requires
        m.valid(),
        !m.disabled,
    ensures
        1 <= d <= spec_days_in_month(m.year, m.month) ==> m.on_click(Some(CalendarHit::Day(d))).0.selected == Some(
            (m.year, m.month, d as int),
        ) && m.on_click(Some(CalendarHit::Day(d))).0.focus_day == d,
        m.on_click(Some(CalendarHit::Day(d))).0.year == m.year,
        m.on_click(Some(CalendarHit::Day(d))).0.month == m.month,
        m.on_click(Some(CalendarHit::Prev)).0.month == (if m.month == 1 { 12 } else { m.month - 1 }),
        m.on_click(Some(CalendarHit::Next)).0.month == (if m.month == 12 { 1 } else { m.month + 1 }),
        m.on_click(Some(CalendarHit::Prev)).0.year == (if m.month == 1 { m.year - 1 } else { m.year }),
        m.on_click(Some(CalendarHit::Next)).0.year == (if m.month == 12 { m.year + 1 } else { m.year }),
{
}

} // verus!
