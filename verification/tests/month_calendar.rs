use liquide_widgets::behavior::{KeyInput, WidgetOutcome};
use liquide_widgets::calendar::{day_of_week_first, days_in_month, format_date, is_leap};
use liquide_widgets::keys;
use liquide_widgets::month_calendar::{CalendarHit, MonthCalendar, CHANGED_ACTION, MONTH_ACTION};
use liquide_widgets::node::Node;

fn actions(o: WidgetOutcome) -> Vec<(String, Option<String>)> {
    match o {
        WidgetOutcome::Action { name, payload } => vec![(name, payload)],
        _ => Vec::new(),
    }
}

fn attr<'a>(n: &'a Node, k: &str) -> Option<&'a str> {
    n.attrs.iter().find(|(a, _)| a == k).map(|(_, v)| v.as_str())
}

/// The rendered cell of day `d`, if the grid has one.
fn day(c: &MonthCalendar, d: u32) -> Option<Node> {
    let root = c.render();
    let grid = root.children.into_iter().nth(2).expect("grid");
    let part = format!("day-{d}");
    grid.children.into_iter().find(|n| attr(n, "data-part") == Some(part.as_str()))
}

#[test]
fn days_are_always_visible() {
    let c = MonthCalendar::new(2026, 6);
    assert!(day(&c, 1).is_some());
    assert!(day(&c, 30).is_some(), "June has 30 days");
    assert!(day(&c, 31).is_none(), "June has no 31st");
}

#[test]
fn click_day_selects() {
    let mut c = MonthCalendar::new(2026, 6);
    let a = actions(c.on_click(Some(CalendarHit::Day(15))));
    let ch = a.iter().find(|a| a.0 == CHANGED_ACTION).expect("changed");
    assert_eq!(ch.1.as_deref(), Some("2026-06-15"));
    assert_eq!(c.selected(), Some((2026, 6, 15)));
}

#[test]
fn day_hit_comes_from_layout_not_constant() {
    // The host resolves the click against day-10's laid-out cell.
    let mut c = MonthCalendar::new(2026, 6);
    let a = actions(c.on_click(Some(CalendarHit::Day(10))));
    assert_eq!(a.iter().find(|a| a.0 == CHANGED_ACTION).unwrap().1.as_deref(), Some("2026-06-10"));
}

#[test]
fn nav_changes_month_and_rolls_year() {
    let mut c = MonthCalendar::new(2026, 12);
    let a = actions(c.on_click(Some(CalendarHit::Next)));
    assert!(a.iter().any(|a| a.0 == MONTH_ACTION));
    assert_eq!(c.view(), (2027, 1), "Dec -> Jan next year");
}

#[test]
fn keyboard_moves_across_boundaries_and_selects() {
    let mut c = MonthCalendar::new(2026, 6).select(2026, 6, 30);
    assert_eq!(c.focus_day(), 30);
    let _ = c.on_keyboard(KeyInput::new(keys::ARROW_DOWN, 0));
    assert_eq!(c.view(), (2026, 7), "crossed into July");
    assert_eq!(c.focus_day(), 7);
    let a = actions(c.on_keyboard(KeyInput::new(keys::ENTER, 0)));
    assert_eq!(a.iter().find(|a| a.0 == CHANGED_ACTION).unwrap().1.as_deref(), Some("2026-07-07"));
}

#[test]
fn today_marker_is_present() {
    let c = MonthCalendar::new(2026, 6).today(2026, 6, 18);
    let d = day(&c, 18).expect("day-18 node");
    assert!(d.classes.iter().any(|k| k == "today"), "the today cell carries the .today class");
}

#[test]
fn month_calendar_tests_selection_restyles_pixels() {
    let mut c = MonthCalendar::new(2026, 6);
    let before = day(&c, 12).unwrap();
    let _ = c.on_click(Some(CalendarHit::Day(12)));
    let after = day(&c, 12).unwrap();
    assert!(!before.pseudo.checked && after.pseudo.checked, "selecting a day must restyle it");
}

#[test]
fn hovered_day_restyles_pixels() {
    let mut c = MonthCalendar::new(2026, 6);
    let (b15, b16) = (day(&c, 15).unwrap(), day(&c, 16).unwrap());
    let _ = c.on_mouse_move(Some(15));
    let (a15, a16) = (day(&c, 15).unwrap(), day(&c, 16).unwrap());
    assert!(!b15.pseudo.hover && a15.pseudo.hover, "hovered day must restyle");
    assert_eq!(b16.pseudo.hover, a16.pseudo.hover, "a non-hovered day must not change");
}

#[test]
fn focus_border_moves_with_focused_day() {
    let mut c = MonthCalendar::new(2026, 6);
    let unfocused = day(&c, 2).unwrap().pseudo.focus;
    assert_eq!(c.focus_day(), 1, "focus starts on day 1");
    let _ = c.on_keyboard(KeyInput::new(keys::ARROW_RIGHT, 0));
    assert_eq!(c.focus_day(), 2, "focus moved to day 2");
    let focused = day(&c, 2).unwrap().pseudo.focus;
    assert!(unfocused != focused, "the focus border must paint on day 2");
    let _ = c.on_keyboard(KeyInput::new(keys::ARROW_LEFT, 0));
    assert_eq!(c.focus_day(), 1);
    assert_eq!(day(&c, 2).unwrap().pseudo.focus, unfocused, "the focus border must leave day 2 when focus moves");
}

#[test]
fn today_ring_paints_pixels() {
    let c = MonthCalendar::new(2026, 6).today(2026, 6, 20);
    let (t, p) = (day(&c, 20).unwrap(), day(&c, 21).unwrap());
    assert!(t.classes.iter().any(|k| k == "today"));
    assert!(!p.classes.iter().any(|k| k == "today"), "the today ring is distinct from a plain cell");
}

#[test]
fn selection_moves_off_previous_day() {
    let mut c = MonthCalendar::new(2026, 6);
    let baseline = day(&c, 10).unwrap().pseudo.checked;
    let _ = c.on_click(Some(CalendarHit::Day(10)));
    assert_eq!(c.selected(), Some((2026, 6, 10)));
    assert!(day(&c, 10).unwrap().pseudo.checked != baseline, "day 10 selected differs from baseline");
    let _ = c.on_click(Some(CalendarHit::Day(20)));
    assert_eq!(c.selected(), Some((2026, 6, 20)));
    assert_eq!(day(&c, 10).unwrap().pseudo.checked, baseline, "day 10 must lose the accent fill when selection moves");
}

#[test]
fn disabled_calendar_swallows_click() {
    let mut c = MonthCalendar::new(2026, 6).disabled(true);
    assert!(actions(c.on_click(Some(CalendarHit::Day(15)))).is_empty(), "disabled calendar must emit nothing");
    assert_eq!(c.selected(), None, "disabled calendar selects nothing");
    assert!(!c.focusable(), "disabled calendar is not focusable");
}

#[test]
fn calendar_arithmetic_exact_values() {
    assert!(is_leap(2024) && !is_leap(1900) && is_leap(2000) && !is_leap(2026));
    assert_eq!(days_in_month(2024, 2), 29);
    assert_eq!(days_in_month(2026, 2), 28);
    assert_eq!(days_in_month(2026, 6), 30);
    // 2026-06-01 is a Monday (Sunday = 0).
    assert_eq!(day_of_week_first(2026, 6), 1);
    assert_eq!(day_of_week_first(2000, 1), 6);
    assert_eq!(format_date(2026, 7, 7), "2026-07-07");
}

#[test]
fn leading_blanks_match_first_weekday() {
    let c = MonthCalendar::new(2026, 6);
    let grid = c.render().children.into_iter().nth(2).unwrap();
    let blanks = grid.children.iter().take_while(|n| n.tag == "lq-cal-blank").count();
    assert_eq!(blanks, 1);
    assert_eq!(grid.children.len(), 1 + 30);
}

#[test]
fn prev_from_january_rolls_back_a_year() {
    let mut c = MonthCalendar::new(2026, 1);
    let _ = c.on_click(Some(CalendarHit::Prev));
    assert_eq!(c.view(), (2025, 12));
}

#[test]
fn nav_button_hover_restyles_pixels() {
    // `:hover` lands on the hit element: the next-month control must be its
    // own element in the header, addressable as `next`.
    let mut cal = MonthCalendar::new(2026, 6);
    let root = cal.render();
    let nav = &root.children[0];
    let next = &nav.children[2];
    assert!(next.attrs.iter().any(|(k, v)| k == "data-part" && v == "next"), "next box");
    let a = actions(cal.on_click(Some(CalendarHit::Next)));
    assert_eq!(a[0].0, MONTH_ACTION);
    assert_eq!(cal.view(), (2026, 7));
}

#[test]
fn focus_moves_reverse_across_month_ends() {
    let mut cal = MonthCalendar::new(2025, 12).select(2025, 12, 31);
    let _ = cal.on_keyboard(KeyInput::new(keys::END, 0));
    assert_eq!(cal.focus_day(), 31);
    let _ = cal.on_keyboard(KeyInput::new(keys::ARROW_RIGHT, 0));
    assert_eq!((cal.view(), cal.focus_day()), ((2026, 1), 1));
    let _ = cal.on_keyboard(KeyInput::new(keys::ARROW_LEFT, 0));
    assert_eq!((cal.view(), cal.focus_day()), ((2025, 12), 31));
    let _ = cal.on_keyboard(KeyInput::new(keys::ARROW_DOWN, 0));
    assert_eq!((cal.view(), cal.focus_day()), ((2026, 1), 7));
    let _ = cal.on_keyboard(KeyInput::new(keys::ARROW_UP, 0));
    assert_eq!((cal.view(), cal.focus_day()), ((2025, 12), 31));
}

#[test]
fn page_down_then_up_shows_the_same_month() {
    let mut cal = MonthCalendar::new(2024, 1);
    let _ = cal.on_keyboard(KeyInput::new(keys::END, 0));
    let _ = cal.on_keyboard(KeyInput::new(keys::PAGE_DOWN, 0));
    assert_eq!((cal.view(), cal.focus_day()), ((2024, 2), 29), "the focus clamps into February");
    let _ = cal.on_keyboard(KeyInput::new(keys::PAGE_UP, 0));
    assert_eq!(cal.view(), (2024, 1));
}

#[test]
fn calendar_parts_are_keyed_and_labelled() {
    let root = MonthCalendar::new(2026, 6).render();
    let nav = &root.children[0];
    assert!(nav.children[0].attrs.iter().any(|(k, v)| k == "aria-label" && v == "Previous month"));
    assert_eq!(nav.children[2].children[0].text, "\u{203A}");
    assert!(nav.children[1].attrs.iter().any(|(k, v)| k == "data-part" && v == "title"));
    assert_eq!(root.children[1].children[3].key.as_deref(), Some("wd-3"));
    let grid = &root.children[2];
    assert!(grid.attrs.iter().any(|(k, v)| k == "data-part" && v == "grid"));
    assert_eq!(grid.children[0].key.as_deref(), Some("blank-0"));
}

#[test]
fn year_overflow_is_reported_before_the_step() {
    let c = MonthCalendar::new(i32::MAX, 12);
    assert!(c.shift_overflows(true));
    assert!(!c.shift_overflows(false));
    assert!(c.key_overflows(keys::PAGE_DOWN));
    assert!(!c.key_overflows(keys::PAGE_UP));
    assert!(!c.key_overflows(keys::ARROW_RIGHT), "day 1 moves within December");
    assert!(!c.key_overflows(keys::HOME));
    let mut end = MonthCalendar::new(i32::MAX, 12);
    let _ = end.on_keyboard(KeyInput::new(keys::END, 0));
    assert!(end.key_overflows(keys::ARROW_RIGHT));
    assert!(end.key_overflows(keys::ARROW_DOWN));
    assert!(!end.key_overflows(keys::ARROW_LEFT));
    let first = MonthCalendar::new(i32::MIN, 1);
    assert!(first.shift_overflows(false));
    assert!(first.key_overflows(keys::ARROW_LEFT));
    assert!(first.key_overflows(keys::ARROW_UP));
    assert!(!first.key_overflows(keys::ARROW_DOWN));
}

#[test]
fn disabled_calendar_ignores_steps_past_the_last_year() {
    let mut c = MonthCalendar::new(i32::MAX, 12).disabled(true);
    assert!(actions(c.on_keyboard(KeyInput::new(keys::PAGE_DOWN, 0))).is_empty());
    assert!(actions(c.on_click(Some(CalendarHit::Next))).is_empty());
    assert_eq!(c.view(), (i32::MAX, 12));
}
