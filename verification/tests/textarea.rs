use liquide_widgets::behavior::{KeyInput, WidgetOutcome};
use liquide_widgets::keys;
use liquide_widgets::node::Node;
use liquide_widgets::textarea::{TextArea, CHANGED_ACTION};

const PAGE: usize = 5;

fn key(t: &mut TextArea, k: u32) -> WidgetOutcome {
    t.on_keyboard(KeyInput::new(k, 0), PAGE)
}

fn actions(o: WidgetOutcome) -> Vec<(String, Option<String>)> {
    match o {
        WidgetOutcome::Action { name, payload } => vec![(name, payload)],
        _ => Vec::new(),
    }
}

fn focused(t: TextArea) -> TextArea {
    let mut t = t;
    t.set_focused(true);
    t
}

fn render(t: &TextArea) -> Node {
    t.render("0", "0px")
}

fn content(t: &TextArea) -> Node {
    let body = render(t).children.into_iter().next().unwrap();
    let vp = body.children.into_iter().last().unwrap();
    vp.children.into_iter().next().unwrap()
}

fn attr<'a>(n: &'a Node, k: &str) -> Option<&'a str> {
    n.attrs.iter().find(|(a, _)| a == k).map(|(_, v)| v.as_str())
}

#[test]
fn textarea_renders_box() {
    let t = TextArea::new("type here");
    let r = render(&t);
    assert_eq!(r.tag, "lq-textarea");
    let rows = content(&t).children;
    assert_eq!(rows.len(), 1);
    assert!(rows[0].children[0].classes.iter().any(|c| c == "placeholder"));
    assert_eq!(rows[0].children[0].children[0].text, "type here");
}

#[test]
fn click_focuses_area() {
    let mut t = TextArea::new("x").with_text("hello");
    assert!(!t.is_focused());
    let _ = t.on_click(true, None);
    assert!(t.is_focused(), "click must focus the area");
}

#[test]
fn typing_inserts_across_lines() {
    let mut t = focused(TextArea::new("x"));
    for c in ['a', 'b'] {
        let a = actions(key(&mut t, c as u32));
        assert_eq!(a.len(), 1);
        assert_eq!(a[0].0, CHANGED_ACTION);
    }
    let _ = key(&mut t, keys::ENTER);
    for c in ['c', 'd'] {
        let _ = key(&mut t, c as u32);
    }
    assert_eq!(t.text(), "ab\ncd");
    assert_eq!(t.line_count(), 2);
    assert_eq!(t.caret(), (1, 2));
}

#[test]
fn enter_splits_line_at_caret() {
    let mut t = focused(TextArea::new("x").with_text("abcdef"));
    let _ = key(&mut t, keys::HOME);
    for _ in 0..3 {
        let _ = key(&mut t, keys::ARROW_RIGHT);
    }
    assert_eq!(t.caret(), (0, 3));
    let a = actions(key(&mut t, keys::ENTER));
    assert_eq!(a[0].1.as_deref(), Some("abc\ndef"));
    assert_eq!(t.text(), "abc\ndef");
    assert_eq!(t.caret(), (1, 0));
}

#[test]
fn backspace_at_col0_joins_lines() {
    let mut t = focused(TextArea::new("x").with_text("foo\nbar"));
    let _ = key(&mut t, keys::HOME);
    assert_eq!(t.caret(), (1, 0));
    let _ = key(&mut t, keys::BACKSPACE);
    assert_eq!(t.text(), "foobar", "lines joined");
    assert_eq!(t.line_count(), 1);
    assert_eq!(t.caret(), (0, 3), "caret at the join seam");
}

#[test]
fn delete_at_eol_joins_next_line() {
    let mut t = focused(TextArea::new("x").with_text("foo\nbar"));
    let _ = key(&mut t, keys::ARROW_UP);
    let _ = key(&mut t, keys::END);
    assert_eq!(t.caret(), (0, 3));
    let _ = key(&mut t, keys::DELETE);
    assert_eq!(t.text(), "foobar");
    assert_eq!(t.caret(), (0, 3), "caret stays at the seam");
}

#[test]
fn backspace_mid_line_deletes_char() {
    let mut t = focused(TextArea::new("x").with_text("abc"));
    let _ = key(&mut t, keys::BACKSPACE);
    assert_eq!(t.text(), "ab");
}

#[test]
fn arrows_move_caret_across_lines_caret_y_from_layout() {
    let mut t = focused(TextArea::new("x").with_text("line one\nline two\nline three"));
    let _ = key(&mut t, keys::PAGE_UP);
    assert_eq!(t.caret().0, 0, "PageUp lands on the top line");
    let _ = key(&mut t, keys::ARROW_DOWN);
    assert_eq!(t.caret().0, 1, "Down moves to line 1");
    let _ = key(&mut t, keys::ARROW_DOWN);
    assert_eq!(t.caret().0, 2, "Down moves to line 2");
    let rows = content(&t).children;
    let caret_rows: Vec<usize> = rows
        .iter()
        .enumerate()
        .filter(|(_, r)| r.children.iter().any(|c| attr(c, "data-part") == Some("caret")))
        .map(|(i, _)| i)
        .collect();
    assert_eq!(caret_rows, vec![2], "the caret renders in line 2's row");
    let _ = key(&mut t, keys::ARROW_UP);
    assert_eq!(t.caret().0, 1);
}

#[test]
fn left_right_wrap_across_line_boundaries() {
    let mut t = focused(TextArea::new("x").with_text("ab\ncd"));
    let _ = key(&mut t, keys::PAGE_UP);
    let _ = key(&mut t, keys::HOME);
    let _ = key(&mut t, keys::END);
    assert_eq!(t.caret(), (0, 2));
    let _ = key(&mut t, keys::ARROW_RIGHT);
    assert_eq!(t.caret(), (1, 0));
    let _ = key(&mut t, keys::ARROW_LEFT);
    assert_eq!(t.caret(), (0, 2));
}

#[test]
fn click_resolves_line_from_laid_out_row_box() {
    let mut t = focused(TextArea::new("x").with_text("alpha\nbeta\ngamma\ndelta"));
    let o = t.on_click(true, Some((2, 3)));
    assert!(o.needs_render());
    assert_eq!(t.caret(), (2, 3));
}

#[test]
fn focus_restyles_pixels() {
    let mut t = TextArea::new("x");
    assert!(!render(&t).pseudo.focus);
    t.set_focused(true);
    assert!(render(&t).pseudo.focus);
}

#[test]
fn gutter_renders_line_numbers() {
    let t = TextArea::new("x").with_text("one\ntwo\nthree").with_gutter(true);
    let body = render(&t).children.into_iter().next().unwrap();
    assert_eq!(body.children.len(), 2);
    let gutter = &body.children[0];
    assert_eq!(attr(gutter, "data-part"), Some("gutter"));
    let nums: Vec<String> = gutter.children[0].children.iter().map(|n| n.children[0].text.clone()).collect();
    assert_eq!(nums, vec!["1", "2", "3"]);
}

#[test]
fn gutter_toggles_off() {
    let mut t = TextArea::new("x").with_text("a\nb").with_gutter(true);
    assert!(t.gutter_visible());
    t.set_gutter(false);
    let body = render(&t).children.into_iter().next().unwrap();
    assert_eq!(body.children.len(), 1, "gutter removed when disabled");
    assert_eq!(attr(&body.children[0], "data-part"), Some("viewport"));
}

#[test]
fn disabled_swallows_input() {
    let mut t = TextArea::new("x").with_text("seed").disabled(true);
    assert!(actions(key(&mut t, 'a' as u32)).is_empty());
    assert_eq!(t.text(), "seed");
    assert!(!t.focusable());
}

#[test]
fn vertical_moves_keep_the_byte_column() {
    // "éé" ends at byte 4; the line below has the caret at byte (and char) 4.
    let mut t = focused(TextArea::new("x").with_text("éé\nabcdef"));
    let _ = key(&mut t, keys::ARROW_UP);
    let _ = key(&mut t, keys::END);
    assert_eq!(t.caret(), (0, 4));
    assert_eq!(t.caret_chars(), (0, 2));
    let _ = key(&mut t, keys::ARROW_DOWN);
    assert_eq!(t.caret(), (1, 4));
    // From byte 3 of "abcdef" up to "éé": byte 3 falls inside the second é,
    // so the caret lands before it.
    let _ = key(&mut t, keys::ARROW_LEFT);
    let _ = key(&mut t, keys::ARROW_UP);
    assert_eq!(t.caret(), (0, 2));
}

#[test]
fn with_text_round_trips_and_places_caret_at_end() {
    for s in ["", "a", "a\n", "\n\n", "one\ntwo", "x\ny\nzz"] {
        let t = TextArea::new("x").with_text(s);
        assert_eq!(t.text(), s);
        assert_eq!(t.line_count(), s.split('\n').count());
        let last = s.split('\n').last().unwrap();
        assert_eq!(t.caret(), (t.line_count() - 1, last.len()));
    }
}

#[test]
fn page_down_clamps_then_goes_to_line_end() {
    let mut t = focused(TextArea::new("x").with_text("a\nbb\nccc"));
    let _ = key(&mut t, keys::PAGE_UP);
    let _ = key(&mut t, keys::HOME);
    assert_eq!(t.caret(), (0, 0));
    let _ = key(&mut t, keys::PAGE_DOWN);
    assert_eq!(t.caret(), (2, 0));
    let _ = key(&mut t, keys::PAGE_DOWN);
    assert_eq!(t.caret(), (2, 3), "at the bottom PageDown goes to the line end");
}

#[test]
fn click_line_resolution_is_layout_derived_for_every_row() {
    // The host resolves the row (and the column within it) from the laid-out
    // row boxes; the widget places the caret on the row it is handed.
    let mut t = focused(TextArea::new("x").with_text("r0\nr1\nr2\nr3\nr4"));
    for i in 0..5usize {
        let _ = t.on_click(true, Some((i, 0)));
        assert_eq!(t.caret().0, i, "click at the laid-out center of row {i} must resolve to line {i}");
    }
}

#[test]
fn click_resolves_column_from_layout() {
    let mut t = focused(TextArea::new("x").with_text("abcdefghij"));
    let _ = t.on_click(true, Some((0, 0)));
    let col_left = t.caret().1;
    let _ = t.on_click(true, Some((0, 10)));
    let col_right = t.caret().1;
    assert!(col_right > col_left, "click near the line end must yield a larger column (left={col_left}, right={col_right})");
}
