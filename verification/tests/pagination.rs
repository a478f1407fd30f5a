use liquide_widgets::behavior::{KeyInput, WidgetOutcome};
use liquide_widgets::keys;
use liquide_widgets::node::Node;
use liquide_widgets::pagination::{PageHit, Pagination, Slot, CHANGED_ACTION};

fn find_part<'a>(n: &'a Node, part: &str) -> Option<&'a Node> {
    if n.attrs.iter().any(|(k, v)| k == "data-part" && v == part) {
        return Some(n);
    }
    n.children.iter().find_map(|c| find_part(c, part))
}

fn actions(o: WidgetOutcome) -> Vec<(String, Option<String>)> {
    match o {
        WidgetOutcome::Action { name, payload } => vec![(name, payload)],
        _ => Vec::new(),
    }
}

#[test]
fn keyboard_steps_pages() {
    let mut p = Pagination::new(10).page(5);
    let _ = p.on_keyboard(KeyInput::new(keys::ARROW_RIGHT, 0));
    assert_eq!(p.current_page(), 6);
    let _ = p.on_keyboard(KeyInput::new(keys::ARROW_LEFT, 0));
    assert_eq!(p.current_page(), 5);
    let _ = p.on_keyboard(KeyInput::new(keys::HOME, 0));
    assert_eq!(p.current_page(), 0);
    let _ = p.on_keyboard(KeyInput::new(keys::END, 0));
    assert_eq!(p.current_page(), 9);
}

#[test]
fn click_page_emits_its_index() {
    let mut p = Pagination::new(5);
    let a = actions(p.on_click(Some(PageHit::Page(3))));
    assert_eq!(a[0].0, CHANGED_ACTION);
    assert_eq!(a[0].1.as_deref(), Some("3"), "click in page-3's box -> 3");
    let _ = p.on_click(Some(PageHit::Next));
    assert_eq!(p.current_page(), 4);
    assert!(actions(p.on_click(Some(PageHit::Next))).is_empty(), "no page past the last");
    let _ = p.on_click(Some(PageHit::Prev));
    assert_eq!(p.current_page(), 3);
}

#[test]
fn slots_window_with_ellipses() {
    let p = Pagination::new(10).page(5);
    assert_eq!(
        p.slots(),
        vec![Slot::Page(0), Slot::Ellipsis, Slot::Page(4), Slot::Page(5), Slot::Page(6), Slot::Ellipsis, Slot::Page(9)]
    );
    let small = Pagination::new(4);
    assert_eq!(small.slots(), vec![Slot::Page(0), Slot::Page(1), Slot::Page(2), Slot::Page(3)]);
    let start = Pagination::new(10).page(1);
    assert_eq!(
        start.slots(),
        vec![Slot::Page(0), Slot::Page(1), Slot::Page(2), Slot::Ellipsis, Slot::Page(9)]
    );
}

#[test]
fn current_page_restyles_pixels() {
    let mut p = Pagination::new(5);
    let _ = p.on_click(Some(PageHit::Page(2)));
    let root = p.render();
    let cur: Vec<_> = root
        .children
        .iter()
        .filter(|c| c.pseudo.checked)
        .flat_map(|c| c.attrs.iter().filter(|(k, _)| k == "data-part").map(|(_, v)| v.clone()))
        .collect();
    assert_eq!(cur, vec!["page-2".to_string()]);
}

#[test]
fn click_page_changes_page() {
    let mut p = Pagination::new(5);
    assert_eq!(p.current_page(), 0);
    assert!(find_part(&p.render(), "page-3").is_some(), "page-3 box");
    let a = actions(p.on_click(Some(PageHit::Page(3))));
    assert_eq!(a.len(), 1);
    assert_eq!(a[0].0, CHANGED_ACTION);
    assert_eq!(a[0].1.as_deref(), Some("3"));
    assert_eq!(p.current_page(), 3);
}

#[test]
fn prev_next_step_and_clamp() {
    let mut p = Pagination::new(3);
    assert!(actions(p.on_click(Some(PageHit::Prev))).is_empty(), "prev at start is inert");
    assert_eq!(p.current_page(), 0);
    let a = actions(p.on_click(Some(PageHit::Next)));
    assert_eq!(a[0].1.as_deref(), Some("1"));
    assert_eq!(p.current_page(), 1);
}

#[test]
fn long_range_has_ellipses_and_real_last_button() {
    let mut p = Pagination::new(20).page(0);
    let root = p.render();
    assert!(find_part(&root, "ellipsis").is_some(), "long range shows an ellipsis");
    assert!(find_part(&root, "page-19").is_some(), "last page button present");
    assert!(find_part(&root, "page-10").is_none(), "far middle page collapsed");
    let a = actions(p.on_click(Some(PageHit::Page(19))));
    assert_eq!(a[0].1.as_deref(), Some("19"));
}

#[test]
fn page_hit_comes_from_layout_not_constant() {
    // The host resolves the page under the pointer from each button's laid-out
    // box; the widget acts on the page it is handed.
    let mut p = Pagination::new(5);
    let a = actions(p.on_click(Some(PageHit::Page(3))));
    assert_eq!(a[0].1.as_deref(), Some("3"), "click in page-3's REAL box -> 3");
    assert!(matches!(p.on_click(None), WidgetOutcome::Ignored));
}

#[test]
fn row_always_shows_first_last_and_current() {
    for cur in 0..30 {
        let p = Pagination::new(30).page(cur);
        let s = p.slots();
        assert_eq!(s[0], Slot::Page(0));
        assert_eq!(*s.last().unwrap(), Slot::Page(29));
        assert!(s.contains(&Slot::Page(cur)));
    }
}

#[test]
fn row_pages_increase_and_ellipses_mark_gaps() {
    for sib in 0..3 {
        for cur in 0..25 {
            let s = Pagination::new(25).page(cur).siblings(sib).slots();
            for w in s.windows(2) {
                assert!(!(w[0] == Slot::Ellipsis && w[1] == Slot::Ellipsis));
                if let (Slot::Page(a), Slot::Page(b)) = (w[0], w[1]) {
                    assert_eq!(b, a + 1);
                }
            }
            for w in s.windows(3) {
                if let (Slot::Page(a), Slot::Ellipsis, Slot::Page(b)) = (w[0], w[1], w[2]) {
                    assert!(b >= a + 3);
                }
            }
        }
    }
    let root = Pagination::new(20).render();
    assert_eq!(root.children[0].key.as_deref(), Some("prev"));
    assert_eq!(root.children[0].children[0].text, "\u{2039}");
    let last = root.children.last().unwrap();
    assert_eq!(last.children[0].text, "\u{203A}");
    assert!(root.children.iter().any(|c| c.tag == "lq-page-ellipsis" && c.children[0].text == "\u{2026}"));
}
