use liquide_widgets::behavior::{KeyInput, WidgetOutcome};
use liquide_widgets::keys;
use liquide_widgets::node::Node;
use liquide_widgets::split_button::{SplitButton, SplitHit};

fn find_part<'a>(n: &'a Node, part: &str) -> Option<&'a Node> {
    if n.attrs.iter().any(|(k, v)| k == "data-part" && v == part) {
        return Some(n);
    }
    n.children.iter().find_map(|c| find_part(c, part))
}

fn items() -> Vec<(String, String)> {
    vec![("save-as".into(), "Save As…".into()), ("save-all".into(), "Save All".into()), ("export".into(), "Export".into())]
}

fn actions(o: WidgetOutcome) -> Vec<(String, Option<String>)> {
    match o {
        WidgetOutcome::Action { name, payload } => vec![(name, payload)],
        _ => Vec::new(),
    }
}

#[test]
fn split_button_tests_escape_dismisses() {
    let mut s = SplitButton::new("save", "Save", items());
    let _ = s.on_keyboard(KeyInput::new(keys::ARROW_DOWN, 0));
    assert!(s.is_open());
    let _ = s.on_keyboard(KeyInput::new(keys::ESCAPE, 0));
    assert!(!s.is_open(), "Esc dismisses the menu");
}

#[test]
fn keyboard_primary_and_menu() {
    let mut s = SplitButton::new("run", "Run", items());
    let a = actions(s.on_keyboard(KeyInput::new(keys::ENTER, 0)));
    assert_eq!(a.len(), 1);
    assert_eq!(a[0].0, "run", "Enter while closed fires primary");
    let _ = s.on_keyboard(KeyInput::new(keys::ARROW_DOWN, 0));
    assert!(s.is_open());
    assert_eq!(s.highlighted(), Some(0));
    let _ = s.on_keyboard(KeyInput::new(keys::ARROW_DOWN, 0));
    assert_eq!(s.highlighted(), Some(1));
    let a = actions(s.on_keyboard(KeyInput::new(keys::ENTER, 0)));
    assert_eq!(a[0].0, "save-all", "Enter fires the highlighted item");
    assert!(!s.is_open());
}

#[test]
fn clicks_route_by_zone() {
    let mut s = SplitButton::new("save", "Save", items());
    let a = actions(s.on_click(Some(SplitHit::Primary)));
    assert_eq!(a[0].0, "save");
    let _ = s.on_click(Some(SplitHit::Caret));
    assert!(s.is_open());
    assert_eq!(s.render().children.len(), 3, "the popup renders while open");
    let a = actions(s.on_click(Some(SplitHit::Primary)));
    assert!(a.iter().all(|x| x.0 != "save"), "the dismiss click must NOT fire the primary action");
    assert!(!s.is_open(), "in-widget miss click dismisses the menu");
    let _ = s.on_click(Some(SplitHit::Caret));
    let a = actions(s.on_click(Some(SplitHit::Item(2))));
    assert_eq!(a[0].0, "export");
    assert!(!s.is_open());
}

#[test]
fn highlight_clamps_at_both_ends() {
    let mut s = SplitButton::new("save", "Save", items());
    let _ = s.on_keyboard(KeyInput::new(keys::ARROW_DOWN, 0));
    for _ in 0..5 {
        let _ = s.on_keyboard(KeyInput::new(keys::ARROW_DOWN, 0));
    }
    assert_eq!(s.highlighted(), Some(2));
    for _ in 0..5 {
        let _ = s.on_keyboard(KeyInput::new(keys::ARROW_UP, 0));
    }
    assert_eq!(s.highlighted(), Some(0));
}

#[test]
fn primary_zone_fires_primary() {
    let mut s = SplitButton::new("save", "Save", items());
    assert!(find_part(&s.render(), "primary").is_some(), "primary box");
    let a = actions(s.on_click(Some(SplitHit::Primary)));
    assert_eq!(a.len(), 1);
    assert_eq!(a[0].0, "save");
    assert!(!s.is_open(), "primary click does not open the menu");
}

#[test]
fn caret_zone_opens_menu_primary_does_not() {
    let mut s = SplitButton::new("commit", "Commit Everything Now", items());
    let root = s.render();
    assert_eq!(root.children[0].attrs[0].1, "primary");
    assert_eq!(root.children[1].attrs[0].1, "caret", "caret follows the primary zone");
    let a = actions(s.on_click(Some(SplitHit::Caret)));
    assert!(a.is_empty(), "opening the menu emits no action");
    assert!(s.is_open(), "caret click opens the menu");
}

#[test]
fn menu_item_fires_and_closes() {
    let mut s = SplitButton::new("save", "Save", items());
    let _ = s.on_click(Some(SplitHit::Caret));
    assert!(find_part(&s.render(), "item-1").is_some(), "item-1 box");
    let a = actions(s.on_click(Some(SplitHit::Item(1))));
    assert_eq!(a.len(), 1);
    assert_eq!(a[0].0, "save-all");
    assert!(!s.is_open(), "choosing an item closes the menu");
}

#[test]
fn in_widget_miss_click_dismisses() {
    let mut s = SplitButton::new("save", "Save", items());
    let _ = s.on_click(Some(SplitHit::Caret));
    assert!(s.is_open());
    let a = actions(s.on_click(Some(SplitHit::Primary)));
    assert!(a.iter().all(|act| act.0 != "save"), "the dismiss click must NOT fire the primary action");
    assert!(!s.is_open(), "in-widget miss click dismisses the menu");
}

#[test]
fn menu_lays_out_only_when_open() {
    let mut s = SplitButton::new("save", "Save", items());
    assert!(find_part(&s.render(), "item-0").is_none(), "closed: no item boxes");
    let _ = s.on_click(Some(SplitHit::Caret));
    assert!(find_part(&s.render(), "item-0").is_some(), "item-0 box when open");
}

#[test]
fn split_button_tests_disabled_swallows() {
    let mut s = SplitButton::new("save", "Save", items()).disabled(true);
    assert!(actions(s.on_click(Some(SplitHit::Primary))).is_empty());
    assert!(!s.focusable());
}
