use liquide_widgets::behavior::{KeyInput, WidgetOutcome};
use liquide_widgets::keys;
use liquide_widgets::menu::{Menu, MenuEntry, ACTIVATE_ACTION, DISMISS_ACTION, SUBMENU_ACTION};
use liquide_widgets::node::Node;

fn sample() -> Menu {
    Menu::with_entries(vec![
        MenuEntry::item("open", "Open"),
        MenuEntry::item("save", "Save"),
        MenuEntry::separator(),
        MenuEntry::disabled_item("paste", "Paste"),
        MenuEntry::submenu("more", "More"),
    ])
}

fn actions(o: WidgetOutcome) -> Vec<(String, Option<String>)> {
    match o {
        WidgetOutcome::Action { name, payload } => vec![(name, payload)],
        _ => Vec::new(),
    }
}

fn entry(m: &Menu, i: usize) -> Node {
    m.render().children.into_iter().nth(i).expect("entry")
}

fn key(k: u32) -> KeyInput {
    KeyInput::new(k, 0)
}

#[test]
fn click_activates_item() {
    let mut m = sample();
    let a = actions(m.on_click(Some(1)));
    assert_eq!(a.len(), 1);
    assert_eq!(a[0].0, ACTIVATE_ACTION);
    assert_eq!(a[0].1.as_deref(), Some("save"));
}

#[test]
fn menu_tests_item_hit_comes_from_layout_not_constant() {
    // The host resolves the click against item-1's laid-out box.
    let mut m = sample();
    let a = actions(m.on_click(Some(1)));
    assert_eq!(a[0].1.as_deref(), Some("save"), "hit from layout");
}

#[test]
fn disabled_and_separator_are_inert() {
    let mut m = sample();
    assert!(actions(m.on_click(Some(3))).is_empty(), "disabled item not activatable");
    assert_eq!(m.highlighted(), None);
    assert!(actions(m.on_click(Some(2))).is_empty(), "separator not activatable");
}

#[test]
fn submenu_parent_opens() {
    let mut m = sample();
    let a = actions(m.on_click(Some(4)));
    assert_eq!(a.len(), 1);
    assert_eq!(a[0].0, SUBMENU_ACTION);
    assert_eq!(a[0].1.as_deref(), Some("more"));
}

#[test]
fn hover_highlights_and_restyles_pixels() {
    let mut m = sample();
    let before = entry(&m, 0);
    let _ = m.on_mouse_move(Some(0));
    assert_eq!(m.highlighted(), Some(0));
    let after = entry(&m, 0);
    assert!(!before.pseudo.hover && after.pseudo.hover, "hover restyles");
    assert!(after.classes.iter().any(|c| c == "highlighted"));
}

#[test]
fn keyboard_skips_inert_and_activates() {
    let mut m = sample();
    let _ = m.on_keyboard(key(keys::ARROW_DOWN));
    assert_eq!(m.highlighted(), Some(0));
    let _ = m.on_keyboard(key(keys::ARROW_DOWN));
    assert_eq!(m.highlighted(), Some(1));
    let _ = m.on_keyboard(key(keys::ARROW_DOWN));
    assert_eq!(m.highlighted(), Some(4), "Down skips the separator + disabled item");
    let _ = m.on_keyboard(key(keys::ARROW_DOWN));
    assert_eq!(m.highlighted(), Some(0));
    let a = actions(m.on_keyboard(key(keys::ENTER)));
    assert_eq!(a.len(), 1);
    assert_eq!(a[0].0, ACTIVATE_ACTION);
    assert_eq!(a[0].1.as_deref(), Some("open"));
}

#[test]
fn keyboard_up_from_empty_highlights_last() {
    let mut m = sample();
    let _ = m.on_keyboard(key(keys::ARROW_UP));
    assert_eq!(m.highlighted(), Some(4), "Up -> last activatable");
    let _ = m.on_keyboard(key(keys::ARROW_UP));
    assert_eq!(m.highlighted(), Some(1));
}

#[test]
fn menu_tests_escape_dismisses() {
    let mut m = sample();
    let a = actions(m.on_keyboard(key(keys::ESCAPE)));
    assert_eq!(a.len(), 1);
    assert_eq!(a[0].0, DISMISS_ACTION);
}

#[test]
fn normal_render_paints_items_and_separator() {
    let m = sample();
    let root = m.render();
    assert_eq!(root.tag, "lq-menu");
    for i in [0usize, 1, 4] {
        assert_eq!(root.children[i].tag, "lq-menu-item", "item {i} must render");
    }
    assert!(root.children.iter().any(|c| c.tag == "lq-menu-separator"), "separator element");
}

#[test]
fn keyboard_highlight_restyles_and_moves() {
    let mut m = sample();
    let plain1 = entry(&m, 1);
    let _ = m.on_keyboard(key(keys::ARROW_DOWN));
    assert_eq!(m.highlighted(), Some(0));
    assert!(entry(&m, 0).pseudo.focus, "highlighted item 0 must restyle");
    assert_eq!(entry(&m, 1).pseudo.focus, plain1.pseudo.focus, "item 1 unchanged");
    let _ = m.on_keyboard(key(keys::ARROW_DOWN));
    assert_eq!(m.highlighted(), Some(1));
    assert!(entry(&m, 1).pseudo.focus, "highlight must move onto item 1");
    assert!(!entry(&m, 0).pseudo.focus, "highlight must leave item 0");
}

#[test]
fn home_end_jump_activatable() {
    let mut m = sample();
    let _ = m.on_keyboard(key(keys::END));
    assert_eq!(m.highlighted(), Some(4));
    let _ = m.on_keyboard(key(keys::HOME));
    assert_eq!(m.highlighted(), Some(0));
}

#[test]
fn highlighted_id_follows_highlight() {
    let mut m = sample();
    assert_eq!(m.highlighted_id(), None);
    let _ = m.on_keyboard(key(keys::END));
    assert_eq!(m.highlighted_id(), Some("more"));
    let _ = m.on_mouse_leave();
    assert_eq!(m.highlighted(), None);
}

#[test]
fn highlight_skips_separators_and_disabled_items() {
    let mut m = sample();
    let _ = m.on_keyboard(KeyInput::new(keys::ARROW_DOWN, 0));
    let _ = m.on_keyboard(KeyInput::new(keys::ARROW_DOWN, 0));
    assert_eq!(m.highlighted(), Some(1));
    let _ = m.on_keyboard(KeyInput::new(keys::ARROW_DOWN, 0));
    assert_eq!(m.highlighted(), Some(4), "separator and disabled item are skipped");
    let _ = m.on_mouse_move(Some(3));
    assert_eq!(m.highlighted(), None, "hovering a disabled item clears the highlight");
    let a = actions(m.on_keyboard(KeyInput::new(keys::ESCAPE, 0)));
    assert_eq!(a[0].0, DISMISS_ACTION);
}

#[test]
fn entries_chain_like_with_entries() {
    let mut a = Menu::new().entry(MenuEntry::item("open", "Open")).entry(MenuEntry::separator()).entry(MenuEntry::item("quit", "Quit"));
    let mut b = Menu::with_entries(vec![MenuEntry::item("open", "Open"), MenuEntry::separator(), MenuEntry::item("quit", "Quit")]);
    assert_eq!(a.len(), 3);
    assert_eq!(b.len(), 3);
    let _ = a.on_keyboard(KeyInput::new(keys::END, 0));
    let _ = b.on_keyboard(KeyInput::new(keys::END, 0));
    assert_eq!(a.highlighted(), b.highlighted());
    assert_eq!(a.highlighted_id(), Some("quit"));
}
