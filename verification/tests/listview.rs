use liquide_widgets::behavior::{KeyInput, WidgetOutcome};
use liquide_widgets::keys;
use liquide_widgets::listview::{ListView, ViewItem, ViewMode, CHANGED_ACTION, MODE_ACTION};
use liquide_widgets::node::Node;

fn files(mode: ViewMode) -> ListView {
    ListView::new(
        mode,
        vec![
            ViewItem::new("readme", "\u{1F4C4}", "readme.txt").subline("2 KB").columns(vec!["2 KB".into(), "Text".into()]),
            ViewItem::new("photo", "\u{1F5BC}", "photo.png").subline("1.2 MB").columns(vec!["1.2 MB".into(), "Image".into()]),
            ViewItem::new("song", "\u{1F3B5}", "song.mp3").subline("4 MB").columns(vec!["4 MB".into(), "Audio".into()]),
        ],
    )
    .detail_headers(vec!["Size".into(), "Type".into()])
}

fn actions(o: WidgetOutcome) -> Vec<(String, Option<String>)> {
    match o {
        WidgetOutcome::Action { name, payload } => vec![(name, payload)],
        _ => Vec::new(),
    }
}

fn item(lv: &ListView, i: usize) -> Node {
    let root = lv.render();
    let body = root.children.into_iter().last().expect("body");
    body.children.into_iter().nth(i).expect("item")
}

const MODES: [ViewMode; 4] = [ViewMode::Icons, ViewMode::List, ViewMode::Details, ViewMode::Tiles];

#[test]
fn click_selects_in_every_mode() {
    for mode in MODES {
        let mut lv = files(mode);
        let a = actions(lv.on_click(Some(1)));
        let c = a
            .iter()
            .find(|a| a.0 == CHANGED_ACTION)
            .unwrap_or_else(|| panic!("changed action expected in mode {:?}", mode));
        assert_eq!(c.1.as_deref(), Some("photo"), "click item-1 selects 'photo' in mode {:?}", mode);
        assert_eq!(lv.selected(), Some(1));
    }
}

#[test]
fn mode_switch_changes_layout() {
    let icons = files(ViewMode::Icons).render();
    let list = files(ViewMode::List).render();
    assert!(icons.classes.iter().any(|c| c == "mode-icons"));
    assert!(list.classes.iter().any(|c| c == "mode-list"));
    assert_ne!(icons.classes, list.classes, "Icons vs List must lay items out differently");
}

#[test]
fn set_mode_switches_and_emits_action() {
    let mut lv = files(ViewMode::Icons);
    assert_eq!(lv.mode(), ViewMode::Icons);
    let a = actions(lv.set_mode(ViewMode::Details));
    assert_eq!(a.len(), 1, "expected a mode Action");
    assert_eq!(a[0].0, MODE_ACTION);
    assert_eq!(a[0].1.as_deref(), Some("details"));
    assert_eq!(lv.mode(), ViewMode::Details);
    let node = lv.render();
    assert!(node.classes.iter().any(|c| c == "mode-details"), "render must carry the mode-details class, got {:?}", node.classes);
}

#[test]
fn listview_tests_keyboard_navigates() {
    let mut lv = files(ViewMode::List).select(0);
    let _ = lv.on_keyboard(KeyInput::new(keys::ARROW_DOWN, 0));
    assert_eq!(lv.selected(), Some(1));
    let _ = lv.on_keyboard(KeyInput::new(keys::END, 0));
    assert_eq!(lv.selected(), Some(2));
    let _ = lv.on_keyboard(KeyInput::new(keys::HOME, 0));
    assert_eq!(lv.selected(), Some(0));
}

#[test]
fn listview_tests_selection_restyles_pixels() {
    let mut lv = files(ViewMode::List);
    let before = item(&lv, 1);
    let _ = lv.on_click(Some(1));
    let after = item(&lv, 1);
    assert!(!before.pseudo.checked && after.pseudo.checked, "selecting an item must restyle it");
}

#[test]
fn selection_restyles_pixels_in_every_mode() {
    for mode in MODES {
        let mut lv = files(mode);
        let before = item(&lv, 1);
        let _ = lv.on_click(Some(1));
        let after = item(&lv, 1);
        assert!(before.pseudo.checked != after.pseudo.checked, "selection must restyle in mode {:?}", mode);
        assert!(after.classes.iter().any(|c| c == "selected"));
        assert_eq!(lv.selected(), Some(1), "mode {:?}", mode);
    }
}

#[test]
fn listview_tests_hovered_item_restyles_pixels() {
    let mut lv = files(ViewMode::List);
    let (b1, b2) = (item(&lv, 1), item(&lv, 2));
    let _ = lv.on_mouse_move(Some(1));
    let (a1, a2) = (item(&lv, 1), item(&lv, 2));
    assert!(!b1.pseudo.hover && a1.pseudo.hover, "hovered item must restyle");
    assert_eq!(b2.pseudo.hover, a2.pseudo.hover, "a non-hovered item must not change");
}

#[test]
fn listview_tests_focus_ring_moves_with_cursor() {
    let mut lv = files(ViewMode::List);
    let with_ring = item(&lv, 0).pseudo.focus;
    let _ = lv.on_keyboard(KeyInput::new(keys::ARROW_DOWN, 0));
    assert_eq!(lv.cursor(), Some(1), "cursor moved to item 1");
    let without_ring = item(&lv, 0).pseudo.focus;
    assert!(with_ring != without_ring, "the focus ring must leave item 0 when the cursor moves");
}

#[test]
fn disabled_listview_swallows_click() {
    let mut lv = files(ViewMode::List).disabled(true);
    assert!(actions(lv.on_click(Some(1))).is_empty(), "disabled listview must emit nothing");
    assert_eq!(lv.selected(), None, "disabled listview selects nothing");
}

#[test]
fn details_mode_renders_headers_and_columns() {
    let lv = files(ViewMode::Details);
    let root = lv.render();
    assert_eq!(root.children.len(), 2);
    let head = &root.children[0];
    assert_eq!(head.tag, "lq-listview-head");
    assert_eq!(head.children[0].children[0].text, "Name");
    assert_eq!(head.children[1].children[0].text, "Size");
    let it = item(&lv, 2);
    assert_eq!(it.children.len(), 4);
    assert_eq!(it.children[3].children[0].text, "Audio");
}

#[test]
fn selection_is_the_same_in_every_mode() {
    for mode in [ViewMode::Icons, ViewMode::List, ViewMode::Details, ViewMode::Tiles] {
        let mut v = files(mode);
        let a = actions(v.on_click(Some(1)));
        assert_eq!(a[0].1.as_deref(), Some("photo"));
        let _ = v.on_keyboard(KeyInput::new(keys::ARROW_RIGHT, 0));
        assert_eq!(v.selected(), Some(2));
        assert_eq!(v.cursor(), Some(2), "the selection follows the cursor");
    }
}

#[test]
fn details_header_cells_are_keyed() {
    let v = files(ViewMode::Details);
    let root = v.render();
    let head = &root.children[0];
    assert!(head.attrs.iter().any(|(k, p)| k == "data-part" && p == "head"));
    assert_eq!(head.children[0].key.as_deref(), Some("h-name"));
    assert_eq!(head.children[1].key.as_deref(), Some("h-0"));
    assert_eq!(head.children[2].children[0].text, "Type");
    let item = &root.children[1].children[0];
    assert_eq!(item.children[2].key.as_deref(), Some("c-0"));
}
