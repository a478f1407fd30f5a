use liquide_widgets::behavior::{KeyInput, WidgetOutcome};
use liquide_widgets::keys;
use liquide_widgets::list::{List, CHANGED_ACTION};
use liquide_widgets::node::Node;

fn items(n: usize) -> Vec<(String, String)> {
    (0..n).map(|i| (format!("v{i}"), format!("Item {i}"))).collect()
}

/// The actions an outcome reports, as `(name, payload)` pairs.
fn actions(o: WidgetOutcome) -> Vec<(String, Option<String>)> {
    match o {
        WidgetOutcome::Action { name, payload } => vec![(name, payload)],
        _ => Vec::new(),
    }
}

fn row(l: &List, i: usize) -> Node {
    let tree = l.render();
    let mut rows = tree.children.into_iter().filter(|c| c.tag == "lq-list-item");
    rows.nth(i).expect("row element present")
}

fn key(k: u32, m: u32) -> KeyInput {
    KeyInput::new(k, m)
}

#[test]
fn list_starts_unselected_cursor_zero() {
    let l = List::new(items(5));
    assert!(l.selected_indices().is_empty());
    assert_eq!(l.cursor(), Some(0));
}

#[test]
fn list_tests_click_selects_row() {
    let mut l = List::new(items(5));
    let a = actions(l.on_click(Some(2)));
    assert_eq!(a.len(), 1);
    assert_eq!(a[0].0, CHANGED_ACTION);
    assert_eq!(a[0].1.as_deref(), Some("v2"));
    assert_eq!(l.selected_indices(), vec![2]);
}

#[test]
fn list_tests_row_hit_comes_from_layout_not_constant() {
    // The host resolves the click against row 3's laid-out box.
    let mut l = List::new(items(5));
    let _ = l.on_click(Some(3));
    assert_eq!(l.selected_indices(), vec![3], "click in row-3's box must select 3");
}

#[test]
fn list_tests_selected_row_restyles_pixels() {
    let mut l = List::new(items(5));
    let before = row(&l, 2);
    let _ = l.on_click(Some(2));
    let after = row(&l, 2);
    assert!(!before.pseudo.checked);
    assert!(after.pseudo.checked, "selected row must restyle");
    assert!(after.classes.iter().any(|c| c == "selected"));
}

#[test]
fn keyboard_navigates_and_selects() {
    let mut l = List::new(items(5));
    let _ = l.on_keyboard(key(keys::ARROW_DOWN, 0));
    assert_eq!(l.cursor(), Some(1));
    assert_eq!(l.selected_indices(), vec![1]);

    let _ = l.on_keyboard(key(keys::END, 0));
    assert_eq!(l.cursor(), Some(4));
    assert_eq!(l.selected_indices(), vec![4]);

    let _ = l.on_keyboard(key(keys::HOME, 0));
    assert_eq!(l.selected_indices(), vec![0]);

    // ArrowUp at the top clamps (no wrap).
    let _ = l.on_keyboard(key(keys::ARROW_UP, 0));
    assert_eq!(l.cursor(), Some(0));
}

#[test]
fn shift_arrow_selects_range() {
    let mut l = List::new(items(6)).multi();
    let _ = l.on_click(Some(1));
    let _ = l.on_keyboard(key(keys::ARROW_DOWN, keys::modifiers::SHIFT));
    let _ = l.on_keyboard(key(keys::ARROW_DOWN, keys::modifiers::SHIFT));
    let _ = l.on_keyboard(key(keys::ARROW_DOWN, keys::modifiers::SHIFT));
    assert_eq!(l.selected_indices(), vec![1, 2, 3, 4], "shift range from anchor 1 down to 4");

    let _ = l.on_keyboard(key(keys::ARROW_UP, keys::modifiers::SHIFT));
    assert_eq!(l.selected_indices(), vec![1, 2, 3]);
}

#[test]
fn ctrl_space_toggles_individual_rows() {
    let mut l = List::new(items(6)).multi();
    let _ = l.on_click(Some(0));
    let _ = l.on_keyboard(key(keys::ARROW_DOWN, keys::modifiers::CTRL));
    let _ = l.on_keyboard(key(keys::ARROW_DOWN, keys::modifiers::CTRL));
    let _ = l.on_keyboard(key(keys::SPACE, keys::modifiers::CTRL));
    let _ = l.on_keyboard(key(keys::ARROW_DOWN, keys::modifiers::CTRL));
    let _ = l.on_keyboard(key(keys::ARROW_DOWN, keys::modifiers::CTRL));
    let _ = l.on_keyboard(key(keys::SPACE, keys::modifiers::CTRL));
    assert_eq!(l.selected_indices(), vec![0, 2, 4]);

    let _ = l.on_keyboard(key(keys::ARROW_UP, keys::modifiers::CTRL));
    let _ = l.on_keyboard(key(keys::ARROW_UP, keys::modifiers::CTRL));
    let _ = l.on_keyboard(key(keys::SPACE, keys::modifiers::CTRL));
    assert_eq!(l.selected_indices(), vec![0, 4]);
}

#[test]
fn single_mode_replaces_selection() {
    let mut l = List::new(items(5));
    let _ = l.on_click(Some(1));
    let _ = l.on_keyboard(key(keys::ARROW_DOWN, 0));
    let _ = l.on_keyboard(key(keys::ARROW_DOWN, 0));
    assert_eq!(l.selected_indices(), vec![3], "single-select replaces, never accumulates");
}

#[test]
fn normal_render_paints_rows() {
    let l = List::new(items(5));
    let tree = l.render();
    assert_eq!(tree.tag, "lq-list");
    let rows: Vec<&Node> = tree.children.iter().filter(|c| c.tag == "lq-list-item").collect();
    assert_eq!(rows.len(), 5);
    for (i, r) in rows.iter().enumerate() {
        assert!(r.attrs.iter().any(|(k, v)| k == "data-part" && *v == format!("item-{i}")), "row {i} must render");
        assert_eq!(r.children.last().map(|c| c.text.as_str()), Some(format!("Item {i}").as_str()));
    }
}

#[test]
fn list_tests_hover_restyles_only_hovered_row() {
    let mut l = List::new(items(5));
    let before0 = row(&l, 0);
    let before2 = row(&l, 2);
    let _ = l.on_mouse_move(Some(2));
    let after0 = row(&l, 0);
    let after2 = row(&l, 2);
    assert!(!before2.pseudo.hover && after2.pseudo.hover, "hovered row 2 must restyle");
    assert_eq!(before0.pseudo.hover, after0.pseudo.hover, "non-hovered row 0 must be unchanged");
    assert!(!after0.pseudo.hover);
}

#[test]
fn selection_fill_moves_with_selection() {
    let mut l = List::new(items(5));
    let _ = l.on_click(Some(3));
    assert_eq!(l.selected_indices(), vec![3]);
    assert!(row(&l, 3).pseudo.checked, "row 3 must gain the selection fill");

    let _ = l.on_click(Some(1));
    assert_eq!(l.selected_indices(), vec![1]);
    assert!(row(&l, 1).pseudo.checked, "row 1 must gain the fill");
    assert!(!row(&l, 3).pseudo.checked, "row 3 must lose the fill when selection moves");
}

#[test]
fn multi_select_range_fills_all_rows() {
    let mut l = List::new(items(6)).multi();
    let _ = l.on_click(Some(1));
    let _ = l.on_keyboard(key(keys::ARROW_DOWN, keys::modifiers::SHIFT));
    let _ = l.on_keyboard(key(keys::ARROW_DOWN, keys::modifiers::SHIFT));
    assert_eq!(l.selected_indices(), vec![1, 2, 3]);
    for i in [1usize, 2, 3] {
        assert!(row(&l, i).pseudo.checked, "selected row {i} in the multi-range must carry the fill");
    }
    assert!(!row(&l, 5).pseudo.checked, "row 5 outside the range must be unchanged");
}

fn iconed_list() -> List {
    List::new(items(3)).with_icons(vec![Some("folder-home".to_string()), None, Some("starred".to_string())])
}

#[test]
fn item_with_icon_emits_data_icon_leaf_before_label() {
    let row0 = row(&iconed_list(), 0);
    let icon = &row0.children[0];
    assert_eq!(icon.tag, "lq-list-item-icon", "first child is the icon slot");
    let name = icon.attrs.iter().find(|(k, _)| k == "data-icon").map(|(_, v)| v.as_str());
    assert_eq!(name, Some("folder-home"), "leaf carries the icon name");
    let icon_pos = row0.children.iter().position(|c| c.tag == "lq-list-item-icon").expect("icon child");
    let label_pos = row0.children.iter().position(|c| c.tag.is_empty()).expect("label text child");
    assert!(icon_pos < label_pos, "icon leaf must precede the label");
    assert_eq!(row0.children[label_pos].text, "Item 0", "the label is still present");
}

#[test]
fn item_without_icon_emits_no_data_icon_leaf() {
    let row1 = row(&iconed_list(), 1);
    assert!(row1.children.iter().all(|c| c.tag != "lq-list-item-icon"), "an icon-less row must not emit a data-icon leaf");
    let label = row1.children.iter().find(|c| c.tag.is_empty()).map(|c| c.text.as_str());
    assert_eq!(label, Some("Item 1"), "icon-less row still shows its label");
}

#[test]
fn plain_list_emits_no_icon_leaves() {
    let tree = List::new(items(4)).render();
    for r in tree.children.iter().filter(|c| c.tag == "lq-list-item") {
        assert!(
            r.children.iter().all(|c| c.tag != "lq-list-item-icon"),
            "a plain (icon-less) list must never emit lq-list-item-icon leaves"
        );
    }
}

#[test]
fn row_selection_works_with_icon_present() {
    let mut l = iconed_list();
    let a = actions(l.on_click(Some(0)));
    assert_eq!(l.selected_indices(), vec![0], "clicking an iconed row must select it (icon doesn't steal the hit)");
    assert_eq!(a.len(), 1);
    assert_eq!(a[0].1.as_deref(), Some("v0"));
    let _ = l.on_click(Some(2));
    assert_eq!(l.selected_indices(), vec![2]);
}

#[test]
fn disabled_list_swallows_input() {
    let mut l = List::new(items(5)).disabled(true);
    assert!(actions(l.on_click(Some(2))).is_empty());
    assert!(!l.on_keyboard(key(keys::ARROW_DOWN, 0)).needs_render());
    assert!(l.selected_indices().is_empty());
}

#[test]
fn reclicking_sole_selection_only_rerenders() {
    let mut l = List::new(items(3));
    let _ = l.on_click(Some(1));
    let o = l.on_click(Some(1));
    assert!(matches!(o, WidgetOutcome::Changed));
    assert_eq!(l.selected_values(), vec!["v1".to_string()]);
}

#[test]
fn multi_payload_joins_selected_values() {
    let mut l = List::new(items(4)).multi();
    let _ = l.on_click(Some(0));
    let a = actions(l.on_keyboard(key(keys::END, keys::modifiers::SHIFT)));
    assert_eq!(a[0].1.as_deref(), Some("v0,v1,v2,v3"));
}

#[test]
fn ctrl_space_twice_restores_the_selection() {
    let mut l = List::new(items(4)).multi();
    let _ = l.on_click(Some(1));
    let _ = l.on_keyboard(KeyInput::new(keys::ARROW_DOWN, keys::modifiers::CTRL));
    let a = actions(l.on_keyboard(KeyInput::new(keys::SPACE, keys::modifiers::CTRL)));
    assert_eq!(a[0].1.as_deref(), Some("v1,v2"));
    let a = actions(l.on_keyboard(KeyInput::new(keys::SPACE, keys::modifiers::CTRL)));
    assert_eq!(a[0].1.as_deref(), Some("v1"));
    assert_eq!(l.selected_indices(), vec![1]);
}

#[test]
fn single_mode_never_holds_two_rows() {
    let mut l = List::new(items(4));
    let _ = l.on_click(Some(0));
    let _ = l.on_keyboard(KeyInput::new(keys::ARROW_DOWN, keys::modifiers::SHIFT));
    let _ = l.on_keyboard(KeyInput::new(keys::SPACE, keys::modifiers::CTRL));
    assert_eq!(l.selected_indices().len(), 1);
}
