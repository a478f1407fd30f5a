use liquide_widgets::behavior::{KeyInput, WidgetOutcome};
use liquide_widgets::keys;
use liquide_widgets::listbox::{ListBox, ListItem, CHANGED_ACTION};
use liquide_widgets::node::Node;

fn fruits() -> ListBox {
    ListBox::new(vec![
        ListItem::new("apple", "Apple"),
        ListItem::new("banana", "Banana"),
        ListItem::new("cherry", "Cherry"),
        ListItem::new("date", "Date"),
    ])
}

fn actions(o: WidgetOutcome) -> Vec<(String, Option<String>)> {
    match o {
        WidgetOutcome::Action { name, payload } => vec![(name, payload)],
        _ => Vec::new(),
    }
}

fn item(lb: &ListBox, i: usize) -> Node {
    lb.render().children.into_iter().filter(|c| c.tag == "lq-listitem").nth(i).expect("item element")
}

fn key(k: u32, m: u32) -> KeyInput {
    KeyInput::new(k, m)
}

#[test]
fn click_selects_item() {
    let mut lb = fruits();
    let a = actions(lb.on_click(Some(2)));
    let c = a.iter().find(|a| a.0 == CHANGED_ACTION).expect("changed");
    assert_eq!(c.1.as_deref(), Some("cherry"));
    assert_eq!(lb.selected_indices(), vec![2]);
}

#[test]
fn listbox_tests_item_hit_comes_from_layout_not_constant() {
    // The host resolves the click against item-1's laid-out box.
    let mut lb = fruits();
    let a = actions(lb.on_click(Some(1)));
    assert_eq!(
        a.iter().find(|a| a.0 == CHANGED_ACTION).unwrap().1.as_deref(),
        Some("banana"),
        "click in item-1's box selects item 1"
    );
}

#[test]
fn listbox_tests_keyboard_navigates() {
    let mut lb = fruits().select(0);
    let _ = lb.on_keyboard(key(keys::ARROW_DOWN, 0));
    assert_eq!(lb.cursor(), Some(1));
    assert_eq!(lb.selected_indices(), vec![1]);
    let _ = lb.on_keyboard(key(keys::END, 0));
    assert_eq!(lb.cursor(), Some(3));
    let _ = lb.on_keyboard(key(keys::HOME, 0));
    assert_eq!(lb.cursor(), Some(0));
}

#[test]
fn disabled_items_are_skipped() {
    let mut lb = ListBox::new(vec![
        ListItem::new("a", "Alpha"),
        ListItem::new("b", "Bravo").disabled(true),
        ListItem::new("c", "Charlie"),
    ]);
    let _ = lb.on_keyboard(key(keys::ARROW_DOWN, 0));
    assert_eq!(lb.cursor(), Some(2), "Down skips the disabled middle item");
    let _ = lb.on_click(Some(1));
    assert!(!lb.is_selected(1), "a disabled item rejects a click");
}

#[test]
fn type_ahead_jumps_to_matching_item() {
    let mut lb = fruits();
    let _ = lb.on_keyboard(key('c' as u32, 0));
    assert_eq!(lb.selected_indices(), vec![2], "type-ahead 'c' -> Cherry");
    let _ = lb.on_keyboard(key('d' as u32, 0));
    assert_eq!(lb.selected_indices(), vec![3], "type-ahead 'd' -> Date");
}

#[test]
fn multi_select_toggle_and_range() {
    let mut lb = fruits().multi().select(0);
    let _ = lb.on_keyboard(key(keys::ARROW_DOWN, keys::modifiers::CTRL));
    assert_eq!(lb.cursor(), Some(1));
    assert_eq!(lb.selected_indices(), vec![0]);
    let _ = lb.on_keyboard(key(keys::SPACE, keys::modifiers::CTRL));
    assert_eq!(lb.selected_indices(), vec![0, 1]);
    let _ = lb.on_keyboard(key(keys::ARROW_DOWN, keys::modifiers::SHIFT));
    assert_eq!(lb.selected_indices(), vec![1, 2]);
}

#[test]
fn listbox_tests_selection_restyles_pixels() {
    let mut lb = fruits();
    let before = item(&lb, 1);
    let _ = lb.on_click(Some(1));
    let after = item(&lb, 1);
    assert!(!before.pseudo.checked && after.pseudo.checked, "selecting an item must restyle it");
}

#[test]
fn listbox_tests_hovered_item_restyles_pixels() {
    let mut lb = fruits();
    let (b2, b3) = (item(&lb, 2), item(&lb, 3));
    let _ = lb.on_mouse_move(Some(2));
    let (a2, a3) = (item(&lb, 2), item(&lb, 3));
    assert!(!b2.pseudo.hover && a2.pseudo.hover, "the hovered item must restyle");
    assert_eq!(b3.pseudo.hover, a3.pseudo.hover, "a non-hovered item must not change");
}

#[test]
fn listbox_tests_focus_ring_moves_with_cursor() {
    let mut lb = fruits();
    let baseline = item(&lb, 1).pseudo.focus;
    let _ = lb.on_keyboard(key(keys::ARROW_DOWN, keys::modifiers::CTRL));
    assert_eq!(lb.cursor(), Some(1), "cursor moved to item 1");
    assert!(lb.selected_indices().is_empty(), "Ctrl+Down did not select");
    let focused = item(&lb, 1).pseudo.focus;
    assert!(baseline != focused, "the focus ring must paint on the cursor item");
    let _ = lb.on_keyboard(key(keys::ARROW_DOWN, keys::modifiers::CTRL));
    assert_eq!(lb.cursor(), Some(2));
    assert_eq!(item(&lb, 1).pseudo.focus, baseline, "the ring must leave item 1 when the cursor moves on");
}

#[test]
fn multi_select_both_items_restyle_pixels() {
    let mut lb = fruits().multi();
    let (base0, base2) = (item(&lb, 0).pseudo.checked, item(&lb, 2).pseudo.checked);
    let _ = lb.on_keyboard(key(keys::SPACE, keys::modifiers::CTRL));
    let _ = lb.on_keyboard(key(keys::ARROW_DOWN, keys::modifiers::CTRL));
    let _ = lb.on_keyboard(key(keys::ARROW_DOWN, keys::modifiers::CTRL));
    let _ = lb.on_keyboard(key(keys::SPACE, keys::modifiers::CTRL));
    assert_eq!(lb.selected_indices(), vec![0, 2], "both selected");
    assert!(item(&lb, 0).pseudo.checked != base0, "item 0 selection fill differs from baseline");
    assert!(item(&lb, 2).pseudo.checked != base2, "item 2 selection fill differs from baseline");
}

#[test]
fn disabled_item_restyles_pixels() {
    let lb = ListBox::new(vec![ListItem::new("a", "WWWW"), ListItem::new("b", "WWWW").disabled(true)]);
    let (e, d) = (item(&lb, 0), item(&lb, 1));
    assert!(!e.pseudo.disabled && d.pseudo.disabled, "a disabled item renders differently from its enabled twin");
    assert!(d.classes.iter().any(|c| c == "disabled"));
}

#[test]
fn type_ahead_is_case_insensitive_and_skips_disabled() {
    let mut lb = ListBox::new(vec![
        ListItem::new("a", "Apple"),
        ListItem::new("b", "Avocado").disabled(true),
        ListItem::new("c", "apricot"),
    ]);
    let _ = lb.on_keyboard(key('A' as u32, 0));
    assert_eq!(lb.cursor(), Some(2));
}

#[test]
fn disabled_items_are_never_selected() {
    let mut lb = ListBox::new(vec![
        ListItem::new("a", "Alpha"),
        ListItem::new("b", "Beta").disabled(true),
        ListItem::new("c", "Gamma"),
    ])
    .multi();
    assert!(matches!(lb.on_click(Some(1)), WidgetOutcome::Ignored));
    let _ = lb.on_click(Some(0));
    let a = actions(lb.on_keyboard(KeyInput::new(keys::ARROW_DOWN, keys::modifiers::SHIFT)));
    assert_eq!(a[0].1.as_deref(), Some("a,c"), "the range skips the disabled item");
    assert!(!lb.is_selected(1));
}

#[test]
fn type_ahead_lands_on_a_matching_item() {
    let mut lb = fruits();
    let _ = lb.on_keyboard(KeyInput::new('C' as u32, 0));
    assert_eq!(lb.cursor(), Some(2));
    assert!(lb.selected_values() == vec!["cherry".to_string()]);
    assert!(matches!(lb.on_keyboard(KeyInput::new('z' as u32, 0)), WidgetOutcome::Ignored));
    assert_eq!(lb.cursor(), Some(2));
}

#[test]
fn single_listbox_selection_stays_sound_over_a_sequence() {
    let mut lb = ListBox::new(vec![
        ListItem::new("a", "Alpha"),
        ListItem::new("b", "Beta").disabled(true),
        ListItem::new("c", "Gamma"),
    ]);
    let steps: Vec<KeyInput> = vec![
        key(keys::SPACE, 0),
        key(keys::ARROW_DOWN, keys::modifiers::SHIFT),
        key(keys::SPACE, keys::modifiers::CTRL),
        key(keys::END, 0),
        key(keys::ENTER, 0),
    ];
    for k in steps {
        let _ = lb.on_keyboard(k);
        let s = lb.selected_indices();
        assert!(s.len() <= 1);
        assert!(s.iter().all(|&i| i < lb.len() && i != 1));
        let _ = lb.on_click(Some(1));
        assert!(!lb.is_selected(1));
    }
    assert_eq!(lb.selected_indices(), vec![2]);
    assert_eq!(lb.selected_values(), vec!["c".to_string()]);
}
