use liquide_widgets::behavior::{KeyInput, WidgetOutcome};
use liquide_widgets::keys;
use liquide_widgets::toggle_group::{ToggleGroup, ToggleMode, CHANGED_ACTION};

fn opts() -> Vec<(String, String)> {
    vec![("bold".into(), "B".into()), ("italic".into(), "I".into()), ("underline".into(), "U".into())]
}

fn actions(o: WidgetOutcome) -> Vec<(String, Option<String>)> {
    match o {
        WidgetOutcome::Action { name, payload } => vec![(name, payload)],
        _ => Vec::new(),
    }
}

#[test]
fn keyboard_roving_cursor_and_toggle() {
    let mut g = ToggleGroup::multi(opts());
    assert_eq!(g.cursor(), 0);
    let _ = g.on_keyboard(KeyInput::new(keys::ARROW_RIGHT, 0));
    assert_eq!(g.cursor(), 1);
    let a = actions(g.on_keyboard(KeyInput::new(keys::SPACE, 0)));
    assert_eq!(a[0].1.as_deref(), Some("italic"));
    assert!(g.is_active(1));
    let _ = g.on_keyboard(KeyInput::new(keys::ARROW_LEFT, 0));
    let _ = g.on_keyboard(KeyInput::new(keys::ARROW_LEFT, 0));
    assert_eq!(g.cursor(), 2, "Left wraps to last");
    let _ = g.on_keyboard(KeyInput::new(keys::END, 0));
    assert_eq!(g.cursor(), 2);
    let _ = g.on_keyboard(KeyInput::new(keys::HOME, 0));
    assert_eq!(g.cursor(), 0);
}

#[test]
fn toggle_group_tests_disabled_dims_pixels() {
    let e = ToggleGroup::single(opts()).render();
    let d = ToggleGroup::single(opts()).disabled(true).render();
    assert!(!e.children[0].pseudo.disabled);
    assert!(d.children[0].pseudo.disabled, ":disabled must dim the selected option");
    assert!(d.pseudo.disabled);
}

#[test]
fn single_click_moves_selection() {
    let mut g = ToggleGroup::single(opts());
    assert!(g.is_active(0));
    let a = actions(g.on_click(Some(2)));
    assert_eq!(a[0].0, CHANGED_ACTION);
    assert_eq!(a[0].1.as_deref(), Some("underline"));
    assert!(!g.is_active(0) && g.is_active(2));
    assert_eq!(g.mode(), ToggleMode::Single);
}

#[test]
fn single_reselect_active_is_ignored() {
    let mut g = ToggleGroup::single(opts()).select(1);
    assert!(actions(g.on_click(Some(1))).is_empty());
    assert_eq!(g.selection(), vec!["italic".to_string()]);
    let mut h = ToggleGroup::single(opts()).allow_deselect(true);
    let a = actions(h.on_click(Some(0)));
    assert_eq!(a[0].1.as_deref(), Some(""));
    assert!(h.selection().is_empty());
}

#[test]
fn multi_payload_joins_active_values() {
    let mut g = ToggleGroup::multi(opts());
    let _ = g.on_click(Some(0));
    let a = actions(g.on_click(Some(2)));
    assert_eq!(a[0].1.as_deref(), Some("bold,underline"));
    let a = actions(g.on_click(Some(0)));
    assert_eq!(a[0].1.as_deref(), Some("underline"));
}

fn painted_active(g: &ToggleGroup, i: usize) -> bool {
    let opt = &g.render().children[i];
    opt.pseudo.checked && opt.classes.iter().any(|c| c == "active")
}

#[test]
fn multi_toggles_independently() {
    let mut g = ToggleGroup::multi(opts());
    let _ = g.on_click(Some(0));
    let a = actions(g.on_click(Some(2)));
    assert_eq!(a[0].1.as_deref(), Some("bold,underline"));
    assert!(g.is_active(0));
    assert!(!g.is_active(1));
    assert!(g.is_active(2));
    let a = actions(g.on_click(Some(0)));
    assert_eq!(a[0].1.as_deref(), Some("underline"));
    assert!(!g.is_active(0));
}

#[test]
fn option_hit_from_layout_not_constant() {
    // The host resolves the option under the pointer from the laid-out boxes.
    let mut g = ToggleGroup::single(opts());
    let a = actions(g.on_click(Some(2)));
    assert_eq!(a[0].1.as_deref(), Some("underline"), "REAL box selects opt-2");
    assert!(matches!(g.on_click(None), WidgetOutcome::Ignored));
}

#[test]
fn active_restyles_pixels() {
    let mut g = ToggleGroup::multi(opts());
    assert!(!painted_active(&g, 1));
    let _ = g.on_click(Some(1));
    assert!(painted_active(&g, 1), "activating opt-1 must restyle it");
}

#[test]
fn toggle_group_tests_disabled_swallows() {
    let mut g = ToggleGroup::single(opts()).disabled(true);
    assert!(actions(g.on_click(Some(2))).is_empty());
    assert!(g.is_active(0));
}

#[test]
fn hover_restyles_option_pixels() {
    let mut g = ToggleGroup::multi(opts());
    assert!(!g.render().children[1].pseudo.hover);
    let _ = g.on_mouse_move(Some(1));
    assert!(g.render().children[1].pseudo.hover, ":hover must restyle opt-1");
    assert!(!g.render().children[2].pseudo.hover);
}

#[test]
fn checked_selection_moves_in_pixels() {
    let mut g = ToggleGroup::single(opts());
    assert!(painted_active(&g, 0), "the selected opt-0 is the accent");
    let _ = g.on_click(Some(2));
    assert!(!painted_active(&g, 0), "opt-0 lost the accent fill");
    assert!(painted_active(&g, 2), "opt-2 gained the accent fill");
}

#[test]
fn multi_two_checked_both_paint_accent() {
    let mut g = ToggleGroup::multi(opts());
    let _ = g.on_click(Some(0));
    let _ = g.on_click(Some(2));
    assert!(g.is_active(0) && g.is_active(2));
    assert!(painted_active(&g, 0) && painted_active(&g, 2));
    assert!(!painted_active(&g, 1), "the inactive opt-1 differs from an active option");
}

#[test]
fn roving_focus_restyles_option_border() {
    let mut g = ToggleGroup::multi(opts());
    let _ = g.on_keyboard(KeyInput::new(keys::ARROW_RIGHT, 0));
    assert_eq!(g.cursor(), 1);
    let root = g.render();
    assert!(root.children[1].pseudo.focus, "the focused option carries the ring");
    assert!(!root.children[2].pseudo.focus, "an unfocused option does not");
}

#[test]
fn single_group_keeps_exactly_one_active() {
    let mut g = ToggleGroup::single(opts()).select(2);
    for step in [Some(0), Some(0), Some(1), None, Some(2)] {
        let _ = g.on_click(step);
        assert_eq!((0..3).filter(|&i| g.is_active(i)).count(), 1);
        assert_eq!(g.selection().len(), 1);
    }
    let _ = g.on_keyboard(KeyInput::new(keys::SPACE, 0));
    assert_eq!((0..3).filter(|&i| g.is_active(i)).count(), 1);
    assert!(!g.is_active(3));
}

#[test]
fn selection_has_one_value_per_active_option() {
    let mut g = ToggleGroup::multi(opts());
    assert!(g.selection().is_empty());
    let _ = g.on_click(Some(0));
    let _ = g.on_click(Some(2));
    let active = (0..3).filter(|&i| g.is_active(i)).count();
    assert_eq!(active, 2);
    assert_eq!(g.selection().len(), active);
    let _ = g.on_click(Some(0));
    assert_eq!(g.selection().len(), (0..3).filter(|&i| g.is_active(i)).count());
    assert_eq!(g.selection().len(), 1);
    let mut s = ToggleGroup::single(opts()).allow_deselect(true);
    let _ = s.on_click(Some(0));
    assert_eq!(s.selection().len(), (0..3).filter(|&i| s.is_active(i)).count());
    assert!(s.selection().len() <= 1);
}
