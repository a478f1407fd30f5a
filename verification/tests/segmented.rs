use liquide_widgets::behavior::{KeyInput, WidgetOutcome};
use liquide_widgets::keys;
use liquide_widgets::segmented::{Segmented, CHANGED_ACTION};

fn segs() -> Vec<(String, String)> {
    vec![("day".into(), "Day".into()), ("week".into(), "Week".into()), ("month".into(), "Month".into())]
}

fn actions(o: WidgetOutcome) -> Vec<(String, Option<String>)> {
    match o {
        WidgetOutcome::Action { name, payload } => vec![(name, payload)],
        _ => Vec::new(),
    }
}

#[test]
fn arrow_keys_move_selection() {
    let mut s = Segmented::new(segs());
    let _ = s.on_keyboard(KeyInput::new(keys::ARROW_RIGHT, 0));
    assert_eq!(s.selected_index(), 1);
    let _ = s.on_keyboard(KeyInput::new(keys::ARROW_RIGHT, 0));
    assert_eq!(s.selected_index(), 2);
    let _ = s.on_keyboard(KeyInput::new(keys::ARROW_RIGHT, 0));
    assert_eq!(s.selected_index(), 0, "wraps to first");
    let _ = s.on_keyboard(KeyInput::new(keys::ARROW_LEFT, 0));
    assert_eq!(s.selected_index(), 2, "Left wraps to last");
}

#[test]
fn click_selects_and_reselect_is_silent() {
    let mut s = Segmented::new(segs());
    let a = actions(s.on_click(Some(1)));
    assert_eq!(a[0].0, CHANGED_ACTION);
    assert_eq!(a[0].1.as_deref(), Some("week"));
    assert!(actions(s.on_click(Some(1))).is_empty(), "re-selecting current segment emits nothing");
    assert_eq!(s.selected_value(), Some("week"));
    let seg = &s.render().children[1];
    assert!(seg.pseudo.checked);
    assert!(seg.attrs.iter().any(|(k, v)| k == "aria-checked" && v == "true"));
}

fn is_selected(s: &Segmented, i: usize) -> bool {
    let seg = &s.render().children[i];
    seg.pseudo.checked && seg.classes.iter().any(|c| c == "selected")
}

#[test]
fn click_selects_segment() {
    let mut s = Segmented::new(segs());
    assert_eq!(s.selected_index(), 0);
    let a = actions(s.on_click(Some(2)));
    assert_eq!(a.len(), 1);
    assert_eq!(a[0].0, CHANGED_ACTION);
    assert_eq!(a[0].1.as_deref(), Some("month"));
    assert_eq!(s.selected_index(), 2);
    assert_eq!(s.selected_value(), Some("month"));
}

#[test]
fn reselect_same_is_ignored() {
    let mut s = Segmented::new(segs()).select(1);
    assert!(actions(s.on_click(Some(1))).is_empty(), "re-selecting current segment emits nothing");
    assert_eq!(s.selected_index(), 1);
}

#[test]
fn segment_hit_comes_from_layout_not_constant() {
    // The host resolves the segment under the pointer from the laid-out boxes.
    let mut s = Segmented::new(segs());
    let a = actions(s.on_click(Some(2)));
    assert_eq!(a[0].1.as_deref(), Some("month"), "REAL box selects the widened seg-2");
    assert!(matches!(s.on_click(None), WidgetOutcome::Ignored));
}

#[test]
fn selected_segment_restyles_pixels() {
    let mut s = Segmented::new(segs());
    assert!(!is_selected(&s, 2));
    let _ = s.on_click(Some(2));
    assert!(is_selected(&s, 2), "selecting seg-2 must restyle it");
}

#[test]
fn segmented_tests_disabled_swallows() {
    let mut s = Segmented::new(segs()).disabled(true);
    assert!(actions(s.on_click(Some(2))).is_empty());
    assert_eq!(s.selected_index(), 0);
}

#[test]
fn segment_hover_restyles_pixels() {
    let mut s = Segmented::new(segs());
    assert!(!s.render().children[1].pseudo.hover);
    assert!(matches!(s.on_mouse_move(Some(1)), WidgetOutcome::Changed));
    assert!(s.render().children[1].pseudo.hover, "hovering seg-1 must restyle it");
    let _ = s.on_mouse_leave();
    assert!(!s.render().children[1].pseudo.hover);
}

#[test]
fn selected_pixels_move_with_selection() {
    let a = Segmented::new(segs()).select(1);
    assert!(is_selected(&a, 1), "selected seg-1 is the accent");
    assert!(!is_selected(&a, 2), "unselected seg-2 differs from selected seg-1");
    let b = Segmented::new(segs()).select(2);
    assert!(is_selected(&b, 2), "selection moved: seg-2 now the accent");
    assert!(!is_selected(&b, 1), "seg-1 lost the accent when selection moved away");
}

#[test]
fn disabled_segmented_dims_pixels() {
    let on = Segmented::new(segs()).render();
    let off = Segmented::new(segs()).disabled(true).render();
    assert!(!on.pseudo.disabled);
    assert!(off.pseudo.disabled, ":disabled must dim the segmented");
    assert!(off.children.iter().all(|c| c.pseudo.disabled));
}
