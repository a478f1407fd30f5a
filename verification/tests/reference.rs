use liquide_widgets::behavior::{WidgetKind, WidgetOutcome};
use liquide_widgets::reference::ReferenceBox;

#[test]
fn render_carries_action_and_pseudo_states() {
    let mut b = ReferenceBox::new("ping");
    let node = b.render();
    assert_eq!(node.tag, "lq-box");
    assert!(node.attrs.iter().any(|(k, v)| k == "data-action" && v == "ping"));
    assert!(!node.pseudo.hover);

    let _ = b.on_mouse_enter();
    let _ = b.on_mouse_down();
    let node = b.render();
    assert!(node.pseudo.hover);
    assert!(node.pseudo.active);
}

#[test]
fn click_inside_counts_and_emits() {
    let mut b = ReferenceBox::new("ping");
    assert!(matches!(b.on_click(false), WidgetOutcome::Ignored));
    assert_eq!(b.clicks(), 0);
    match b.on_click(true) {
        WidgetOutcome::Action { name, payload } => {
            assert_eq!(name, "ping");
            assert!(payload.is_none());
        }
        _ => panic!("a click inside emits the action"),
    }
    assert_eq!(b.clicks(), 1);
    assert_eq!(b.kind(), WidgetKind::Reference);
}

#[test]
fn leave_releases_the_press() {
    let mut b = ReferenceBox::new("ping");
    assert!(matches!(b.on_mouse_up(), WidgetOutcome::Ignored));
    assert!(matches!(b.on_mouse_leave(), WidgetOutcome::Ignored));
    let _ = b.on_mouse_enter();
    assert!(matches!(b.on_mouse_enter(), WidgetOutcome::Ignored));
    let _ = b.on_mouse_down();
    assert!(b.is_pressed() && b.is_hovered());
    assert!(matches!(b.on_mouse_leave(), WidgetOutcome::Changed));
    assert!(!b.is_pressed() && !b.is_hovered());
    let _ = b.on_mouse_down();
    assert!(matches!(b.on_mouse_up(), WidgetOutcome::Changed));
    assert!(!b.is_pressed());
}
