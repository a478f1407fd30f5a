use liquide_widgets::behavior::{KeyInput, WidgetOutcome};
use liquide_widgets::keys;
use liquide_widgets::label::{Label, Link, NAVIGATE_ACTION};
use liquide_widgets::progress::Spinner;

fn actions(o: WidgetOutcome) -> Vec<(String, Option<String>)> {
    match o {
        WidgetOutcome::Action { name, payload } => vec![(name, payload)],
        _ => Vec::new(),
    }
}

#[test]
fn link_keyboard_enter_navigates() {
    let mut l = Link::new("Home", "/home");
    assert!(l.focusable());
    let a = actions(l.on_keyboard(KeyInput::new(keys::ENTER, 0)));
    assert_eq!(a.len(), 1);
    assert_eq!(a[0].1.as_deref(), Some("/home"));
}

#[test]
fn label_renders_and_is_inert() {
    let l = Label::new("Hello");
    assert!(!l.focusable(), "static label is not focusable");
    assert_eq!(l.render().children[0].text, "Hello");
    assert_eq!(l.text(), "Hello");
}

#[test]
fn link_click_navigates_with_href() {
    let mut l = Link::new("Home", "/home");
    let a = actions(l.on_click(true));
    assert_eq!(a.len(), 1);
    assert_eq!(a[0].0, NAVIGATE_ACTION);
    assert_eq!(a[0].1.as_deref(), Some("/home"));
    assert_eq!(l.navigations(), 1);
}

#[test]
fn link_hover_restyles_pixels() {
    let mut l = Link::new("Home", "/home");
    let _ = l.on_mouse_enter();
    assert!(l.is_hovered());
    assert!(l.render().pseudo.hover);
    let _ = l.on_mouse_down();
    assert!(l.render().pseudo.active);
    let _ = l.on_mouse_leave();
    assert!(!l.render().pseudo.hover && !l.render().pseudo.active);
}

#[test]
fn spinner_is_labelled_status() {
    let s = Spinner::labelled("Loading");
    let r = s.render();
    assert_eq!(r.tag, "lq-spinner");
    assert!(r.attrs.iter().any(|(k, v)| k == "aria-label" && v == "Loading"));
    assert!(!Spinner::new().render().attrs.iter().any(|(k, _)| k == "aria-label"));
}
