use liquide_widgets::behavior::WidgetKind;
use liquide_widgets::progress::Spinner;

#[test]
fn spinner_renders_arc() {
    let root = Spinner::new().render();
    assert_eq!(root.tag, "lq-spinner");
    let arc = &root.children[0];
    assert!(arc.attrs.iter().any(|(k, v)| k == "data-part" && v == "arc"), "spinner arc box");
    assert_eq!(arc.tag, "lq-spinner-arc");
}

#[test]
fn spinner_is_inert() {
    let s = Spinner::new();
    assert!(!s.focusable());
    assert_eq!(s.kind(), WidgetKind::Other);
    assert!(!s.render().pseudo.hover);
}

#[test]
fn spinner_arc_paints_ring() {
    // The ring is the arc element's border (CSS); the arc is a leaf box.
    let root = Spinner::labelled("Loading").render();
    assert!(root.children[0].children.is_empty());
    assert!(root.attrs.iter().any(|(k, v)| k == "aria-label" && v == "Loading"));
    assert!(root.attrs.iter().any(|(k, v)| k == "aria-busy" && v == "true"));
    assert!(!Spinner::new().render().attrs.iter().any(|(k, _)| k == "aria-label"));
}
