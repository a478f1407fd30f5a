use liquide_widgets::behavior::{KeyInput, WidgetKind, WidgetOutcome};
use liquide_widgets::keys;
use liquide_widgets::popover::{Placement, Popover, PopoverHit, CLOSE_ACTION};

fn actions(o: WidgetOutcome) -> Vec<(String, Option<String>)> {
    match o {
        WidgetOutcome::Action { name, payload } => vec![(name, payload)],
        _ => Vec::new(),
    }
}

#[test]
fn trigger_click_toggles_panel() {
    let mut p = Popover::new("Menu", Placement::Bottom).content("Panel body");
    assert_eq!(p.render(None).children.len(), 1, "closed: no panel");
    assert!(matches!(p.on_click(Some(PopoverHit::Trigger)), WidgetOutcome::Changed));
    assert!(p.is_open());
    let root = p.render(None);
    assert_eq!(root.children.len(), 2, "open: panel exists");
    assert_eq!(root.children[1].tag, "lq-popover-panel");
    let _ = p.on_click(Some(PopoverHit::Trigger));
    assert!(!p.is_open());
}

#[test]
fn escape_closes() {
    let mut p = Popover::new("Menu", Placement::Bottom).content("Body").open(true);
    assert!(p.is_open());
    let a = actions(p.on_keyboard(KeyInput::new(keys::ESCAPE, 0)));
    assert_eq!(a.len(), 1);
    assert_eq!(a[0].0, CLOSE_ACTION);
    assert!(!p.is_open());
    assert!(matches!(p.on_keyboard(KeyInput::new(keys::ESCAPE, 0)), WidgetOutcome::Ignored));
}

#[test]
fn panel_click_keeps_open() {
    let mut p = Popover::new("Menu", Placement::Bottom).content("Body").open(true);
    let a = actions(p.on_click(Some(PopoverHit::Panel)));
    assert!(a.is_empty(), "panel click emits nothing");
    assert!(p.is_open(), "panel click keeps the popover open");
}

#[test]
fn open_changes_pixels() {
    let closed = Popover::new("Menu", Placement::Bottom).content("Body").render(None);
    let open = Popover::new("Menu", Placement::Bottom).content("Body").open(true).render(Some(("12px", "40px")));
    assert_eq!(closed.children.len(), 1);
    assert_eq!(open.children.len(), 2, "the panel is emitted below the trigger when open");
    let panel = &open.children[1];
    assert_eq!(panel.styles, vec![("left".to_string(), "12px".to_string()), ("top".to_string(), "40px".to_string())]);
    assert!(panel.classes.iter().any(|c| c == "bottom"));
    assert_eq!(panel.children[0].text, "Body");
    assert!(open.pseudo.active && !closed.pseudo.active);
}

#[test]
fn outside_click_closes_an_open_popover() {
    let mut p = Popover::new("Menu", Placement::Right).open(true);
    let a = actions(p.on_click(None));
    assert_eq!(a[0].0, CLOSE_ACTION);
    assert!(!p.is_open());
    assert!(matches!(p.on_click(None), WidgetOutcome::Ignored));
}

#[test]
fn placement_names_render() {
    assert_eq!(Placement::Top.as_str(), "top");
    assert_eq!(Placement::Bottom.as_str(), "bottom");
    assert_eq!(Placement::Left.as_str(), "left");
    assert_eq!(Placement::Right.as_str(), "right");
    let p = Popover::new("Menu", Placement::Left);
    assert_eq!(p.placement(), Placement::Left);
    let root = p.render(None);
    assert!(root.attrs.iter().any(|(k, v)| k == "data-placement" && v == "left"));
    assert!(root.attrs.iter().any(|(k, v)| k == "aria-expanded" && v == "false"));
    assert_eq!(root.children[0].children[0].text, "Menu");
    assert!(p.focusable());
    assert_eq!(p.kind(), WidgetKind::Other);
}
