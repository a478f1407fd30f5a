use liquide_widgets::behavior::{KeyInput, WidgetOutcome};
use liquide_widgets::keys;
use liquide_widgets::toggle::{RadioGroup, Toggle, CHANGED_ACTION};

fn actions(o: WidgetOutcome) -> Vec<(String, Option<String>)> {
    match o {
        WidgetOutcome::Action { name, payload } => vec![(name, payload)],
        _ => Vec::new(),
    }
}

#[test]
fn checkbox_click_and_space_flip_state() {
    let mut t = Toggle::checkbox("Remember me");
    let a = actions(t.on_click(true));
    assert_eq!(a[0].0, CHANGED_ACTION);
    assert_eq!(a[0].1.as_deref(), Some("true"));
    assert!(t.is_checked());
    let a = actions(t.on_keyboard(KeyInput::new(keys::SPACE, 0)));
    assert_eq!(a[0].1.as_deref(), Some("false"));
    assert!(actions(t.on_click(false)).is_empty(), "a click outside the box is ignored");
    let r = t.render();
    assert_eq!(r.tag, "lq-checkbox");
    assert_eq!(r.children[1].children[0].text, "Remember me");
}

#[test]
fn disabled_switch_ignores_input() {
    let mut t = Toggle::switch("Wi-Fi").checked(true).disabled(true);
    assert!(actions(t.on_click(true)).is_empty());
    assert!(t.is_checked() && t.is_disabled());
    assert_eq!(t.render().tag, "lq-switch");
}

#[test]
fn radio_group_is_exclusive_and_wraps() {
    let opts = vec![("a".to_string(), "A".to_string()), ("b".to_string(), "B".to_string()), ("c".to_string(), "C".to_string())];
    let mut r = RadioGroup::new("letters", opts);
    let _ = r.on_keyboard(KeyInput::new(keys::ARROW_UP, 0));
    assert_eq!(r.selected_index(), 2);
    let a = actions(r.on_click(Some(1)));
    assert_eq!(a[0].1.as_deref(), Some("b"));
    let tree = r.render();
    let checked: Vec<bool> = tree.children.iter().map(|c| c.pseudo.checked).collect();
    assert_eq!(checked, vec![false, true, false]);
    assert_eq!(r.selected_value(), Some("b"));
}

#[test]
fn two_clicks_restore_a_toggle() {
    let mut t = Toggle::switch("Wi-Fi").checked(true);
    let _ = t.on_click(true);
    let _ = t.on_click(true);
    assert!(t.is_checked());
    assert!(matches!(t.on_click(false), WidgetOutcome::Ignored));
    assert!(t.is_checked());
}
