use liquide_widgets::behavior::{KeyInput, WidgetOutcome};
use liquide_widgets::keys;
use liquide_widgets::stepper::{Stepper, StepperHit, CHANGED_ACTION};

fn steps() -> Vec<String> {
    vec!["Account".into(), "Profile".into(), "Payment".into(), "Confirm".into()]
}

fn actions(o: WidgetOutcome) -> Vec<(String, Option<String>)> {
    match o {
        WidgetOutcome::Action { name, payload } => vec![(name, payload)],
        _ => Vec::new(),
    }
}

#[test]
fn keyboard_navigation() {
    let mut s = Stepper::new(steps());
    let a = actions(s.on_keyboard(KeyInput::new(keys::ARROW_RIGHT, 0)));
    assert_eq!(a[0].1.as_deref(), Some("1"));
    assert_eq!(s.current(), 1);
    let a = actions(s.on_keyboard(KeyInput::new(keys::ARROW_LEFT, 0)));
    assert_eq!(a[0].1.as_deref(), Some("0"));
    assert_eq!(s.current(), 0);
}

#[test]
fn cannot_skip_ahead_but_can_go_back() {
    let mut s = Stepper::new(steps());
    assert!(actions(s.on_click(Some(StepperHit::Step(2)))).is_empty(), "step 2 is not reachable from 0");
    assert!(s.is_reachable(1) && !s.is_reachable(2));
    let a = actions(s.on_click(Some(StepperHit::Next)));
    assert_eq!(a[0].0, CHANGED_ACTION);
    let _ = s.on_click(Some(StepperHit::Step(2)));
    assert_eq!(s.current(), 2);
    let _ = s.on_click(Some(StepperHit::Step(0)));
    assert_eq!(s.current(), 0);
    assert!(actions(s.on_click(Some(StepperHit::Back))).is_empty());
}

#[test]
fn markers_and_connectors_render_in_order() {
    let s = Stepper::new(steps()).start_at(1);
    let root = s.render();
    let head = &root.children[0];
    assert_eq!(head.children.len(), 7);
    assert_eq!(head.children[0].tag, "lq-step");
    assert_eq!(head.children[1].tag, "lq-step-connector");
    assert!(head.children[0].classes.iter().any(|c| c == "completed"));
    assert!(head.children[1].classes.iter().any(|c| c == "filled"));
    assert!(head.children[2].classes.iter().any(|c| c == "current"));
    assert!(head.children[4].classes.iter().any(|c| c == "upcoming"));
    assert_eq!(head.children[2].children[0].children[0].text, "2");
    assert_eq!(head.children[2].children[1].children[0].text, "Profile");
    let foot = &root.children[1];
    assert!(foot.children[0].classes.is_empty() && foot.children[1].classes.is_empty());
}

fn has_class(n: &liquide_widgets::node::Node, c: &str) -> bool {
    n.classes.iter().any(|x| x == c)
}

fn marker_state(s: &Stepper, i: usize) -> &'static str {
    let root = s.render();
    let step = &root.children[0].children[2 * i];
    if has_class(step, "completed") {
        "completed"
    } else if has_class(step, "current") {
        "current"
    } else {
        "upcoming"
    }
}

#[test]
fn next_advances_and_emits() {
    let mut s = Stepper::new(steps());
    assert_eq!(s.current(), 0);
    let a = actions(s.on_click(Some(StepperHit::Next)));
    assert_eq!(a.len(), 1);
    assert_eq!(a[0].0, CHANGED_ACTION);
    assert_eq!(a[0].1.as_deref(), Some("1"));
    assert_eq!(s.current(), 1);
}

#[test]
fn back_retreats_and_is_inert_at_start() {
    let mut s = Stepper::new(steps()).start_at(2);
    let a = actions(s.on_click(Some(StepperHit::Back)));
    assert_eq!(a[0].1.as_deref(), Some("1"));
    assert_eq!(s.current(), 1);
    let mut s0 = Stepper::new(steps()).start_at(0);
    assert!(actions(s0.on_click(Some(StepperHit::Back))).is_empty(), "Back at step 0 emits nothing");
    assert_eq!(s0.current(), 0);
}

#[test]
fn click_reachable_step_jumps_unreachable_inert() {
    let mut s = Stepper::new(steps());
    assert!(actions(s.on_click(Some(StepperHit::Step(3)))).is_empty(), "jumping ahead to step 3 is inert");
    assert_eq!(s.current(), 0);
    let a = actions(s.on_click(Some(StepperHit::Step(1))));
    assert_eq!(a[0].1.as_deref(), Some("1"));
    assert_eq!(s.current(), 1);
    let a = actions(s.on_click(Some(StepperHit::Step(0))));
    assert_eq!(a[0].1.as_deref(), Some("0"), "completed step is reachable");
}

#[test]
fn step_hit_comes_from_layout_not_constant() {
    // The host resolves the step under the pointer from the laid-out boxes.
    let mut s = Stepper::new(steps());
    let a = actions(s.on_click(Some(StepperHit::Step(1))));
    assert_eq!(a[0].1.as_deref(), Some("1"), "click in step-1's REAL box selects 1");
}

#[test]
fn advance_changes_pixels() {
    let before = Stepper::new(steps()).start_at(0);
    let after = Stepper::new(steps()).start_at(1);
    assert_eq!(marker_state(&before, 1), "upcoming");
    assert_eq!(marker_state(&after, 1), "current", "the current-step marker moves to step 1");
}

#[test]
fn current_marker_differs_from_upcoming_marker() {
    let s = Stepper::new(steps());
    assert_eq!(marker_state(&s, 0), "current");
    assert_eq!(marker_state(&s, 2), "upcoming");
    let root = s.render();
    assert!(root.children[0].children[0].pseudo.focus);
    assert!(!root.children[0].children[4].pseudo.focus);
}

#[test]
fn completed_marker_differs_from_current_and_upcoming() {
    let s = Stepper::new(steps()).start_at(2);
    assert_eq!(marker_state(&s, 0), "completed");
    assert_eq!(marker_state(&s, 2), "current");
    assert_eq!(marker_state(&s, 3), "upcoming");
    assert!(s.render().children[0].children[0].pseudo.checked);
}

#[test]
fn step_connector_fills_with_progress() {
    let unfilled = Stepper::new(steps()).start_at(0).render();
    let filled = Stepper::new(steps()).start_at(1).render();
    assert!(!has_class(&unfilled.children[0].children[1], "filled"));
    assert!(has_class(&filled.children[0].children[1], "filled"), "the connector before a completed step fills");
}

#[test]
fn step_marker_badge_paints() {
    let root = Stepper::new(steps()).render();
    let marker = &root.children[0].children[0].children[0];
    assert_eq!(marker.tag, "lq-step-marker");
    assert_eq!(marker.children[0].text, "1", "the step marker badge shows its number");
}

#[test]
fn next_disabled_on_last_step_and_inert() {
    let mut s = Stepper::new(steps()).start_at(3);
    assert!(actions(s.on_click(Some(StepperHit::Next))).is_empty(), "Next on the last step is inert");
    assert_eq!(s.current(), 3, "stays on the last step");
}

#[test]
fn disabled_next_renders_dimmed() {
    let en = Stepper::new(steps()).start_at(0).render();
    let dis = Stepper::new(steps()).start_at(3).render();
    let next_en = &en.children[1].children[1];
    let next_dis = &dis.children[1].children[1];
    assert_eq!(next_en.tag, next_dis.tag, "same Next control");
    assert!(!next_en.pseudo.disabled && !has_class(next_en, "disabled"));
    assert!(next_dis.pseudo.disabled && has_class(next_dis, "disabled"), "the disabled Next renders dimmed");
}

#[test]
fn disabled_stepper_swallows_clicks() {
    let mut s = Stepper::new(steps()).disabled(true);
    assert!(actions(s.on_click(Some(StepperHit::Next))).is_empty(), "a disabled stepper emits nothing");
    assert_eq!(s.current(), 0, "no advance");
    assert!(!s.focusable(), "a disabled stepper is not focusable");
}
