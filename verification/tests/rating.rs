use liquide_widgets::behavior::{KeyInput, WidgetKind, WidgetOutcome};
use liquide_widgets::keys;
use liquide_widgets::node::Node;
use liquide_widgets::rating::{Rating, RatingHit, CHANGED_ACTION, HEART_GLYPH, STAR_GLYPH};

/// A value in symbols, in the half units the control counts in.
fn halves(v: f32) -> usize {
    (v * 2.0).floor() as usize
}

/// A value in half units, in symbols.
fn symbols(h: usize) -> f32 {
    h as f32 / 2.0
}

fn actions(o: WidgetOutcome) -> Vec<(String, Option<String>)> {
    match o {
        WidgetOutcome::Action { name, payload } => vec![(name, payload)],
        _ => Vec::new(),
    }
}

fn center(star: usize) -> Option<RatingHit> {
    Some(RatingHit { star, left_half: false })
}

fn has_class(n: &Node, c: &str) -> bool {
    n.classes.iter().any(|x| x == c)
}

#[test]
fn click_sets_value_from_star_box() {
    let mut r = Rating::new(5, halves(0.0));
    let a = actions(r.on_click(center(3)));
    assert_eq!(a.len(), 1);
    assert_eq!(a[0].0, CHANGED_ACTION);
    assert_eq!(a[0].1.as_deref(), Some("4"), "star-3 (0-based) -> value 4");
    assert_eq!(symbols(r.value()), 4.0);
}

#[test]
fn hover_previews_up_to_star() {
    let mut r = Rating::new(5, halves(0.0));
    assert!(matches!(r.on_mouse_move(center(2)), WidgetOutcome::Changed));
    assert_eq!(r.hover_value().map(symbols), Some(3.0), "hover over star-2 previews 3");
    assert_eq!(symbols(r.value()), 0.0, "hover does not commit");
}

#[test]
fn star_index_from_layout_not_constant() {
    // The host resolves which laid-out box the pointer is over: a click near
    // the left edge of star-1 arrives as star 1 whatever the box widths are.
    let mut r = Rating::new(5, halves(0.0));
    let a = actions(r.on_click(Some(RatingHit { star: 1, left_half: true })));
    assert_eq!(a[0].1.as_deref(), Some("2"), "REAL box maps to star-1 -> value 2");
    assert_eq!(symbols(r.value()), 2.0);
}

#[test]
fn click_same_clears() {
    let mut r = Rating::new(5, halves(3.0));
    let a = actions(r.on_click(center(2)));
    assert_eq!(a[0].1.as_deref(), Some("0"));
    assert_eq!(symbols(r.value()), 0.0);
}

#[test]
fn arrows_step() {
    let mut r = Rating::new(5, halves(2.0));
    let _ = r.on_keyboard(KeyInput::new(keys::ARROW_RIGHT, 0));
    assert_eq!(symbols(r.value()), 3.0);
    let _ = r.on_keyboard(KeyInput::new(keys::ARROW_LEFT, 0));
    let _ = r.on_keyboard(KeyInput::new(keys::ARROW_LEFT, 0));
    assert_eq!(symbols(r.value()), 1.0);
    let _ = r.on_keyboard(KeyInput::new(keys::HOME, 0));
    assert_eq!(symbols(r.value()), 0.0);
    let _ = r.on_keyboard(KeyInput::new(keys::END, 0));
    assert_eq!(symbols(r.value()), 5.0);
}

#[test]
fn half_step_uses_box_half() {
    {
        let mut r = Rating::new(5, halves(0.0)).half_steps(true);
        let a = actions(r.on_click(Some(RatingHit { star: 2, left_half: true })));
        assert_eq!(a[0].1.as_deref(), Some("2.5"));
        assert_eq!(symbols(r.value()), 2.5);
    }
    {
        let mut r = Rating::new(5, halves(0.0)).half_steps(true);
        let a = actions(r.on_click(Some(RatingHit { star: 2, left_half: false })));
        assert_eq!(a[0].1.as_deref(), Some("3"));
    }
}

#[test]
fn fill_restyles_pixels() {
    let mut r = Rating::new(5, halves(0.0));
    let before = r.render();
    assert!(!has_class(&before.children[0], "filled"));
    let _ = r.on_click(center(0));
    let after = r.render();
    assert!(has_class(&after.children[0], "filled"), "filling star-0 must restyle it");
    assert!(after.children[0].pseudo.checked);
}

#[test]
fn rating_tests_disabled_swallows() {
    let mut r = Rating::new(5, halves(2.0)).disabled(true);
    assert!(actions(r.on_click(center(4))).is_empty());
    assert!(matches!(r.on_mouse_move(center(4)), WidgetOutcome::Ignored));
    assert!(matches!(r.on_keyboard(KeyInput::new(keys::END, 0)), WidgetOutcome::Ignored));
    assert_eq!(symbols(r.value()), 2.0);
}

#[test]
fn hover_preview_fills_star_bg_pixels() {
    let mut r = Rating::new(5, halves(0.0));
    let empty = r.render();
    assert!(!has_class(&empty.children[0], "filled") && !has_class(&empty.children[2], "filled"));
    let _ = r.on_mouse_move(center(2));
    assert_eq!(r.hover_value().map(symbols), Some(3.0), "preview = 3");
    let preview = r.render();
    assert!(has_class(&preview, "previewing"));
    assert!(has_class(&preview.children[0], "filled"), "hover-preview must fill star-0");
    assert!(has_class(&preview.children[2], "filled"), "hover-preview must fill star-2");
    assert!(!has_class(&preview.children[3], "filled"));
    assert_eq!(symbols(r.value()), 0.0);
}

#[test]
fn filled_star_paints_accent_bg() {
    let r = Rating::new(5, halves(2.0));
    let root = r.render();
    assert!(has_class(&root.children[0], "filled"));
    assert!(has_class(&root.children[1], "filled"));
    assert!(!has_class(&root.children[4], "filled"));
}

#[test]
fn filled_region_moves_with_value() {
    let at = |value: f32| {
        let r = Rating::new(5, halves(value));
        has_class(&r.render().children[2], "filled")
    };
    assert!(!at(1.0), "star-2 empty at value 1");
    assert!(at(3.0), "at value 3 star-2 is filled");
}

#[test]
fn half_star_paints_distinct_bg() {
    let mut r = Rating::new(5, halves(0.0)).half_steps(true);
    let _ = r.on_click(Some(RatingHit { star: 2, left_half: true }));
    assert_eq!(symbols(r.value()), 2.5, "left-half click set 2.5");
    let root = r.render();
    let full = &root.children[0];
    let half = &root.children[2];
    let empty = &root.children[4];
    assert!(has_class(full, "filled") && !has_class(full, "half"));
    assert!(has_class(half, "half") && !has_class(half, "filled"));
    assert!(!has_class(empty, "half") && !has_class(empty, "filled"));
}

#[test]
fn rating_tests_disabled_dims_pixels() {
    let enabled = Rating::new(5, halves(3.0)).render();
    let disabled = Rating::new(5, halves(3.0)).disabled(true).render();
    assert!(!enabled.children[0].pseudo.disabled);
    assert!(disabled.children[0].pseudo.disabled);
    assert!(disabled.pseudo.disabled);
    assert!(disabled.attrs.iter().any(|(k, v)| k == "disabled" && v == "true"));
}

#[test]
fn constructor_snaps_to_whole_symbols() {
    assert_eq!(Rating::new(5, halves(2.5)).value(), 6);
    assert_eq!(Rating::new(5, halves(2.3)).value(), 4);
    assert_eq!(Rating::new(5, halves(9.0)).value(), 10);
    assert_eq!(Rating::new(5, 0).count(), 5);
}

#[test]
fn clicking_twice_restores_the_value() {
    let mut r = Rating::new(5, halves(3.0));
    let _ = r.on_click(center(2));
    assert_eq!(r.value(), 0);
    let a = actions(r.on_click(center(2)));
    assert_eq!(a[0].1.as_deref(), Some("3"));
    assert_eq!(r.value(), 6);
}

#[test]
fn half_steps_step_by_half_and_clamp() {
    let mut r = Rating::new(3, halves(3.0)).half_steps(true);
    assert!(matches!(r.on_keyboard(KeyInput::new(keys::ARROW_UP, 0)), WidgetOutcome::Ignored));
    let a = actions(r.on_keyboard(KeyInput::new(keys::ARROW_DOWN, 0)));
    assert_eq!(a[0].1.as_deref(), Some("2.5"));
    let _ = r.on_keyboard(KeyInput::new(keys::HOME, 0));
    assert!(matches!(r.on_keyboard(KeyInput::new(keys::ARROW_LEFT, 0)), WidgetOutcome::Ignored));
    assert_eq!(r.value(), 0);
}

#[test]
fn leave_drops_the_preview() {
    let mut r = Rating::new(5, 0);
    assert!(matches!(r.on_mouse_leave(), WidgetOutcome::Ignored));
    let _ = r.on_mouse_move(center(1));
    assert!(matches!(r.on_mouse_leave(), WidgetOutcome::Changed));
    assert_eq!(r.hover_value(), None);
    assert!(matches!(r.on_mouse_move(None), WidgetOutcome::Ignored));
}

#[test]
fn render_carries_value_and_symbols() {
    let r = Rating::new(4, halves(2.0)).hearts();
    let root = r.render();
    assert_eq!(root.tag, "lq-rating");
    assert!(root.attrs.iter().any(|(k, v)| k == "data-value" && v == "2"));
    assert!(root.attrs.iter().any(|(k, v)| k == "role" && v == "slider"));
    assert_eq!(root.children.len(), 4);
    let star = &root.children[3];
    assert!(star.attrs.iter().any(|(k, v)| k == "data-part" && v == "star-3"));
    assert_eq!(star.children[0].children[0].text, HEART_GLYPH.to_string());
    let plain = Rating::new(1, 0).render();
    assert_eq!(plain.children[0].children[0].children[0].text, STAR_GLYPH.to_string());
    assert_eq!(r.kind(), WidgetKind::Slider);
    assert!(r.focusable());
    assert_eq!(Rating::new(1, 0).symbol('x').render().children[0].children[0].children[0].text, "x");
}
