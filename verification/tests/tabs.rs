use liquide_widgets::behavior::{KeyInput, WidgetOutcome};
use liquide_widgets::keys;
use liquide_widgets::node::Node;
use liquide_widgets::tabs::{Tabs, CHANGED_ACTION};

fn three_tabs() -> Tabs {
    Tabs::new()
        .tab("One", "first panel content")
        .tab("Two", "second panel content")
        .tab("Three", "third panel content")
}

fn actions(o: WidgetOutcome) -> Vec<(String, Option<String>)> {
    match o {
        WidgetOutcome::Action { name, payload } => vec![(name, payload)],
        _ => Vec::new(),
    }
}

fn tab(t: &Tabs, i: usize) -> Node {
    t.render().children.into_iter().next().expect("strip").children.into_iter().nth(i).expect("tab")
}

fn collect(n: &Node, out: &mut String) {
    out.push_str(&n.text);
    for c in &n.children {
        collect(c, out);
    }
}

fn panel_text(t: &Tabs) -> String {
    let panel = t.render().children.into_iter().nth(1).expect("panel");
    let mut out = String::new();
    collect(&panel, &mut out);
    out
}

#[test]
fn first_tab_active_initially() {
    let t = three_tabs();
    assert_eq!(t.selected_index(), 0);
    assert!(panel_text(&t).contains("first"), "first panel shown");
}

#[test]
fn clicking_tab_switches_panel() {
    let mut t = three_tabs();
    let a = actions(t.on_click(Some(1)));
    assert_eq!(a.len(), 1);
    assert_eq!(a[0].0, CHANGED_ACTION);
    assert_eq!(a[0].1.as_deref(), Some("1"));
    assert_eq!(t.selected_index(), 1);
    assert!(panel_text(&t).contains("second"), "second panel now shown");
    assert!(!panel_text(&t).contains("first"), "first panel hidden");
}

#[test]
fn tab_hit_test_comes_from_layout_not_constant() {
    // The host resolves the click against tab-2's laid-out box.
    let mut t = three_tabs();
    let _ = t.on_click(Some(2));
    assert_eq!(t.selected_index(), 2, "click in tab-2's box must select 2");
}

#[test]
fn active_tab_restyles_pixels() {
    let mut t = three_tabs();
    let before = tab(&t, 1);
    let _ = t.on_click(Some(1));
    let after = tab(&t, 1);
    assert!(!before.pseudo.checked && after.pseudo.checked, "active tab must restyle");
}

#[test]
fn keyboard_moves_active_tab() {
    let mut t = three_tabs();
    let _ = t.on_keyboard(KeyInput::new(keys::ARROW_RIGHT, 0));
    assert_eq!(t.selected_index(), 1);
    let _ = t.on_keyboard(KeyInput::new(keys::END, 0));
    assert_eq!(t.selected_index(), 2);
    let _ = t.on_keyboard(KeyInput::new(keys::ARROW_RIGHT, 0));
    assert_eq!(t.selected_index(), 0);
    let _ = t.on_keyboard(KeyInput::new(keys::ARROW_LEFT, 0));
    assert_eq!(t.selected_index(), 2);
    let _ = t.on_keyboard(KeyInput::new(keys::HOME, 0));
    assert_eq!(t.selected_index(), 0);
}

#[test]
fn disabled_tabs_ignore_input() {
    let mut t = three_tabs().disabled(true);
    let _ = t.on_click(Some(1));
    let _ = t.on_keyboard(KeyInput::new(keys::ARROW_RIGHT, 0));
    assert_eq!(t.selected_index(), 0, "disabled tabs hold selection");
}

#[test]
fn selected_tab_indicator_paints_accent_underline() {
    let t = three_tabs();
    let (t0, t1) = (tab(&t, 0), tab(&t, 1));
    assert!(t0.pseudo.checked, "selected tab carries :checked");
    assert!(t0.pseudo.checked != t1.pseudo.checked, "selected tab differs from an unselected one");
    assert!(t0.attrs.iter().any(|(k, v)| k == "aria-selected" && v == "true"));
}

#[test]
fn checked_styling_follows_selection_movement() {
    let mut t = three_tabs();
    let (t0_before, t1_before) = (tab(&t, 0).pseudo.checked, tab(&t, 1).pseudo.checked);
    assert!(t0_before != t1_before);
    let _ = t.on_click(Some(1));
    assert_eq!(t.selected_index(), 1);
    let (t0_after, t1_after) = (tab(&t, 0).pseudo.checked, tab(&t, 1).pseudo.checked);
    assert!(t0_after != t0_before, "tab-0 must revert when selection leaves it");
    assert!(t1_after != t1_before, "tab-1 must take the selected look when selected");
    assert_eq!(t1_after, t0_before);
    assert_eq!(t0_after, t1_before);
}

#[test]
fn hovering_tab_restyles_pixels() {
    let mut t = three_tabs();
    let before = tab(&t, 1).pseudo.hover;
    let _ = t.on_mouse_move(Some(1));
    assert_eq!(t.selected_index(), 0, "hover must not change selection");
    assert!(before != tab(&t, 1).pseudo.hover, "hovering an unselected tab must restyle it");
}

#[test]
fn unhovering_tab_reverts_pixels() {
    let mut t = three_tabs();
    let resting = tab(&t, 1).pseudo.hover;
    let _ = t.on_mouse_move(Some(1));
    assert!(tab(&t, 1).pseudo.hover != resting);
    let _ = t.on_mouse_move(None);
    assert_eq!(tab(&t, 1).pseudo.hover, resting, "leaving the tab must revert hover");
}

#[test]
fn tab_with_panel_subtrees_render_as_given() {
    let content = vec![Node::el("p").attr("data-k", "1").child(Node::text("hello")), Node::text("world")];
    let t = Tabs::new().tab_with("A", content);
    let panel = t.render().children.into_iter().nth(1).unwrap();
    assert_eq!(panel.children.len(), 2);
    assert_eq!(panel.children[0].tag, "p");
    assert_eq!(panel.children[0].attrs, vec![("data-k".to_string(), "1".to_string())]);
    assert_eq!(panel.children[0].children[0].text, "hello");
    assert_eq!(panel.children[1].text, "world");
    assert_eq!(t.selected_label(), Some("A"));
}

#[test]
fn empty_tabs_render_an_empty_panel() {
    let t = Tabs::new();
    assert!(t.is_empty());
    assert_eq!(t.selected_label(), None);
    assert!(t.render().children[1].children.is_empty());
}
