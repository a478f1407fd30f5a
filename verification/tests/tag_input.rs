use liquide_widgets::behavior::{KeyInput, WidgetOutcome};
use liquide_widgets::keys;
use liquide_widgets::node::Node;
use liquide_widgets::tag_input::{TagHit, TagInput, CHANGED_ACTION};

fn actions(o: WidgetOutcome) -> Vec<(String, Option<String>)> {
    match o {
        WidgetOutcome::Action { name, payload } => vec![(name, payload)],
        _ => Vec::new(),
    }
}

fn type_str(t: &mut TagInput, s: &str) {
    for c in s.chars() {
        let _ = t.on_keyboard(KeyInput::new(c as u32, 0));
    }
}

fn seeded(tags: &[&str]) -> TagInput {
    TagInput::new("…").with_tags(tags.iter().map(|s| s.to_string()).collect())
}

fn tags(t: &TagInput) -> Vec<String> {
    t.tags().to_vec()
}

#[test]
fn type_and_enter_adds_a_tag() {
    let mut t = TagInput::new("Add tags…");
    type_str(&mut t, "rust");
    assert_eq!(t.buffer(), "rust");
    let a = actions(t.on_keyboard(KeyInput::new(keys::ENTER, 0)));
    assert_eq!(a.len(), 1);
    assert_eq!(a[0].0, CHANGED_ACTION);
    assert_eq!(a[0].1.as_deref(), Some("rust"));
    assert_eq!(tags(&t), vec!["rust".to_string()]);
    assert_eq!(t.buffer(), "", "buffer clears after commit");
}

#[test]
fn backspace_at_start_removes_last_tag() {
    let mut t = seeded(&["a", "b", "c"]);
    assert_eq!(t.tags().len(), 3);
    let a = actions(t.on_keyboard(KeyInput::new(keys::BACKSPACE, 0)));
    assert_eq!(a.len(), 1);
    assert_eq!(a[0].1.as_deref(), Some("a,b"));
    assert_eq!(tags(&t), vec!["a".to_string(), "b".to_string()]);
}

#[test]
fn backspace_mid_buffer_edits_text_not_tags() {
    let mut t = seeded(&["keep"]);
    type_str(&mut t, "xy");
    assert_eq!(t.buffer(), "xy");
    let _ = t.on_keyboard(KeyInput::new(keys::BACKSPACE, 0));
    assert_eq!(t.buffer(), "x");
    assert_eq!(tags(&t), vec!["keep".to_string()], "token untouched");
}

#[test]
fn remove_x_hits_the_laid_out_box() {
    let mut t = seeded(&["short", "a-much-longer-tag", "z"]);
    let a = actions(t.on_click(Some(TagHit::Remove(0))));
    assert_eq!(a.len(), 1);
    assert_eq!(a[0].0, CHANGED_ACTION);
    assert_eq!(tags(&t), vec!["a-much-longer-tag".to_string(), "z".to_string()]);
}

#[test]
fn label_click_does_not_remove() {
    let mut t = seeded(&["alpha", "beta"]);
    let _ = t.on_click(Some(TagHit::Field));
    assert_eq!(t.tags().len(), 2, "clicking the label must not remove a token");
    assert!(t.is_focused());
}

#[test]
fn duplicate_tag_rejected() {
    let mut t = seeded(&["dup"]);
    type_str(&mut t, "dup");
    let _ = t.on_keyboard(KeyInput::new(keys::ENTER, 0));
    assert_eq!(tags(&t), vec!["dup".to_string()], "no duplicate added");
    assert_eq!(t.buffer(), "", "the rejected buffer still clears");
}

#[test]
fn added_token_lays_out_a_box() {
    let mut t = TagInput::new("…");
    assert!(t.render().children.iter().all(|c| c.tag != "lq-token"));
    type_str(&mut t, "new");
    let _ = t.on_keyboard(KeyInput::new(keys::ENTER, 0));
    let root = t.render();
    assert_eq!(root.children[0].tag, "lq-token");
    assert!(root.children[0].attrs.iter().any(|(k, v)| k == "data-part" && v == "token-0"));
}

#[test]
fn tag_input_tests_disabled_swallows() {
    let mut t = TagInput::new("…").disabled(true);
    type_str(&mut t, "x");
    let a = actions(t.on_keyboard(KeyInput::new(keys::ENTER, 0)));
    assert!(a.is_empty());
    assert!(t.tags().is_empty());
}

#[test]
fn with_tags_trims_and_drops_empty_and_duplicates() {
    let t = seeded(&["  a ", "", "b", "a", "   "]);
    assert_eq!(tags(&t), vec!["a".to_string(), "b".to_string()]);
    let d = TagInput::new("…").allow_duplicates(true).with_tags(vec!["x".into(), "x".into()]);
    assert_eq!(tags(&d), vec!["x".to_string(), "x".to_string()]);
}

#[test]
fn caret_moves_and_edits_in_the_middle() {
    let mut t = TagInput::new("…");
    type_str(&mut t, "ac");
    let _ = t.on_keyboard(KeyInput::new(keys::ARROW_LEFT, 0));
    type_str(&mut t, "b");
    assert_eq!(t.buffer(), "abc");
    let _ = t.on_keyboard(KeyInput::new(keys::HOME, 0));
    let _ = t.on_keyboard(KeyInput::new(keys::DELETE, 0));
    assert_eq!(t.buffer(), "bc");
    let _ = t.on_keyboard(KeyInput::new(keys::END, 0));
    assert!(!t.on_keyboard(KeyInput::new(keys::ARROW_RIGHT, 0)).needs_render());
    let field: Node = t.render().children.into_iter().last().unwrap();
    assert_eq!(field.children[0].children[0].text, "bc");
    assert_eq!(field.children[2].children[0].text, "");
}

#[test]
fn placeholder_shows_only_when_empty() {
    let t = TagInput::new("Add tags");
    let field = t.render().children.into_iter().last().unwrap();
    assert!(field.classes.iter().any(|c| c == "placeholder"));
    assert_eq!(field.children[0].children[0].text, "Add tags");
    let u = seeded(&["a"]);
    let field = u.render().children.into_iter().last().unwrap();
    assert!(field.classes.is_empty());
}

#[test]
fn unicode_typing_keeps_characters_whole() {
    let mut t = TagInput::new("…");
    type_str(&mut t, "é中");
    let _ = t.on_keyboard(KeyInput::new(keys::BACKSPACE, 0));
    assert_eq!(t.buffer(), "é");
}

fn find_part<'a>(n: &'a Node, part: &str) -> Option<&'a Node> {
    if n.attrs.iter().any(|(k, v)| k == "data-part" && v == part) {
        return Some(n);
    }
    n.children.iter().find_map(|c| find_part(c, part))
}

#[test]
fn tag_input_tests_focus_restyles_border_pixels() {
    let mut t = TagInput::new("Add…");
    assert!(!t.render().pseudo.focus);
    t.set_focused(true);
    assert!(t.render().pseudo.focus, ":focus must restyle the tag-input border");
}

#[test]
fn chip_remove_x_paints() {
    let t = seeded(&["rust"]);
    let root = t.render();
    let rm = find_part(&root, "remove-0").expect("remove-0 box");
    let chip = find_part(&root, "token-0").expect("token-0 box");
    assert_eq!(rm.tag, "lq-token-remove", "the × affordance is its own box");
    assert_eq!(rm.children[0].text, "\u{00D7}");
    assert_ne!(rm.tag, chip.tag, "the × inset is styled apart from the chip body");
}

#[test]
fn remove_x_hover_restyles_pixels() {
    // `:hover` lands on the × box itself (the host sets it on the hit node), so
    // the × must be a distinct element inside the chip.
    let t = seeded(&["alpha"]);
    let root = t.render();
    let chip = find_part(&root, "token-0").unwrap();
    assert_eq!(chip.children.len(), 2);
    assert!(chip.children[1].attrs.iter().any(|(k, v)| k == "role" && v == "button"));
    assert!(chip.children[1].attrs.iter().any(|(k, v)| k == "aria-label" && v == "Remove tag"));
}

#[test]
fn tag_input_tests_disabled_dims_pixels() {
    let enabled = seeded(&["one"]).render();
    let disabled = seeded(&["one"]).disabled(true).render();
    assert!(!enabled.pseudo.disabled);
    assert!(disabled.pseudo.disabled, ":disabled must dim the chip fill");
    assert!(disabled.attrs.iter().any(|(k, v)| k == "disabled" && v == "true"));
}

#[test]
fn tags_stay_trimmed_nonempty_and_distinct() {
    let mut t = seeded(&["  a ", "b", "a", "\u{3000}", " c\u{00A0}"]);
    assert_eq!(tags(&t), vec!["a".to_string(), "b".to_string(), "c".to_string()]);
    type_str(&mut t, "  d  ");
    let _ = t.on_keyboard(KeyInput::new(keys::ENTER, 0));
    type_str(&mut t, " b");
    let _ = t.on_keyboard(KeyInput::new(keys::ENTER, 0));
    assert_eq!(tags(&t), vec!["a".to_string(), "b".to_string(), "c".to_string(), "d".to_string()]);
}

#[test]
fn unicode_whitespace_is_trimmed_from_tags() {
    let t = seeded(&["\u{3000}ab\u{2003}", "\t\u{a0}", "c\u{85}"]);
    assert_eq!(tags(&t), vec!["ab".to_string(), "c".to_string()]);
}
