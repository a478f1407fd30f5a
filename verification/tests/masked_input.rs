use liquide_widgets::behavior::{KeyInput, WidgetOutcome};
use liquide_widgets::keys;
use liquide_widgets::masked_input::{MaskedInput, CHANGED_ACTION};
use liquide_widgets::node::Node;

fn actions(o: WidgetOutcome) -> Vec<(String, Option<String>)> {
    match o {
        WidgetOutcome::Action { name, payload } => vec![(name, payload)],
        _ => Vec::new(),
    }
}

fn type_str(m: &mut MaskedInput, s: &str) {
    for c in s.chars() {
        let _ = m.on_keyboard(KeyInput::new(c as u32, 0));
    }
}

fn attr<'a>(n: &'a Node, k: &str) -> Option<&'a str> {
    n.attrs.iter().find(|(a, _)| a == k).map(|(_, v)| v.as_str())
}

/// The children of the mask field, in order.
fn field(m: &MaskedInput) -> Vec<Node> {
    m.render().children.into_iter().next().expect("field").children
}

fn part_index(cells: &[Node], part: &str) -> Option<usize> {
    cells.iter().position(|c| attr(c, "data-part") == Some(part))
}

#[test]
fn typing_fills_slots_with_literals() {
    let mut m = MaskedInput::new("##/##/####");
    type_str(&mut m, "12252026");
    assert_eq!(m.raw(), "12252026");
    assert_eq!(m.formatted(), "12/25/2026");
    assert!(m.is_complete());
}

#[test]
fn change_payload_is_raw_and_formatted() {
    let mut m = MaskedInput::new("##/##");
    let _ = m.on_keyboard(KeyInput::new('0' as u32, 0));
    let a = actions(m.on_keyboard(KeyInput::new('7' as u32, 0)));
    assert_eq!(a.len(), 1);
    assert_eq!(a[0].0, CHANGED_ACTION);
    assert_eq!(a[0].1.as_deref(), Some("07|07/__"));
}

#[test]
fn wrong_kind_char_rejected() {
    let mut m = MaskedInput::new("###");
    let a = actions(m.on_keyboard(KeyInput::new('x' as u32, 0)));
    assert!(a.is_empty(), "a letter in a digit slot is rejected");
    assert_eq!(m.raw(), "");
    let mut m2 = MaskedInput::new("AA");
    let a = actions(m2.on_keyboard(KeyInput::new('5' as u32, 0)));
    assert!(a.is_empty(), "a digit in a letter slot is rejected");
    let _ = m2.on_keyboard(KeyInput::new('a' as u32, 0));
    assert_eq!(m2.raw(), "a");
}

#[test]
fn backspace_removes_last_filled() {
    let mut m = MaskedInput::new("##/##");
    type_str(&mut m, "123");
    assert_eq!(m.raw(), "123");
    let _ = m.on_keyboard(KeyInput::new(keys::BACKSPACE, 0));
    assert_eq!(m.raw(), "12");
    assert_eq!(m.formatted(), "12/__");
}

#[test]
fn literal_slots_lay_out_at_mask_positions() {
    let m = MaskedInput::new("##/##");
    let cells = field(&m);
    let s: Vec<usize> = (0..4).map(|i| part_index(&cells, &format!("slot-{i}")).expect("slot")).collect();
    assert!(s[0] < s[1] && s[1] < s[2] && s[2] < s[3]);
    assert_eq!(attr(&cells[s[2]], "data-literal"), Some("true"), "slot-2 is the literal slot");
    assert_eq!(cells[s[2]].children[0].text, "/");
}

#[test]
fn caret_skips_literal_slots() {
    let mut m = MaskedInput::new("##/##");
    let _ = m.on_click(true);
    type_str(&mut m, "12");
    let cells = field(&m);
    let caret = part_index(&cells, "caret").expect("caret");
    let s1 = part_index(&cells, "slot-1").unwrap();
    let lit = part_index(&cells, "slot-2").unwrap();
    let s3 = part_index(&cells, "slot-3").unwrap();
    assert!(caret > s1 && caret > lit, "caret skipped the filled digits and the literal");
    assert_eq!(caret + 1, s3, "caret sits right before the next editable slot");
}

#[test]
fn masked_input_tests_disabled_swallows() {
    let mut m = MaskedInput::new("###").disabled(true);
    let a = actions(m.on_keyboard(KeyInput::new('5' as u32, 0)));
    assert!(a.is_empty());
    assert_eq!(m.raw(), "");
}

#[test]
fn focus_paints_caret() {
    let mut m = MaskedInput::new("##/##");
    assert!(part_index(&field(&m), "caret").is_none(), "unfocused: no caret");
    let _ = m.on_click(true);
    let cells = field(&m);
    let caret = part_index(&cells, "caret").expect("focused: caret");
    assert!(cells[caret].pseudo.focus);
}

#[test]
fn complete_restyles_border_pixels() {
    let mut m = MaskedInput::new("##");
    assert!(!m.render().classes.iter().any(|c| c == "complete"));
    type_str(&mut m, "12");
    assert!(m.is_complete());
    assert!(m.render().classes.iter().any(|c| c == "complete"));
}

#[test]
fn filled_slot_differs_from_empty_slot() {
    let mut m = MaskedInput::new("####");
    type_str(&mut m, "7");
    let cells = field(&m);
    let filled = &cells[part_index(&cells, "slot-0").unwrap()];
    let empty = &cells[part_index(&cells, "slot-2").unwrap()];
    assert!(filled.classes.iter().any(|c| c == "filled"));
    assert!(empty.classes.iter().any(|c| c == "empty"));
    assert_eq!(filled.children[0].text, "7");
    assert_eq!(empty.children[0].text, "_");
}

#[test]
fn masked_input_tests_disabled_dims_pixels() {
    let e = MaskedInput::new("##/##").render();
    let d = MaskedInput::new("##/##").disabled(true).render();
    assert!(!e.pseudo.disabled && d.pseudo.disabled);
    assert_eq!(attr(&d, "disabled"), Some("true"));
}

#[test]
fn any_slot_accepts_letters_and_digits_but_not_punctuation() {
    let mut m = MaskedInput::new("**").placeholder_char('.');
    let _ = m.on_keyboard(KeyInput::new('-' as u32, 0));
    assert_eq!(m.raw(), "");
    type_str(&mut m, "a1");
    assert_eq!(m.formatted(), "a1");
    let mut p = MaskedInput::new("#-#").placeholder_char('.');
    assert_eq!(p.formatted(), ".-.");
    let _ = p.on_keyboard(KeyInput::new('4' as u32, keys::modifiers::CTRL));
    assert_eq!(p.raw(), "", "a shortcut does not type");
}

#[test]
fn masked_input_tests_focus_restyles_border_pixels() {
    let mut m = MaskedInput::new("###");
    assert!(!m.render().pseudo.focus);
    m.set_focused(true);
    assert!(m.render().pseudo.focus, ":focus must restyle the masked-input border");
}

#[test]
fn raw_never_outgrows_the_editable_slots() {
    let mut m = MaskedInput::new("##-AA");
    type_str(&mut m, "12ab9z");
    assert_eq!(m.raw(), "12ab");
    assert!(m.is_complete());
    assert_eq!(m.formatted().chars().count(), 5);
}
