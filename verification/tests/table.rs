use liquide_widgets::behavior::{KeyInput, WidgetOutcome};
use liquide_widgets::keys;
use liquide_widgets::node::Node;
use liquide_widgets::table::{SortDir, Table, CHANGED_ACTION, SORTED_ACTION};
use std::cmp::Ordering;

fn sample() -> Table {
    Table::new()
        .column("Rank")
        .column("Name")
        .column("City")
        .row(vec!["3".into(), "Cara".into(), "Oslo".into()])
        .row(vec!["1".into(), "Alice".into(), "Paris".into()])
        .row(vec!["4".into(), "Dan".into(), "Rome".into()])
        .row(vec!["2".into(), "Bob".into(), "Lyon".into()])
}

fn actions(o: WidgetOutcome) -> Vec<(String, Option<String>)> {
    match o {
        WidgetOutcome::Action { name, payload } => vec![(name, payload)],
        _ => Vec::new(),
    }
}

/// The display order a header click on `col` sorts into: a stable sort of the
/// current order, numeric when both cells parse as numbers.
fn sorted_order(t: &Table, col: usize) -> Vec<usize> {
    let dir = t.next_dir(col);
    let mut pos: Vec<usize> = (0..t.row_count()).collect();
    let value = |p: usize| t.cell(p, col).unwrap_or("").to_string();
    pos.sort_by(|&a, &b| {
        let (av, bv) = (value(a), value(b));
        let ord = match (av.parse::<f64>(), bv.parse::<f64>()) {
            (Ok(x), Ok(y)) => x.partial_cmp(&y).unwrap_or(Ordering::Equal),
            _ => av.cmp(&bv),
        };
        match dir {
            SortDir::Asc => ord,
            SortDir::Desc => ord.reverse(),
        }
    });
    pos.into_iter().map(|p| t.order()[p]).collect()
}

fn click_header(t: &mut Table, col: usize) -> WidgetOutcome {
    let order = sorted_order(t, col);
    t.on_header_click(col, order)
}

fn body_row(t: &Table, pos: usize) -> Node {
    t.render().children.into_iter().nth(1).unwrap().children.into_iter().nth(pos).unwrap()
}

#[test]
fn table_renders_header_and_rows() {
    let t = sample();
    assert_eq!(t.row_count(), 4);
    assert_eq!(t.column_count(), 3);
    assert_eq!(t.cell(0, 1), Some("Cara"));
}

#[test]
fn table_tests_click_selects_row() {
    let mut t = sample();
    let a = actions(t.on_click(Some(2)));
    assert_eq!(a.len(), 1);
    assert_eq!(a[0].0, CHANGED_ACTION);
    assert_eq!(a[0].1.as_deref(), Some("2"));
    assert_eq!(t.selected_positions(), vec![2]);
}

#[test]
fn table_tests_selected_row_restyles_pixels() {
    let mut t = sample();
    let before = body_row(&t, 1);
    let _ = t.on_click(Some(1));
    let after = body_row(&t, 1);
    assert!(!before.pseudo.checked && after.pseudo.checked, "selected row restyles");
}

#[test]
fn header_click_sorts_rows() {
    let mut t = sample().sortable(true);
    assert_eq!(t.cell(0, 0), Some("3"));
    let a = actions(click_header(&mut t, 0));
    assert_eq!(a.len(), 1);
    assert_eq!(a[0].0, SORTED_ACTION);
    assert_eq!(a[0].1.as_deref(), Some("0:asc"));
    assert_eq!(t.sort(), Some((0, SortDir::Asc)));
    assert_eq!(t.cell(0, 0), Some("1"));
    assert_eq!(t.cell(0, 1), Some("Alice"));
    assert_eq!(t.cell(3, 0), Some("4"));
    let _ = click_header(&mut t, 0);
    assert_eq!(t.sort(), Some((0, SortDir::Desc)));
    assert_eq!(t.cell(0, 0), Some("4"));
}

#[test]
fn non_sortable_header_ignored() {
    let mut t = sample();
    assert!(actions(click_header(&mut t, 0)).is_empty());
    assert_eq!(t.sort(), None);
    assert_eq!(t.cell(0, 0), Some("3"), "order unchanged");
}

#[test]
fn keyboard_navigates_and_ranges() {
    let mut t = sample();
    let _ = t.on_keyboard(KeyInput::new(keys::ARROW_DOWN, 0));
    assert_eq!(t.selected_positions(), vec![1]);
    let _ = t.on_keyboard(KeyInput::new(keys::END, 0));
    assert_eq!(t.selected_positions(), vec![3]);
    let _ = t.on_keyboard(KeyInput::new(keys::HOME, 0));
    let _ = t.on_keyboard(KeyInput::new(keys::ARROW_DOWN, keys::modifiers::SHIFT));
    let _ = t.on_keyboard(KeyInput::new(keys::ARROW_DOWN, keys::modifiers::SHIFT));
    assert_eq!(t.selected_positions(), vec![0, 1, 2]);
}

#[test]
fn column_widths_from_css_grid() {
    let t = Table::new().column_with_width("A", "80px").column("B").row(vec!["x".into(), "y".into()]);
    assert_eq!(t.grid_template(), "80px 1fr");
    let head = t.render().children.into_iter().next().unwrap();
    assert_eq!(head.styles, vec![("grid-template-columns".to_string(), "80px 1fr".to_string())]);
}

#[test]
fn normal_render_paints_header_and_rows() {
    let t = sample();
    let root = t.render();
    let head = &root.children[0];
    assert_eq!(head.children.len(), 3);
    assert_eq!(head.children[0].children[0].text, "Rank");
    let body = &root.children[1];
    assert_eq!(body.children.len(), 4);
    for (pos, row) in body.children.iter().enumerate() {
        assert_eq!(row.tag, "lq-tr", "row {pos} must render");
        assert_eq!(row.children.len(), 3);
    }
    assert_eq!(body.children[1].children[1].children[0].text, "Alice");
}

#[test]
fn table_tests_hover_restyles_only_hovered_row() {
    let mut t = sample();
    let (b1, b3) = (body_row(&t, 1), body_row(&t, 3));
    let _ = t.on_mouse_move(Some(1));
    let (a1, a3) = (body_row(&t, 1), body_row(&t, 3));
    assert!(!b1.pseudo.hover && a1.pseudo.hover, "hovered row 1 must restyle");
    assert_eq!(b3.pseudo.hover, a3.pseudo.hover, "non-hovered row 3 must be unchanged");
}

#[test]
fn selection_fill_moves_across_rows() {
    let mut t = sample();
    let _ = t.on_click(Some(2));
    assert_eq!(t.selected_positions(), vec![2]);
    assert!(body_row(&t, 2).pseudo.checked);
    let _ = t.on_click(Some(0));
    assert_eq!(t.selected_positions(), vec![0]);
    assert!(body_row(&t, 0).pseudo.checked && !body_row(&t, 2).pseudo.checked);
}

#[test]
fn sort_indicator_marker_appears_on_sort() {
    let mut t = sample().sortable(true);
    assert_eq!(t.sort(), None);
    let _ = click_header(&mut t, 0);
    let head = t.render().children.into_iter().next().unwrap();
    assert!(head.children[0].classes.iter().any(|c| c == "sorted-asc"));
    assert!(head.children[0].attrs.iter().any(|(k, v)| k == "aria-sort" && v == "ascending"));
    assert!(head.children[1].classes.iter().all(|c| !c.starts_with("sorted")));
}

#[test]
fn disabled_table_swallows_input() {
    let mut t = sample().sortable(true).disabled(true);
    assert!(actions(t.on_click(Some(1))).is_empty());
    assert!(!t.on_keyboard(KeyInput::new(keys::ARROW_DOWN, 0)).needs_render());
    assert!(actions(click_header(&mut t, 0)).is_empty());
    assert!(t.selected_positions().is_empty());
}

#[test]
fn sort_clears_selection_and_maps_data_rows() {
    let mut t = sample().sortable(true);
    let _ = t.on_click(Some(1));
    let _ = t.on_keyboard(KeyInput::new(keys::SPACE, keys::modifiers::CTRL));
    assert!(t.selected_positions().is_empty(), "ctrl+space toggled the row back out");
    let _ = t.on_keyboard(KeyInput::new(keys::ARROW_DOWN, keys::modifiers::SHIFT));
    assert_eq!(t.selected_positions(), vec![1, 2]);
    assert_eq!(t.selected_data_rows(), vec![1, 2]);
    let _ = click_header(&mut t, 1);
    assert!(t.selected_positions().is_empty(), "sorting clears the selection");
    assert_eq!(t.cursor(), Some(0));
    let _ = t.on_click(Some(0));
    assert_eq!(t.selected_data_rows(), vec![1], "Alice (data row 1) sorts first by name");
    let _ = t.on_keyboard(KeyInput::new(keys::END, keys::modifiers::SHIFT));
    assert_eq!(t.selected_data_rows(), vec![0, 1, 2, 3]);
}

#[test]
fn short_rows_render_empty_cells() {
    let t = Table::new().column("A").column("B").row(vec!["only".into()]);
    assert_eq!(t.cell(0, 1), None);
    let row = body_row(&t, 0);
    assert_eq!(row.children[1].children[0].text, "");
}

#[test]
fn table_tests_row_hit_comes_from_layout_not_constant() {
    // The host resolves the row under the pointer from each row's laid-out
    // box, however tall the rows are; the table acts on that position.
    let mut t = sample();
    let _ = t.on_click(Some(2));
    assert_eq!(t.selected_positions(), vec![2]);
    assert!(matches!(t.on_click(None), WidgetOutcome::Ignored));
    assert_eq!(t.selected_positions(), vec![2]);
}

#[test]
fn zebra_stripes_even_rows() {
    // Striping is `:nth-child(even)` in the stylesheet: the body rows must be
    // consecutive siblings in display order for it to alternate.
    let t = sample();
    let body = t.render().children.into_iter().nth(1).unwrap();
    assert_eq!(body.tag, "lq-tbody");
    assert_eq!(body.children.len(), 4);
    for (pos, row) in body.children.iter().enumerate() {
        assert_eq!(row.tag, "lq-tr");
        let part = format!("row-{pos}");
        assert!(row.attrs.iter().any(|(k, v)| k == "data-part" && *v == part));
    }
    assert_ne!(body_row(&t, 0).children[1].children[0].text, body_row(&t, 1).children[1].children[0].text);
}
