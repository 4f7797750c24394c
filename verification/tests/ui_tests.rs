use viklings::ui::{TextOptions, UISystem};

#[test]
fn text_elements_get_increasing_ids_and_default_styling() {
    let mut ui = UISystem::new();
    let first = ui.show_text("hello".to_string(), 10, 20, None);
    let second = ui.show_text("world".to_string(), 30, 40, None);
    assert_eq!(first, 1);
    assert_eq!(second, 2);
    assert_eq!(ui.element_count(), 2);

    let e = ui.element_at(0);
    assert_eq!(e.id, 1);
    assert_eq!(e.text, "hello");
    assert_eq!(e.x, 10);
    assert_eq!(e.y, 20);
    assert_eq!(e.font_size, 16);
    assert_eq!(e.color, [255, 255, 255]);
    assert_eq!(e.alignment, "left");
    assert!(e.visible);
}

#[test]
fn explicit_options_override_the_defaults() {
    let mut ui = UISystem::new();
    let options = TextOptions {
        font_size: Some(24),
        color: Some([10, 20, 30]),
        alignment: Some("center".to_string()),
    };
    ui.show_text("styled".to_string(), 0, 0, Some(options));
    let e = ui.element_at(0);
    assert_eq!(e.font_size, 24);
    assert_eq!(e.color, [10, 20, 30]);
    assert_eq!(e.alignment, "center");
}

#[test]
fn partial_options_fall_back_per_field() {
    let mut ui = UISystem::new();
    let options = TextOptions { font_size: Some(12), color: None, alignment: None };
    ui.show_text("part".to_string(), 0, 0, Some(options));
    let e = ui.element_at(0);
    assert_eq!(e.font_size, 12);
    assert_eq!(e.color, [255, 255, 255]);
    assert_eq!(e.alignment, "left");
}

#[test]
fn hiding_takes_an_element_off_the_visible_count() {
    let mut ui = UISystem::new();
    let a = ui.show_text("a".to_string(), 0, 0, None);
    let _b = ui.show_text("b".to_string(), 0, 0, None);
    assert_eq!(ui.visible_count(), 2);
    assert!(ui.hide_text(a));
    assert_eq!(ui.visible_count(), 1);
    assert_eq!(ui.element_count(), 2);
    assert!(!ui.hide_text(99));
}

#[test]
fn clearing_empties_the_store_and_restarts_ids() {
    let mut ui = UISystem::new();
    ui.show_text("a".to_string(), 0, 0, None);
    ui.show_text("b".to_string(), 0, 0, None);
    assert!(ui.clear_ui());
    assert_eq!(ui.element_count(), 0);
    assert_eq!(ui.visible_count(), 0);
    assert_eq!(ui.show_text("fresh".to_string(), 0, 0, None), 1);
}

#[test]
fn visible_elements_query_lists_exactly_the_visible_ones_in_order() {
    let mut ui = UISystem::new();
    let a = ui.show_text("a".to_string(), 1, 1, None);
    let b = ui.show_text("b".to_string(), 2, 2, None);
    let c = ui.show_text("c".to_string(), 3, 3, None);
    ui.hide_text(b);

    let visible = ui.get_visible_elements();
    assert_eq!(visible.len(), 2);
    assert_eq!(visible[0].id, a);
    assert_eq!(visible[0].text, "a");
    assert_eq!(visible[1].id, c);
    assert_eq!(visible[1].text, "c");

    ui.hide_text(a);
    ui.hide_text(c);
    assert!(ui.get_visible_elements().is_empty());
}
