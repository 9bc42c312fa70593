use rmenu::config::{BG_COLOR, HL_COLOR, TEXT_COLOR, TEXT_HL_COLOR};
use rmenu::layout::Placed;
use rmenu::menu::Rmenu;
use rmenu::parts::{Item, Prompt, SearchField, TextField, Window};
use rmenu::render::{draw_cell, draw_items, draw_prompt, draw_text_field, DrawOp};

fn rect(x: u32, width: u16, color: u32) -> DrawOp {
    DrawOp::Rectangle { x, width, color }
}

fn text(x: u32, text: &str, color: u32) -> DrawOp {
    DrawOp::Text { x, text: text.to_string(), color }
}

fn menu() -> Rmenu {
    let items = vec![
        Item::new(30, "a".to_string()),
        Item::new(40, "b".to_string()),
        Item::new(500, "c".to_string()),
    ];
    let mut text_field = TextField::new();
    text_field.width = 100;
    Rmenu::new(
        Window::new(400, 1),
        Prompt::new(50, "Run:".to_string()),
        text_field,
        SearchField::new(250, items),
        Vec::new(),
    )
    .expect("the parts fit together")
}

#[test]
fn colours_are_those_of_the_theme() {
    assert_eq!(BG_COLOR, 0x24273a);
    assert_eq!(HL_COLOR, 0x8aadf4);
    assert_eq!(TEXT_COLOR, 0xcad3f5);
    assert_eq!(TEXT_HL_COLOR, 0xffffff);
}

#[test]
fn a_cell_is_its_ground_and_its_text() {
    let mut ops = vec![rect(1, 2, 3)];
    draw_cell(&mut ops, 10, 20, "x".to_string(), false);
    draw_cell(&mut ops, 30, 40, "y".to_string(), true);
    assert_eq!(
        ops,
        vec![
            rect(1, 2, 3),
            rect(10, 20, BG_COLOR),
            text(10, "x", TEXT_COLOR),
            rect(30, 40, HL_COLOR),
            text(30, "y", TEXT_HL_COLOR),
        ]
    );
}

#[test]
fn prompt_is_highlighted_at_the_left_edge() {
    let prompt = Prompt::new(60, "Run:".to_string());
    assert_eq!(draw_prompt(&prompt), vec![rect(0, 60, HL_COLOR), text(0, "Run:", TEXT_HL_COLOR)]);
    assert_eq!(menu().draw_prompt(), vec![rect(0, 50, HL_COLOR), text(0, "Run:", TEXT_HL_COLOR)]);
}

#[test]
fn text_field_shows_the_query_with_the_mark() {
    let prompt = Prompt::new(60, "Run:".to_string());
    let mut field = TextField::new();
    assert!(field.insert('v', 1));
    assert!(field.insert('i', 1));
    assert_eq!(
        draw_text_field(&prompt, &field),
        vec![rect(60, 500, BG_COLOR), text(60, "vi|", TEXT_COLOR)]
    );
    let mut menu = menu();
    assert!(menu.on_char_rendered('a', 1));
    assert_eq!(menu.draw_text_field(), vec![rect(50, 100, BG_COLOR), text(50, "a|", TEXT_COLOR)]);
}

#[test]
fn items_are_drawn_on_their_ground_with_the_cursor_highlighted() {
    let visible = vec![
        Placed { item: Item::new(30, "a".to_string()), offset: 150 },
        Placed { item: Item::new(40, "b".to_string()), offset: 180 },
    ];
    assert_eq!(
        draw_items(150, 250, &visible, 1),
        vec![
            rect(150, 250, BG_COLOR),
            rect(150, 30, BG_COLOR),
            text(150, "a", TEXT_COLOR),
            rect(180, 40, HL_COLOR),
            text(180, "b", TEXT_HL_COLOR),
        ]
    );
    assert_eq!(draw_items(150, 250, &Vec::new(), 0), vec![rect(150, 250, BG_COLOR)]);
}

#[test]
fn session_draws_its_visible_items() {
    let mut menu = menu();
    assert_eq!(
        menu.draw_items(),
        vec![
            rect(150, 250, BG_COLOR),
            rect(150, 30, HL_COLOR),
            text(150, "a", TEXT_HL_COLOR),
            rect(180, 40, BG_COLOR),
            text(180, "b", TEXT_COLOR),
        ]
    );
    let step = menu.on_move_right().expect("the second item is visible");
    assert_eq!(
        step.draw(),
        vec![
            rect(150, 30, BG_COLOR),
            rect(180, 40, HL_COLOR),
            text(150, "a", TEXT_COLOR),
            text(180, "b", TEXT_HL_COLOR),
        ]
    );
    let step = menu.on_move_left().expect("the first item is visible");
    assert_eq!(
        step.draw(),
        vec![
            rect(180, 40, BG_COLOR),
            rect(150, 30, HL_COLOR),
            text(180, "b", TEXT_COLOR),
            text(150, "a", TEXT_HL_COLOR),
        ]
    );
}
