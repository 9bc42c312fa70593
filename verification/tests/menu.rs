use rmenu::config::Config;
use rmenu::event::Event;
use rmenu::layout::Placed;
use rmenu::menu::{Cell, CursorMove, Nav, Outcome, Rmenu};
use rmenu::parts::{Item, Prompt, SearchField, TextField, Window};

fn ten_per_char(text: &str) -> u16 {
    text.chars().count() as u16 * 10
}

fn menu_of(names: &[&str], item_width: u16, window_width: u16) -> Rmenu {
    let items: Vec<Item> = names.iter().map(|n| Item::new(item_width, n.to_string())).collect();
    let prompt = Prompt::new(50, "Run:".to_string());
    let mut text_field = TextField::new();
    text_field.width = 100;
    let search_field = SearchField::new(window_width - 150, items);
    Rmenu::new(Window::new(window_width, 1), prompt, text_field, search_field, vec!["code".to_string()])
        .expect("the parts fit together")
}

fn ranked_texts(menu: &Rmenu) -> Vec<String> {
    menu.ranked().iter().map(|item| item.text.clone()).collect()
}

#[test]
fn new_ranks_for_the_empty_query() {
    let menu = menu_of(&["xterm", "code", "st"], 100, 450);
    assert_eq!(menu.query(), "");
    assert_eq!(ranked_texts(&menu), vec!["code", "xterm", "st"]);
    assert_eq!(menu.cursor(), 0);
    assert_eq!(menu.nav(), Nav::Active(0));
    assert_eq!(menu.visible_count(), 3);
}

#[test]
fn new_ranks_for_the_query_of_the_text_field() {
    let items = vec![Item::new(10, "xterm".to_string()), Item::new(10, "st".to_string())];
    let mut text_field = TextField::new();
    assert!(text_field.insert('s', 1));
    let mut search_field = SearchField::new(290, items);
    search_field.cursor = 5;
    let menu = Rmenu::new(
        Window::new(800, 1),
        Prompt::new(10, ">".to_string()),
        text_field,
        search_field,
        Vec::new(),
    )
    .expect("the parts fit together");
    assert_eq!(menu.query(), "s");
    assert_eq!(ranked_texts(&menu), vec!["st"]);
    assert_eq!(menu.cursor(), 0);
}

#[test]
fn visible_set_is_a_prefix_with_offsets() {
    let menu = menu_of(&["a", "b", "c", "d"], 100, 400);
    assert_eq!(
        menu.visible(),
        vec![
            Placed { item: Item::new(100, "a".to_string()), offset: 150 },
            Placed { item: Item::new(100, "b".to_string()), offset: 250 },
        ]
    );
    assert_eq!(menu.visible_count(), 2);
}

#[test]
fn move_right_is_clamped_to_the_last_visible_item() {
    let mut menu = menu_of(&["a", "b", "c"], 100, 450);
    assert_eq!(menu.visible_count(), 3);
    assert!(menu.on_move_right().is_some());
    assert_eq!(menu.cursor(), 1);
    assert!(menu.on_move_right().is_some());
    assert_eq!(menu.cursor(), 2);
    assert!(menu.on_move_right().is_none());
    assert_eq!(menu.cursor(), 2);
    assert!(menu.on_move_right().is_none());
    assert_eq!(menu.cursor(), 2);
    assert_eq!(menu.nav(), Nav::Active(2));
}

#[test]
fn move_right_stops_before_an_item_that_is_not_visible() {
    let mut menu = menu_of(&["a", "b", "c", "d"], 100, 449);
    assert_eq!(menu.ranked().len(), 4);
    assert_eq!(menu.visible_count(), 2);
    assert!(menu.on_move_right().is_some());
    assert!(menu.on_move_right().is_none());
    assert_eq!(menu.cursor(), 1);
}

#[test]
fn move_left_stops_at_the_first_item() {
    let mut menu = menu_of(&["a", "b", "c"], 100, 450);
    assert!(menu.on_move_left().is_none());
    assert_eq!(menu.cursor(), 0);
    assert!(menu.on_move_right().is_some());
    assert!(menu.on_move_right().is_some());
    assert!(menu.on_move_left().is_some());
    assert_eq!(menu.cursor(), 1);
    assert!(menu.on_move_left().is_some());
    assert_eq!(menu.cursor(), 0);
    assert!(menu.on_move_left().is_none());
}

#[test]
fn a_step_names_the_two_cells() {
    let items = vec![
        Item::new(30, "a".to_string()),
        Item::new(40, "b".to_string()),
        Item::new(50, "c".to_string()),
    ];
    let mut text_field = TextField::new();
    text_field.width = 100;
    let mut menu = Rmenu::new(
        Window::new(400, 1),
        Prompt::new(50, "Run:".to_string()),
        text_field,
        SearchField::new(250, items),
        Vec::new(),
    )
    .expect("the parts fit together");
    assert_eq!(
        menu.on_move_right(),
        Some(CursorMove {
            from: Cell { index: 0, offset: 150, width: 30, text: "a".to_string() },
            to: Cell { index: 1, offset: 180, width: 40, text: "b".to_string() },
        })
    );
    assert_eq!(
        menu.on_move_right(),
        Some(CursorMove {
            from: Cell { index: 1, offset: 180, width: 40, text: "b".to_string() },
            to: Cell { index: 2, offset: 220, width: 50, text: "c".to_string() },
        })
    );
    assert_eq!(
        menu.on_move_left(),
        Some(CursorMove {
            from: Cell { index: 2, offset: 220, width: 50, text: "c".to_string() },
            to: Cell { index: 1, offset: 180, width: 40, text: "b".to_string() },
        })
    );
}

#[test]
fn moves_do_nothing_while_no_item_is_visible() {
    let mut menu = menu_of(&["a", "b"], 100, 200);
    assert_eq!(menu.nav(), Nav::Empty);
    assert_eq!(menu.visible_count(), 0);
    assert!(menu.on_move_right().is_none());
    assert!(menu.on_move_left().is_none());
    assert_eq!(menu.cursor(), 0);
    let mut menu = menu_of(&[], 100, 1000);
    assert_eq!(menu.nav(), Nav::Empty);
    assert!(menu.on_move_right().is_none());
    assert!(menu.on_move_left().is_none());
}

fn parts(window: u16, prompt: u16, field: u16, search: u16) -> Option<Rmenu> {
    let mut text_field = TextField::new();
    text_field.width = field;
    Rmenu::new(
        Window::new(window, 1),
        Prompt::new(prompt, "Run:".to_string()),
        text_field,
        SearchField::new(search, vec![Item::new(10, "a".to_string())]),
        Vec::new(),
    )
}

#[test]
fn new_takes_parts_that_fill_the_window() {
    assert!(parts(400, 50, 100, 250).is_some());
    assert!(parts(150, 50, 100, 0).is_some());
    assert!(parts(0, 0, 0, 0).is_some());
    assert!(parts(65535, 65535, 0, 0).is_some());
    assert!(parts(65535, 0, 0, 65535).is_some());
}

#[test]
fn new_refuses_parts_that_do_not_fill_the_window() {
    // The window is too narrow for the prompt and the query field.
    assert!(parts(100, 50, 100, 0).is_none());
    assert!(parts(100, 50, 100, 300).is_none());
    // The field of the candidates is wider or narrower than what is left.
    assert!(parts(400, 50, 100, 251).is_none());
    assert!(parts(400, 50, 100, 249).is_none());
    assert!(parts(65535, 65535, 65535, 65535).is_none());
    assert!(parts(65534, 65535, 65535, 0).is_none());
}

#[test]
fn a_session_without_room_for_candidates_shows_no_item() {
    let mut menu = parts(150, 50, 100, 0).expect("the parts fit together");
    assert_eq!(menu.ranked().len(), 1);
    assert_eq!(menu.visible_count(), 0);
    assert!(menu.visible().is_empty());
    assert_eq!(menu.nav(), Nav::Empty);
    assert_eq!(menu.on_confirm(), None);
    assert!(menu.on_move_right().is_none());
    assert_eq!(menu.handle(Event::Enter, ten_per_char), Outcome::Confirmed(None));
}

#[test]
fn window_is_the_one_that_was_given() {
    let menu = Rmenu::load(Vec::new(), ten_per_char, Window::new(700, 9), Config::standard())
        .expect("the prompt and the field fit");
    assert_eq!(menu.window(), Window::new(700, 9));
}

#[test]
fn typing_resets_the_cursor() {
    let mut menu = menu_of(&["code", "codex", "codecov", "xterm"], 100, 1000);
    assert!(menu.on_move_right().is_some());
    assert!(menu.on_move_right().is_some());
    assert_eq!(menu.cursor(), 2);
    assert!(menu.on_char_rendered('c', 20));
    assert_eq!(menu.cursor(), 0);
    assert_eq!(menu.nav(), Nav::Active(0));
    assert_eq!(menu.query(), "c");
    assert_eq!(ranked_texts(&menu), vec!["code", "codex", "codecov"]);
}

#[test]
fn typing_until_nothing_matches_empties_the_strip() {
    let mut menu = menu_of(&["code", "codex"], 100, 1000);
    assert!(menu.on_move_right().is_some());
    assert!(menu.on_char_rendered('z', 20));
    assert_eq!(menu.cursor(), 0);
    assert_eq!(menu.nav(), Nav::Empty);
    assert!(menu.ranked().is_empty());
    assert_eq!(menu.on_confirm(), None);
}

#[test]
fn a_character_that_does_not_fit_changes_nothing() {
    let mut menu = menu_of(&["code", "codex", "xterm"], 100, 1000);
    assert!(menu.on_move_right().is_some());
    assert!(!menu.on_char_rendered('c', 101));
    assert_eq!(menu.query(), "");
    assert_eq!(menu.cursor(), 1);
    assert_eq!(ranked_texts(&menu), vec!["code", "codex", "xterm"]);
    assert!(menu.on_char_rendered('c', 100));
    assert_eq!(menu.query(), "c");
}

#[test]
fn backspace_ranks_anew_and_resets_the_cursor() {
    let mut menu = menu_of(&["xterm", "code", "codex"], 100, 1000);
    assert!(menu.on_char_rendered('x', 20));
    assert_eq!(ranked_texts(&menu), vec!["xterm", "codex"]);
    assert!(menu.on_move_right().is_some());
    assert!(menu.on_backspace());
    assert_eq!(menu.query(), "");
    assert_eq!(menu.cursor(), 0);
    assert_eq!(ranked_texts(&menu), vec!["code", "xterm", "codex"]);
}

#[test]
fn backspace_on_an_empty_query_changes_nothing() {
    let mut menu = menu_of(&["a", "b"], 100, 1000);
    assert!(menu.on_move_right().is_some());
    assert!(!menu.on_backspace());
    assert_eq!(menu.cursor(), 1);
    assert_eq!(menu.query(), "");
}

#[test]
fn confirm_gives_the_text_under_the_cursor() {
    let mut menu = menu_of(&["xterm", "code", "st"], 100, 1000);
    assert_eq!(menu.on_confirm(), Some("code".to_string()));
    assert!(menu.on_move_right().is_some());
    assert_eq!(menu.on_confirm(), Some("xterm".to_string()));
    assert!(menu.on_move_right().is_some());
    assert_eq!(menu.on_confirm(), Some("st".to_string()));
}

#[test]
fn confirm_gives_nothing_while_no_item_is_visible() {
    let menu = menu_of(&[], 100, 1000);
    assert_eq!(menu.on_confirm(), None);
    let menu = menu_of(&["a"], 100, 249);
    assert_eq!(menu.ranked().len(), 1);
    assert_eq!(menu.on_confirm(), None);
}

#[test]
fn cancel_ends_the_session() {
    let menu = menu_of(&["a"], 100, 1000);
    menu.on_cancel();
}

#[test]
fn on_char_measures_the_query_with_the_mark() {
    let mut menu = menu_of(&["aaaa", "aaaaaaaaaa"], 100, 1000);
    // The field is 100 wide: nine characters and the mark fit, ten do not.
    for typed in 1..=9 {
        assert!(menu.on_char('a', ten_per_char));
        assert_eq!(menu.query().len(), typed);
    }
    assert!(!menu.on_char('a', ten_per_char));
    assert_eq!(menu.query(), "aaaaaaaaa");
    assert_eq!(ranked_texts(&menu), vec!["aaaaaaaaaa"]);
}

#[test]
fn on_char_hands_the_probe_to_the_measure() {
    let mut menu = menu_of(&["ab"], 100, 1000);
    assert!(menu.on_char('a', |text: &str| if text == "a|" { 100 } else { 101 }));
    assert!(menu.on_char('b', |text: &str| if text == "ab|" { 100 } else { 101 }));
    assert!(!menu.on_char('c', |text: &str| if text == "abc|" { 101 } else { 0 }));
    assert_eq!(menu.query(), "ab");
}

#[test]
fn handle_maps_events_to_outcomes() {
    let mut menu = menu_of(&["code", "codex", "xterm"], 100, 1000);
    assert_eq!(menu.handle(Event::Left, ten_per_char), Outcome::Unchanged);
    assert_eq!(
        menu.handle(Event::Right, ten_per_char),
        Outcome::Moved(CursorMove {
            from: Cell { index: 0, offset: 150, width: 100, text: "code".to_string() },
            to: Cell { index: 1, offset: 250, width: 100, text: "codex".to_string() },
        })
    );
    assert_eq!(menu.handle(Event::Enter, ten_per_char), Outcome::Confirmed(Some("codex".to_string())));
    assert_eq!(menu.handle(Event::Char('x'), ten_per_char), Outcome::Requeried);
    assert_eq!(menu.cursor(), 0);
    assert_eq!(ranked_texts(&menu), vec!["xterm", "codex"]);
    assert_eq!(menu.handle(Event::Char('q'), |_: &str| 101), Outcome::Unchanged);
    assert_eq!(menu.handle(Event::Char('q'), ten_per_char), Outcome::Requeried);
    assert_eq!(menu.handle(Event::Enter, ten_per_char), Outcome::Confirmed(None));
    assert_eq!(menu.handle(Event::Right, ten_per_char), Outcome::Unchanged);
    assert_eq!(menu.handle(Event::Backspace, ten_per_char), Outcome::Requeried);
    assert_eq!(menu.handle(Event::Backspace, ten_per_char), Outcome::Requeried);
    assert_eq!(menu.handle(Event::Backspace, ten_per_char), Outcome::Unchanged);
    assert_eq!(menu.handle(Event::Escape, ten_per_char), Outcome::Cancelled);
    assert_eq!(menu.query(), "");
}

#[test]
fn load_measures_prompt_and_candidates() {
    let names = vec!["xterm".to_string(), "code".to_string(), "st".to_string()];
    let menu = Rmenu::load(names, ten_per_char, Window::new(700, 3), Config::standard())
        .expect("the prompt and the field fit");
    assert_eq!(menu.query(), "");
    assert_eq!(
        menu.ranked(),
        &vec![
            Item::new(40, "code".to_string()),
            Item::new(50, "xterm".to_string()),
            Item::new(20, "st".to_string()),
        ]
    );
    // The prompt is 40 wide and the field 500: the candidates begin at 540.
    let offsets: Vec<u32> = menu.visible().iter().map(|placed| placed.offset).collect();
    assert_eq!(offsets, vec![540, 580, 630]);
    assert_eq!(menu.nav(), Nav::Active(0));
}

#[test]
fn load_needs_room_for_prompt_and_field() {
    let names = vec!["code".to_string()];
    assert!(Rmenu::load(names.clone(), ten_per_char, Window::new(539, 3), Config::standard()).is_none());
    assert!(Rmenu::load(names, ten_per_char, Window::new(540, 3), Config::standard()).is_some());
}
