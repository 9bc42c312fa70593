use rmenu::config::{cell_width, priority_items, Config, MARGIN, PROMPT, TEXT_FIELD_WIDTH};
use rmenu::parts::{Item, Prompt, SearchField, TextField, Window};
use rmenu::text::{chars_contain, chars_occur_at, chars_of, contains, starts_with};

#[test]
fn contains_finds_a_text_anywhere() {
    assert!(contains("vscode", "code"));
    assert!(contains("vscode", "vs"));
    assert!(contains("vscode", "sco"));
    assert!(contains("vscode", "vscode"));
    assert!(contains("vscode", ""));
    assert!(contains("", ""));
    assert!(!contains("", "a"));
    assert!(!contains("vscode", "vscodes"));
    assert!(!contains("vscode", "Code"));
    assert!(!contains("vscode", "cd"));
    assert!(contains("na\u{ef}ve", "\u{ef}v"));
    assert!(!contains("naive", "\u{ef}"));
}

#[test]
fn starts_with_looks_at_the_front() {
    assert!(starts_with("vscode", "vs"));
    assert!(starts_with("vscode", ""));
    assert!(starts_with("vscode", "vscode"));
    assert!(!starts_with("vscode", "code"));
    assert!(!starts_with("vs", "vscode"));
    assert!(starts_with("\u{e9}t\u{e9}", "\u{e9}t"));
}

#[test]
fn chars_of_gives_the_characters() {
    assert_eq!(chars_of("a\u{e9}b"), vec!['a', '\u{e9}', 'b']);
    assert_eq!(chars_of(""), Vec::<char>::new());
}

#[test]
fn text_field_starts_empty() {
    let field = TextField::new();
    assert_eq!(field.width, TEXT_FIELD_WIDTH);
    assert_eq!(field.text, "");
    assert_eq!(field.display(), "|");
    assert_eq!(field.probe('a'), "a|");
}

#[test]
fn insert_takes_a_character_that_fits() {
    let mut field = TextField::new();
    assert!(field.insert('a', 100));
    assert!(field.insert('b', 500));
    assert_eq!(field.text, "ab");
    assert_eq!(field.probe('c'), "abc|");
    assert_eq!(field.display(), "ab|");
}

#[test]
fn insert_drops_a_character_that_does_not_fit() {
    let mut field = TextField::new();
    assert!(field.insert('a', 500));
    assert!(!field.insert('b', 501));
    assert_eq!(field.text, "a");
    assert_eq!(field.width, 500);
}

#[test]
fn delete_last_takes_one_character() {
    let mut field = TextField::new();
    assert!(field.insert('a', 1));
    assert!(field.insert('\u{e9}', 1));
    assert!(field.delete_last());
    assert_eq!(field.text, "a");
    assert!(field.delete_last());
    assert_eq!(field.text, "");
    assert!(!field.delete_last());
    assert_eq!(field.text, "");
}

#[test]
fn parts_hold_what_they_were_made_of() {
    let window = Window::new(1920, 7);
    assert_eq!((window.width, window.id), (1920, 7));
    let prompt = Prompt::new(60, "Run:".to_string());
    assert_eq!((prompt.width, prompt.text.as_str()), (60, "Run:"));
    let item = Item::new(44, "code".to_string());
    assert_eq!((item.width, item.text.as_str()), (44, "code"));
    assert_eq!(item.clone(), item);
}

#[test]
fn search_field_selects_the_item_under_the_cursor() {
    let mut field = SearchField::new(300, vec![Item::new(10, "a".to_string())]);
    assert_eq!(field.width, 300);
    assert_eq!(field.all_items, vec![Item::new(10, "a".to_string())]);
    assert!(field.items.is_empty());
    assert_eq!(field.cursor, 0);
    assert_eq!(field.get_selection(), "");
    field.items = vec![Item::new(10, "a".to_string()), Item::new(10, "b".to_string())];
    assert_eq!(field.get_selection(), "a");
    field.cursor = 1;
    assert_eq!(field.get_selection(), "b");
    field.cursor = 2;
    assert_eq!(field.get_selection(), "");
}

#[test]
fn search_field_narrower_than_its_first_item_selects_nothing() {
    let mut field = SearchField::new(50, vec![Item::new(100, "a".to_string())]);
    field.items = vec![Item::new(100, "a".to_string())];
    assert_eq!(field.cursor, 0);
    assert_eq!(field.get_selection(), "");
    field.width = 99;
    assert_eq!(field.get_selection(), "");
    field.width = 100;
    assert_eq!(field.get_selection(), "a");
}

#[test]
fn search_field_selects_visible_items_only() {
    let mut field = SearchField::new(250, Vec::new());
    field.items = vec![
        Item::new(100, "a".to_string()),
        Item::new(100, "b".to_string()),
        Item::new(100, "c".to_string()),
        Item::new(10, "d".to_string()),
    ];
    assert_eq!(field.get_selection(), "a");
    field.cursor = 1;
    assert_eq!(field.get_selection(), "b");
    // The third item does not fit, and the fourth stands behind it.
    field.cursor = 2;
    assert_eq!(field.get_selection(), "");
    field.cursor = 3;
    assert_eq!(field.get_selection(), "");
    field.cursor = 4;
    assert_eq!(field.get_selection(), "");
    field.width = 310;
    field.cursor = 3;
    assert_eq!(field.get_selection(), "d");
}

#[test]
fn search_field_without_ranked_items_selects_nothing() {
    let field = SearchField::new(300, vec![Item::new(10, "a".to_string())]);
    assert_eq!(field.get_selection(), "");
    let field = SearchField::new(0, Vec::new());
    assert_eq!(field.get_selection(), "");
}

#[test]
fn cell_width_adds_both_margins() {
    assert_eq!(MARGIN, 12);
    assert_eq!(cell_width(0), Some(24));
    assert_eq!(cell_width(100), Some(124));
    assert_eq!(cell_width(65511), Some(65535));
    assert_eq!(cell_width(65512), None);
    assert_eq!(cell_width(65535), None);
}

#[test]
fn standard_configuration() {
    let config = Config::standard();
    assert_eq!(config.field_width, 500);
    assert_eq!(config.prompt_text, PROMPT);
    assert_eq!(config.prompt_text, "Run:");
    assert_eq!(config.priority_names, vec!["discord", "code", "idea", "thunderbird"]);
    assert_eq!(priority_items(), config.priority_names);
}

#[test]
fn chars_occur_at_an_offset() {
    let hay: Vec<char> = "vscode".chars().collect();
    let needle: Vec<char> = "co".chars().collect();
    assert!(chars_occur_at(&needle, &hay, 2));
    assert!(!chars_occur_at(&needle, &hay, 1));
    assert!(!chars_occur_at(&needle, &hay, 5));
    assert!(!chars_occur_at(&needle, &hay, usize::MAX));
    assert!(chars_occur_at(&Vec::new(), &hay, 6));
    assert!(!chars_occur_at(&Vec::new(), &hay, 7));
    assert!(chars_contain(&hay, &needle));
    assert!(!chars_contain(&needle, &hay));
}
