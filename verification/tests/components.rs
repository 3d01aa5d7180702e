use tranquil::button::{Button, ButtonColor, ButtonLabel, ButtonStyle, Emoji, LinkButton};
use tranquil::custom_id::custom_id_for;
use tranquil::modal::{InputTextStyle, Modal, TextInput};
use tranquil::select_menu::{single_value, SelectError, SelectMenu, SelectMenuOption};

#[test]
fn button_is_sent_with_its_label_color_and_custom_id() {
    let spec = Button::text("Hi".to_string()).danger().disabled().create(7, b"st");
    assert_eq!(spec.custom_id, Some(custom_id_for(7, b"st")));
    assert_eq!(spec.url, None);
    assert_eq!(spec.style, ButtonStyle::Danger);
    assert_eq!(spec.label, Some("Hi".to_string()));
    assert_eq!(spec.emoji, None);
    assert!(spec.disabled);
}

#[test]
fn button_defaults_to_primary_and_enabled() {
    let emoji = Emoji::Unicode { text: "👍".to_string() };
    let spec = Button::emoji(emoji.clone()).create(1, b"");
    assert_eq!(spec.style, ButtonStyle::Primary);
    assert_eq!(spec.label, None);
    assert_eq!(spec.emoji, Some(emoji));
    assert!(!spec.disabled);
    assert_eq!(ButtonColor::default_color(), ButtonColor::Primary);
}

#[test]
fn button_colors_map_to_styles() {
    let e = Emoji::Custom { animated: false, id: 3, name: None };
    let b = Button::emoji_with_text(e.clone(), "x".to_string());
    assert_eq!(b.clone().secondary().create(1, b"").style, ButtonStyle::Secondary);
    assert_eq!(b.clone().success().create(1, b"").style, ButtonStyle::Success);
    assert_eq!(b.clone().color(ButtonColor::Danger).create(1, b"").style, ButtonStyle::Danger);
    let spec = b.disabled().enabled(true).create(1, b"");
    assert!(!spec.disabled);
    assert_eq!(spec.emoji, Some(e));
    assert_eq!(spec.label, Some("x".to_string()));
    assert!(matches!(ButtonLabel::text("t".to_string()), ButtonLabel::Text { .. }));
}

#[test]
fn link_button_is_sent_with_its_url() {
    let spec = LinkButton::text("Docs".to_string(), "https://example.org".to_string()).disabled().create();
    assert_eq!(spec.custom_id, None);
    assert_eq!(spec.url, Some("https://example.org".to_string()));
    assert_eq!(spec.style, ButtonStyle::Link);
    assert_eq!(spec.label, Some("Docs".to_string()));
    assert!(spec.disabled);
}

#[test]
fn select_menu_numbers_its_options() {
    let options = vec![
        SelectMenuOption::new("One".to_string()).description("first".to_string()),
        SelectMenuOption::new("Two".to_string()).default_selection(),
        SelectMenuOption::new("Three".to_string()).default_if(false),
    ];
    let spec = SelectMenu::new(options)
        .placeholder("Pick".to_string())
        .min_values(1)
        .max_values(2)
        .disabled()
        .create(9, b"s");
    assert_eq!(spec.custom_id, custom_id_for(9, b"s"));
    assert_eq!(spec.options.len(), 3);
    assert_eq!(spec.options[0].value, "0");
    assert_eq!(spec.options[1].value, "1");
    assert_eq!(spec.options[2].value, "2");
    assert_eq!(spec.options[0].description, "first");
    assert!(spec.options[1].default_selection);
    assert!(!spec.options[2].default_selection);
    assert_eq!(spec.placeholder, "Pick");
    assert_eq!(spec.min_values, 1);
    assert_eq!(spec.max_values, 2);
    assert!(spec.disabled);
}

#[test]
fn single_choice_menu_needs_one_value() {
    let one = vec!["a".to_string()];
    assert_eq!(single_value(&one), Ok(&"a".to_string()));
    let two = vec!["a".to_string(), "b".to_string()];
    assert_eq!(single_value(&two), Err(SelectError::NotSingleValue));
    assert_eq!(single_value(&vec![]), Err(SelectError::NotSingleValue));
}

#[test]
fn modal_numbers_its_rows() {
    let inputs = vec![
        TextInput::short("Name".to_string()).min_length(2).max_length(20),
        TextInput::paragraph("Bio".to_string()).optional().placeholder("...".to_string()).value("hi".to_string()),
    ];
    let spec = Modal::new("Form".to_string(), inputs).open(3, b"x");
    assert_eq!(spec.custom_id, custom_id_for(3, b"x"));
    assert_eq!(spec.title, "Form");
    assert_eq!(spec.rows.len(), 2);
    assert_eq!(spec.rows[0].custom_id, "0");
    assert_eq!(spec.rows[0].style, InputTextStyle::Short);
    assert_eq!(spec.rows[0].min_length, Some(2));
    assert_eq!(spec.rows[0].max_length, Some(20));
    assert!(spec.rows[0].required);
    assert_eq!(spec.rows[1].custom_id, "1");
    assert_eq!(spec.rows[1].style, InputTextStyle::Paragraph);
    assert!(!spec.rows[1].required);
    assert_eq!(spec.rows[1].placeholder, "...");
    assert_eq!(spec.rows[1].value, "hi");
}
