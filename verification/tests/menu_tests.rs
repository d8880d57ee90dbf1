use spinner::menu::{
    required_error_line, wrong_type_error_line, Menu, MenuOption, MenuOptional, MenuType,
    MenuValue, StepOutcome,
};

fn field(label: &str, t: MenuType, o: MenuOptional, d: Option<MenuValue>) -> MenuOption {
    MenuOption(label.to_string(), t, o, d)
}

#[test]
fn blank_input_never_advances_a_required_unset_field() {
    let mut item = field("Name", MenuType::Text, MenuOptional::Required, None);
    for _ in 0..3 {
        let out = item.apply_line("\n".to_string());
        assert_eq!(out, StepOutcome::MissingRequired);
        assert!(item.3.is_none());
    }
    let out = item.apply_line("Bob\n".to_string());
    assert_eq!(out, StepOutcome::Advanced);
    assert_eq!(item.get_string(), Some("Bob".to_string()));
}

#[test]
fn blank_input_on_optional_field_keeps_the_default() {
    let mut item = field(
        "Age",
        MenuType::Integer,
        MenuOptional::Optional,
        Some(MenuValue::Integer(1)),
    );
    let out = item.apply_line("\n".to_string());
    assert_eq!(out, StepOutcome::Advanced);
    assert_eq!(item.get_int(), Some(1));
}

#[test]
fn blank_input_on_required_field_with_default_keeps_it() {
    let mut item = field(
        "Age",
        MenuType::Integer,
        MenuOptional::Required,
        Some(MenuValue::Integer(7)),
    );
    let out = item.apply_line(" \t\n".to_string());
    assert_eq!(out, StepOutcome::Advanced);
    assert_eq!(item.get_int(), Some(7));
}

#[test]
fn wrong_type_input_is_rejected_and_field_unchanged() {
    let mut int_item = field("N", MenuType::Integer, MenuOptional::Required, None);
    assert_eq!(int_item.apply_line("abc\n".to_string()), StepOutcome::WrongType);
    assert!(int_item.3.is_none());
    let mut float_item = field("F", MenuType::Float, MenuOptional::Required, None);
    assert_eq!(float_item.apply_line("abc\n".to_string()), StepOutcome::WrongType);
    assert!(float_item.3.is_none());
}

#[test]
fn typed_input_parses_to_typed_values() {
    let mut int_item = field("N", MenuType::Integer, MenuOptional::Required, None);
    assert_eq!(int_item.apply_line("42\n".to_string()), StepOutcome::Advanced);
    assert_eq!(int_item.get_int(), Some(42));
    let mut float_item = field("F", MenuType::Float, MenuOptional::Required, None);
    assert_eq!(float_item.apply_line("3.14\n".to_string()), StepOutcome::Advanced);
    let text = float_item.get_float().unwrap();
    assert_eq!(text, "3.14".to_string());
    let value: f64 = text.parse().unwrap();
    assert_eq!(value, 3.14);
}

#[test]
fn text_input_keeps_interior_spaces_and_drops_line_breaks() {
    let mut item = field("T", MenuType::Text, MenuOptional::Required, None);
    assert_eq!(item.apply_line("  a b  \r\n".to_string()), StepOutcome::Advanced);
    assert_eq!(item.get_string(), Some("  a b  ".to_string()));
}

#[test]
fn numeric_input_is_trimmed_before_parsing() {
    let mut item = field("N", MenuType::Integer, MenuOptional::Required, None);
    assert_eq!(item.apply_line("  -17 \n".to_string()), StepOutcome::Advanced);
    assert_eq!(item.get_int(), Some(-17));
}

#[test]
fn menu_end_to_end_with_default_retained() {
    let m = Menu::new(vec![
        field("Name", MenuType::Text, MenuOptional::Required, None),
        field(
            "Age",
            MenuType::Integer,
            MenuOptional::Optional,
            Some(MenuValue::Integer(1)),
        ),
    ]);
    let out = m
        .resolve(vec!["Alice\n".to_string(), "\n".to_string()])
        .unwrap();
    assert_eq!(out.len(), 2);
    assert_eq!(out[0].0, "Name".to_string());
    assert_eq!(out[1].0, "Age".to_string());
    let name = out[0].clone().get_string();
    let age = out[1].clone().get_int();
    assert_eq!(name, Some("Alice".to_string()));
    assert_eq!(age, Some(1));
}

#[test]
fn menu_stays_on_a_field_until_input_parses() {
    let m = Menu::new(vec![field("N", MenuType::Integer, MenuOptional::Required, None)]);
    let out = m
        .resolve(vec![
            "\n".to_string(),
            "abc\n".to_string(),
            "7\n".to_string(),
        ])
        .unwrap();
    assert_eq!(out.len(), 1);
    assert_eq!(out[0].clone().get_int(), Some(7));
}

#[test]
fn menu_fails_when_input_runs_out() {
    let m = Menu::new(vec![field("N", MenuType::Integer, MenuOptional::Required, None)]);
    assert!(m.resolve(vec![]).is_err());
    let m2 = Menu::new(vec![field("N", MenuType::Integer, MenuOptional::Required, None)]);
    assert!(m2.resolve(vec!["abc\n".to_string()]).is_err());
}

#[test]
fn optional_unset_field_resolves_to_no_value() {
    let m = Menu::new(vec![field("K", MenuType::Float, MenuOptional::Optional, None)]);
    let out = m.resolve(vec!["\n".to_string()]).unwrap();
    assert_eq!(out[0].clone().get_float(), None);
}

#[test]
fn prompt_line_matches_terminal_styling() {
    let item = field(
        "Age",
        MenuType::Integer,
        MenuOptional::Optional,
        Some(MenuValue::Integer(1)),
    );
    let expected = format!(
        "{} (Optional, default: \"1\") expecting {}: ",
        ansi_term::Style::new().bold().paint("Age"),
        ansi_term::Style::new().italic().paint("Integer")
    );
    assert_eq!(item.prompt_text(), expected);
}

#[test]
fn prompt_line_for_required_field_without_default() {
    let item = field("Name", MenuType::Text, MenuOptional::Required, None);
    let expected = format!(
        "{} expecting {}: ",
        ansi_term::Style::new().bold().paint("Name"),
        ansi_term::Style::new().italic().paint("Text")
    );
    assert_eq!(item.prompt_text(), expected);
}

#[test]
fn error_lines_match_terminal_styling() {
    let required = format!(
        "{}",
        ansi_term::Colour::Red.paint("This item is not optional, please enter a value.")
    );
    let wrong = format!(
        "{}",
        ansi_term::Colour::Red.paint("You have entered the wrong type of information.")
    );
    assert_eq!(required_error_line(), required);
    assert_eq!(wrong_type_error_line(), wrong);
}

#[test]
fn value_text_renders_integers_in_decimal() {
    assert_eq!(MenuValue::Integer(0).text(), "0".to_string());
    assert_eq!(MenuValue::Integer(-123).text(), "-123".to_string());
    assert_eq!(MenuValue::Integer(i64::MIN).text(), "-9223372036854775808".to_string());
    assert_eq!(MenuValue::Text("hi".to_string()).text(), "hi".to_string());
    assert_eq!(MenuValue::Float("2.5".to_string()).text(), "2.5".to_string());
}
