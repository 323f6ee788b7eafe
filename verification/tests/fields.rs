use lapidary::fields::{
    checked_value, field_change, offered_filter, text_filter, filter_terms, new_field, tidy_label, tidy_options, valid_key,
    CustomFieldChange, FieldKind, FieldValue, NewCustomField, BAD_KEY, BAD_LABEL, ONLY_CHOICE,
    OPTION_COUNT, OPTION_LENGTH,
};

fn strings(v: &[&str]) -> Vec<String> {
    v.iter().map(|s| (*s).to_owned()).collect()
}

#[test]
fn a_kind_is_spelled_and_read_back() {
    for kind in [FieldKind::Text, FieldKind::Number, FieldKind::Choice] {
        assert_eq!(FieldKind::parse(kind.as_str()), Some(kind));
    }
    assert_eq!(FieldKind::Number.as_str(), "number");
    assert_eq!(FieldKind::parse("Text"), None);
}

#[test]
fn a_key_is_lowercase_letters_digits_and_underscores() {
    assert!(valid_key("stock_count"));
    assert!(valid_key(&"a".repeat(40)));
    assert!(!valid_key(&"a".repeat(41)));
    assert!(!valid_key(""));
    assert!(!valid_key("Stock"));
    assert!(!valid_key("stock-count"));
    assert!(!valid_key("ş"));
}

#[test]
fn a_label_is_trimmed_and_one_to_eighty_characters() {
    assert_eq!(tidy_label("  Stock count ").unwrap(), "Stock count");
    assert_eq!(tidy_label(&"ş".repeat(80)).unwrap(), "ş".repeat(80));
    let (reason, message) = tidy_label("   ").unwrap_err();
    assert_eq!((reason, message.as_str()), ("badLabel", BAD_LABEL));
    assert!(tidy_label(&"x".repeat(81)).is_err());
}

#[test]
fn a_choice_keeps_its_options_trimmed_and_refuses_blanks_repeats_and_too_many() {
    assert_eq!(tidy_options(FieldKind::Choice, Some(strings(&[" red ", "green"]))).unwrap(), ["red", "green"]);
    assert_eq!(tidy_options(FieldKind::Choice, Some(strings(&["red", " "]))).unwrap_err(), ("badOptions", OPTION_LENGTH.to_owned()));
    assert_eq!(
        tidy_options(FieldKind::Choice, Some(strings(&["red", " red"]))).unwrap_err(),
        ("badOptions", "“red” is listed twice. Keep one, and try again.".to_owned())
    );
    assert_eq!(tidy_options(FieldKind::Choice, None).unwrap_err(), ("badOptions", OPTION_COUNT.to_owned()));
    let many: Vec<String> = (0..51).map(|i| format!("o{i}")).collect();
    assert_eq!(tidy_options(FieldKind::Choice, Some(many)).unwrap_err().1, OPTION_COUNT);
    assert_eq!(tidy_options(FieldKind::Text, None).unwrap(), Vec::<String>::new());
    assert_eq!(tidy_options(FieldKind::Number, Some(strings(&["x"]))).unwrap_err().1, ONLY_CHOICE);
}

#[test]
fn a_new_field_is_checked_key_then_label_then_options() {
    let field = new_field(NewCustomField {
        key: "finish".to_owned(),
        label: " Finish ".to_owned(),
        kind: FieldKind::Choice,
        options: Some(strings(&["matte", "gloss"])),
        indexed: None,
    })
    .unwrap();
    assert_eq!((field.key.as_str(), field.label.as_str(), field.kind, field.indexed), ("finish", "Finish", FieldKind::Choice, false));
    assert_eq!(field.options, ["matte", "gloss"]);
    let refused = new_field(NewCustomField {
        key: "Finish".to_owned(),
        label: String::new(),
        kind: FieldKind::Choice,
        options: None,
        indexed: Some(true),
    })
    .unwrap_err();
    assert_eq!(refused, ("badKey", BAD_KEY.to_owned()));
}

#[test]
fn a_change_checks_what_it_changes() {
    let change = field_change("choice", CustomFieldChange { label: Some(" Colour ".to_owned()), options: Some(strings(&["red"])), indexed: Some(true) }).unwrap();
    assert_eq!(change.0.as_deref(), Some("Colour"));
    assert_eq!(change.1, Some(vec!["red".to_owned()]));
    assert_eq!(change.2, Some(true));
    assert_eq!(
        field_change("mystery", CustomFieldChange { label: None, options: Some(strings(&["red"])), indexed: None }).unwrap_err().1,
        ONLY_CHOICE,
        "a kind this build does not know takes options as text does"
    );
    assert_eq!(field_change("text", CustomFieldChange { label: Some(String::new()), options: None, indexed: None }).unwrap_err().0, "badLabel");
}

#[test]
fn a_value_is_checked_against_its_field() {
    let options = strings(&["matte", "gloss"]);
    assert!(matches!(checked_value("Stock", "number", &[], FieldValue::Null), Ok(None)));
    assert!(matches!(checked_value("Stock", "number", &[], FieldValue::Number("12".to_owned())), Ok(Some(FieldValue::Number(n))) if n == "12"));
    assert_eq!(
        checked_value("Stock", "number", &[], FieldValue::Text("twelve".to_owned())).unwrap_err(),
        "“Stock” takes a number, and \"twelve\" is not one."
    );
    assert!(matches!(checked_value("Notes", "text", &[], FieldValue::Text("  hi ".to_owned())), Ok(Some(FieldValue::Text(t))) if t == "hi"));
    assert!(matches!(checked_value("Notes", "text", &[], FieldValue::Text("   ".to_owned())), Ok(None)));
    assert_eq!(
        checked_value("Notes", "text", &[], FieldValue::Text("x".repeat(513))).unwrap_err(),
        "“Notes” takes at most 512 characters. Shorten it and try again."
    );
    assert_eq!(
        checked_value("Notes", "text", &[], FieldValue::Number("5".to_owned())).unwrap_err(),
        "“Notes” takes text, and 5 is not text."
    );
    assert!(matches!(checked_value("Finish", "choice", &options, FieldValue::Text("gloss".to_owned())), Ok(Some(FieldValue::Text(t))) if t == "gloss"));
    assert_eq!(
        checked_value("Finish", "choice", &options, FieldValue::Other("true".to_owned())).unwrap_err(),
        "“Finish” takes one of its options (matte, gloss), and true is not one of them."
    );
}

#[test]
fn a_grid_filter_needs_both_a_field_and_a_value() {
    assert_eq!(filter_terms(Some(" finish "), Some(" gloss")), Some(("finish".to_owned(), "gloss".to_owned())));
    assert_eq!(filter_terms(Some("finish"), Some("  ")), None);
    assert_eq!(filter_terms(None, Some("gloss")), None);
}

#[test]
fn a_refused_value_is_quoted_as_json_writes_it() {
    assert_eq!(
        checked_value("Stock", "number", &[], FieldValue::Text("say \"hi\"\n\ttab\u{1}\\".to_owned())).unwrap_err(),
        "“Stock” takes a number, and \"say \\\"hi\\\"\\n\\ttab\\u0001\\\\\" is not one."
    );
    assert_eq!(
        checked_value("Stock", "number", &[], FieldValue::Text("é/\u{7f}".to_owned())).unwrap_err(),
        "“Stock” takes a number, and \"é/\u{7f}\" is not one."
    );
}

#[test]
fn a_refused_value_is_quoted_exactly_as_serde_json_quotes_it() {
    for text in ["plain", "q\"uote", "back\\slash", "\u{0}\u{8}\u{9}\u{a}\u{b}\u{c}\u{d}\u{1f}", "\u{7f}é€😀", "/<>&'"] {
        let quoted = serde_json::Value::String(text.to_owned()).to_string();
        assert_eq!(
            checked_value("Stock", "number", &[], FieldValue::Text(text.to_owned())).unwrap_err(),
            format!("“Stock” takes a number, and {quoted} is not one.")
        );
    }
}

#[test]
fn a_grid_filters_only_by_a_field_offered_as_a_filter() {
    assert_eq!(offered_filter("finish", Some(true)), Ok(()));
    let refused = offered_filter("finish", Some(false)).unwrap_err();
    assert_eq!(refused.0, "notAFilter");
    assert_eq!(
        refused.1,
        "`finish` is not a field this library offers as a filter. Choose one from the grid's filters, or offer the field as a filter in the library's fields."
    );
    assert_eq!(offered_filter("nope", None).unwrap_err().0, "notAFilter");
    assert_eq!(text_filter("finish", "gloss \"2\""), r#"{"finish":"gloss \"2\""}"#);
    let mut object = serde_json::Map::new();
    object.insert("fin\tish".to_owned(), serde_json::Value::String("a\\b".to_owned()));
    assert_eq!(text_filter("fin\tish", "a\\b"), serde_json::Value::Object(object).to_string());
}
