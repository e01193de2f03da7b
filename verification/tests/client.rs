//! Building the arguments of a `Notify` call from the command line.
use noti::client::{
    build_actions, build_hints, parse_bool, parse_hint_value, parse_i32, parse_u8,
    prepare_notification, ClientError, HintArg, HintsData,
};

fn no_hint_data() -> HintsData {
    HintsData {
        urgency: None,
        category: None,
        desktop_entry: None,
        image_path: None,
        resident: None,
        sound_file: None,
        sound_name: None,
        suppress_sound: None,
        transient: None,
        action_icons: None,
    }
}

fn chars(s: &str) -> Vec<char> {
    s.chars().collect()
}

#[test]
fn actions_are_split_at_the_first_colon_and_trimmed() {
    let entries = vec!["open: Open it ".to_string(), "x:a:b".to_string()];
    let built = build_actions(&entries).unwrap();
    assert_eq!(built, vec!["open", "Open it", "x", "a:b"]);
}

#[test]
fn action_without_colon_is_refused() {
    let entries = vec!["ok:Fine".to_string(), "broken".to_string(), "also".to_string()];
    let err = build_actions(&entries).unwrap_err();
    assert_eq!(err, ClientError::InvalidAction("broken".to_string()));
    assert_eq!(
        err.describe(),
        "Invalid action format for entry 'broken'. Expected format: 'name:desc'"
    );
}

#[test]
fn no_actions_give_no_arguments() {
    let entries: Vec<String> = vec![];
    assert_eq!(build_actions(&entries).unwrap(), Vec::<String>::new());
}

#[test]
fn numbers_read_as_str_parse_reads_them() {
    assert_eq!(parse_i32(&chars("42")), Some(42));
    assert_eq!(parse_i32(&chars("+42")), Some(42));
    assert_eq!(parse_i32(&chars("-2147483648")), Some(i32::MIN));
    assert_eq!(parse_i32(&chars("2147483647")), Some(i32::MAX));
    assert_eq!(parse_i32(&chars("2147483648")), None);
    assert_eq!(parse_i32(&chars("-")), None);
    assert_eq!(parse_i32(&chars("")), None);
    assert_eq!(parse_i32(&chars(" 1")), None);
    assert_eq!(parse_u8(&chars("255")), Some(255));
    assert_eq!(parse_u8(&chars("256")), None);
    assert_eq!(parse_u8(&chars("-1")), None);
    assert_eq!(parse_u8(&chars("+7")), Some(7));
    assert_eq!(parse_bool("true"), Some(true));
    assert_eq!(parse_bool("false"), Some(false));
    assert_eq!(parse_bool("True"), None);
}

#[test]
fn every_number_is_read_as_std_reads_it() {
    for s in ["0", "007", "+0", "-0", "123456", "-99999", "99999999999", "12a", "a"] {
        assert_eq!(parse_i32(&chars(s)), s.parse::<i32>().ok(), "{s}");
        assert_eq!(parse_u8(&chars(s)), s.parse::<u8>().ok(), "{s}");
    }
}

#[test]
fn hint_values_by_type() {
    assert_eq!(parse_hint_value("int", "-3"), Ok(HintArg::Int(-3)));
    assert_eq!(parse_hint_value("byte", "2"), Ok(HintArg::Byte(2)));
    assert_eq!(parse_hint_value("bool", "true"), Ok(HintArg::Bool(true)));
    assert_eq!(parse_hint_value("string", "x y"), Ok(HintArg::Str("x y".to_string())));
    assert_eq!(
        parse_hint_value("float", "1.0"),
        Err(ClientError::InvalidHintType("float".to_string()))
    );
    assert_eq!(
        parse_hint_value("byte", "300"),
        Err(ClientError::InvalidHintValue("300".to_string()))
    );
}

#[test]
fn hints_are_built_and_later_entries_win() {
    let entries = vec![
        "int: volume : 3".to_string(),
        "string:category:im".to_string(),
        "int:volume:5".to_string(),
    ];
    let mut data = no_hint_data();
    data.category = Some("email".to_string());
    data.urgency = Some("critical".to_string());
    data.resident = Some(true);
    let built = build_hints(&entries, data).unwrap();
    assert_eq!(
        built,
        vec![
            ("volume".to_string(), HintArg::Int(5)),
            ("category".to_string(), HintArg::Str("im".to_string())),
            ("urgency".to_string(), HintArg::Str("critical".to_string())),
            ("resident".to_string(), HintArg::Bool(true)),
        ]
    );
}

#[test]
fn hint_with_wrong_number_of_parts_is_refused() {
    let entries = vec!["int:volume".to_string()];
    let err = build_hints(&entries, no_hint_data()).unwrap_err();
    assert_eq!(err, ClientError::InvalidHint("int:volume".to_string()));
    assert_eq!(
        err.describe(),
        "Invalid hint format for entry 'int:volume'. Expected format: 'type:name:value'"
    );
    let entries = vec!["a:b:c:d".to_string()];
    assert!(build_hints(&entries, no_hint_data()).is_err());
}

#[test]
fn hint_type_error_message() {
    let err = ClientError::InvalidHintType("float".to_string());
    assert_eq!(
        err.describe(),
        "Invalid hint type \"float\". Valid types are int, byte, bool, and string."
    );
}

#[test]
fn hints_are_checked_before_actions() {
    let actions = vec!["broken".to_string()];
    let hints = vec!["nope".to_string()];
    let err = prepare_notification(
        0,
        "app".to_string(),
        String::new(),
        "s".to_string(),
        "b".to_string(),
        -1,
        &actions,
        &hints,
        no_hint_data(),
    )
    .unwrap_err();
    assert_eq!(err, ClientError::InvalidHint("nope".to_string()));
}

#[test]
fn a_request_carries_what_the_user_gave() {
    let actions = vec!["a:A".to_string()];
    let hints: Vec<String> = vec![];
    let req = prepare_notification(
        7,
        "app".to_string(),
        "icon".to_string(),
        "summary".to_string(),
        "body".to_string(),
        5000,
        &actions,
        &hints,
        no_hint_data(),
    )
    .unwrap();
    assert_eq!(req.replaces_id, 7);
    assert_eq!(req.app_name, "app");
    assert_eq!(req.app_icon, "icon");
    assert_eq!(req.expire_timeout, 5000);
    assert_eq!(req.actions, vec!["a", "A"]);
    assert!(req.hints.is_empty());
}
