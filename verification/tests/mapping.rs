use ps2iidx_controller::json::{parse_json, Json};
use ps2iidx_controller::mapping::{
    default_maps, load_mapping, normalize_keyboard_entry, parse_keyboard_special, parse_mapping,
    parse_x360_entry,
};
use ps2iidx_controller::types::{
    DpadDirection, KeyboardButtonEntry, KeyboardMapping, KeyboardSpecialConfig, MappingConfig,
    OutputType, TriggerName, X360ButtonEntry, X360ButtonName, X360Mapping,
};

fn keyboard(text: &str) -> KeyboardMapping {
    match load_mapping(text, "map.json") {
        Ok(MappingConfig::Keyboard(mapping)) => mapping,
        other => panic!("expected a keyboard mapping, got {:?}", other),
    }
}

fn x360(text: &str) -> X360Mapping {
    match load_mapping(text, "map.json") {
        Ok(MappingConfig::X360(mapping)) => mapping,
        other => panic!("expected a gamepad mapping, got {:?}", other),
    }
}

fn error(text: &str) -> String {
    match load_mapping(text, "map.json") {
        Err(message) => message,
        Ok(mapping) => panic!("expected an error, got {:?}", mapping),
    }
}

fn text(s: &str) -> Json {
    Json::Text(s.to_string())
}

fn object(members: Vec<(&str, Json)>) -> Json {
    Json::Object(
        members
            .into_iter()
            .map(|(key, value)| (key.to_string(), value))
            .collect(),
    )
}

#[test]
fn built_in_modes() {
    assert_eq!(
        default_maps(),
        vec![
            ("iidx", "mapping/iidx.keyboard.json"),
            ("popn", "mapping/popn.keyboard.json"),
            ("x360", "mapping/x360.pad.json"),
        ]
    );
}

#[test]
fn json_text_becomes_a_tree_of_plain_values() {
    let doc = parse_json(r#"{"a": [1, -1, 1.5, "x", null, true], "b": {"c": "d"}}"#).unwrap();
    let members = doc.as_object().unwrap();
    assert_eq!(members.len(), 2);
    assert_eq!(members[0].0, "a");
    let items = members[0].1.as_array().unwrap();
    assert_eq!(items.len(), 6);
    assert_eq!(items[0].as_u64(), Some(1));
    assert!(matches!(items[1], Json::Number(None)));
    assert!(matches!(items[2], Json::Number(None)));
    assert_eq!(items[3].as_text(), Some("x"));
    assert!(matches!(items[4], Json::Null));
    assert!(matches!(items[5], Json::Bool(true)));
    assert_eq!(doc.get("b").unwrap().get_text("c"), Some("d"));
    assert!(doc.get("c").is_none());
    assert!(items[0].get("a").is_none());
}

#[test]
fn json_number_keeps_unsigned_integers_only() {
    assert_eq!(
        parse_json("18446744073709551615").unwrap().as_u64(),
        Some(u64::MAX)
    );
    assert_eq!(parse_json("18446744073709551616").unwrap().as_u64(), None);
    assert_eq!(parse_json("-0").unwrap().as_u64(), None);
    assert_eq!(parse_json("\"7\"").unwrap().as_u64(), None);
}

#[test]
fn json_text_that_does_not_parse_is_an_error() {
    assert!(parse_json("").is_err());
    assert!(parse_json("{").is_err());
    assert!(parse_json("{} x").is_err());
}

#[test]
fn keyboard_mapping_loads() {
    let mapping = keyboard(
        r#"{
            "name": "IIDX",
            "output": "keyboard",
            "buttons": { "0": "a", "6": { "key": "f" }, "4": { "key": "r", "note": 1 } },
            "special": {
                "ignoreKey": "a",
                "tapKeys": ["f", "r"],
                "tapDurationMs": 100,
                "releaseOnIgnore": ["r", "f"]
            }
        }"#,
    );

    assert_eq!(mapping.name.as_deref(), Some("IIDX"));
    assert_eq!(mapping.output, OutputType::Keyboard);
    assert_eq!(
        mapping.buttons.get("0"),
        Some(&KeyboardButtonEntry {
            key: "a".to_string()
        })
    );
    assert_eq!(mapping.buttons.get("6").unwrap().key, "f");
    assert_eq!(mapping.buttons.get("4").unwrap().key, "r");
    assert!(mapping.buttons.get("1").is_none());
    assert!(mapping.buttons.contains_key("6"));
    assert_eq!(
        mapping.special,
        Some(KeyboardSpecialConfig {
            ignore_key: Some("a".to_string()),
            tap_keys: Some(vec!["f".to_string(), "r".to_string()]),
            tap_duration_ms: Some(100),
            release_on_ignore: Some(vec!["r".to_string(), "f".to_string()]),
        })
    );
}

#[test]
fn keyboard_mapping_without_name_and_special() {
    let mapping = keyboard(r#"{"output": "keyboard", "buttons": {}}"#);

    assert_eq!(mapping.name, None);
    assert!(mapping.special.is_none());
    assert!(mapping.buttons.get("0").is_none());
}

#[test]
fn name_of_another_kind_counts_as_absent() {
    let mapping = keyboard(r#"{"name": 5, "output": "keyboard", "buttons": {}}"#);

    assert_eq!(mapping.name, None);
}

#[test]
fn special_keys_of_another_kind_count_as_not_given() {
    let mapping = keyboard(
        r#"{"output": "keyboard", "buttons": {},
            "special": {"ignoreKey": 1, "tapKeys": "f", "tapDurationMs": "100",
                        "releaseOnIgnore": {"r": 1}}}"#,
    );

    assert_eq!(mapping.special, Some(KeyboardSpecialConfig::default()));
}

#[test]
fn special_lists_keep_their_texts_only() {
    let mapping = keyboard(
        r#"{"output": "keyboard", "buttons": {},
            "special": {"tapKeys": ["f", 1, null, "r", ["x"]], "releaseOnIgnore": [],
                        "tapDurationMs": -5}}"#,
    );

    let special = mapping.special.unwrap();
    assert_eq!(special.tap_keys, Some(vec!["f".to_string(), "r".to_string()]));
    assert_eq!(special.release_on_ignore, Some(vec![]));
    assert_eq!(special.tap_duration_ms, None);
    assert_eq!(special.ignore_key, None);
}

#[test]
fn gamepad_mapping_loads() {
    let mapping = x360(
        r#"{
            "name": "pad",
            "output": "x360",
            "buttons": {
                "0": { "type": "button", "name": "A" },
                "1": { "type": "dpad", "direction": "up" },
                "2": { "type": "trigger", "trigger": "left", "extra": true }
            }
        }"#,
    );

    assert_eq!(mapping.name.as_deref(), Some("pad"));
    assert_eq!(mapping.output, OutputType::X360);
    assert_eq!(
        mapping.buttons.get("0"),
        Some(&X360ButtonEntry::Button {
            name: X360ButtonName::A
        })
    );
    assert_eq!(
        mapping.buttons.get("1"),
        Some(&X360ButtonEntry::Dpad {
            direction: DpadDirection::Up
        })
    );
    assert_eq!(
        mapping.buttons.get("2"),
        Some(&X360ButtonEntry::Trigger {
            trigger: TriggerName::Left
        })
    );
}

#[test]
fn gamepad_entries_of_every_name() {
    let buttons = [
        ("START", X360ButtonName::Start),
        ("BACK", X360ButtonName::Back),
        ("LEFT_THUMB", X360ButtonName::LeftThumb),
        ("RIGHT_THUMB", X360ButtonName::RightThumb),
        ("LEFT_SHOULDER", X360ButtonName::LeftShoulder),
        ("RIGHT_SHOULDER", X360ButtonName::RightShoulder),
        ("GUIDE", X360ButtonName::Guide),
        ("A", X360ButtonName::A),
        ("B", X360ButtonName::B),
        ("X", X360ButtonName::X),
        ("Y", X360ButtonName::Y),
    ];
    for (written, name) in buttons {
        let entry = object(vec![("type", text("button")), ("name", text(written))]);
        assert_eq!(
            parse_x360_entry(&entry),
            Ok(X360ButtonEntry::Button { name })
        );
    }
    let directions = [
        ("up", DpadDirection::Up),
        ("down", DpadDirection::Down),
        ("left", DpadDirection::Left),
        ("right", DpadDirection::Right),
    ];
    for (written, direction) in directions {
        let entry = object(vec![("type", text("dpad")), ("direction", text(written))]);
        assert_eq!(
            parse_x360_entry(&entry),
            Ok(X360ButtonEntry::Dpad { direction })
        );
    }
    let triggers = [("left", TriggerName::Left), ("right", TriggerName::Right)];
    for (written, trigger) in triggers {
        let entry = object(vec![("type", text("trigger")), ("trigger", text(written))]);
        assert_eq!(
            parse_x360_entry(&entry),
            Ok(X360ButtonEntry::Trigger { trigger })
        );
    }
}

#[test]
fn gamepad_entry_that_is_none_says_why() {
    assert_eq!(
        parse_x360_entry(&text("A")),
        Err("expected an object".to_string())
    );
    assert_eq!(
        parse_x360_entry(&object(vec![("name", text("A"))])),
        Err("missing field `type`".to_string())
    );
    assert_eq!(
        parse_x360_entry(&object(vec![("type", Json::Number(Some(1)))])),
        Err("missing field `type`".to_string())
    );
    assert_eq!(
        parse_x360_entry(&object(vec![("type", text("stick"))])),
        Err("unknown entry type".to_string())
    );
    assert_eq!(
        parse_x360_entry(&object(vec![("type", text("Button")), ("name", text("A"))])),
        Err("unknown entry type".to_string())
    );
    assert_eq!(
        parse_x360_entry(&object(vec![("type", text("button"))])),
        Err("missing field `name`".to_string())
    );
    assert_eq!(
        parse_x360_entry(&object(vec![("type", text("button")), ("name", text("a"))])),
        Err("unknown button name".to_string())
    );
    assert_eq!(
        parse_x360_entry(&object(vec![("type", text("dpad")), ("name", text("up"))])),
        Err("missing field `direction`".to_string())
    );
    assert_eq!(
        parse_x360_entry(&object(vec![
            ("type", text("dpad")),
            ("direction", text("UP"))
        ])),
        Err("unknown direction".to_string())
    );
    assert_eq!(
        parse_x360_entry(&object(vec![("type", text("trigger"))])),
        Err("missing field `trigger`".to_string())
    );
    assert_eq!(
        parse_x360_entry(&object(vec![
            ("type", text("trigger")),
            ("trigger", text("up"))
        ])),
        Err("unknown trigger".to_string())
    );
}

#[test]
fn document_that_does_not_parse() {
    let message = error("{");
    assert!(
        message.starts_with("Failed to parse mapping JSON at map.json: "),
        "{}",
        message
    );
    assert!(message.len() > "Failed to parse mapping JSON at map.json: ".len());
}

#[test]
fn document_must_be_an_object() {
    assert_eq!(error("[]"), "Mapping JSON must be an object (map.json)");
    assert_eq!(error("\"x\""), "Mapping JSON must be an object (map.json)");
}

#[test]
fn document_must_have_output() {
    assert_eq!(
        error(r#"{"buttons": {}}"#),
        "Mapping must have \"output\" field (map.json)"
    );
    assert_eq!(
        error(r#"{"output": 1, "buttons": {}}"#),
        "Mapping must have \"output\" field (map.json)"
    );
}

#[test]
fn document_must_have_buttons() {
    assert_eq!(
        error(r#"{"output": "keyboard"}"#),
        "Mapping must have \"buttons\" field (map.json)"
    );
    assert_eq!(
        error(r#"{"output": "keyboard", "buttons": []}"#),
        "\"buttons\" must be an object (map.json)"
    );
}

#[test]
fn output_must_name_a_kind_of_mapping() {
    assert_eq!(
        error(r#"{"output": "mouse", "buttons": {}}"#),
        "Mapping output must be \"keyboard\" or \"x360\", got \"mouse\" (map.json)"
    );
    assert_eq!(
        error(r#"{"output": "Keyboard", "buttons": {}}"#),
        "Mapping output must be \"keyboard\" or \"x360\", got \"Keyboard\" (map.json)"
    );
}

#[test]
fn buttons_are_checked_before_the_kind_of_mapping() {
    assert_eq!(
        error(r#"{"output": "mouse"}"#),
        "Mapping must have \"buttons\" field (map.json)"
    );
}

#[test]
fn keyboard_entry_must_be_a_name_or_hold_a_key() {
    assert_eq!(
        error(r#"{"output": "keyboard", "buttons": {"3": 5}}"#),
        "Invalid keyboard mapping entry for button 3"
    );
    assert_eq!(
        error(r#"{"output": "keyboard", "buttons": {"3": {"key": 5}}}"#),
        "Invalid keyboard mapping entry for button 3"
    );
    assert_eq!(
        error(r#"{"output": "keyboard", "buttons": {"3": {}}}"#),
        "Invalid keyboard mapping entry for button 3"
    );
}

#[test]
fn first_bad_entry_is_reported() {
    assert_eq!(
        error(r#"{"output": "keyboard", "buttons": {"1": "a", "2": null, "3": null}}"#),
        "Invalid keyboard mapping entry for button 2"
    );
}

#[test]
fn special_must_be_an_object() {
    assert_eq!(
        error(r#"{"output": "keyboard", "buttons": {}, "special": []}"#),
        "\"special\" must be an object"
    );
    assert_eq!(
        error(r#"{"output": "keyboard", "buttons": {"1": 1}, "special": []}"#),
        "Invalid keyboard mapping entry for button 1"
    );
}

#[test]
fn gamepad_mapping_does_not_look_at_special() {
    let mapping = x360(r#"{"output": "x360", "buttons": {}, "special": []}"#);

    assert!(mapping.buttons.get("0").is_none());
}

#[test]
fn gamepad_entry_with_an_unknown_tag_is_rejected_at_load_time() {
    assert_eq!(
        error(r#"{"output": "x360", "buttons": {"5": {"type": "stick"}}}"#),
        "Invalid x360 mapping entry for button 5: unknown entry type"
    );
    assert_eq!(
        error(r#"{"output": "x360", "buttons": {"5": "A"}}"#),
        "Invalid x360 mapping entry for button 5: expected an object"
    );
    assert_eq!(
        error(r#"{"output": "x360", "buttons": {"5": {"type": "button", "name": "C"}}}"#),
        "Invalid x360 mapping entry for button 5: unknown button name"
    );
}

#[test]
fn document_model_can_be_read_directly() {
    let doc = object(vec![
        ("output", text("keyboard")),
        ("buttons", object(vec![("0", text("a")), ("0", text("b"))])),
    ]);
    let mapping = match parse_mapping(&doc, "here") {
        Ok(MappingConfig::Keyboard(mapping)) => mapping,
        other => panic!("expected a keyboard mapping, got {:?}", other),
    };

    assert_eq!(mapping.buttons.get("0").unwrap().key, "b");
}

#[test]
fn keyboard_entry_reads_both_forms() {
    assert_eq!(
        normalize_keyboard_entry(&text("F13"), "1"),
        Ok(KeyboardButtonEntry {
            key: "F13".to_string()
        })
    );
    assert_eq!(
        normalize_keyboard_entry(&object(vec![("key", text("F13"))]), "1"),
        Ok(KeyboardButtonEntry {
            key: "F13".to_string()
        })
    );
    assert_eq!(
        normalize_keyboard_entry(&Json::List(vec![text("F13")]), "12"),
        Err("Invalid keyboard mapping entry for button 12".to_string())
    );
}

#[test]
fn special_reads_from_the_document_model() {
    assert_eq!(
        parse_keyboard_special(&object(vec![
            ("ignoreKey", text("a")),
            ("tapDurationMs", Json::Number(Some(13))),
        ])),
        Ok(KeyboardSpecialConfig {
            ignore_key: Some("a".to_string()),
            tap_keys: None,
            tap_duration_ms: Some(13),
            release_on_ignore: None,
        })
    );
    assert_eq!(
        parse_keyboard_special(&Json::Null),
        Err("\"special\" must be an object".to_string())
    );
}

#[test]
fn mapping_config_gives_its_name_and_output() {
    let config = load_mapping(
        r#"{"name": "pop", "output": "keyboard", "buttons": {}}"#,
        "map.json",
    )
    .unwrap();
    assert_eq!(config.name(), Some("pop"));
    assert_eq!(config.output_type(), &OutputType::Keyboard);

    let config = load_mapping(r#"{"output": "x360", "buttons": {}}"#, "map.json").unwrap();
    assert_eq!(config.name(), None);
    assert_eq!(config.output_type(), &OutputType::X360);
}
