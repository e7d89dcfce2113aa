use ps2iidx_controller::serial::{SerialEvent, SerialOptions};
use ps2iidx_controller::sink::GamepadState;
use ps2iidx_controller::types::{
    ButtonEvent, ButtonTable, KeyboardMapping, MappingConfig, OutputType, X360ButtonEntry,
    X360ButtonName, X360Mapping,
};

#[test]
fn table_replaces_the_entry_of_an_id() {
    let mut table: ButtonTable<u32> = ButtonTable::new();
    assert_eq!(table.get("1"), None);
    assert!(!table.contains_key("1"));

    table.insert("1".to_string(), 10);
    table.insert("2".to_string(), 20);
    table.insert("1".to_string(), 11);

    assert_eq!(table.get("1"), Some(&11));
    assert_eq!(table.get("2"), Some(&20));
    assert_eq!(table.get("3"), None);
    assert_eq!(table.get("01"), None);
    assert!(table.contains_key("2"));
}

#[test]
fn mapping_config_of_either_kind() {
    let keyboard = MappingConfig::Keyboard(KeyboardMapping {
        name: Some("keys".to_string()),
        output: OutputType::Keyboard,
        buttons: ButtonTable::new(),
        special: None,
    });
    assert_eq!(keyboard.name(), Some("keys"));
    assert_eq!(keyboard.output_type(), &OutputType::Keyboard);

    let mut buttons = ButtonTable::new();
    buttons.insert(
        "0".to_string(),
        X360ButtonEntry::Button {
            name: X360ButtonName::Guide,
        },
    );
    let pad = MappingConfig::X360(X360Mapping {
        name: None,
        output: OutputType::X360,
        buttons,
    });
    assert_eq!(pad.name(), None);
    assert_eq!(pad.output_type(), &OutputType::X360);
}

#[test]
fn neutral_state_is_all_zero() {
    assert_eq!(
        GamepadState::neutral(),
        GamepadState {
            buttons: 0,
            left_trigger: 0,
            right_trigger: 0,
            thumb_lx: 0,
            thumb_ly: 0,
            thumb_rx: 0,
            thumb_ry: 0,
        }
    );
}

#[test]
fn serial_items_hold_plain_values() {
    let options = SerialOptions {
        path: "COM3".to_string(),
        baud_rate: 115200,
        debug: true,
    };
    assert_eq!(options.path, "COM3");
    assert_eq!(options.baud_rate, 115200);
    assert!(options.debug);
    assert_ne!(
        SerialEvent::Tick,
        SerialEvent::Button(ButtonEvent {
            id: 0,
            pressed: false
        })
    );
}
