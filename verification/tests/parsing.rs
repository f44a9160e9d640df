use duco2mqtt::ducoapi::{parse_device_info, parse_node_actions, parse_node_info, StatusValue};
use duco2mqtt::text::{i64_to_string, parse_u16, split_char, str_eq, u64_to_string};
use duco2mqtt::Error;

#[test]
fn decimal_rendering_is_exact() {
    assert_eq!(u64_to_string(0), "0");
    assert_eq!(u64_to_string(7), "7");
    assert_eq!(u64_to_string(1234567890), "1234567890");
    assert_eq!(i64_to_string(0), "0");
    assert_eq!(i64_to_string(-1), "-1");
    assert_eq!(i64_to_string(i64::MAX), "9223372036854775807");
    assert_eq!(i64_to_string(i64::MIN), "-9223372036854775808");
}

#[test]
fn parse_u16_accepts_digits_only() {
    assert_eq!(parse_u16("0"), Some(0));
    assert_eq!(parse_u16("65535"), Some(65535));
    assert_eq!(parse_u16("00042"), Some(42));
    assert_eq!(parse_u16("65536"), None);
    assert_eq!(parse_u16("99999999999"), None);
    assert_eq!(parse_u16(""), None);
    assert_eq!(parse_u16("+12"), None);
    assert_eq!(parse_u16("1a"), None);
}

#[test]
fn split_keeps_empty_segments() {
    assert_eq!(split_char("a/b/c", '/'), vec!["a", "b", "c"]);
    assert_eq!(split_char("", '/'), vec![""]);
    assert_eq!(split_char("/x/", '/'), vec!["", "x", ""]);
    assert!(str_eq("abc", "abc"));
    assert!(!str_eq("abc", "abd"));
}

#[test]
fn parses_a_node_list() {
    let body = br#"{
        "Nodes": [
            {
                "Node": 1,
                "General": {"Type": {"Val": "BOX"}, "SubType": {"Val": 1}},
                "Ventilation": {"State": {"Val": "AUTO"}}
            },
            {
                "Node": 2,
                "General": {"Type": {"Val": "UCCO2"}},
                "Ventilation": {},
                "Sensor": {"IaqCo2": {"Val": 62}}
            }
        ]
    }"#;

    let nodes = parse_node_info(body).unwrap();
    assert_eq!(nodes.len(), 2);
    assert_eq!(nodes[0].node, 1);
    assert_eq!(nodes[0].general.len(), 2);
    assert!(nodes[0].sensor.is_none());
    assert_eq!(nodes[1].node, 2);
    let sensor = nodes[1].sensor.as_ref().unwrap();
    assert_eq!(sensor[0].0, "IaqCo2");
    assert_eq!(sensor[0].1.val, StatusValue::Number(62));
}

#[test]
fn node_list_failures() {
    assert_eq!(parse_node_info(b"not json").unwrap_err(), Error::ParseError);
    assert_eq!(parse_node_info(b"{}").unwrap_err(), Error::ParseError);
    assert_eq!(parse_node_info(br#"{"Nodes": 3}"#).unwrap_err(), Error::ParseError);
    // A boolean is not a legal field value.
    let bad_val = br#"{"Nodes": [{"Node": 1, "General": {"Type": {"Val": true}}, "Ventilation": {}}]}"#;
    assert_eq!(parse_node_info(bad_val).unwrap_err(), Error::ParseError);
    // A node number out of sixteen bits is rejected.
    let bad_nr = br#"{"Nodes": [{"Node": 70000, "General": {}, "Ventilation": {}}]}"#;
    assert_eq!(parse_node_info(bad_nr).unwrap_err(), Error::ParseError);
}

#[test]
fn parses_device_info_sections() {
    let body = br#"{
        "General": {
            "Board": {"BoxName": {"Val": "ENERGY"}, "BoxSubTypeName": {"Val": "PREMIUM_400_2ZH_R"}},
            "Lan": {"Mode": {"Val": "STATIC"}, "Scan": [1, 2]}
        },
        "HeatRecovery": {
            "General": {"TimeFilterRemain": {"Val": 59}}
        },
        "NightBoost": {"anything": 1}
    }"#;

    let dev = parse_device_info(body).unwrap();
    let get = |key: &str| -> StatusValue {
        dev.general
            .iter()
            .find(|(k, _)| k == key)
            .map(|(_, f)| f.val.clone())
            .unwrap()
    };
    assert_eq!(get("General/Board/BoxName"), StatusValue::String("ENERGY".to_string()));
    assert_eq!(
        get("General/Board/BoxSubTypeName"),
        StatusValue::String("PREMIUM_400_2ZH_R".to_string())
    );
    assert_eq!(get("HeatRecovery/General/TimeFilterRemain"), StatusValue::Number(59));
    // Array-valued fields are passed over, and foreign sections are ignored.
    assert_eq!(dev.general.len(), 4);
}

#[test]
fn device_info_failures() {
    assert_eq!(parse_device_info(b"[1, 2]").unwrap_err(), Error::ParseError);
    let bad_group = br#"{"General": {"Board": 5}}"#;
    assert_eq!(parse_device_info(bad_group).unwrap_err(), Error::ParseError);
    let bad_field = br#"{"General": {"Board": {"BoxName": "ENERGY"}}}"#;
    assert_eq!(parse_device_info(bad_field).unwrap_err(), Error::ParseError);
}

#[test]
fn parses_node_actions() {
    let body = br#"{
        "Nodes": [
            {
                "Node": 1,
                "Actions": [
                    {"Action": "SetVentilationState", "ValType": "Enum", "Enum": ["AUTO", "MAN1"]},
                    {"Action": "SetIdentify", "ValType": "Boolean"}
                ]
            },
            {"Node": 2, "Actions": []}
        ]
    }"#;

    let actions = parse_node_actions(body).unwrap();
    assert_eq!(actions.len(), 2);
    assert_eq!(actions[0].node, 1);
    assert_eq!(actions[0].actions.len(), 2);
    assert_eq!(actions[0].actions[0].action, "SetVentilationState");
    assert_eq!(actions[0].actions[0].val_type, "Enum");
    assert_eq!(
        actions[0].actions[0].values,
        Some(vec!["AUTO".to_string(), "MAN1".to_string()])
    );
    assert_eq!(actions[0].actions[1].values, None);
    assert_eq!(actions[1].actions.len(), 0);
}

#[test]
fn node_actions_failures() {
    let missing_action = br#"{"Nodes": [{"Node": 1, "Actions": [{"ValType": "Boolean"}]}]}"#;
    assert_eq!(parse_node_actions(missing_action).unwrap_err(), Error::ParseError);
    let bad_enum = br#"{"Nodes": [{"Node": 1, "Actions": [{"Action": "A", "ValType": "Enum", "Enum": [1]}]}]}"#;
    assert_eq!(parse_node_actions(bad_enum).unwrap_err(), Error::ParseError);
}
