use duco2mqtt::ducoapi::{NodeActionDescription, NodeActions, NodeInfo, StatusField};
use duco2mqtt::ducoboxnode::{DucoBoxNode, DucoNodeAction, NodeActionRequest};
use duco2mqtt::duconodetypes::NodeType;
use duco2mqtt::mqtt::MqttData;
use duco2mqtt::Error;

fn general(pairs: Vec<(&str, StatusField)>) -> Vec<(String, StatusField)> {
    pairs.into_iter().map(|(k, v)| (k.to_string(), v)).collect()
}

#[test]
fn ducoboxnode_test_duco_node_action() {
    let action = NodeActionDescription {
        action: "foo".to_string(),
        val_type: "Enum".to_string(),
        values: Some(vec!["bar".to_string()]),
    };

    let duco_action = DucoNodeAction::try_from(&action).unwrap();
    if let DucoNodeAction::SetEnum(action, values) = duco_action {
        assert_eq!(action, "foo");
        assert_eq!(values, vec!["bar".to_string()]);
    } else {
        panic!("Unexpected action type");
    }
}

#[test]
fn duxoboxnode_test_duco_node_action() {
    let action = NodeActionDescription {
        action: "foo".to_string(),
        val_type: "Enum".to_string(),
        values: Some(vec!["bar".to_string()]),
    };

    let duco_action = DucoNodeAction::try_from(&action).unwrap();
    if let DucoNodeAction::SetEnum(action, values) = duco_action {
        assert_eq!(action, "foo");
        assert_eq!(values, vec!["bar".to_string()]);
    } else {
        panic!("Unexpected action type");
    }
}

#[test]
fn ducoboxnode_test_ducobox_node() {
    let node_info = NodeInfo {
        node: 1,
        general: general(vec![
            ("Type", StatusField::from("BOX")),
            ("SubType", StatusField::from(1)),
        ]),
        ventilation: Vec::new(),
        sensor: None,
    };

    let mut node = DucoBoxNode::try_from(node_info).unwrap();
    assert_eq!(node.number(), 1);

    let mut topics = node.topics_that_need_updating();
    topics.sort();
    assert_eq!(
        topics,
        vec![
            MqttData::new("duco_node_1/General/SubType", "1"),
            MqttData::new("duco_node_1/General/Type", "BOX")
        ]
    );

    let node_info_update = NodeInfo {
        node: 1,
        general: general(vec![
            ("SubType", StatusField::from(2)),
            ("Type", StatusField::from("BOX")),
        ]),
        ventilation: Vec::new(),
        sensor: None,
    };

    node.update_status(node_info_update.clone()).unwrap();
    assert_eq!(
        node.topics_that_need_updating(),
        vec![MqttData::new("duco_node_1/General/SubType", "2"),]
    );

    node.update_status(node_info_update.clone()).unwrap();
    assert!(node.topics_that_need_updating().is_empty(),);
}

#[test]
fn unsupported_action_type_rejects_the_whole_list() {
    let mut node = DucoBoxNode::create_for_node_type(NodeType::DucoBox, 1);
    let actions = NodeActions {
        node: 1,
        actions: vec![
            NodeActionDescription {
                action: "SetIdentify".to_string(),
                val_type: "Boolean".to_string(),
                values: None,
            },
            NodeActionDescription {
                action: "SetLevel".to_string(),
                val_type: "Integer".to_string(),
                values: None,
            },
        ],
    };
    assert_eq!(node.set_actions(actions), Err(Error::ParseError));
    assert_eq!(node.valid_action_values("SetIdentify"), Err(Error::UnknownCommand));
}

#[test]
fn enum_values_missing_is_a_parse_error() {
    let action = NodeActionDescription {
        action: "SetVentilationState".to_string(),
        val_type: "Enum".to_string(),
        values: None,
    };
    assert!(matches!(DucoNodeAction::try_from(&action), Err(Error::ParseError)));
}

fn node_with_actions() -> DucoBoxNode {
    let mut node = DucoBoxNode::create_for_node_type(NodeType::DucoBox, 3);
    let actions = NodeActions {
        node: 3,
        actions: vec![
            NodeActionDescription {
                action: "SetVentilationState".to_string(),
                val_type: "Enum".to_string(),
                values: Some(vec!["Auto".to_string(), "Manual1".to_string()]),
            },
            NodeActionDescription {
                action: "SetIdentify".to_string(),
                val_type: "Boolean".to_string(),
                values: None,
            },
        ],
    };
    node.set_actions(actions).unwrap();
    node
}

#[test]
fn enum_command_validation() {
    let node = node_with_actions();

    match node.process_command("SetVentilationState".to_string(), "Auto".to_string()) {
        Ok(NodeActionRequest::Enumerated(a)) => {
            assert_eq!(a.action, "SetVentilationState");
            assert_eq!(a.val, "Auto");
        }
        other => panic!("unexpected result: {:?}", other),
    }

    assert_eq!(
        node.process_command("SetVentilationState".to_string(), "Manual4".to_string())
            .unwrap_err(),
        Error::InvalidCommandValue
    );
    assert_eq!(
        node.process_command("Bogus".to_string(), "Auto".to_string()).unwrap_err(),
        Error::UnknownCommand
    );
}

#[test]
fn boolean_command_validation() {
    let node = node_with_actions();

    match node.process_command("SetIdentify".to_string(), "1".to_string()) {
        Ok(NodeActionRequest::Boolean(a)) => {
            assert_eq!(a.action, "SetIdentify");
            assert!(a.val);
        }
        other => panic!("unexpected result: {:?}", other),
    }
    match node.process_command("SetIdentify".to_string(), "0".to_string()) {
        Ok(NodeActionRequest::Boolean(a)) => assert!(!a.val),
        other => panic!("unexpected result: {:?}", other),
    }

    for bad in ["true", "2", ""] {
        assert_eq!(
            node.process_command("SetIdentify".to_string(), bad.to_string()).unwrap_err(),
            Error::InvalidCommandValue
        );
    }
}

#[test]
fn valid_action_values_finds_the_enum_set() {
    let node = node_with_actions();
    let values = node.valid_action_values("SetVentilationState").unwrap();
    assert_eq!(values, &vec!["Auto".to_string(), "Manual1".to_string()]);
    assert_eq!(node.valid_action_values("SetIdentify"), Err(Error::UnknownCommand));
    assert_eq!(node.valid_action_values("Nothing"), Err(Error::UnknownCommand));
}

#[test]
fn mismatched_report_number_is_fatal_and_leaves_the_node_alone() {
    let mut node = DucoBoxNode::create_for_node_type(NodeType::CO2RoomSensor, 2);
    let report = NodeInfo {
        node: 5,
        general: general(vec![("Type", StatusField::from("UCCO2"))]),
        ventilation: Vec::new(),
        sensor: None,
    };
    assert_eq!(node.update_status(report), Err(Error::Fatal));
    assert!(node.topics_that_need_updating().is_empty());
}

#[test]
fn node_type_classification() {
    assert_eq!(NodeType::from_str("BOX"), NodeType::DucoBox);
    assert_eq!(NodeType::from_str("UCCO2"), NodeType::CO2RoomSensor);
    assert_eq!(NodeType::from_str("VLV"), NodeType::CO2ControlValve);
    assert_eq!(NodeType::from_str("SwitchSensor"), NodeType::SwitchSensor);
    assert_eq!(NodeType::from_str("Gadget"), NodeType::Unknown);
    assert_eq!(NodeType::DucoBox.wire_name(), "BOX");
    assert_eq!(NodeType::SwitchSensor.wire_name(), "SwitchSensor");
}

#[test]
fn unknown_type_name_still_builds_a_node() {
    let report = NodeInfo {
        node: 9,
        general: general(vec![("Type", StatusField::from("Gadget"))]),
        ventilation: Vec::new(),
        sensor: None,
    };
    let node = DucoBoxNode::try_from(report).unwrap();
    assert_eq!(node.node_type(), NodeType::Unknown);
    assert_eq!(node.number(), 9);
}

#[test]
fn missing_or_numeric_type_is_a_parse_error() {
    let no_type = NodeInfo {
        node: 9,
        general: Vec::new(),
        ventilation: Vec::new(),
        sensor: None,
    };
    assert!(matches!(DucoBoxNode::try_from(no_type), Err(Error::ParseError)));

    let numeric_type = NodeInfo {
        node: 9,
        general: general(vec![("Type", StatusField::from(17))]),
        ventilation: Vec::new(),
        sensor: None,
    };
    assert!(matches!(DucoBoxNode::try_from(numeric_type), Err(Error::ParseError)));
}

#[test]
fn sensor_group_is_prefixed_and_optional() {
    let report = NodeInfo {
        node: 4,
        general: general(vec![("Type", StatusField::from("UCCO2"))]),
        ventilation: general(vec![("State", StatusField::from("AUTO"))]),
        sensor: Some(general(vec![("IaqCo2", StatusField::from(55))])),
    };
    let mut node = DucoBoxNode::try_from(report).unwrap();
    let mut topics = node.topics_that_need_updating();
    topics.sort();
    assert_eq!(
        topics,
        vec![
            MqttData::new("duco_node_4/General/Type", "UCCO2"),
            MqttData::new("duco_node_4/Sensor/IaqCo2", "55"),
            MqttData::new("duco_node_4/Ventilation/State", "AUTO"),
        ]
    );
}
