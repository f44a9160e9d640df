use duco2mqtt::bridge::{
    discover_nodes, merge_nodes, node_and_action_from_topic, node_number_for_node_name,
    sort_node_infos, DucoMqttBridge,
};
use duco2mqtt::ducoapi::{NodeActionDescription, NodeActions, NodeInfo, StatusField};
use duco2mqtt::ducoboxnode::NodeActionRequest;
use duco2mqtt::duconodetypes::{NodeType, VentilationPosition};
use duco2mqtt::hassdiscovery::{
    create_light_for_status, create_select_for_status, create_sensor_for_status, Origin,
};
use duco2mqtt::mqtt::{state_topic, MqttData, OFFLINE_PAYLOAD, ONLINE_PAYLOAD};
use duco2mqtt::Error;

fn info(node: u16, pairs: Vec<(&str, StatusField)>) -> NodeInfo {
    NodeInfo {
        node,
        general: pairs.into_iter().map(|(k, v)| (k.to_string(), v)).collect(),
        ventilation: Vec::new(),
        sensor: None,
    }
}

fn box_info(node: u16) -> NodeInfo {
    info(node, vec![("Type", StatusField::from("BOX"))])
}

fn actions(node: u16) -> NodeActions {
    NodeActions {
        node,
        actions: vec![NodeActionDescription {
            action: "SetIdentify".to_string(),
            val_type: "Boolean".to_string(),
            values: None,
        }],
    }
}

#[test]
fn test_node_number_for_node_name() {
    assert_eq!(node_number_for_node_name("duco_node_1").unwrap(), 1);
    assert_eq!(node_number_for_node_name("duco_node_2").unwrap(), 2);
    assert_eq!(node_number_for_node_name("duco_node_3").unwrap(), 3);
    assert_eq!(node_number_for_node_name("duco_node_67").unwrap(), 67);
    assert_eq!(node_number_for_node_name("duco_node_68").unwrap(), 68);
}

#[test]
fn test_node_number_command_from_topic() {
    assert_eq!(
        node_and_action_from_topic("duco_node_1/cmnd/SetVentilationState").unwrap(),
        (1, "SetVentilationState".to_string())
    );
    assert_eq!(
        node_and_action_from_topic("duco_node_2/cmnd/SetIdentify").unwrap(),
        (2, "SetIdentify".to_string())
    );
}

#[test]
fn topic_parsing_rejects_near_misses() {
    assert_eq!(
        node_and_action_from_topic("duco_node_12/cmnd/SetIdentify").unwrap(),
        (12, "SetIdentify".to_string())
    );
    assert_eq!(
        node_and_action_from_topic("duco_node_/cmnd/X").unwrap_err(),
        Error::InvalidTopic
    );
    assert_eq!(node_and_action_from_topic("node_12/cmnd/X").unwrap_err(), Error::InvalidTopic);
    assert_eq!(
        node_and_action_from_topic("duco_node_12/SetIdentify").unwrap_err(),
        Error::InvalidTopic
    );
    assert_eq!(
        node_and_action_from_topic("duco_node_12/cmnd/a/b").unwrap_err(),
        Error::InvalidTopic
    );
    assert_eq!(node_number_for_node_name("duco_node_1_2").unwrap_err(), Error::InvalidTopic);
}

#[test]
fn discovery_count_mismatch_constructs_nothing() {
    let infos = vec![box_info(1), box_info(2), box_info(3), box_info(4), box_info(5)];
    let acts = vec![actions(1), actions(2), actions(3), actions(4)];
    assert_eq!(discover_nodes(infos, acts).unwrap_err(), Error::ProtocolMismatch);
}

#[test]
fn discovery_number_mismatch_fails() {
    let infos = vec![box_info(1), box_info(2)];
    let acts = vec![actions(1), actions(3)];
    assert_eq!(discover_nodes(infos, acts).unwrap_err(), Error::ProtocolMismatch);
}

#[test]
fn discovery_pairs_after_sorting() {
    let infos = vec![box_info(2), box_info(1)];
    let acts = vec![actions(1), actions(2)];
    let nodes = discover_nodes(infos, acts).unwrap();
    assert_eq!(nodes.len(), 2);
    assert_eq!(nodes[0].number(), 1);
    assert_eq!(nodes[1].number(), 2);
    assert_eq!(nodes[0].node_type(), NodeType::DucoBox);
}

#[test]
fn sorting_nodes_is_by_number() {
    let sorted = sort_node_infos(vec![box_info(3), box_info(1), box_info(2)]);
    let numbers: Vec<u16> = sorted.iter().map(|n| n.node).collect();
    assert_eq!(numbers, vec![1, 2, 3]);
}

#[test]
fn merge_appends_new_nodes_and_updates_known_ones() {
    let mut nodes = discover_nodes(vec![box_info(1)], vec![actions(1)]).unwrap();
    let _ = nodes[0].topics_that_need_updating();

    let fresh = vec![
        info(1, vec![("Type", StatusField::from("BOX")), ("Name", StatusField::from("Hall"))]),
        info(7, vec![("Type", StatusField::from("UCCO2"))]),
    ];
    merge_nodes(&mut nodes, fresh).unwrap();
    assert_eq!(nodes.len(), 2);
    assert_eq!(nodes[1].number(), 7);
    let msgs = nodes[0].topics_that_need_updating();
    assert_eq!(msgs, vec![MqttData::new("duco_node_1/General/Name", "Hall")]);
}

#[test]
fn bridge_poll_cycle_and_routing() {
    let mut bridge = DucoMqttBridge::new("ventilation", true);
    assert!(bridge.needs_discovery());
    assert!(bridge.first_poll());
    assert!(bridge.hass_discovery());
    assert_eq!(bridge.base_topic(), "ventilation/");

    let dev = duco2mqtt::ducoapi::DeviceInfo {
        general: vec![(
            "General/Board/BoxName".to_string(),
            StatusField::from("ENERGY"),
        )],
    };
    let infos = vec![NodeInfo {
        node: 1,
        general: vec![("Type".to_string(), StatusField::from("BOX"))],
        ventilation: Vec::new(),
        sensor: None,
    }];
    let acts = vec![NodeActions {
        node: 1,
        actions: vec![
            NodeActionDescription {
                action: "SetVentilationState".to_string(),
                val_type: "Enum".to_string(),
                values: Some(vec!["Auto".to_string(), "Manual1".to_string()]),
            },
            NodeActionDescription {
                action: "SetIdentify".to_string(),
                val_type: "Boolean".to_string(),
                values: None,
            },
        ],
    }];

    let mut msgs = bridge.apply_poll_discovery(dev, infos, acts).unwrap();
    msgs.sort();
    assert_eq!(
        msgs,
        vec![
            MqttData::new("ventilation/General/Board/BoxName", "ENERGY"),
            MqttData::new("ventilation/duco_node_1/General/Type", "BOX"),
        ]
    );
    assert!(!bridge.needs_discovery());
    assert!(!bridge.first_poll());
    assert_eq!(bridge.node_count(), 1);
    assert_eq!(bridge.node_at(0).number(), 1);

    // Routing: base prefix and full validation.
    match bridge.route_command("ventilation/duco_node_1/cmnd/SetIdentify", "1") {
        Ok((1, NodeActionRequest::Boolean(a))) => {
            assert_eq!(a.action, "SetIdentify");
            assert!(a.val);
        }
        other => panic!("unexpected route result: {:?}", other),
    }
    assert_eq!(
        bridge.route_command("other/duco_node_1/cmnd/SetIdentify", "1").unwrap_err(),
        Error::InvalidTopic
    );
    assert_eq!(
        bridge.route_command("ventilation/duco_node_9/cmnd/SetIdentify", "1").unwrap_err(),
        Error::UnknownNode
    );
    assert_eq!(
        bridge
            .route_command("ventilation/duco_node_1/cmnd/SetVentilationState", "Manual4")
            .unwrap_err(),
        Error::InvalidCommandValue
    );

    // A failed poll forces everything to the sentinel, republished once.
    bridge.apply_poll_failure();
    let dev2 = duco2mqtt::ducoapi::DeviceInfo { general: Vec::new() };
    let mut republished = bridge.apply_poll_update(dev2, Vec::new()).unwrap();
    republished.sort();
    assert_eq!(
        republished,
        vec![
            MqttData::new("ventilation/General/Board/BoxName", "UNKNOWN"),
            MqttData::new("ventilation/duco_node_1/General/Type", "UNKNOWN"),
        ]
    );
}

#[test]
fn availability_values() {
    assert_eq!(state_topic("ventilation"), "ventilation/state");
    assert_eq!(ONLINE_PAYLOAD, "online");
    assert_eq!(OFFLINE_PAYLOAD, "offline");
    let d = MqttData::new("a", "b");
    assert_eq!(d.topic, "a");
    assert_eq!(d.payload, "b");
}

#[test]
fn ventilation_positions_decode_from_register_codes() {
    assert_eq!(VentilationPosition::from_code(0), VentilationPosition::AUTO);
    assert_eq!(VentilationPosition::from_code(4), VentilationPosition::Manual1);
    assert_eq!(VentilationPosition::from_code(7), VentilationPosition::NotAtHome);
    assert_eq!(VentilationPosition::from_code(10), VentilationPosition::Permanent3);
    assert_eq!(VentilationPosition::from_code(3), VentilationPosition::Unknown);
    assert_eq!(VentilationPosition::from_code(11), VentilationPosition::Unknown);
}

#[test]
fn hass_descriptors_name_their_topics() {
    let origin = Origin::duco2mqtt();
    assert_eq!(origin.name, "duco2mqtt");

    let sensor = create_sensor_for_status(3, "ventilation/", "Sensor/IaqCo2", "sensor_iaq_co2");
    assert_eq!(sensor.unique_id, "duco_node_3_sensor_iaq_co2");
    assert_eq!(sensor.obj_id, "duco_node_3_sensor_iaq_co2");
    assert_eq!(sensor.stat_t, "ventilation/duco_node_3/Sensor/IaqCo2");
    assert_eq!(sensor.avty_t, "ventilation/state");

    let light = create_light_for_status(2, "ventilation/", "General/Identify", "SetIdentify", "identify");
    assert_eq!(light.cmd_t, "ventilation/duco_node_2/cmnd/SetIdentify");
    assert_eq!(light.payload_on, "1");
    assert_eq!(light.payload_off, "0");

    let select = create_select_for_status(
        1,
        "ventilation/",
        "Ventilation/State",
        "SetVentilationState",
        "ventilation_state",
        &vec!["Auto".to_string(), "Manual1".to_string()],
    );
    assert_eq!(select.options, vec!["Auto".to_string(), "Manual1".to_string()]);
    assert_eq!(select.stat_t, "ventilation/duco_node_1/Ventilation/State");
}
