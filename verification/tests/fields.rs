use duco2mqtt::ducoapi::{DeviceInfo, StatusField, StatusValue};
use duco2mqtt::ducoboxdevice::DucoBoxDevice;
use duco2mqtt::infovalue::InfoValue;

#[test]
fn ducoboxnode_test_info_value() {
    let mut val = InfoValue::new(StatusValue::String("foo".to_string()));
    assert!(val.is_modified());
    assert_eq!(val.get_and_reset(), StatusValue::String("foo".to_string()));
    assert!(!val.is_modified());
}

#[test]
fn duxoboxnode_test_info_value() {
    let mut val = InfoValue::new(StatusValue::String("foo".to_string()));
    assert!(val.modified());
    assert_eq!(val.get_and_reset(), StatusValue::String("foo".to_string()));
    assert!(!val.modified());
}

#[test]
fn test_node_value_compare() {
    let n1 = StatusValue::Number(1);
    let n2 = StatusValue::Number(2);
    let n3 = StatusValue::Number(1);
    let s1 = StatusValue::String("foo".to_string());
    let s2 = StatusValue::String("foo".to_string());
    let s3 = StatusValue::String("foo1".to_string());

    assert_eq!(s1, s2);
    assert_eq!(n1, n3);

    assert!(!(s1 != s2));
    assert!(s1 != n1);
    assert!(s1 != s3);
    assert!(n1 != n2);
}

#[test]
fn set_tracks_changes_against_observed_value() {
    let mut val = InfoValue::new(StatusValue::Number(1));
    let _ = val.get_and_reset();
    assert!(!val.is_modified());

    // Same value: stays clean.
    val.set(StatusValue::Number(1));
    assert!(!val.is_modified());

    // A cross-type value of the same textual form is a change.
    val.set(StatusValue::String("1".to_string()));
    assert!(val.is_modified());

    // Once dirty, setting the observed value back keeps the flag up.
    val.set(StatusValue::Number(1));
    assert!(val.is_modified());
}

#[test]
fn fresh_field_reports_modified_until_cleared() {
    let mut val = InfoValue::new(StatusValue::Number(7));
    assert!(val.is_modified());
    val.set(StatusValue::Number(7));
    assert!(val.is_modified());
    let _ = val.get_and_reset();
    assert!(!val.is_modified());
}

fn group(pairs: Vec<(&str, StatusValue)>) -> Vec<(String, StatusField)> {
    pairs
        .into_iter()
        .map(|(k, v)| (k.to_string(), StatusField { val: v }))
        .collect()
}

#[test]
fn device_drain_twice_yields_nothing_the_second_time() {
    let mut dev = DucoBoxDevice::new();
    dev.update_status(DeviceInfo {
        general: group(vec![
            ("General/Board/BoxName", StatusValue::String("ENERGY".to_string())),
            ("HeatRecovery/General/TimeFilterRemain", StatusValue::Number(59)),
        ]),
    });

    let first = dev.topics_that_need_updating();
    assert_eq!(first.len(), 2);
    let second = dev.topics_that_need_updating();
    assert!(second.is_empty());
}

#[test]
fn device_reset_republishes_only_known_values() {
    let mut dev = DucoBoxDevice::new();
    dev.update_status(DeviceInfo {
        general: group(vec![
            ("General/Board/BoxName", StatusValue::String("ENERGY".to_string())),
            ("General/Board/Flag", StatusValue::String("UNKNOWN".to_string())),
        ]),
    });
    let _ = dev.topics_that_need_updating();

    dev.reset();
    let mut republished = dev.topics_that_need_updating();
    republished.sort();
    assert_eq!(republished.len(), 1);
    assert_eq!(republished[0].topic, "General/Board/BoxName");
    assert_eq!(republished[0].payload, "UNKNOWN");
}

#[test]
fn device_merge_keeps_omitted_fields() {
    let mut dev = DucoBoxDevice::new();
    dev.update_status(DeviceInfo {
        general: group(vec![
            ("A", StatusValue::Number(1)),
            ("B", StatusValue::Number(2)),
        ]),
    });
    let _ = dev.topics_that_need_updating();

    // A poll that omits "B" keeps its last value and changes only "A".
    dev.update_status(DeviceInfo {
        general: group(vec![("A", StatusValue::Number(3))]),
    });
    let msgs = dev.topics_that_need_updating();
    assert_eq!(msgs.len(), 1);
    assert_eq!(msgs[0].topic, "A");
    assert_eq!(msgs[0].payload, "3");
}

#[test]
fn number_payloads_render_in_decimal() {
    let mut dev = DucoBoxDevice::new();
    dev.update_status(DeviceInfo {
        general: group(vec![
            ("Neg", StatusValue::Number(-42)),
            ("Zero", StatusValue::Number(0)),
            ("Big", StatusValue::Number(9_223_372_036_854_775_807)),
        ]),
    });
    let mut msgs = dev.topics_that_need_updating();
    msgs.sort();
    assert_eq!(msgs[0].payload, "9223372036854775807");
    assert_eq!(msgs[1].payload, "-42");
    assert_eq!(msgs[2].payload, "0");
}
