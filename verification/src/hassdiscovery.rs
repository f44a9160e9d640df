//! Descriptor values for a home-automation platform's auto-discovery:
//! sensors, selects, numbers and lights that point at the bridge's status
//! and command topics. Serialization of these descriptors happens outside
//! the library; here only the topic and identifier strings are built.

use crate::text::{spec_dec, u64_to_string};
use vstd::prelude::*;
use vstd::string::StringExecFns;

verus! {

/// The originating-software stanza carried by every descriptor.
#[derive(Debug, Clone)]
pub struct Origin {
    pub name: String,
    pub sw: String,
    pub url: String,
}

impl Origin {
    /// This bridge's own origin stanza.
    pub fn duco2mqtt() -> (r: Origin)
        ensures
            r.name@ == "duco2mqtt"@,
            r.sw@ == "0.1.0"@,
            r.url@ == "https://github.com/dirkvdb/duco2mqtt"@,
    {
        Origin {
            name: String::from_str("duco2mqtt"),
            sw: String::from_str("0.1.0"),
            url: String::from_str("https://github.com/dirkvdb/duco2mqtt"),
        }
    }
}

/// A read-only measurement descriptor.
#[derive(Debug, Clone)]
pub struct Sensor {
    pub origin: Origin,
    pub name: String,
    pub obj_id: String,
    pub unique_id: String,
    pub stat_t: String,
    pub avty_t: String,
    pub state_class: Option<String>,
    pub unit_of_measurement: Option<String>,
    pub icon: Option<String>,
}

/// A writable numeric descriptor.
#[derive(Debug, Clone)]
pub struct Number {
    pub origin: Origin,
    pub name: String,
    pub obj_id: String,
    pub unique_id: String,
    pub stat_t: String,
    pub avty_t: String,
    pub cmd_t: String,
    pub device_class: Option<String>,
    pub min: Option<i32>,
    pub max: Option<i32>,
    pub unit_of_measurement: Option<String>,
    pub icon: Option<String>,
}

/// A descriptor for an enumerated choice.
#[derive(Debug, Clone)]
pub struct Select {
    pub origin: Origin,
    pub name: String,
    pub obj_id: String,
    pub unique_id: String,
    pub stat_t: String,
    pub avty_t: String,
    pub cmd_t: String,
    pub options: Vec<String>,
    pub icon: Option<String>,
}

/// A descriptor for an on/off switch presented as a light.
#[derive(Debug, Clone)]
pub struct Light {
    pub origin: Origin,
    pub name: String,
    pub obj_id: String,
    pub unique_id: String,
    pub stat_t: String,
    pub avty_t: String,
    pub cmd_t: String,
    pub payload_on: String,
    pub payload_off: String,
    pub icon: Option<String>,
}

/// The unique identifier of one node-scoped descriptor.
pub open spec fn spec_unique_id(node_nr: u16, status: Seq<char>) -> Seq<char> {
    "duco_node_"@ + spec_dec(node_nr as nat) + "_"@ + status
}

/// The status topic a node-scoped descriptor points at.
pub open spec fn spec_stat_topic(base: Seq<char>, node_nr: u16, topic_name: Seq<char>) -> Seq<
    char,
> {
    base + "duco_node_"@ + spec_dec(node_nr as nat) + "/"@ + topic_name
}

/// The command topic a node-scoped descriptor points at.
pub open spec fn spec_cmd_topic(base: Seq<char>, node_nr: u16, cmd_name: Seq<char>) -> Seq<char> {
    base + "duco_node_"@ + spec_dec(node_nr as nat) + "/cmnd/"@ + cmd_name
}

/// The availability topic every descriptor points at.
pub open spec fn spec_avty_topic(base: Seq<char>) -> Seq<char> {
    base + "state"@
}

fn unique_id_for(node_nr: u16, status: &str) -> (r: String)
    ensures
        r@ == spec_unique_id(node_nr, status@),
{
    String::from_str("duco_node_").concat(u64_to_string(node_nr as u64).as_str()).concat(
        "_",
    ).concat(status)
}

fn stat_topic_for(base_topic: &str, node_nr: u16, topic_name: &str) -> (r: String)
    ensures
        r@ == spec_stat_topic(base_topic@, node_nr, topic_name@),
{
    String::from_str(base_topic).concat("duco_node_").concat(
        u64_to_string(node_nr as u64).as_str(),
    ).concat("/").concat(topic_name)
}

fn cmd_topic_for(base_topic: &str, node_nr: u16, cmd_name: &str) -> (r: String)
    ensures
        r@ == spec_cmd_topic(base_topic@, node_nr, cmd_name@),
{
    String::from_str(base_topic).concat("duco_node_").concat(
        u64_to_string(node_nr as u64).as_str(),
    ).concat("/cmnd/").concat(cmd_name)
}

fn avty_topic_for(base_topic: &str) -> (r: String)
    ensures
        r@ == spec_avty_topic(base_topic@),
{
    String::from_str(base_topic).concat("state")
}

/// Builds the descriptor for one read-only status field of a node.
pub fn create_sensor_for_status(node_nr: u16, base_topic: &str, topic_name: &str, status: &str)
    -> (r: Sensor)
    ensures
        r.name@ == topic_name@,
        r.obj_id@ == spec_unique_id(node_nr, status@),
        r.unique_id@ == spec_unique_id(node_nr, status@),
        r.stat_t@ == spec_stat_topic(base_topic@, node_nr, topic_name@),
        r.avty_t@ == spec_avty_topic(base_topic@),
        r.state_class is None,
        r.unit_of_measurement is None,
        r.icon is None,
{
    let unique_id = unique_id_for(node_nr, status);
    Sensor {
        origin: Origin::duco2mqtt(),
        name: String::from_str(topic_name),
        obj_id: unique_id.clone(),
        unique_id,
        stat_t: stat_topic_for(base_topic, node_nr, topic_name),
        avty_t: avty_topic_for(base_topic),
        state_class: None,
        unit_of_measurement: None,
        icon: None,
    }
}

/// Builds the descriptor for one boolean command of a node, presented as a
/// light.
pub fn create_light_for_status(
    node_nr: u16,
    base_topic: &str,
    topic_name: &str,
    cmd_topic_name: &str,
    status: &str,
) -> (r: Light)
    ensures
        r.name@ == topic_name@,
        r.obj_id@ == spec_unique_id(node_nr, status@),
        r.unique_id@ == spec_unique_id(node_nr, status@),
        r.stat_t@ == spec_stat_topic(base_topic@, node_nr, topic_name@),
        r.avty_t@ == spec_avty_topic(base_topic@),
        r.cmd_t@ == spec_cmd_topic(base_topic@, node_nr, cmd_topic_name@),
        r.payload_on@ == "1"@,
        r.payload_off@ == "0"@,
        r.icon is None,
{
    let unique_id = unique_id_for(node_nr, status);
    Light {
        origin: Origin::duco2mqtt(),
        name: String::from_str(topic_name),
        obj_id: unique_id.clone(),
        unique_id,
        stat_t: stat_topic_for(base_topic, node_nr, topic_name),
        avty_t: avty_topic_for(base_topic),
        cmd_t: cmd_topic_for(base_topic, node_nr, cmd_topic_name),
        payload_on: String::from_str("1"),
        payload_off: String::from_str("0"),
        icon: None,
    }
}

/// Builds the descriptor for one enumerated command of a node.
pub fn create_select_for_status(
    node_nr: u16,
    base_topic: &str,
    topic_name: &str,
    cmd_topic_name: &str,
    status: &str,
    valid_states: &Vec<String>,
) -> (r: Select)
    ensures
        r.name@ == topic_name@,
        r.obj_id@ == spec_unique_id(node_nr, status@),
        r.unique_id@ == spec_unique_id(node_nr, status@),
        r.stat_t@ == spec_stat_topic(base_topic@, node_nr, topic_name@),
        r.avty_t@ == spec_avty_topic(base_topic@),
        r.cmd_t@ == spec_cmd_topic(base_topic@, node_nr, cmd_topic_name@),
        r.options.deep_view() =~= valid_states.deep_view(),
        r.icon is None,
{
    let unique_id = unique_id_for(node_nr, status);
    let n = valid_states.len();
    let mut options: Vec<String> = Vec::new();
    proof {
        assert(options.deep_view() =~= Seq::<Seq<char>>::empty());
    }
    for i in 0..n
        invariant
            n == valid_states@.len(),
            options.deep_view() =~= valid_states.deep_view().take(i as int),
    {
        let ghost before = options.deep_view();
        options.push(valid_states[i].clone());
        proof {
            assert(options.deep_view() =~= before.push(valid_states@[i as int]@));
        }
    }
    proof {
        assert(valid_states.deep_view().take(n as int) =~= valid_states.deep_view());
    }
    Select {
        origin: Origin::duco2mqtt(),
        name: String::from_str(topic_name),
        obj_id: unique_id.clone(),
        unique_id,
        stat_t: stat_topic_for(base_topic, node_nr, topic_name),
        avty_t: avty_topic_for(base_topic),
        cmd_t: cmd_topic_for(base_topic, node_nr, cmd_topic_name),
        options,
        icon: None,
    }
}

} // verus!
