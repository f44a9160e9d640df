//! Classification of the accessories a controller can report: node types by
//! their wire names, and ventilation positions by their register codes.
//!
//! Unrecognized wire values map to the `Unknown` fallback rather than an
//! error, so a new accessory type never breaks discovery.

use crate::text::str_eq;
use vstd::prelude::*;
use vstd::string::StringExecFns;

verus! {

/// The recognized node types. Most are classified but not yet behaviorally
/// supported; `Unknown` is the explicit fallback for unrecognized wire names.
#[derive(Clone, Copy, Debug, PartialEq, Eq, Structural)]
pub enum NodeType {
    Unknown,
    RemoteControlRFBAT,
    RemoteControlRFWired,
    HumidityRoomSensor,
    CO2RoomSensor,
    SensorlessControlValve,
    HumidityControlValve,
    CO2ControlValve,
    DucoBox,
    SwitchSensor,
    ControlUnit,
    CO2RHControlValve,
    RemoteControlSunControlRFWired,
    RemoteControlNightventRFWired,
    ExternalMultiZoneValve,
    HumidityBoxSensor,
    CO2BoxSensors,
    DucoWeatherStation,
}

/// The wire name of a node type: three types use short codes, the rest their
/// own names.
pub open spec fn spec_node_type_name(t: NodeType) -> Seq<char> {
    match t {
        NodeType::Unknown => "Unknown"@,
        NodeType::RemoteControlRFBAT => "RemoteControlRFBAT"@,
        NodeType::RemoteControlRFWired => "RemoteControlRFWired"@,
        NodeType::HumidityRoomSensor => "HumidityRoomSensor"@,
        NodeType::CO2RoomSensor => "UCCO2"@,
        NodeType::SensorlessControlValve => "SensorlessControlValve"@,
        NodeType::HumidityControlValve => "HumidityControlValve"@,
        NodeType::CO2ControlValve => "VLV"@,
        NodeType::DucoBox => "BOX"@,
        NodeType::SwitchSensor => "SwitchSensor"@,
        NodeType::ControlUnit => "ControlUnit"@,
        NodeType::CO2RHControlValve => "CO2RHControlValve"@,
        NodeType::RemoteControlSunControlRFWired => "RemoteControlSunControlRFWired"@,
        NodeType::RemoteControlNightventRFWired => "RemoteControlNightventRFWired"@,
        NodeType::ExternalMultiZoneValve => "ExternalMultiZoneValve"@,
        NodeType::HumidityBoxSensor => "HumidityBoxSensor"@,
        NodeType::CO2BoxSensors => "CO2BoxSensors"@,
        NodeType::DucoWeatherStation => "DucoWeatherStation"@,
    }
}

/// The classification of a wire name: the type whose name it is, else
/// `Unknown`.
pub open spec fn spec_node_type_of(s: Seq<char>) -> NodeType {
    if s == "RemoteControlRFBAT"@ {
        NodeType::RemoteControlRFBAT
    } else if s == "RemoteControlRFWired"@ {
        NodeType::RemoteControlRFWired
    } else if s == "HumidityRoomSensor"@ {
        NodeType::HumidityRoomSensor
    } else if s == "UCCO2"@ {
        NodeType::CO2RoomSensor
    } else if s == "SensorlessControlValve"@ {
        NodeType::SensorlessControlValve
    } else if s == "HumidityControlValve"@ {
        NodeType::HumidityControlValve
    } else if s == "VLV"@ {
        NodeType::CO2ControlValve
    } else if s == "BOX"@ {
        NodeType::DucoBox
    } else if s == "SwitchSensor"@ {
        NodeType::SwitchSensor
    } else if s == "ControlUnit"@ {
        NodeType::ControlUnit
    } else if s == "CO2RHControlValve"@ {
        NodeType::CO2RHControlValve
    } else if s == "RemoteControlSunControlRFWired"@ {
        NodeType::RemoteControlSunControlRFWired
    } else if s == "RemoteControlNightventRFWired"@ {
        NodeType::RemoteControlNightventRFWired
    } else if s == "ExternalMultiZoneValve"@ {
        NodeType::ExternalMultiZoneValve
    } else if s == "HumidityBoxSensor"@ {
        NodeType::HumidityBoxSensor
    } else if s == "CO2BoxSensors"@ {
        NodeType::CO2BoxSensors
    } else if s == "DucoWeatherStation"@ {
        NodeType::DucoWeatherStation
    } else {
        NodeType::Unknown
    }
}

impl NodeType {
    /// Classifies a wire name; anything unrecognized becomes `Unknown`.
    pub fn from_str(s: &str) -> (r: NodeType)
        ensures
            r == spec_node_type_of(s@),
    {
        if str_eq(s, "RemoteControlRFBAT") {
            NodeType::RemoteControlRFBAT
        } else if str_eq(s, "RemoteControlRFWired") {
            NodeType::RemoteControlRFWired
        } else if str_eq(s, "HumidityRoomSensor") {
            NodeType::HumidityRoomSensor
        } else if str_eq(s, "UCCO2") {
            NodeType::CO2RoomSensor
        } else if str_eq(s, "SensorlessControlValve") {
            NodeType::SensorlessControlValve
        } else if str_eq(s, "HumidityControlValve") {
            NodeType::HumidityControlValve
        } else if str_eq(s, "VLV") {
            NodeType::CO2ControlValve
        } else if str_eq(s, "BOX") {
            NodeType::DucoBox
        } else if str_eq(s, "SwitchSensor") {
            NodeType::SwitchSensor
        } else if str_eq(s, "ControlUnit") {
            NodeType::ControlUnit
        } else if str_eq(s, "CO2RHControlValve") {
            NodeType::CO2RHControlValve
        } else if str_eq(s, "RemoteControlSunControlRFWired") {
            NodeType::RemoteControlSunControlRFWired
        } else if str_eq(s, "RemoteControlNightventRFWired") {
            NodeType::RemoteControlNightventRFWired
        } else if str_eq(s, "ExternalMultiZoneValve") {
            NodeType::ExternalMultiZoneValve
        } else if str_eq(s, "HumidityBoxSensor") {
            NodeType::HumidityBoxSensor
        } else if str_eq(s, "CO2BoxSensors") {
            NodeType::CO2BoxSensors
        } else if str_eq(s, "DucoWeatherStation") {
            NodeType::DucoWeatherStation
        } else {
            NodeType::Unknown
        }
    }

    /// The wire name of this type.
    pub fn wire_name(&self) -> (r: String)
        ensures
            r@ == spec_node_type_name(*self),
    {
        match self {
            NodeType::Unknown => String::from_str("Unknown"),
            NodeType::RemoteControlRFBAT => String::from_str("RemoteControlRFBAT"),
            NodeType::RemoteControlRFWired => String::from_str("RemoteControlRFWired"),
            NodeType::HumidityRoomSensor => String::from_str("HumidityRoomSensor"),
            NodeType::CO2RoomSensor => String::from_str("UCCO2"),
            NodeType::SensorlessControlValve => String::from_str("SensorlessControlValve"),
            NodeType::HumidityControlValve => String::from_str("HumidityControlValve"),
            NodeType::CO2ControlValve => String::from_str("VLV"),
            NodeType::DucoBox => String::from_str("BOX"),
            NodeType::SwitchSensor => String::from_str("SwitchSensor"),
            NodeType::ControlUnit => String::from_str("ControlUnit"),
            NodeType::CO2RHControlValve => String::from_str("CO2RHControlValve"),
            NodeType::RemoteControlSunControlRFWired => String::from_str(
                "RemoteControlSunControlRFWired",
            ),
            NodeType::RemoteControlNightventRFWired => String::from_str(
                "RemoteControlNightventRFWired",
            ),
            NodeType::ExternalMultiZoneValve => String::from_str("ExternalMultiZoneValve"),
            NodeType::HumidityBoxSensor => String::from_str("HumidityBoxSensor"),
            NodeType::CO2BoxSensors => String::from_str("CO2BoxSensors"),
            NodeType::DucoWeatherStation => String::from_str("DucoWeatherStation"),
        }
    }
}

/// The ventilation positions a register can report, by their register codes.
#[derive(Clone, Copy, Debug, PartialEq, Eq, Structural)]
pub enum VentilationPosition {
    AUTO,
    Manual1,
    Manual2,
    Manual3,
    NotAtHome,
    Permanent1,
    Permanent2,
    Permanent3,
    Unknown,
}

/// The position a register code denotes; anything unrecognized becomes
/// `Unknown`.
pub open spec fn spec_ventilation_position_of(code: u16) -> VentilationPosition {
    if code == 0 {
        VentilationPosition::AUTO
    } else if code == 4 {
        VentilationPosition::Manual1
    } else if code == 5 {
        VentilationPosition::Manual2
    } else if code == 6 {
        VentilationPosition::Manual3
    } else if code == 7 {
        VentilationPosition::NotAtHome
    } else if code == 8 {
        VentilationPosition::Permanent1
    } else if code == 9 {
        VentilationPosition::Permanent2
    } else if code == 10 {
        VentilationPosition::Permanent3
    } else {
        VentilationPosition::Unknown
    }
}

impl VentilationPosition {
    /// Decodes a register code; anything unrecognized becomes `Unknown`.
    pub fn from_code(code: u16) -> (r: VentilationPosition)
        ensures
            r == spec_ventilation_position_of(code),
    {
        if code == 0 {
            VentilationPosition::AUTO
        } else if code == 4 {
            VentilationPosition::Manual1
        } else if code == 5 {
            VentilationPosition::Manual2
        } else if code == 6 {
            VentilationPosition::Manual3
        } else if code == 7 {
            VentilationPosition::NotAtHome
        } else if code == 8 {
            VentilationPosition::Permanent1
        } else if code == 9 {
            VentilationPosition::Permanent2
        } else if code == 10 {
            VentilationPosition::Permanent3
        } else {
            VentilationPosition::Unknown
        }
    }
}

} // verus!
