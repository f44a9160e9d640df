//! Bridge core for a Duco ventilation controller observed and driven over a
//! publish/subscribe message bus.
//!
//! The crate holds the device model: change-tracked status fields, node
//! discovery and merging, command validation, and the translation between
//! field values and outbound topic/payload pairs.

use vstd::prelude::*;

pub mod bridge;
pub mod ducoapi;
pub mod ducoboxdevice;
pub mod ducoboxnode;
pub mod duconodetypes;
pub mod hassdiscovery;
pub mod infovalue;
pub mod json;
pub mod mqtt;
pub mod statusmap;
pub mod text;

verus! {

/// The failure taxonomy of the bridge core.
///
/// Transport failures never originate here: polling and publishing live
/// outside the library, which only decides and computes.
#[derive(Clone, Copy, Debug, PartialEq, Eq, Structural)]
pub enum Error {
    /// Node and action lists disagree in count or pairwise node numbers.
    ProtocolMismatch,
    /// A command was addressed to a node number that is not registered.
    UnknownNode,
    /// A command name that the addressed node never declared.
    UnknownCommand,
    /// A command payload outside the declared value set.
    InvalidCommandValue,
    /// An inbound topic that does not match the command pattern.
    InvalidTopic,
    /// A malformed upstream payload.
    ParseError,
    /// A node-number mismatch between co-fetched report streams.
    Fatal,
}

} // verus!
