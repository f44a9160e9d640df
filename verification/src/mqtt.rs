//! Plain message-bus values: connection settings and topic/payload pairs.
//! The connection itself lives outside the library; the core only produces
//! and consumes these values.

use vstd::prelude::*;
use vstd::string::StringExecFns;

verus! {

/// The availability payload published while the device answers polls.
pub const ONLINE_PAYLOAD: &'static str = "online";

/// The availability payload published when polling fails, also used as the
/// last will.
pub const OFFLINE_PAYLOAD: &'static str = "offline";

/// Connection settings for the message bus.
#[derive(Debug, Clone)]
pub struct MqttConfig {
    pub server: String,
    pub port: u16,
    pub client_id: String,
    pub user: String,
    pub password: String,
    pub base_topic: String,
}

/// One outbound or inbound message: a topic and its payload.
#[derive(Debug, PartialEq, Eq, PartialOrd, Ord)]
pub struct MqttData {
    pub topic: String,
    pub payload: String,
}

impl View for MqttData {
    type V = (Seq<char>, Seq<char>);

    open spec fn view(&self) -> (Seq<char>, Seq<char>) {
        (self.topic@, self.payload@)
    }
}

impl DeepView for MqttData {
    type V = (Seq<char>, Seq<char>);

    open spec fn deep_view(&self) -> (Seq<char>, Seq<char>) {
        self.view()
    }
}

impl MqttData {
    /// Builds a message from borrowed parts.
    pub fn new(topic: &str, payload: &str) -> (r: MqttData)
        ensures
            r@ == (topic@, payload@),
    {
        MqttData { topic: String::from_str(topic), payload: String::from_str(payload) }
    }
}

/// The availability topic under a base topic.
pub fn state_topic(base_topic: &str) -> (r: String)
    ensures
        r@ == base_topic@ + "/state"@,
{
    String::from_str(base_topic).concat("/state")
}

} // verus!
