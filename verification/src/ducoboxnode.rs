//! One physical accessory on the ventilation bus: its number, type,
//! change-tracked field map and declared command set.

use crate::ducoapi::{
    group_view, ActionDescriptionView, NodeActionDescription, NodeActions, NodeBoolAction,
    NodeEnumAction, NodeInfo, NodeInfoView, StatusGroup, StatusValue, ValueView,
};
use crate::duconodetypes::{spec_node_type_of, NodeType};
use crate::mqtt::MqttData;
use crate::statusmap::{
    msgs_view, spec_drain_msgs, spec_map_clear, spec_map_merge, spec_map_reset, spec_unique_keys,
    EntryView, StatusMap,
};
use crate::text::{spec_dec, u64_to_string};
use crate::Error;
use vstd::prelude::*;
use vstd::string::StringExecFns;

verus! {

/// The report group holding a node's identity fields.
pub const GENERAL: &'static str = "General";

/// The report group holding a node's ventilation state.
pub const VENTILATION: &'static str = "Ventilation";

/// The optional report group holding a node's sensor readings.
pub const SENSOR: &'static str = "Sensor";

/// The device-level report section for heat-recovery fields.
pub const HEAT_RECOVERY: &'static str = "HeatRecovery";

/// One command a node declares: a bare boolean switch, or an enumerated
/// value with its ordered set of legal texts.
#[derive(Debug)]
pub enum DucoNodeAction {
    SetBoolean(String),
    SetEnum(String, Vec<String>),
}

/// Spec-level model of a [`DucoNodeAction`].
#[verifier::ext_equal]
pub enum ActionView {
    SetBoolean(Seq<char>),
    SetEnum(Seq<char>, Seq<Seq<char>>),
}

impl View for DucoNodeAction {
    type V = ActionView;

    open spec fn view(&self) -> ActionView {
        match self {
            DucoNodeAction::SetBoolean(name) => ActionView::SetBoolean(name@),
            DucoNodeAction::SetEnum(name, values) => ActionView::SetEnum(
                name@,
                values.deep_view(),
            ),
        }
    }
}

impl DeepView for DucoNodeAction {
    type V = ActionView;

    open spec fn deep_view(&self) -> ActionView {
        self.view()
    }
}

/// How one action description maps to a command: `Enum` needs its value
/// list, `Boolean` stands alone, and any other type is unsupported.
pub open spec fn spec_action_of(d: ActionDescriptionView) -> Option<ActionView> {
    if d.val_type == "Enum"@ {
        match d.values {
            Some(v) => Some(ActionView::SetEnum(d.action, v)),
            None => None,
        }
    } else if d.val_type == "Boolean"@ {
        Some(ActionView::SetBoolean(d.action))
    } else {
        None
    }
}

/// The mapping of a whole description list: all or nothing.
pub open spec fn spec_actions_of(ds: Seq<ActionDescriptionView>) -> Option<Seq<ActionView>>
    decreases ds.len(),
{
    if ds.len() == 0 {
        Some(Seq::empty())
    } else {
        match (spec_action_of(ds[0]), spec_actions_of(ds.skip(1))) {
            (Some(a), Some(rest)) => Some(seq![a] + rest),
            _ => None,
        }
    }
}

/// The name an action was declared under.
pub open spec fn spec_action_name(a: ActionView) -> Seq<char> {
    match a {
        ActionView::SetBoolean(name) => name,
        ActionView::SetEnum(name, _) => name,
    }
}

/// The first declared action with the given name, of either kind.
pub open spec fn spec_find_action(actions: Seq<ActionView>, name: Seq<char>) -> Option<ActionView>
    decreases actions.len(),
{
    if actions.len() == 0 {
        None
    } else if spec_action_name(actions[0]) == name {
        Some(actions[0])
    } else {
        spec_find_action(actions.skip(1), name)
    }
}

/// The value set of the first enumerated action with the given name;
/// boolean declarations are passed over.
pub open spec fn spec_find_enum_values(actions: Seq<ActionView>, name: Seq<char>) -> Option<
    Seq<Seq<char>>,
>
    decreases actions.len(),
{
    if actions.len() == 0 {
        None
    } else {
        match actions[0] {
            ActionView::SetEnum(n, values) => if n == name {
                Some(values)
            } else {
                spec_find_enum_values(actions.skip(1), name)
            },
            ActionView::SetBoolean(_) => spec_find_enum_values(actions.skip(1), name),
        }
    }
}

/// A group's keys prefixed with its name and a slash.
pub open spec fn spec_prefixed(
    prefix: Seq<char>,
    g: Seq<(Seq<char>, ValueView)>,
) -> Seq<(Seq<char>, ValueView)> {
    Seq::new(g.len(), |i: int| (prefix + "/"@ + g[i].0, g[i].1))
}

/// One report merged into a node's field map: the `General` and
/// `Ventilation` groups always, the `Sensor` group when present.
pub open spec fn spec_node_merge(status: Seq<EntryView>, info: NodeInfoView) -> Seq<EntryView> {
    let s1 = spec_map_merge(status, spec_prefixed("General"@, info.general));
    let s2 = spec_map_merge(s1, spec_prefixed("Ventilation"@, info.ventilation));
    match info.sensor {
        Some(g) => spec_map_merge(s2, spec_prefixed("Sensor"@, g)),
        None => s2,
    }
}

/// The first value stored under `key` in a report group.
pub open spec fn spec_group_get(g: Seq<(Seq<char>, ValueView)>, key: Seq<char>) -> Option<
    ValueView,
>
    decreases g.len(),
{
    if g.len() == 0 {
        None
    } else if g[0].0 == key {
        Some(g[0].1)
    } else {
        spec_group_get(g.skip(1), key)
    }
}

/// The outbound topic for one of a node's fields.
pub open spec fn spec_node_topic(number: u16, key: Seq<char>) -> Seq<char> {
    "duco_node_"@ + spec_dec(number as nat) + "/"@ + key
}

/// A command validated against a node's declared set, ready for dispatch.
#[derive(Debug, Clone)]
pub enum NodeActionRequest {
    Boolean(NodeBoolAction),
    Enumerated(NodeEnumAction),
}

/// Spec-level model of a [`NodeActionRequest`].
#[verifier::ext_equal]
pub enum ActionRequestView {
    Boolean(Seq<char>, bool),
    Enumerated(Seq<char>, Seq<char>),
}

impl View for NodeActionRequest {
    type V = ActionRequestView;

    open spec fn view(&self) -> ActionRequestView {
        match self {
            NodeActionRequest::Boolean(a) => ActionRequestView::Boolean(a.action@, a.val),
            NodeActionRequest::Enumerated(a) => ActionRequestView::Enumerated(a.action@, a.val@),
        }
    }
}

/// One accessory: number and type are fixed at discovery; the field map and
/// command list are merged from later reports.
#[derive(Debug)]
pub struct DucoBoxNode {
    number: u16,
    node_type: NodeType,
    status: StatusMap,
    actions: Vec<DucoNodeAction>,
}

/// Spec-level model of a [`DucoBoxNode`].
#[verifier::ext_equal]
pub struct NodeView {
    pub number: u16,
    pub node_type: NodeType,
    pub status: Seq<EntryView>,
    pub actions: Seq<ActionView>,
}

impl View for DucoBoxNode {
    type V = NodeView;

    closed spec fn view(&self) -> NodeView {
        NodeView {
            number: self.number,
            node_type: self.node_type,
            status: self.status@,
            actions: self.actions.deep_view(),
        }
    }
}

impl DeepView for DucoBoxNode {
    type V = NodeView;

    open spec fn deep_view(&self) -> NodeView {
        self.view()
    }
}

/// Every field name occurs once in a node's status map.
pub open spec fn spec_node_wf(nv: NodeView) -> bool {
    spec_unique_keys(nv.status)
}

impl DucoBoxNode {
    /// Every field name occurs once in the status map.
    pub open spec fn wf(&self) -> bool {
        spec_node_wf(self@)
    }

    /// A node of the given type and number, with no fields or commands yet.
    pub fn create_for_node_type(node_type: NodeType, number: u16) -> (r: DucoBoxNode)
        ensures
            r@.number == number,
            r@.node_type == node_type,
            r@.status =~= Seq::<EntryView>::empty(),
            r@.actions =~= Seq::<ActionView>::empty(),
            r.wf(),
    {
        let r = DucoBoxNode {
            number,
            node_type,
            status: StatusMap::new(),
            actions: Vec::new(),
        };
        proof {
            assert(r@.actions =~= Seq::<ActionView>::empty());
        }
        r
    }

    /// The classification this node was created with.
    pub fn node_type(&self) -> (r: NodeType)
        ensures
            r == self@.node_type,
    {
        self.node_type
    }

    /// The controller-assigned node number.
    pub fn number(&self) -> (r: u16)
        ensures
            r == self@.number,
    {
        self.number
    }

    /// Forces every field to the unknown sentinel, dirtying exactly the
    /// fields that held something else.
    pub fn reset(&mut self)
        requires
            old(self).wf(),
        ensures
            final(self)@.status =~= spec_map_reset(old(self)@.status),
            final(self)@.number == old(self)@.number,
            final(self)@.node_type == old(self)@.node_type,
            final(self)@.actions == old(self)@.actions,
            final(self).wf(),
    {
        self.status.reset();
    }

    fn merge_status_values(&mut self, sub_topic: &str, values: StatusGroup)
        requires
            old(self).wf(),
        ensures
            final(self)@.status =~= spec_map_merge(
                old(self)@.status,
                spec_prefixed(sub_topic@, group_view(values@)),
            ),
            final(self)@.number == old(self)@.number,
            final(self)@.node_type == old(self)@.node_type,
            final(self)@.actions == old(self)@.actions,
            final(self).wf(),
    {
        let mut prefixed: StatusGroup = Vec::new();
        let n = values.len();
        for i in 0..n
            invariant
                n == values@.len(),
                prefixed@.len() == i,
                forall|j: int|
                    0 <= j < i ==> prefixed@[j].0@ == sub_topic@ + "/"@ + values@[j].0@
                        && prefixed@[j].1@ == values@[j].1@,
        {
            let key = String::from_str(sub_topic).concat("/").concat(values[i].0.as_str());
            let val = crate::ducoapi::StatusField { val: values[i].1.val.duplicate() };
            prefixed.push((key, val));
        }
        proof {
            assert(group_view(prefixed@) =~= spec_prefixed(sub_topic@, group_view(values@)));
        }
        self.status.merge_values(prefixed);
    }

    /// Merges one status report. A report carrying a different node number
    /// signals an upstream protocol violation: the node is left untouched
    /// and the poll must be treated as failed.
    pub fn update_status(&mut self, node: NodeInfo) -> (r: Result<(), Error>)
        requires
            old(self).wf(),
        ensures
            r is Ok <==> node@.node == old(self)@.number,
            r is Err ==> r == Err::<(), Error>(Error::Fatal) && final(self)@ == old(self)@,
            r is Ok ==> final(self)@.status =~= spec_node_merge(old(self)@.status, node@),
            final(self)@.number == old(self)@.number,
            final(self)@.node_type == old(self)@.node_type,
            final(self)@.actions == old(self)@.actions,
            final(self).wf(),
    {
        if node.node != self.number {
            return Err(Error::Fatal);
        }
        self.merge_status_values(GENERAL, node.general);
        self.merge_status_values(VENTILATION, node.ventilation);
        if let Some(sensor) = node.sensor {
            self.merge_status_values(SENSOR, sensor);
        }
        Ok(())
    }

    /// Replaces the command list from a fresh action report; a single
    /// unsupported description rejects the whole list, leaving the old one.
    pub fn set_actions(&mut self, actions: NodeActions) -> (r: Result<(), Error>)
        ensures
            r is Ok <==> spec_actions_of(actions@.actions) is Some,
            r is Ok ==> Some(final(self)@.actions) == spec_actions_of(actions@.actions),
            r is Err ==> r == Err::<(), Error>(Error::ParseError) && final(self)@ == old(self)@,
            final(self)@.number == old(self)@.number,
            final(self)@.node_type == old(self)@.node_type,
            final(self)@.status == old(self)@.status,
            old(self).wf() ==> final(self).wf(),
    {
        let mut mapped: Vec<DucoNodeAction> = Vec::new();
        let n = actions.actions.len();
        let ghost ds = actions@.actions;
        proof {
            assert(ds.skip(0) =~= ds);
        }
        for i in 0..n
            invariant
                n == actions@.actions.len(),
                ds == actions@.actions,
                i <= n,
                spec_actions_of(ds) is Some <==> spec_actions_of(ds.skip(i as int)) is Some,
                spec_actions_of(ds) matches Some(all) ==> spec_actions_of(ds.skip(i as int))
                    matches Some(rest) && all =~= mapped.deep_view() + rest,
        {
            proof {
                assert(ds.skip(i as int)[0] == ds[i as int]);
                assert(ds.skip(i as int).skip(1) =~= ds.skip(i as int + 1));
            }
            let ghost before = mapped.deep_view();
            match DucoNodeAction::try_from(&actions.actions[i]) {
                Ok(a) => {
                    mapped.push(a);
                    proof {
                        assert(mapped.deep_view() =~= before.push(a@));
                    }
                },
                Err(e) => {
                    return Err(e);
                },
            }
        }
        proof {
            assert(ds.skip(n as int) =~= Seq::<ActionDescriptionView>::empty());
            match spec_actions_of(ds) {
                Some(all) => {
                    assert(all =~= mapped.deep_view());
                },
                None => {},
            }
        }
        self.actions = mapped;
        Ok(())
    }

    /// The legal values of the first enumerated command declared under
    /// `action_name`; a node that never declared it yields `UnknownCommand`.
    pub fn valid_action_values(&self, action_name: &str) -> (r: Result<&Vec<String>, Error>)
        ensures
            match r {
                Ok(values) => Some(values.deep_view()) == spec_find_enum_values(
                    self@.actions,
                    action_name@,
                ),
                Err(e) => e == Error::UnknownCommand && spec_find_enum_values(
                    self@.actions,
                    action_name@,
                ) is None,
            },
    {
        let n = self.actions.len();
        let ghost acts = self@.actions;
        proof {
            assert(acts.skip(0) =~= acts);
        }
        for i in 0..n
            invariant
                n == self.actions.len(),
                acts == self@.actions,
                spec_find_enum_values(acts, action_name@) == spec_find_enum_values(
                    acts.skip(i as int),
                    action_name@,
                ),
        {
            proof {
                assert(acts.skip(i as int)[0] == acts[i as int]);
                assert(acts.skip(i as int).skip(1) =~= acts.skip(i as int + 1));
            }
            if let DucoNodeAction::SetEnum(name, enum_values) = &self.actions[i] {
                if crate::text::str_eq(name.as_str(), action_name) {
                    return Ok(enum_values);
                }
            }
        }
        proof {
            assert(acts.skip(n as int) =~= Seq::<ActionView>::empty());
        }
        Err(Error::UnknownCommand)
    }

    fn find_action(&self, action_name: &str) -> (r: Option<usize>)
        ensures
            match r {
                Some(i) => i < self@.actions.len() && spec_find_action(
                    self@.actions,
                    action_name@,
                ) == Some(self@.actions[i as int]),
                None => spec_find_action(self@.actions, action_name@) is None,
            },
    {
        let n = self.actions.len();
        let ghost acts = self@.actions;
        proof {
            assert(acts.skip(0) =~= acts);
        }
        for i in 0..n
            invariant
                n == self.actions.len(),
                acts == self@.actions,
                spec_find_action(acts, action_name@) == spec_find_action(
                    acts.skip(i as int),
                    action_name@,
                ),
        {
            proof {
                assert(acts.skip(i as int)[0] == acts[i as int]);
                assert(acts.skip(i as int).skip(1) =~= acts.skip(i as int + 1));
            }
            let name = match &self.actions[i] {
                DucoNodeAction::SetBoolean(name) => name,
                DucoNodeAction::SetEnum(name, _) => name,
            };
            if crate::text::str_eq(name.as_str(), action_name) {
                return Some(i);
            }
        }
        proof {
            assert(acts.skip(n as int) =~= Seq::<ActionView>::empty());
        }
        None
    }

    /// Validates an inbound command against the declared set and, when it
    /// passes, hands back the write to perform. A name the node never
    /// declared is `UnknownCommand`; a boolean payload other than `"1"` or
    /// `"0"`, or an enumerated value outside the declared set, is
    /// `InvalidCommandValue`. Validation failures never reach the device.
    pub fn process_command(&self, action_name: String, data: String) -> (r: Result<
        NodeActionRequest,
        Error,
    >)
        ensures
            match spec_find_action(self@.actions, action_name@) {
                None => r == Err::<NodeActionRequest, Error>(Error::UnknownCommand),
                Some(found) => match found {
                    ActionView::SetBoolean(_) => if data@ == "1"@ {
                        r matches Ok(a) && a@ == ActionRequestView::Boolean(action_name@, true)
                    } else if data@ == "0"@ {
                        r matches Ok(a) && a@ == ActionRequestView::Boolean(action_name@, false)
                    } else {
                        r == Err::<NodeActionRequest, Error>(Error::InvalidCommandValue)
                    },
                    ActionView::SetEnum(_, values) => if values.contains(data@) {
                        r matches Ok(a) && a@ == ActionRequestView::Enumerated(
                            action_name@,
                            data@,
                        )
                    } else {
                        r == Err::<NodeActionRequest, Error>(Error::InvalidCommandValue)
                    },
                },
            },
    {
        let found = match self.find_action(action_name.as_str()) {
            Some(i) => i,
            None => {
                return Err(Error::UnknownCommand);
            },
        };
        proof {
            assert(self@.actions[found as int] == self.actions@[found as int].deep_view());
        }
        match &self.actions[found] {
            DucoNodeAction::SetBoolean(name) => {
                proof {
                    assert(self@.actions[found as int] == ActionView::SetBoolean(name@));
                }
                let truthy = crate::text::str_eq(data.as_str(), "1");
                if !truthy && !crate::text::str_eq(data.as_str(), "0") {
                    return Err(Error::InvalidCommandValue);
                }
                Ok(NodeActionRequest::Boolean(NodeBoolAction { action: action_name, val: truthy }))
            },
            DucoNodeAction::SetEnum(name, enum_values) => {
                proof {
                    assert(self@.actions[found as int] == ActionView::SetEnum(
                        name@,
                        enum_values.deep_view(),
                    ));
                }
                let m = enum_values.len();
                let ghost vals = enum_values.deep_view();
                for k in 0..m
                    invariant
                        m == enum_values.len(),
                        vals == enum_values.deep_view(),
                        spec_find_action(self@.actions, action_name@) == Some(
                            ActionView::SetEnum(name@, vals),
                        ),
                        forall|j: int| 0 <= j < k ==> vals[j] != data@,
                {
                    if crate::text::str_eq(enum_values[k].as_str(), data.as_str()) {
                        proof {
                            assert(vals[k as int] == data@);
                            assert(vals.contains(data@));
                        }
                        return Ok(NodeActionRequest::Enumerated(NodeEnumAction {
                            action: action_name,
                            val: data,
                        }));
                    }
                }
                proof {
                    assert(!vals.contains(data@));
                }
                Err(Error::InvalidCommandValue)
            },
        }
    }

    /// Collects every dirty field as a message under this node's topic
    /// prefix, clearing the flags.
    pub fn topics_that_need_updating(&mut self) -> (r: Vec<MqttData>)
        requires
            old(self).wf(),
        ensures
            r.deep_view() =~= Seq::new(
                spec_drain_msgs(old(self)@.status).len(),
                |i: int|
                    (
                        spec_node_topic(old(self)@.number, spec_drain_msgs(old(self)@.status)[i].0),
                        spec_drain_msgs(old(self)@.status)[i].1,
                    ),
            ),
            final(self)@.status =~= spec_map_clear(old(self)@.status),
            final(self)@.number == old(self)@.number,
            final(self)@.node_type == old(self)@.node_type,
            final(self)@.actions == old(self)@.actions,
            final(self).wf(),
    {
        let pairs = self.status.drain();
        let mut r: Vec<MqttData> = Vec::new();
        let n = pairs.len();
        let number = self.number;
        let ghost target = msgs_view(pairs@);
        for i in 0..n
            invariant
                n == pairs@.len(),
                number == self@.number,
                target == msgs_view(pairs@),
                r.deep_view() =~= Seq::new(
                    i as nat,
                    |j: int| (spec_node_topic(number, target[j].0), target[j].1),
                ),
        {
            let topic = DucoBoxNode::status_topic(number, pairs[i].0.as_str());
            let payload = pairs[i].1.clone();
            let ghost before = r.deep_view();
            r.push(MqttData { topic, payload });
            proof {
                assert(r.deep_view() =~= before.push((topic@, payload@)));
            }
        }
        r
    }

    /// The outbound topic for one field of the numbered node.
    pub fn status_topic(node_number: u16, topic: &str) -> (r: String)
        ensures
            r@ == spec_node_topic(node_number, topic@),
    {
        String::from_str("duco_node_").concat(
            u64_to_string(node_number as u64).as_str(),
        ).concat("/").concat(topic)
    }

    /// Builds a node from its first status report: the `General/Type` field
    /// names the node's classification (unrecognized names become
    /// `Unknown`), and the report itself is merged as the first update. A
    /// report without a textual `Type` field is malformed.
    pub fn try_from(node_info: NodeInfo) -> (r: Result<DucoBoxNode, Error>)
        ensures
            match r {
                Ok(node) => (spec_group_get(node_info@.general, "Type"@) matches Some(tv)
                    && tv matches ValueView::Str(tname) && {
                    &&& node@.number == node_info@.node
                    &&& node@.node_type == spec_node_type_of(tname)
                    &&& node@.status =~= spec_node_merge(
                        Seq::<EntryView>::empty(),
                        node_info@,
                    )
                    &&& node@.actions =~= Seq::<ActionView>::empty()
                    &&& node.wf()
                }),
                Err(e) => e == Error::ParseError && !(spec_group_get(
                    node_info@.general,
                    "Type"@,
                ) matches Some(tv) && tv is Str),
            },
    {
        let type_val = match DucoBoxNode::group_get(&node_info.general, "Type") {
            Some(v) => v,
            None => {
                return Err(Error::ParseError);
            },
        };
        let type_str = match type_val {
            StatusValue::String(s) => s,
            StatusValue::Number(_) => {
                return Err(Error::ParseError);
            },
        };
        let node_type = NodeType::from_str(type_str.as_str());
        let mut node = DucoBoxNode::create_for_node_type(node_type, node_info.node);
        let merged = node.update_status(node_info);
        proof {
            assert(merged is Ok);
        }
        Ok(node)
    }

    fn group_get(g: &StatusGroup, key: &str) -> (r: Option<StatusValue>)
        ensures
            match r {
                Some(v) => Some(v@) == spec_group_get(group_view(g@), key@),
                None => spec_group_get(group_view(g@), key@) is None,
            },
    {
        let n = g.len();
        let ghost gv = group_view(g@);
        proof {
            assert(gv.skip(0) =~= gv);
        }
        for i in 0..n
            invariant
                n == g@.len(),
                gv == group_view(g@),
                spec_group_get(gv, key@) == spec_group_get(gv.skip(i as int), key@),
        {
            proof {
                assert(gv.skip(i as int)[0] == gv[i as int]);
                assert(gv.skip(i as int).skip(1) =~= gv.skip(i as int + 1));
            }
            if crate::text::str_eq(g[i].0.as_str(), key) {
                return Some(g[i].1.val.duplicate());
            }
        }
        proof {
            assert(gv.skip(n as int) =~= Seq::<(Seq<char>, ValueView)>::empty());
        }
        None
    }
}

impl DucoNodeAction {
    /// Maps one declared description to a command: `"Enum"` needs its value
    /// list, `"Boolean"` stands alone, and any other value type is a parse
    /// error for the whole command set.
    pub fn try_from(action: &NodeActionDescription) -> (r: Result<DucoNodeAction, Error>)
        ensures
            match r {
                Ok(a) => Some(a@) == spec_action_of(action@),
                Err(e) => e == Error::ParseError && spec_action_of(action@) is None,
            },
    {
        if crate::text::str_eq(action.val_type.as_str(), "Enum") {
            match &action.values {
                Some(values) => {
                    let mut copied: Vec<String> = Vec::new();
                    let m = values.len();
                    for k in 0..m
                        invariant
                            m == values@.len(),
                            copied.deep_view() =~= values.deep_view().take(k as int),
                    {
                        let ghost before = copied.deep_view();
                        copied.push(values[k].clone());
                        proof {
                            assert(copied.deep_view() =~= before.push(values@[k as int]@));
                        }
                    }
                    proof {
                        assert(values.deep_view().take(m as int) =~= values.deep_view());
                    }
                    Ok(DucoNodeAction::SetEnum(action.action.clone(), copied))
                },
                None => Err(Error::ParseError),
            }
        } else if crate::text::str_eq(action.val_type.as_str(), "Boolean") {
            Ok(DucoNodeAction::SetBoolean(action.action.clone()))
        } else {
            Err(Error::ParseError)
        }
    }
}

} // verus!
