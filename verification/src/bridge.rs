//! The bridge core: node discovery and merging, inbound-command routing, and
//! the poll-cycle state transitions. All I/O stays outside; these functions
//! map fetched reports and inbound messages to state changes and outbound
//! messages.

use crate::ducoapi::{
    DeviceInfo, NodeActions, NodeActionsView, NodeInfo, NodeInfoView, ValueView,
};
use crate::ducoboxdevice::DucoBoxDevice;
use crate::ducoboxnode::{
    spec_actions_of, spec_group_get, spec_node_merge, spec_node_topic, spec_node_wf, ActionView,
    DucoBoxNode, NodeActionRequest, NodeView,
};
use crate::duconodetypes::spec_node_type_of;
use crate::mqtt::MqttData;
use crate::statusmap::{spec_drain_msgs, spec_map_clear, spec_map_merge, spec_map_reset, EntryView};
use crate::text::{parse_u16, spec_parse_u16, spec_split, split_char, str_eq};
use crate::Error;
use vstd::prelude::*;
use vstd::string::StringExecFns;

verus! {

/// The node number encoded in a `duco_node_<digits>` selector, if the
/// selector matches that pattern exactly.
pub open spec fn spec_node_number_of_name(t: Seq<char>) -> Option<u16> {
    let parts = spec_split(t, '_');
    if parts.len() == 3 && parts[0] == "duco"@ && parts[1] == "node"@ {
        spec_parse_u16(parts[2])
    } else {
        None
    }
}

/// The node number and command name of an inbound topic path of the form
/// `duco_node_<digits>/cmnd/<command>`.
pub open spec fn spec_route_topic(t: Seq<char>) -> Option<(u16, Seq<char>)> {
    let parts = spec_split(t, '/');
    if parts.len() == 3 && parts[1] == "cmnd"@ {
        match spec_node_number_of_name(parts[0]) {
            Some(n) => Some((n, parts[2])),
            None => None,
        }
    } else {
        None
    }
}

/// Extracts the node number from a `duco_node_<digits>` selector; anything
/// else is an invalid topic.
pub fn node_number_for_node_name(topic: &str) -> (r: Result<u16, Error>)
    ensures
        match r {
            Ok(n) => spec_node_number_of_name(topic@) == Some(n),
            Err(e) => e == Error::InvalidTopic && spec_node_number_of_name(topic@) is None,
        },
{
    let parts = split_char(topic, '_');
    let ghost sparts = spec_split(topic@, '_');
    if parts.len() != 3 {
        return Err(Error::InvalidTopic);
    }
    proof {
        assert(parts.deep_view()[0] == sparts[0]);
        assert(parts.deep_view()[1] == sparts[1]);
        assert(parts.deep_view()[2] == sparts[2]);
    }
    if !str_eq(parts[0].as_str(), "duco") || !str_eq(parts[1].as_str(), "node") {
        return Err(Error::InvalidTopic);
    }
    match parse_u16(parts[2].as_str()) {
        Some(n) => Ok(n),
        None => Err(Error::InvalidTopic),
    }
}

/// Splits an inbound topic path into node number and command name; a path
/// that is not exactly `duco_node_<digits>/cmnd/<command>` is invalid.
pub fn node_and_action_from_topic(topic: &str) -> (r: Result<(u16, String), Error>)
    ensures
        match r {
            Ok(p) => spec_route_topic(topic@) == Some((p.0, p.1@)),
            Err(e) => e == Error::InvalidTopic && spec_route_topic(topic@) is None,
        },
{
    let mut parts = split_char(topic, '/');
    let ghost sparts = spec_split(topic@, '/');
    if parts.len() != 3 {
        return Err(Error::InvalidTopic);
    }
    proof {
        assert(parts.deep_view()[0] == sparts[0]);
        assert(parts.deep_view()[1] == sparts[1]);
        assert(parts.deep_view()[2] == sparts[2]);
    }
    if !str_eq(parts[1].as_str(), "cmnd") {
        return Err(Error::InvalidTopic);
    }
    let node = match node_number_for_node_name(parts[0].as_str()) {
        Ok(n) => n,
        Err(e) => {
            return Err(e);
        },
    };
    let action = match parts.pop() {
        Some(a) => a,
        None => {
            return Err(Error::InvalidTopic);
        },
    };
    Ok((node, action))
}

/// The first index holding a node with the given number.
pub open spec fn spec_find_node(nodes: Seq<NodeView>, number: u16) -> Option<int>
    decreases nodes.len(),
{
    if nodes.len() == 0 {
        None
    } else if nodes[0].number == number {
        Some(0)
    } else {
        match spec_find_node(nodes.skip(1), number) {
            Some(i) => Some(i + 1),
            None => None,
        }
    }
}

/// Finds the first registered node with the given number.
pub fn find_node_index(nodes: &Vec<DucoBoxNode>, number: u16) -> (r: Option<usize>)
    ensures
        match r {
            Some(i) => i < nodes@.len() && nodes.deep_view()[i as int].number == number
                && spec_find_node(nodes.deep_view(), number) == Some(i as int),
            None => spec_find_node(nodes.deep_view(), number) is None,
        },
{
    let n = nodes.len();
    let ghost views = nodes.deep_view();
    for i in 0..n
        invariant
            n == nodes@.len(),
            views == nodes.deep_view(),
            forall|j: int| 0 <= j < i ==> views[j].number != number,
    {
        if nodes[i].number() == number {
            proof {
                lemma_find_node_first(views, number, i as int);
            }
            return Some(i);
        }
    }
    proof {
        lemma_find_node_none(views, number);
    }
    None
}

proof fn lemma_find_node_first(nodes: Seq<NodeView>, number: u16, i: int)
    requires
        0 <= i < nodes.len(),
        nodes[i].number == number,
        forall|j: int| 0 <= j < i ==> nodes[j].number != number,
    ensures
        spec_find_node(nodes, number) == Some(i),
    decreases i,
{
    if i > 0 {
        lemma_find_node_first(nodes.skip(1), number, i - 1);
    }
}

proof fn lemma_find_node_none(nodes: Seq<NodeView>, number: u16)
    requires
        forall|j: int| 0 <= j < nodes.len() ==> nodes[j].number != number,
    ensures
        spec_find_node(nodes, number) is None,
    decreases nodes.len(),
{
    if nodes.len() > 0 {
        lemma_find_node_none(nodes.skip(1), number);
    }
}

/// How a node is built from its first report (the exec counterpart is
/// [`DucoBoxNode::try_from`]): the textual `General/Type` field names the
/// classification, the report becomes the first merge, and the command list
/// starts empty.
pub open spec fn spec_node_from_info(info: NodeInfoView) -> Result<NodeView, Error> {
    match spec_group_get(info.general, "Type"@) {
        Some(tv) => match tv {
            ValueView::Str(tname) => Ok(
                NodeView {
                    number: info.node,
                    node_type: spec_node_type_of(tname),
                    status: spec_node_merge(Seq::<EntryView>::empty(), info),
                    actions: Seq::empty(),
                },
            ),
            ValueView::Num(_) => Err(Error::ParseError),
        },
        None => Err(Error::ParseError),
    }
}

/// Inserts a report into a number-sorted sequence, after any earlier reports
/// with the same number.
pub open spec fn spec_insert_info(x: NodeInfoView, s: Seq<NodeInfoView>) -> Seq<NodeInfoView>
    decreases s.len(),
{
    if s.len() == 0 {
        seq![x]
    } else if s[0].node < x.node {
        seq![s[0]] + spec_insert_info(x, s.skip(1))
    } else {
        seq![x] + s
    }
}

/// A stable sort of node reports by node number.
pub open spec fn spec_sort_infos(s: Seq<NodeInfoView>) -> Seq<NodeInfoView>
    decreases s.len(),
{
    if s.len() == 0 {
        Seq::empty()
    } else {
        spec_insert_info(s[0], spec_sort_infos(s.skip(1)))
    }
}

/// Inserts an action report into a number-sorted sequence, after any earlier
/// reports with the same number.
pub open spec fn spec_insert_acts(x: NodeActionsView, s: Seq<NodeActionsView>) -> Seq<
    NodeActionsView,
>
    decreases s.len(),
{
    if s.len() == 0 {
        seq![x]
    } else if s[0].node < x.node {
        seq![s[0]] + spec_insert_acts(x, s.skip(1))
    } else {
        seq![x] + s
    }
}

/// A stable sort of action reports by node number.
pub open spec fn spec_sort_acts(s: Seq<NodeActionsView>) -> Seq<NodeActionsView>
    decreases s.len(),
{
    if s.len() == 0 {
        Seq::empty()
    } else {
        spec_insert_acts(s[0], spec_sort_acts(s.skip(1)))
    }
}

pub proof fn lemma_sort_infos_len(s: Seq<NodeInfoView>)
    ensures
        spec_sort_infos(s).len() == s.len(),
    decreases s.len(),
{
    if s.len() > 0 {
        lemma_sort_infos_len(s.skip(1));
        lemma_insert_info_len(s[0], spec_sort_infos(s.skip(1)));
    }
}

proof fn lemma_insert_info_len(x: NodeInfoView, s: Seq<NodeInfoView>)
    ensures
        spec_insert_info(x, s).len() == s.len() + 1,
    decreases s.len(),
{
    if s.len() > 0 && s[0].node < x.node {
        lemma_insert_info_len(x, s.skip(1));
    }
}

pub proof fn lemma_sort_acts_len(s: Seq<NodeActionsView>)
    ensures
        spec_sort_acts(s).len() == s.len(),
    decreases s.len(),
{
    if s.len() > 0 {
        lemma_sort_acts_len(s.skip(1));
        lemma_insert_acts_len(s[0], spec_sort_acts(s.skip(1)));
    }
}

proof fn lemma_insert_acts_len(x: NodeActionsView, s: Seq<NodeActionsView>)
    ensures
        spec_insert_acts(x, s).len() == s.len() + 1,
    decreases s.len(),
{
    if s.len() > 0 && s[0].node < x.node {
        lemma_insert_acts_len(x, s.skip(1));
    }
}

fn insert_node_info(x: NodeInfo, s: Vec<NodeInfo>) -> (r: Vec<NodeInfo>)
    ensures
        r.deep_view() == spec_insert_info(x@, s.deep_view()),
    decreases s@.len(),
{
    let ghost sdv = s.deep_view();
    let mut v = s;
    if v.len() == 0 {
        v.push(x);
        proof {
            assert(v.deep_view() =~~= seq![x@]);
        }
        v
    } else if v[0].node < x.node {
        let head = v.remove(0);
        proof {
            assert(head@ == sdv[0]);
            assert(v.deep_view() =~~= sdv.skip(1));
        }
        let mut r = insert_node_info(x, v);
        r.insert(0, head);
        proof {
            assert(r.deep_view() =~~= seq![sdv[0]] + spec_insert_info(x@, sdv.skip(1)));
        }
        r
    } else {
        v.insert(0, x);
        proof {
            assert(v.deep_view() =~~= seq![x@] + sdv);
        }
        v
    }
}

/// Sorts node reports by node number, keeping the report order of equal
/// numbers.
pub fn sort_node_infos(nodes: Vec<NodeInfo>) -> (r: Vec<NodeInfo>)
    ensures
        r.deep_view() == spec_sort_infos(nodes.deep_view()),
    decreases nodes@.len(),
{
    let ghost sdv = nodes.deep_view();
    let mut v = nodes;
    if v.len() == 0 {
        v
    } else {
        let head = v.remove(0);
        proof {
            assert(head@ == sdv[0]);
            assert(v.deep_view() =~~= sdv.skip(1));
        }
        let sorted = sort_node_infos(v);
        insert_node_info(head, sorted)
    }
}

fn insert_node_acts(x: NodeActions, s: Vec<NodeActions>) -> (r: Vec<NodeActions>)
    ensures
        r.deep_view() == spec_insert_acts(x@, s.deep_view()),
    decreases s@.len(),
{
    let ghost sdv = s.deep_view();
    let mut v = s;
    if v.len() == 0 {
        v.push(x);
        proof {
            assert(v.deep_view() =~~= seq![x@]);
        }
        v
    } else if v[0].node < x.node {
        let head = v.remove(0);
        proof {
            assert(head@ == sdv[0]);
            assert(v.deep_view() =~~= sdv.skip(1));
        }
        let mut r = insert_node_acts(x, v);
        r.insert(0, head);
        proof {
            assert(r.deep_view() =~~= seq![sdv[0]] + spec_insert_acts(x@, sdv.skip(1)));
        }
        r
    } else {
        v.insert(0, x);
        proof {
            assert(v.deep_view() =~~= seq![x@] + sdv);
        }
        v
    }
}

/// Sorts action reports by node number, keeping the report order of equal
/// numbers.
pub fn sort_node_actions(actions: Vec<NodeActions>) -> (r: Vec<NodeActions>)
    ensures
        r.deep_view() == spec_sort_acts(actions.deep_view()),
    decreases actions@.len(),
{
    let ghost sdv = actions.deep_view();
    let mut v = actions;
    if v.len() == 0 {
        v
    } else {
        let head = v.remove(0);
        proof {
            assert(head@ == sdv[0]);
            assert(v.deep_view() =~~= sdv.skip(1));
        }
        let sorted = sort_node_actions(v);
        insert_node_acts(head, sorted)
    }
}

/// How two co-sorted report lists pair up into nodes: numbers must match
/// pairwise, each report must parse, and each command list must map.
pub open spec fn spec_discover_pairs(
    ns: Seq<NodeInfoView>,
    acts: Seq<NodeActionsView>,
) -> Result<Seq<NodeView>, Error>
    decreases ns.len(),
{
    if ns.len() == 0 {
        Ok(Seq::empty())
    } else if acts.len() == 0 {
        Err(Error::ProtocolMismatch)
    } else if ns[0].node != acts[0].node {
        Err(Error::ProtocolMismatch)
    } else {
        match spec_node_from_info(ns[0]) {
            Err(e) => Err(e),
            Ok(nv) => match spec_actions_of(acts[0].actions) {
                None => Err(Error::ParseError),
                Some(cmds) => match spec_discover_pairs(ns.skip(1), acts.skip(1)) {
                    Err(e) => Err(e),
                    Ok(rest) => Ok(
                        seq![
                            NodeView {
                                number: nv.number,
                                node_type: nv.node_type,
                                status: nv.status,
                                actions: cmds,
                            },
                        ] + rest,
                    ),
                },
            },
        }
    }
}

/// What discovery yields: a count mismatch fails outright and constructs
/// nothing; otherwise both lists are sorted by node number and paired.
pub open spec fn spec_discover(ns: Seq<NodeInfoView>, acts: Seq<NodeActionsView>) -> Result<
    Seq<NodeView>,
    Error,
> {
    if ns.len() != acts.len() {
        Err(Error::ProtocolMismatch)
    } else {
        spec_discover_pairs(spec_sort_infos(ns), spec_sort_acts(acts))
    }
}

/// Builds one node per report pair. The info and action lists must agree in
/// count and, after sorting by node number, pairwise in node number;
/// otherwise discovery fails with `ProtocolMismatch` and constructs no node.
pub fn discover_nodes(nodes: Vec<NodeInfo>, node_actions: Vec<NodeActions>) -> (r: Result<
    Vec<DucoBoxNode>,
    Error,
>)
    ensures
        match r {
            Ok(built) => spec_discover(nodes.deep_view(), node_actions.deep_view()) == Ok::<
                Seq<NodeView>,
                Error,
            >(built.deep_view()) && forall|i: int|
                0 <= i < built.deep_view().len() ==> spec_node_wf(#[trigger] built.deep_view()[i]),
            Err(e) => spec_discover(nodes.deep_view(), node_actions.deep_view()) == Err::<
                Seq<NodeView>,
                Error,
            >(e),
        },
{
    if nodes.len() != node_actions.len() {
        return Err(Error::ProtocolMismatch);
    }
    let ghost ns0 = nodes.deep_view();
    let ghost sa0 = node_actions.deep_view();
    let mut ns = sort_node_infos(nodes);
    let mut acts = sort_node_actions(node_actions);
    let ghost sn = ns.deep_view();
    let ghost sa = acts.deep_view();
    proof {
        lemma_sort_infos_len(ns0);
        lemma_sort_acts_len(sa0);
        assert(sn.skip(0) =~= sn);
        assert(sa.skip(0) =~= sa);
    }
    let mut built: Vec<DucoBoxNode> = Vec::new();
    while ns.len() > 0
        invariant
            ns@.len() == acts@.len(),
            nodes.deep_view() == ns0,
            node_actions.deep_view() == sa0,
            spec_discover(ns0, sa0) == spec_discover_pairs(sn, sa),
            forall|i: int|
                0 <= i < built.deep_view().len() ==> spec_node_wf(#[trigger] built.deep_view()[i]),
            match spec_discover_pairs(sn, sa) {
                Ok(all) => spec_discover_pairs(ns.deep_view(), acts.deep_view()) matches Ok(rest)
                    && all =~= built.deep_view() + rest,
                Err(e) => spec_discover_pairs(ns.deep_view(), acts.deep_view()) == Err::<
                    Seq<NodeView>,
                    Error,
                >(e),
            },
        decreases ns@.len(),
    {
        let ghost rem_n = ns.deep_view();
        let ghost rem_a = acts.deep_view();
        let info = ns.remove(0);
        let act = acts.remove(0);
        proof {
            assert(info@ == rem_n[0]);
            assert(act@ == rem_a[0]);
            assert(ns.deep_view() =~~= rem_n.skip(1));
            assert(acts.deep_view() =~~= rem_a.skip(1));
        }
        if info.node != act.node {
            return Err(Error::ProtocolMismatch);
        }
        let mut node = match DucoBoxNode::try_from(info) {
            Ok(n) => n,
            Err(e) => {
                proof {
                    assert(spec_node_from_info(rem_n[0]) == Err::<NodeView, Error>(e));
                }
                return Err(e);
            },
        };
        match node.set_actions(act) {
            Ok(_) => {},
            Err(e) => {
                return Err(e);
            },
        }
        let ghost before = built.deep_view();
        proof {
            match spec_node_from_info(rem_n[0]) {
                Ok(nv) => {
                    assert(node@ =~~= NodeView {
                        number: nv.number,
                        node_type: nv.node_type,
                        status: nv.status,
                        actions: spec_actions_of(rem_a[0].actions)->Some_0,
                    });
                },
                Err(_) => {
                    assert(false);
                },
            }
        }
        built.push(node);
        proof {
            assert(built.deep_view() =~~= before.push(node@));
        }
    }
    proof {
        assert(acts.deep_view() =~= Seq::<NodeActionsView>::empty());
        assert(ns.deep_view() =~= Seq::<NodeInfoView>::empty());
    }
    Ok(built)
}

/// How a fresh report list merges into the registry, report by report: a
/// known number is merged into its node, a new number appends a new node,
/// and nothing is ever removed.
pub open spec fn spec_merge_nodes(nodes: Seq<NodeView>, infos: Seq<NodeInfoView>) -> Result<
    Seq<NodeView>,
    Error,
>
    decreases infos.len(),
{
    if infos.len() == 0 {
        Ok(nodes)
    } else {
        match spec_find_node(nodes, infos[0].node) {
            Some(i) => spec_merge_nodes(
                nodes.update(
                    i,
                    NodeView {
                        number: nodes[i].number,
                        node_type: nodes[i].node_type,
                        status: spec_node_merge(nodes[i].status, infos[0]),
                        actions: nodes[i].actions,
                    },
                ),
                infos.skip(1),
            ),
            None => match spec_node_from_info(infos[0]) {
                Ok(nv) => spec_merge_nodes(nodes.push(nv), infos.skip(1)),
                Err(e) => Err(e),
            },
        }
    }
}

/// Merges a fresh report list into the registry: known numbers are merged in
/// place, new numbers are appended as new nodes, and no node is removed. On
/// a malformed report the merge stops with `ParseError`; the registry keeps
/// the reports already merged.
pub fn merge_nodes(nodes: &mut Vec<DucoBoxNode>, new_nodes: Vec<NodeInfo>) -> (r: Result<
    (),
    Error,
>)
    requires
        forall|i: int|
            0 <= i < old(nodes).deep_view().len() ==> spec_node_wf(
                #[trigger] old(nodes).deep_view()[i],
            ),
    ensures
        forall|i: int|
            0 <= i < final(nodes).deep_view().len() ==> spec_node_wf(
                #[trigger] final(nodes).deep_view()[i],
            ),
        match r {
            Ok(_) => spec_merge_nodes(old(nodes).deep_view(), new_nodes.deep_view()) == Ok::<
                Seq<NodeView>,
                Error,
            >(final(nodes).deep_view()),
            Err(e) => spec_merge_nodes(old(nodes).deep_view(), new_nodes.deep_view()) == Err::<
                Seq<NodeView>,
                Error,
            >(e),
        },
{
    let ghost infos0 = new_nodes.deep_view();
    let mut rest = new_nodes;
    proof {
        assert(infos0.skip(0) =~= infos0);
    }
    while rest.len() > 0
        invariant
            new_nodes.deep_view() == infos0,
            forall|i: int|
                0 <= i < nodes.deep_view().len() ==> spec_node_wf(
                    #[trigger] nodes.deep_view()[i],
                ),
            spec_merge_nodes(old(nodes).deep_view(), infos0) == spec_merge_nodes(
                nodes.deep_view(),
                rest.deep_view(),
            ),
        decreases rest@.len(),
    {
        let ghost rem = rest.deep_view();
        let ghost cur = nodes.deep_view();
        let info = rest.remove(0);
        proof {
            assert(info@ == rem[0]);
            assert(rest.deep_view() =~~= rem.skip(1));
        }
        match find_node_index(nodes, info.node) {
            Some(i) => {
                let ghost target = cur[i as int];
                let merged = crate::bridge::update_node_at(nodes, i, info);
                proof {
                    assert(merged is Ok);
                    assert(nodes.deep_view() =~~= cur.update(
                        i as int,
                        NodeView {
                            number: target.number,
                            node_type: target.node_type,
                            status: spec_node_merge(target.status, rem[0]),
                            actions: target.actions,
                        },
                    ));
                }
            },
            None => {
                match DucoBoxNode::try_from(info) {
                    Ok(node) => {
                        let ghost before = nodes.deep_view();
                        proof {
                            match spec_node_from_info(rem[0]) {
                                Ok(nv) => {
                                    assert(node@ =~~= nv);
                                },
                                Err(_) => {
                                    assert(false);
                                },
                            }
                        }
                        nodes.push(node);
                        proof {
                            assert(nodes.deep_view() =~~= before.push(node@));
                        }
                    },
                    Err(e) => {
                        proof {
                            assert(spec_node_from_info(rem[0]) == Err::<NodeView, Error>(e));
                        }
                        return Err(e);
                    },
                }
            },
        }
    }
    proof {
        assert(rest.deep_view() =~= Seq::<NodeInfoView>::empty());
    }
    Ok(())
}

/// Messages with the base topic glued in front of each topic.
pub open spec fn spec_with_base(
    base: Seq<char>,
    msgs: Seq<(Seq<char>, Seq<char>)>,
) -> Seq<(Seq<char>, Seq<char>)> {
    Seq::new(msgs.len(), |i: int| (base + msgs[i].0, msgs[i].1))
}

/// What one node's drain emits, under its own topic prefix.
pub open spec fn spec_node_msgs(nv: NodeView) -> Seq<(Seq<char>, Seq<char>)> {
    Seq::new(
        spec_drain_msgs(nv.status).len(),
        |i: int| (spec_node_topic(nv.number, spec_drain_msgs(nv.status)[i].0), spec_drain_msgs(
            nv.status,
        )[i].1),
    )
}

/// What draining every node emits, in registry order.
pub open spec fn spec_drain_nodes_msgs(nodes: Seq<NodeView>) -> Seq<(Seq<char>, Seq<char>)>
    decreases nodes.len(),
{
    if nodes.len() == 0 {
        Seq::empty()
    } else {
        spec_node_msgs(nodes[0]) + spec_drain_nodes_msgs(nodes.skip(1))
    }
}

/// Every node with its dirty flags cleared.
pub open spec fn spec_clear_nodes(nodes: Seq<NodeView>) -> Seq<NodeView> {
    Seq::new(
        nodes.len(),
        |i: int| NodeView {
            number: nodes[i].number,
            node_type: nodes[i].node_type,
            status: spec_map_clear(nodes[i].status),
            actions: nodes[i].actions,
        },
    )
}

/// Every node with every field forced to the unknown sentinel.
pub open spec fn spec_reset_nodes(nodes: Seq<NodeView>) -> Seq<NodeView> {
    Seq::new(
        nodes.len(),
        |i: int| NodeView {
            number: nodes[i].number,
            node_type: nodes[i].node_type,
            status: spec_map_reset(nodes[i].status),
            actions: nodes[i].actions,
        },
    )
}

/// What routing an inbound message yields: the topic must start with the
/// base prefix and then match the command pattern; the addressed node must
/// be registered; and the command must validate against its declared set.
pub open spec fn spec_route_command(
    b: BridgeView,
    topic: Seq<char>,
    payload: Seq<char>,
) -> Result<(u16, crate::ducoboxnode::ActionRequestView), Error> {
    if !(topic.len() >= b.base_topic.len() && topic.take(b.base_topic.len() as int)
        == b.base_topic) {
        Err(Error::InvalidTopic)
    } else {
        match spec_route_topic(topic.skip(b.base_topic.len() as int)) {
            None => Err(Error::InvalidTopic),
            Some((number, cmd)) => match spec_find_node(b.nodes, number) {
                None => Err(Error::UnknownNode),
                Some(i) => match crate::ducoboxnode::spec_find_action(b.nodes[i].actions, cmd) {
                    None => Err(Error::UnknownCommand),
                    Some(found) => match found {
                        ActionView::SetBoolean(_) => if payload == "1"@ {
                            Ok((number, crate::ducoboxnode::ActionRequestView::Boolean(cmd, true)))
                        } else if payload == "0"@ {
                            Ok(
                                (
                                    number,
                                    crate::ducoboxnode::ActionRequestView::Boolean(cmd, false),
                                ),
                            )
                        } else {
                            Err(Error::InvalidCommandValue)
                        },
                        ActionView::SetEnum(_, values) => if values.contains(payload) {
                            Ok(
                                (
                                    number,
                                    crate::ducoboxnode::ActionRequestView::Enumerated(
                                        cmd,
                                        payload,
                                    ),
                                ),
                            )
                        } else {
                            Err(Error::InvalidCommandValue)
                        },
                    },
                },
            },
        }
    }
}

/// Spec-level model of the bridge core.
#[verifier::ext_equal]
pub struct BridgeView {
    pub base_topic: Seq<char>,
    pub hass_discovery: bool,
    pub device: Option<Seq<EntryView>>,
    pub nodes: Seq<NodeView>,
}

/// The bridge core: the device entity, the node registry and the routing
/// state, without any transport. The surrounding process feeds it fetched
/// reports and inbound messages and publishes what it hands back.
#[derive(Debug)]
pub struct DucoMqttBridge {
    mqtt_base_topic: String,
    hass_discovery: bool,
    device_info: Option<DucoBoxDevice>,
    nodes: Vec<DucoBoxNode>,
}

impl View for DucoMqttBridge {
    type V = BridgeView;

    closed spec fn view(&self) -> BridgeView {
        BridgeView {
            base_topic: self.mqtt_base_topic@,
            hass_discovery: self.hass_discovery,
            device: match self.device_info {
                Some(ref d) => Some(d@),
                None => None,
            },
            nodes: self.nodes.deep_view(),
        }
    }
}

impl DucoMqttBridge {
    /// The device map (when present) and every node have unique field names.
    pub open spec fn wf(&self) -> bool {
        &&& match self@.device {
            Some(d) => crate::statusmap::spec_unique_keys(d),
            None => true,
        }
        &&& forall|i: int|
            0 <= i < self@.nodes.len() ==> spec_node_wf(#[trigger] self@.nodes[i])
    }

    /// A bridge with no device state and no nodes; the base topic gets its
    /// trailing slash here.
    pub fn new(base_topic: &str, hass_discovery: bool) -> (r: DucoMqttBridge)
        ensures
            r@.base_topic == base_topic@ + "/"@,
            r@.hass_discovery == hass_discovery,
            r@.device is None,
            r@.nodes =~= Seq::<NodeView>::empty(),
            r.wf(),
    {
        let r = DucoMqttBridge {
            mqtt_base_topic: String::from_str(base_topic).concat("/"),
            hass_discovery,
            device_info: None,
            nodes: Vec::new(),
        };
        proof {
            assert(r@.nodes =~= Seq::<NodeView>::empty());
        }
        r
    }

    /// Whether the next poll must run discovery: the registry is empty.
    pub fn needs_discovery(&self) -> (r: bool)
        ensures
            r == (self@.nodes.len() == 0),
    {
        self.nodes.is_empty()
    }

    /// Whether no poll has succeeded yet.
    pub fn first_poll(&self) -> (r: bool)
        ensures
            r == (self@.device is None),
    {
        self.device_info.is_none()
    }

    /// Whether home-automation discovery messages were requested.
    pub fn hass_discovery(&self) -> (r: bool)
        ensures
            r == self@.hass_discovery,
    {
        self.hass_discovery
    }

    /// The base topic, with its trailing slash.
    pub fn base_topic(&self) -> (r: &str)
        ensures
            r@ == self@.base_topic,
    {
        self.mqtt_base_topic.as_str()
    }

    /// How many nodes are registered.
    pub fn node_count(&self) -> (r: usize)
        ensures
            r == self@.nodes.len(),
    {
        self.nodes.len()
    }

    /// Borrows the node at `i`, in registry order.
    pub fn node_at(&self, i: usize) -> (r: &DucoBoxNode)
        requires
            i < self@.nodes.len(),
        ensures
            r@ == self@.nodes[i as int],
    {
        &self.nodes[i]
    }

    /// Routes one inbound message: strips the base prefix, parses the
    /// command topic, finds the addressed node and validates the payload.
    /// The validated write and its node number come back for dispatch;
    /// nothing here mutates any state.
    pub fn route_command(&self, topic: &str, payload: &str) -> (r: Result<
        (u16, NodeActionRequest),
        Error,
    >)
        ensures
            match r {
                Ok(p) => spec_route_command(self@, topic@, payload@) == Ok::<
                    (u16, crate::ducoboxnode::ActionRequestView),
                    Error,
                >((p.0, p.1@)),
                Err(e) => spec_route_command(self@, topic@, payload@) == Err::<
                    (u16, crate::ducoboxnode::ActionRequestView),
                    Error,
                >(e),
            },
    {
        let base_len = self.mqtt_base_topic.as_str().unicode_len();
        let topic_len = topic.unicode_len();
        if topic_len < base_len {
            return Err(Error::InvalidTopic);
        }
        let head = topic.substring_char(0, base_len);
        if !str_eq(head, self.mqtt_base_topic.as_str()) {
            return Err(Error::InvalidTopic);
        }
        let path = topic.substring_char(base_len, topic_len);
        let (number, action_name) = match node_and_action_from_topic(path) {
            Ok(p) => p,
            Err(e) => {
                return Err(e);
            },
        };
        let i = match find_node_index(&self.nodes, number) {
            Some(i) => i,
            None => {
                return Err(Error::UnknownNode);
            },
        };
        let payload_string = String::from_str(payload);
        match self.nodes[i].process_command(action_name, payload_string) {
            Ok(req) => Ok((number, req)),
            Err(e) => Err(e),
        }
    }
}

/// The device field map, empty while no poll has succeeded.
pub open spec fn spec_device_state(b: BridgeView) -> Seq<EntryView> {
    match b.device {
        Some(d) => d,
        None => Seq::empty(),
    }
}

/// Appends `msgs` to `out`, each topic prefixed with the base topic.
fn push_prefixed(out: &mut Vec<MqttData>, base: &str, msgs: Vec<MqttData>)
    ensures
        final(out).deep_view() =~= old(out).deep_view() + spec_with_base(
            base@,
            msgs.deep_view(),
        ),
{
    let n = msgs.len();
    let ghost target = spec_with_base(base@, msgs.deep_view());
    for i in 0..n
        invariant
            n == msgs@.len(),
            target == spec_with_base(base@, msgs.deep_view()),
            out.deep_view() =~= old(out).deep_view() + target.take(i as int),
    {
        let topic = String::from_str(base).concat(msgs[i].topic.as_str());
        let payload = msgs[i].payload.clone();
        let ghost tv = topic@;
        let ghost pv = payload@;
        let ghost before = out.deep_view();
        out.push(MqttData { topic, payload });
        proof {
            assert(out.deep_view() =~= before.push((tv, pv)));
            assert(out.deep_view() =~= old(out).deep_view() + target.take(i as int + 1));
        }
    }
    proof {
        assert(target.take(n as int) =~= target);
    }
}

impl DucoMqttBridge {
    /// Drains the device and every node, handing back the dirty fields as
    /// base-prefixed messages: the device's first, then each node's in
    /// registry order.
    fn drain_all(&mut self) -> (r: Vec<MqttData>)
        requires
            old(self).wf(),
            old(self)@.device is Some,
        ensures
            r.deep_view() =~= spec_with_base(
                old(self)@.base_topic,
                spec_drain_msgs(spec_device_state(old(self)@)) + spec_drain_nodes_msgs(
                    old(self)@.nodes,
                ),
            ),
            final(self)@.device == Some(spec_map_clear(spec_device_state(old(self)@))),
            final(self)@.nodes =~= spec_clear_nodes(old(self)@.nodes),
            final(self)@.base_topic == old(self)@.base_topic,
            final(self)@.hass_discovery == old(self)@.hass_discovery,
            final(self).wf(),
    {
        let ghost base0 = self@.base_topic;
        let ghost dv0 = spec_device_state(self@);
        let ghost flag0 = self@.hass_discovery;
        let mut out: Vec<MqttData> = Vec::new();
        match &mut self.device_info {
            Some(d) => {
                let dm = d.topics_that_need_updating();
                proof {
                    assert(dm.deep_view() =~= spec_drain_msgs(dv0));
                }
                push_prefixed(&mut out, self.mqtt_base_topic.as_str(), dm);
            },
            None => {
                proof {
                    assert(false);
                }
            },
        }
        proof {
            assert(out.deep_view() =~= spec_with_base(base0, spec_drain_msgs(dv0)));
        }
        let ghost ns0 = self.nodes.deep_view();
        let ghost dev_after = self@.device;
        let ghost mut done: Seq<(Seq<char>, Seq<char>)> = Seq::empty();
        let ghost dev_part = out.deep_view();
        let n = self.nodes.len();
        proof {
            assert(ns0.skip(0) =~= ns0);
            assert(done + spec_drain_nodes_msgs(ns0) =~= spec_drain_nodes_msgs(ns0));
            assert(self.nodes.deep_view() == old(self)@.nodes);
            assert forall|j: int| 0 <= j < n implies spec_node_wf(
                #[trigger] self.nodes.deep_view()[j],
            ) by {
                assert(self.nodes.deep_view()[j] == old(self)@.nodes[j]);
            }
        }
        for i in 0..n
            invariant
                n == self.nodes@.len(),
                ns0.len() == n,
                self@.base_topic == base0,
                self@.hass_discovery == flag0,
                self@.device == dev_after,
                dev_part =~= spec_with_base(base0, spec_drain_msgs(dv0)),
                forall|j: int|
                    0 <= j < i ==> {
                        &&& (#[trigger] self.nodes.deep_view()[j]).number == ns0[j].number
                        &&& self.nodes.deep_view()[j].node_type == ns0[j].node_type
                        &&& self.nodes.deep_view()[j].status =~= spec_map_clear(ns0[j].status)
                        &&& self.nodes.deep_view()[j].actions == ns0[j].actions
                    },
                forall|j: int| i <= j < n ==> self.nodes.deep_view()[j] == ns0[j],
                forall|j: int|
                    0 <= j < n ==> spec_node_wf(#[trigger] self.nodes.deep_view()[j]),
                done + spec_drain_nodes_msgs(ns0.skip(i as int)) =~= spec_drain_nodes_msgs(ns0),
                out.deep_view() =~= dev_part + spec_with_base(base0, done),
        {
            proof {
                assert(ns0.skip(i as int)[0] == ns0[i as int]);
                assert(ns0.skip(i as int).skip(1) =~= ns0.skip(i as int + 1));
                assert(self.nodes.deep_view()[i as int] == self.nodes@[i as int].deep_view());
                assert(spec_node_wf(self.nodes@[i as int]@));
            }
            let ghost prev = self.nodes.deep_view();
            let msgs = self.nodes[i].topics_that_need_updating();
            proof {
                assert(self.nodes.deep_view()[i as int] == self.nodes@[i as int].deep_view());
                assert(forall|j: int|
                    0 <= j < n && j != i ==> #[trigger] self.nodes.deep_view()[j] == prev[j]);
                assert(msgs.deep_view() =~= spec_node_msgs(ns0[i as int]));
            }
            let ghost out_before = out.deep_view();
            push_prefixed(&mut out, self.mqtt_base_topic.as_str(), msgs);
            proof {
                let m = spec_node_msgs(ns0[i as int]);
                let done_old = done;
                assert(out.deep_view() =~= out_before + spec_with_base(base0, m));
                done = done + m;
                assert(spec_with_base(base0, done) =~= spec_with_base(base0, done_old)
                    + spec_with_base(base0, m));
                assert(out.deep_view() =~= dev_part + spec_with_base(base0, done));
                assert(done + spec_drain_nodes_msgs(ns0.skip(i as int + 1))
                    =~= spec_drain_nodes_msgs(ns0));
            }
        }
        proof {
            assert(ns0.skip(n as int) =~= Seq::<NodeView>::empty());
            assert(done =~= spec_drain_nodes_msgs(ns0));
            assert(spec_with_base(base0, spec_drain_msgs(dv0) + spec_drain_nodes_msgs(ns0))
                =~= spec_with_base(base0, spec_drain_msgs(dv0)) + spec_with_base(
                base0,
                spec_drain_nodes_msgs(ns0),
            ));
            assert(self.nodes.deep_view() =~~= spec_clear_nodes(ns0));
        }
        out
    }

    /// One successful poll after discovery has already run: the device
    /// report is merged, the node reports are merged into the registry, and
    /// every dirty field comes back as a base-prefixed message.
    pub fn apply_poll_update(&mut self, dev: DeviceInfo, new_nodes: Vec<NodeInfo>) -> (r: Result<
        Vec<MqttData>,
        Error,
    >)
        requires
            old(self).wf(),
        ensures
            final(self)@.base_topic == old(self)@.base_topic,
            final(self)@.hass_discovery == old(self)@.hass_discovery,
            final(self).wf(),
            match r {
                Ok(msgs) => spec_merge_nodes(old(self)@.nodes, new_nodes.deep_view()) matches Ok(
                    ns,
                ) && msgs.deep_view() =~= spec_with_base(
                    old(self)@.base_topic,
                    spec_drain_msgs(spec_map_merge(spec_device_state(old(self)@), dev@))
                        + spec_drain_nodes_msgs(ns),
                ) && final(self)@.device == Some(
                    spec_map_clear(spec_map_merge(spec_device_state(old(self)@), dev@)),
                ) && final(self)@.nodes =~= spec_clear_nodes(ns),
                Err(e) => spec_merge_nodes(old(self)@.nodes, new_nodes.deep_view()) == Err::<
                    Seq<NodeView>,
                    Error,
                >(e) && final(self)@.device == Some(
                    spec_map_merge(spec_device_state(old(self)@), dev@),
                ),
            },
    {
        self.merge_device(dev);
        match merge_nodes(&mut self.nodes, new_nodes) {
            Ok(_) => {},
            Err(e) => {
                return Err(e);
            },
        }
        Ok(self.drain_all())
    }

    /// The first successful poll: the device report is merged, the node and
    /// action lists are paired into a fresh registry, and every dirty field
    /// comes back as a base-prefixed message. A count or number mismatch
    /// between the two lists fails the whole poll and registers no node.
    pub fn apply_poll_discovery(
        &mut self,
        dev: DeviceInfo,
        new_nodes: Vec<NodeInfo>,
        actions: Vec<NodeActions>,
    ) -> (r: Result<Vec<MqttData>, Error>)
        requires
            old(self).wf(),
            old(self)@.nodes.len() == 0,
        ensures
            final(self)@.base_topic == old(self)@.base_topic,
            final(self)@.hass_discovery == old(self)@.hass_discovery,
            final(self).wf(),
            match r {
                Ok(msgs) => spec_discover(new_nodes.deep_view(), actions.deep_view()) matches Ok(
                    ns,
                ) && msgs.deep_view() =~= spec_with_base(
                    old(self)@.base_topic,
                    spec_drain_msgs(spec_map_merge(spec_device_state(old(self)@), dev@))
                        + spec_drain_nodes_msgs(ns),
                ) && final(self)@.device == Some(
                    spec_map_clear(spec_map_merge(spec_device_state(old(self)@), dev@)),
                ) && final(self)@.nodes =~= spec_clear_nodes(ns),
                Err(e) => spec_discover(new_nodes.deep_view(), actions.deep_view()) == Err::<
                    Seq<NodeView>,
                    Error,
                >(e) && final(self)@.device == Some(
                    spec_map_merge(spec_device_state(old(self)@), dev@),
                ) && final(self)@.nodes.len() == 0,
            },
    {
        self.merge_device(dev);
        match discover_nodes(new_nodes, actions) {
            Ok(built) => {
                self.nodes = built;
            },
            Err(e) => {
                return Err(e);
            },
        }
        Ok(self.drain_all())
    }

    /// A failed poll: the device and every node are forced to the unknown
    /// sentinel, so the next drain republishes what was known as unknown.
    pub fn apply_poll_failure(&mut self)
        requires
            old(self).wf(),
        ensures
            final(self)@.base_topic == old(self)@.base_topic,
            final(self)@.hass_discovery == old(self)@.hass_discovery,
            match old(self)@.device {
                Some(d) => final(self)@.device == Some(spec_map_reset(d)),
                None => final(self)@.device is None,
            },
            final(self)@.nodes =~= spec_reset_nodes(old(self)@.nodes),
            final(self).wf(),
    {
        let ghost base0 = self@.base_topic;
        let ghost flag0 = self@.hass_discovery;
        match &mut self.device_info {
            Some(d) => {
                d.reset();
            },
            None => {},
        }
        let ghost ns0 = self.nodes.deep_view();
        let ghost dev_after = self@.device;
        let n = self.nodes.len();
        proof {
            assert(self.nodes.deep_view() == old(self)@.nodes);
            assert forall|j: int| 0 <= j < n implies spec_node_wf(
                #[trigger] self.nodes.deep_view()[j],
            ) by {
                assert(self.nodes.deep_view()[j] == old(self)@.nodes[j]);
            }
        }
        for i in 0..n
            invariant
                n == self.nodes@.len(),
                ns0.len() == n,
                self@.base_topic == base0,
                self@.hass_discovery == flag0,
                self@.device == dev_after,
                forall|j: int|
                    0 <= j < i ==> {
                        &&& (#[trigger] self.nodes.deep_view()[j]).number == ns0[j].number
                        &&& self.nodes.deep_view()[j].node_type == ns0[j].node_type
                        &&& self.nodes.deep_view()[j].status =~= spec_map_reset(ns0[j].status)
                        &&& self.nodes.deep_view()[j].actions == ns0[j].actions
                    },
                forall|j: int| i <= j < n ==> self.nodes.deep_view()[j] == ns0[j],
                forall|j: int|
                    0 <= j < n ==> spec_node_wf(#[trigger] self.nodes.deep_view()[j]),
        {
            proof {
                assert(self.nodes.deep_view()[i as int] == self.nodes@[i as int].deep_view());
                assert(spec_node_wf(self.nodes@[i as int]@));
            }
            let ghost prev = self.nodes.deep_view();
            self.nodes[i].reset();
            proof {
                assert(self.nodes.deep_view()[i as int] == self.nodes@[i as int].deep_view());
                assert(forall|j: int|
                    0 <= j < n && j != i ==> #[trigger] self.nodes.deep_view()[j] == prev[j]);
            }
        }
        proof {
            assert(self.nodes.deep_view() =~~= spec_reset_nodes(ns0));
        }
    }

    /// Merges one device report, creating the device entity on the first
    /// successful poll.
    fn merge_device(&mut self, dev: DeviceInfo)
        requires
            old(self).wf(),
        ensures
            final(self)@.device == Some(
                spec_map_merge(spec_device_state(old(self)@), dev@),
            ),
            final(self)@.base_topic == old(self)@.base_topic,
            final(self)@.hass_discovery == old(self)@.hass_discovery,
            final(self)@.nodes == old(self)@.nodes,
            final(self).wf(),
    {
        if self.device_info.is_none() {
            self.device_info = Some(DucoBoxDevice::new());
            proof {
                assert(spec_device_state(old(self)@) =~= Seq::<EntryView>::empty());
            }
        }
        match &mut self.device_info {
            Some(d) => {
                d.update_status(dev);
            },
            None => {
                proof {
                    assert(false);
                }
            },
        }
        proof {
            assert(self@.nodes == old(self)@.nodes);
            assert forall|i: int| 0 <= i < self@.nodes.len() implies spec_node_wf(
                #[trigger] self@.nodes[i],
            ) by {
                assert(self@.nodes[i] == old(self)@.nodes[i]);
            }
        }
    }
}

/// Merges one report into the node at `i`, whose number must match the
/// report's.
fn update_node_at(nodes: &mut Vec<DucoBoxNode>, i: usize, info: NodeInfo) -> (r: Result<(), Error>)
    requires
        i < old(nodes)@.len(),
        old(nodes).deep_view()[i as int].number == info@.node,
        spec_node_wf(old(nodes).deep_view()[i as int]),
    ensures
        r is Ok,
        final(nodes)@.len() == old(nodes)@.len(),
        final(nodes).deep_view()[i as int].number == old(nodes).deep_view()[i as int].number,
        final(nodes).deep_view()[i as int].node_type == old(nodes).deep_view()[
            i as int
        ].node_type,
        final(nodes).deep_view()[i as int].actions == old(nodes).deep_view()[i as int].actions,
        final(nodes).deep_view()[i as int].status =~= spec_node_merge(
            old(nodes).deep_view()[i as int].status,
            info@,
        ),
        spec_node_wf(final(nodes).deep_view()[i as int]),
        forall|j: int|
            0 <= j < old(nodes)@.len() && j != i ==> final(nodes).deep_view()[j] == old(
                nodes,
            ).deep_view()[j],
{
    let node = &mut nodes[i];
    node.update_status(info)
}

} // verus!
