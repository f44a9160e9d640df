//! Data model of the controller's report streams: status values, node
//! reports, device reports and action descriptions.

use crate::json::{
    json_arr_v, json_obj_get, json_obj_v, json_v, lemma_json_arr_v, lemma_json_obj_v,
    spec_json_get, Json, JsonMember, JsonV,
};
use crate::Error;
use vstd::prelude::*;
use vstd::string::StringExecFns;

verus! {

/// One device-reported value: either text or an integer.
///
/// Equality is structural and cross-variant-false: a textual number is never
/// equal to a numeric one.
#[derive(Debug, Clone)]
pub enum StatusValue {
    String(String),
    Number(i64),
}

/// Spec-level model of a [`StatusValue`].
#[verifier::ext_equal]
pub enum ValueView {
    Str(Seq<char>),
    Num(int),
}

impl View for StatusValue {
    type V = ValueView;

    open spec fn view(&self) -> ValueView {
        match self {
            StatusValue::String(s) => ValueView::Str(s@),
            StatusValue::Number(n) => ValueView::Num(*n as int),
        }
    }
}

/// How a value is rendered for an outbound payload: text verbatim, numbers
/// in decimal.
pub open spec fn spec_render(v: ValueView) -> Seq<char> {
    match v {
        ValueView::Str(s) => s,
        ValueView::Num(n) => crate::text::spec_int_dec(n),
    }
}

impl StatusValue {
    /// A copy with the same spec-level value.
    pub fn duplicate(&self) -> (r: StatusValue)
        ensures
            r@ == self@,
    {
        match self {
            StatusValue::String(s) => StatusValue::String(s.clone()),
            StatusValue::Number(n) => StatusValue::Number(*n),
        }
    }

    /// Renders the value as an outbound payload string.
    pub fn render(&self) -> (r: String)
        ensures
            r@ == spec_render(self@),
    {
        match self {
            StatusValue::String(s) => s.clone(),
            StatusValue::Number(n) => crate::text::i64_to_string(*n),
        }
    }
}

impl PartialEq for StatusValue {
    fn eq(&self, other: &StatusValue) -> (r: bool) {
        match (self, other) {
            (StatusValue::String(_), StatusValue::Number(_)) => false,
            (StatusValue::Number(_), StatusValue::String(_)) => false,
            (StatusValue::String(a), StatusValue::String(b)) => *a == *b,
            (StatusValue::Number(a), StatusValue::Number(b)) => *a == *b,
        }
    }
}

impl Eq for StatusValue {}

impl vstd::std_specs::cmp::PartialEqSpecImpl for StatusValue {
    open spec fn obeys_eq_spec() -> bool {
        true
    }

    open spec fn eq_spec(&self, other: &StatusValue) -> bool {
        self@ == other@
    }
}

/// One named value inside a report group.
#[derive(Debug, Clone)]
pub struct StatusField {
    pub val: StatusValue,
}

impl View for StatusField {
    type V = ValueView;

    open spec fn view(&self) -> ValueView {
        self.val@
    }
}

impl From<&str> for StatusField {
    fn from(val: &str) -> (r: StatusField) {
        StatusField { val: StatusValue::String(String::from_str(val)) }
    }
}

impl vstd::std_specs::convert::FromSpecImpl<&str> for StatusField {
    open spec fn obeys_from_spec() -> bool {
        // The field wraps a fresh `String`, whose spec value cannot be
        // written down here; nothing is claimed of this conversion.
        false
    }

    open spec fn from_spec(val: &str) -> StatusField {
        choose|r: StatusField| #[trigger] r.val@ == r.val@
    }
}

impl From<i64> for StatusField {
    fn from(val: i64) -> (r: StatusField) {
        StatusField { val: StatusValue::Number(val) }
    }
}

impl vstd::std_specs::convert::FromSpecImpl<i64> for StatusField {
    open spec fn obeys_from_spec() -> bool {
        true
    }

    open spec fn from_spec(val: i64) -> StatusField {
        StatusField { val: StatusValue::Number(val) }
    }
}

/// A report group as a sequence of key/value pairs, in report order.
pub type StatusGroup = Vec<(String, StatusField)>;

/// Spec-level model of a report group.
pub open spec fn group_view(g: Seq<(String, StatusField)>) -> Seq<(Seq<char>, ValueView)> {
    Seq::new(g.len(), |i: int| (g[i].0@, g[i].1@))
}

/// One node's status report: node number plus its value groups.
#[derive(Debug, Clone)]
pub struct NodeInfo {
    pub node: u16,
    pub general: StatusGroup,
    pub ventilation: StatusGroup,
    pub sensor: Option<StatusGroup>,
}

/// Spec-level model of a [`NodeInfo`].
#[verifier::ext_equal]
pub struct NodeInfoView {
    pub node: u16,
    pub general: Seq<(Seq<char>, ValueView)>,
    pub ventilation: Seq<(Seq<char>, ValueView)>,
    pub sensor: Option<Seq<(Seq<char>, ValueView)>>,
}

impl DeepView for NodeInfo {
    type V = NodeInfoView;

    open spec fn deep_view(&self) -> NodeInfoView {
        self.view()
    }
}

impl View for NodeInfo {
    type V = NodeInfoView;

    open spec fn view(&self) -> NodeInfoView {
        NodeInfoView {
            node: self.node,
            general: group_view(self.general@),
            ventilation: group_view(self.ventilation@),
            sensor: match self.sensor {
                Some(ref s) => Some(group_view(s@)),
                None => None,
            },
        }
    }
}

/// The controller's own status report: one flat group keyed by
/// `Section/Group/Field` names.
#[derive(Debug, Clone)]
pub struct DeviceInfo {
    pub general: StatusGroup,
}

impl View for DeviceInfo {
    type V = Seq<(Seq<char>, ValueView)>;

    open spec fn view(&self) -> Seq<(Seq<char>, ValueView)> {
        group_view(self.general@)
    }
}

/// An enumerated write about to be sent to the device.
#[derive(Debug, Clone)]
pub struct NodeEnumAction {
    pub action: String,
    pub val: String,
}

/// Spec-level model of a [`NodeEnumAction`].
#[verifier::ext_equal]
pub struct EnumActionView {
    pub action: Seq<char>,
    pub val: Seq<char>,
}

impl View for NodeEnumAction {
    type V = EnumActionView;

    open spec fn view(&self) -> EnumActionView {
        EnumActionView { action: self.action@, val: self.val@ }
    }
}

/// A boolean write about to be sent to the device.
#[derive(Debug, Clone)]
pub struct NodeBoolAction {
    pub action: String,
    pub val: bool,
}

/// Spec-level model of a [`NodeBoolAction`].
#[verifier::ext_equal]
pub struct BoolActionView {
    pub action: Seq<char>,
    pub val: bool,
}

impl View for NodeBoolAction {
    type V = BoolActionView;

    open spec fn view(&self) -> BoolActionView {
        BoolActionView { action: self.action@, val: self.val }
    }
}

/// One declared capability of a node, as reported by the device.
#[derive(Debug, Clone)]
pub struct NodeActionDescription {
    pub action: String,
    pub val_type: String,
    pub values: Option<Vec<String>>,
}

/// Spec-level model of a [`NodeActionDescription`].
#[verifier::ext_equal]
pub struct ActionDescriptionView {
    pub action: Seq<char>,
    pub val_type: Seq<char>,
    pub values: Option<Seq<Seq<char>>>,
}

impl View for NodeActionDescription {
    type V = ActionDescriptionView;

    open spec fn view(&self) -> ActionDescriptionView {
        ActionDescriptionView {
            action: self.action@,
            val_type: self.val_type@,
            values: match self.values {
                Some(ref v) => Some(v.deep_view()),
                None => None,
            },
        }
    }
}

/// The declared capability list of one node.
#[derive(Debug, Clone)]
pub struct NodeActions {
    pub node: u16,
    pub actions: Vec<NodeActionDescription>,
}

/// Spec-level model of a [`NodeActions`].
#[verifier::ext_equal]
pub struct NodeActionsView {
    pub node: u16,
    pub actions: Seq<ActionDescriptionView>,
}

impl DeepView for NodeActions {
    type V = NodeActionsView;

    open spec fn deep_view(&self) -> NodeActionsView {
        self.view()
    }
}

impl View for NodeActions {
    type V = NodeActionsView;

    open spec fn view(&self) -> NodeActionsView {
        NodeActionsView { node: self.node, actions: self.actions.deep_view() }
    }
}

impl DeepView for NodeActionDescription {
    type V = ActionDescriptionView;

    open spec fn deep_view(&self) -> ActionDescriptionView {
        self.view()
    }
}

/// A report value: a JSON string or an integer, nothing else.
pub open spec fn spec_status_value_of(j: JsonV) -> Option<ValueView> {
    match j {
        JsonV::Str(s) => Some(ValueView::Str(s)),
        JsonV::Int(n) => Some(ValueView::Num(n)),
        _ => None,
    }
}

/// A report field: an object whose `Val` member holds a report value.
pub open spec fn spec_status_field_of(j: JsonV) -> Option<ValueView> {
    match j {
        JsonV::Obj(m) => match spec_json_get(m, "Val"@) {
            Some(v) => spec_status_value_of(v),
            None => None,
        },
        _ => None,
    }
}

/// A report group: every member a report field, all or nothing.
pub open spec fn spec_group_of(members: Seq<(Seq<char>, JsonV)>) -> Option<
    Seq<(Seq<char>, ValueView)>,
>
    decreases members.len(),
{
    if members.len() == 0 {
        Some(Seq::empty())
    } else {
        match (spec_status_field_of(members[0].1), spec_group_of(members.skip(1))) {
            (Some(v), Some(rest)) => Some(seq![(members[0].0, v)] + rest),
            _ => None,
        }
    }
}

/// One node report: a `Node` number within sixteen bits, a `General` and a
/// `Ventilation` group, and an optional `Sensor` group.
pub open spec fn spec_node_info_of(j: JsonV) -> Option<NodeInfoView> {
    match j {
        JsonV::Obj(m) => match (
            spec_json_get(m, "Node"@),
            spec_json_get(m, "General"@),
            spec_json_get(m, "Ventilation"@),
        ) {
            (Some(JsonV::Int(n)), Some(JsonV::Obj(gm)), Some(JsonV::Obj(vm))) => if 0 <= n
                <= 0xffff {
                match (spec_group_of(gm), spec_group_of(vm)) {
                    (Some(general), Some(ventilation)) => match spec_json_get(m, "Sensor"@) {
                        None => Some(
                            NodeInfoView { node: n as u16, general, ventilation, sensor: None },
                        ),
                        Some(JsonV::Obj(sm)) => match spec_group_of(sm) {
                            Some(sensor) => Some(
                                NodeInfoView {
                                    node: n as u16,
                                    general,
                                    ventilation,
                                    sensor: Some(sensor),
                                },
                            ),
                            None => None,
                        },
                        Some(_) => None,
                    },
                    _ => None,
                }
            } else {
                None
            },
            _ => None,
        },
        _ => None,
    }
}

/// A whole node list, all or nothing.
pub open spec fn spec_node_infos_of(items: Seq<JsonV>) -> Option<Seq<NodeInfoView>>
    decreases items.len(),
{
    if items.len() == 0 {
        Some(Seq::empty())
    } else {
        match (spec_node_info_of(items[0]), spec_node_infos_of(items.skip(1))) {
            (Some(ni), Some(rest)) => Some(seq![ni] + rest),
            _ => None,
        }
    }
}

/// What a node-list document means: an object whose `Nodes` member is an
/// array of node reports.
pub open spec fn spec_node_info_doc_of(t: JsonV) -> Option<Seq<NodeInfoView>> {
    match t {
        JsonV::Obj(m) => match spec_json_get(m, "Nodes"@) {
            Some(JsonV::Arr(items)) => spec_node_infos_of(items),
            _ => None,
        },
        _ => None,
    }
}

/// What the node-list endpoint's bytes mean.
pub open spec fn spec_parse_node_info(bytes: Seq<u8>) -> Option<Seq<NodeInfoView>> {
    match crate::json::json_tree_of(bytes) {
        Some(t) => spec_node_info_doc_of(t),
        None => None,
    }
}

/// The fields of one device group: arrays are passed over, everything else
/// must be a report field, keyed `Section/Group/Field`.
pub open spec fn spec_device_fields(
    section: Seq<char>,
    group: Seq<char>,
    fields: Seq<(Seq<char>, JsonV)>,
) -> Option<Seq<(Seq<char>, ValueView)>>
    decreases fields.len(),
{
    if fields.len() == 0 {
        Some(Seq::empty())
    } else {
        let rest = spec_device_fields(section, group, fields.skip(1));
        if fields[0].1 is Arr {
            rest
        } else {
            match (spec_status_field_of(fields[0].1), rest) {
                (Some(v), Some(r)) => Some(
                    seq![(section + "/"@ + group + "/"@ + fields[0].0, v)] + r,
                ),
                _ => None,
            }
        }
    }
}

/// The groups of one device section: every member must be an object of
/// fields.
pub open spec fn spec_device_groups(
    section: Seq<char>,
    groups: Seq<(Seq<char>, JsonV)>,
) -> Option<Seq<(Seq<char>, ValueView)>>
    decreases groups.len(),
{
    if groups.len() == 0 {
        Some(Seq::empty())
    } else {
        match groups[0].1 {
            JsonV::Obj(fields) => match (
                spec_device_fields(section, groups[0].0, fields),
                spec_device_groups(section, groups.skip(1)),
            ) {
                (Some(a), Some(b)) => Some(a + b),
                _ => None,
            },
            _ => None,
        }
    }
}

/// The device sections that are read: `General` and `HeatRecovery`, each an
/// object of groups; every other top-level member is passed over.
pub open spec fn spec_device_sections(members: Seq<(Seq<char>, JsonV)>) -> Option<
    Seq<(Seq<char>, ValueView)>,
>
    decreases members.len(),
{
    if members.len() == 0 {
        Some(Seq::empty())
    } else {
        let rest = spec_device_sections(members.skip(1));
        if members[0].0 == "General"@ || members[0].0 == "HeatRecovery"@ {
            match members[0].1 {
                JsonV::Obj(groups) => match (spec_device_groups(members[0].0, groups), rest) {
                    (Some(a), Some(b)) => Some(a + b),
                    _ => None,
                },
                _ => None,
            }
        } else {
            rest
        }
    }
}

/// What a device-info document means: a top-level object whose read
/// sections flatten into one keyed group.
pub open spec fn spec_device_info_doc_of(t: JsonV) -> Option<Seq<(Seq<char>, ValueView)>> {
    match t {
        JsonV::Obj(m) => spec_device_sections(m),
        _ => None,
    }
}

/// What the device-info endpoint's bytes mean.
pub open spec fn spec_parse_device_info(bytes: Seq<u8>) -> Option<Seq<(Seq<char>, ValueView)>> {
    match crate::json::json_tree_of(bytes) {
        Some(t) => spec_device_info_doc_of(t),
        None => None,
    }
}

/// A list of JSON strings, all or nothing.
pub open spec fn spec_strings_of(items: Seq<JsonV>) -> Option<Seq<Seq<char>>>
    decreases items.len(),
{
    if items.len() == 0 {
        Some(Seq::empty())
    } else {
        match (items[0], spec_strings_of(items.skip(1))) {
            (JsonV::Str(s), Some(rest)) => Some(seq![s] + rest),
            _ => None,
        }
    }
}

/// One action description: `Action` and `ValType` strings, and an optional
/// `Enum` array of strings (an absent or null `Enum` means none declared).
pub open spec fn spec_action_desc_of(j: JsonV) -> Option<ActionDescriptionView> {
    match j {
        JsonV::Obj(m) => match (spec_json_get(m, "Action"@), spec_json_get(m, "ValType"@)) {
            (Some(JsonV::Str(action)), Some(JsonV::Str(vt))) => match spec_json_get(m, "Enum"@) {
                None => Some(ActionDescriptionView { action, val_type: vt, values: None }),
                Some(JsonV::Null) => Some(
                    ActionDescriptionView { action, val_type: vt, values: None },
                ),
                Some(JsonV::Arr(items)) => match spec_strings_of(items) {
                    Some(vs) => Some(
                        ActionDescriptionView { action, val_type: vt, values: Some(vs) },
                    ),
                    None => None,
                },
                Some(_) => None,
            },
            _ => None,
        },
        _ => None,
    }
}

/// A whole description list, all or nothing.
pub open spec fn spec_action_descs_of(items: Seq<JsonV>) -> Option<Seq<ActionDescriptionView>>
    decreases items.len(),
{
    if items.len() == 0 {
        Some(Seq::empty())
    } else {
        match (spec_action_desc_of(items[0]), spec_action_descs_of(items.skip(1))) {
            (Some(d), Some(rest)) => Some(seq![d] + rest),
            _ => None,
        }
    }
}

/// One node's action report: its `Node` number and its `Actions` array.
pub open spec fn spec_node_actions_of(j: JsonV) -> Option<NodeActionsView> {
    match j {
        JsonV::Obj(m) => match (spec_json_get(m, "Node"@), spec_json_get(m, "Actions"@)) {
            (Some(JsonV::Int(n)), Some(JsonV::Arr(items))) => if 0 <= n <= 0xffff {
                match spec_action_descs_of(items) {
                    Some(actions) => Some(NodeActionsView { node: n as u16, actions }),
                    None => None,
                }
            } else {
                None
            },
            _ => None,
        },
        _ => None,
    }
}

/// A whole action-report list, all or nothing.
pub open spec fn spec_node_actions_list_of(items: Seq<JsonV>) -> Option<Seq<NodeActionsView>>
    decreases items.len(),
{
    if items.len() == 0 {
        Some(Seq::empty())
    } else {
        match (spec_node_actions_of(items[0]), spec_node_actions_list_of(items.skip(1))) {
            (Some(na), Some(rest)) => Some(seq![na] + rest),
            _ => None,
        }
    }
}

/// What a node-actions document means: an object whose `Nodes` member is an
/// array of action reports.
pub open spec fn spec_node_actions_doc_of(t: JsonV) -> Option<Seq<NodeActionsView>> {
    match t {
        JsonV::Obj(m) => match spec_json_get(m, "Nodes"@) {
            Some(JsonV::Arr(items)) => spec_node_actions_list_of(items),
            _ => None,
        },
        _ => None,
    }
}

/// What the node-actions endpoint's bytes mean.
pub open spec fn spec_parse_node_actions(bytes: Seq<u8>) -> Option<Seq<NodeActionsView>> {
    match crate::json::json_tree_of(bytes) {
        Some(t) => spec_node_actions_doc_of(t),
        None => None,
    }
}

fn status_value_from_json(j: &Json) -> (r: Option<StatusValue>)
    ensures
        match r {
            Some(v) => spec_status_value_of(json_v(*j)) == Some(v@),
            None => spec_status_value_of(json_v(*j)) is None,
        },
{
    match j {
        Json::Str(s) => Some(StatusValue::String(s.clone())),
        Json::Int(n) => Some(StatusValue::Number(*n)),
        _ => None,
    }
}

fn status_field_from_json(j: &Json) -> (r: Option<StatusValue>)
    ensures
        match r {
            Some(v) => spec_status_field_of(json_v(*j)) == Some(v@),
            None => spec_status_field_of(json_v(*j)) is None,
        },
{
    match j {
        Json::Obj(members) => match json_obj_get(members, "Val") {
            Some(v) => status_value_from_json(v),
            None => None,
        },
        _ => None,
    }
}

/// Reads one report group out of a JSON object: every member must be a
/// report field.
pub fn group_from_json(members: &Vec<JsonMember>) -> (r: Result<StatusGroup, Error>)
    ensures
        match r {
            Ok(g) => spec_group_of(json_obj_v(members@)) == Some(group_view(g@)),
            Err(e) => e == Error::ParseError && spec_group_of(json_obj_v(members@)) is None,
        },
{
    let n = members.len();
    let ghost mv = json_obj_v(members@);
    let mut out: StatusGroup = Vec::new();
    proof {
        lemma_json_obj_v(members@);
        assert(mv.skip(0) =~= mv);
        assert(group_view(out@) =~= Seq::<(Seq<char>, ValueView)>::empty());
    }
    for i in 0..n
        invariant
            n == members@.len(),
            mv == json_obj_v(members@),
            mv.len() == n,
            (spec_group_of(mv) is Some) == (spec_group_of(mv.skip(i as int)) is Some),
            spec_group_of(mv) matches Some(all) ==> spec_group_of(mv.skip(i as int)) matches Some(
                rest,
            ) && all =~= group_view(out@) + rest,
    {
        proof {
            lemma_json_obj_v(members@);
            assert(mv.skip(i as int)[0] == mv[i as int]);
            assert(mv.skip(i as int).skip(1) =~= mv.skip(i as int + 1));
        }
        match status_field_from_json(&members[i].val) {
            Some(v) => {
                let ghost before = group_view(out@);
                let ghost vv = v@;
                out.push((members[i].key.clone(), StatusField { val: v }));
                proof {
                    assert(group_view(out@) =~= before.push((members@[i as int].key@, vv)));
                }
            },
            None => {
                return Err(Error::ParseError);
            },
        }
    }
    proof {
        assert(mv.skip(n as int) =~= Seq::<(Seq<char>, JsonV)>::empty());
        match spec_group_of(mv) {
            Some(all) => {
                assert(all =~= group_view(out@));
            },
            None => {
                assert(false);
            },
        }
    }
    Ok(out)
}

/// Reads one node report out of a JSON value.
pub fn node_info_from_json(j: &Json) -> (r: Result<NodeInfo, Error>)
    ensures
        match r {
            Ok(ni) => spec_node_info_of(json_v(*j)) == Some(ni@),
            Err(e) => e == Error::ParseError && spec_node_info_of(json_v(*j)) is None,
        },
{
    let members = match j {
        Json::Obj(members) => members,
        _ => {
            return Err(Error::ParseError);
        },
    };
    let number: u16 = match json_obj_get(members, "Node") {
        Some(Json::Int(n)) => {
            if *n < 0 || *n > 0xffff {
                return Err(Error::ParseError);
            }
            *n as u16
        },
        _ => {
            return Err(Error::ParseError);
        },
    };
    let general = match json_obj_get(members, "General") {
        Some(Json::Obj(gm)) => match group_from_json(gm) {
            Ok(g) => g,
            Err(e) => {
                return Err(e);
            },
        },
        _ => {
            return Err(Error::ParseError);
        },
    };
    let ventilation = match json_obj_get(members, "Ventilation") {
        Some(Json::Obj(vm)) => match group_from_json(vm) {
            Ok(g) => g,
            Err(e) => {
                return Err(e);
            },
        },
        _ => {
            return Err(Error::ParseError);
        },
    };
    let sensor = match json_obj_get(members, "Sensor") {
        None => None,
        Some(Json::Obj(sm)) => match group_from_json(sm) {
            Ok(g) => Some(g),
            Err(e) => {
                return Err(e);
            },
        },
        Some(_) => {
            return Err(Error::ParseError);
        },
    };
    let ni = NodeInfo { node: number, general, ventilation, sensor };
    proof {
        match spec_node_info_of(json_v(*j)) {
            Some(v) => {
                assert(ni@ =~= v);
            },
            None => {
                assert(false);
            },
        }
    }
    Ok(ni)
}

/// Reads the node list out of a parsed node-list document.
pub fn node_infos_from_json(j: &Json) -> (r: Result<Vec<NodeInfo>, Error>)
    ensures
        match r {
            Ok(ns) => spec_node_info_doc_of(json_v(*j)) == Some(ns.deep_view()),
            Err(e) => e == Error::ParseError && spec_node_info_doc_of(json_v(*j)) is None,
        },
{
    let members = match j {
        Json::Obj(m) => m,
        _ => {
            return Err(Error::ParseError);
        },
    };
    let items = match json_obj_get(members, "Nodes") {
        Some(Json::Arr(items)) => items,
        _ => {
            return Err(Error::ParseError);
        },
    };
    let n = items.len();
    let ghost av = json_arr_v(items@);
    let mut out: Vec<NodeInfo> = Vec::new();
    proof {
        lemma_json_arr_v(items@);
        assert(av.skip(0) =~= av);
        assert(out.deep_view() =~= Seq::<NodeInfoView>::empty());
    }
    for i in 0..n
        invariant
            n == items@.len(),
            av == json_arr_v(items@),
            av.len() == n,
            spec_node_info_doc_of(json_v(*j)) == spec_node_infos_of(av),
            (spec_node_infos_of(av) is Some) == (spec_node_infos_of(av.skip(i as int)) is Some),
            spec_node_infos_of(av) matches Some(all) ==> spec_node_infos_of(av.skip(i as int))
                matches Some(rest) && all =~= out.deep_view() + rest,
    {
        proof {
            lemma_json_arr_v(items@);
            assert(av.skip(i as int)[0] == av[i as int]);
            assert(av.skip(i as int).skip(1) =~= av.skip(i as int + 1));
        }
        match node_info_from_json(&items[i]) {
            Ok(ni) => {
                let ghost before = out.deep_view();
                let ghost niv = ni@;
                out.push(ni);
                proof {
                    assert(out.deep_view() =~= before.push(niv));
                }
            },
            Err(e) => {
                return Err(e);
            },
        }
    }
    proof {
        assert(av.skip(n as int) =~= Seq::<JsonV>::empty());
        match spec_node_infos_of(av) {
            Some(all) => {
                assert(all =~= out.deep_view());
            },
            None => {
                assert(false);
            },
        }
    }
    Ok(out)
}

/// Parses the node-list endpoint's response.
pub fn parse_node_info(json_data: &[u8]) -> (r: Result<Vec<NodeInfo>, Error>)
    ensures
        match r {
            Ok(ns) => spec_parse_node_info(json_data@) == Some(ns.deep_view()),
            Err(e) => e == Error::ParseError && spec_parse_node_info(json_data@) is None,
        },
{
    let doc = match crate::json::parse_json(json_data) {
        Ok(j) => j,
        Err(e) => {
            return Err(e);
        },
    };
    node_infos_from_json(&doc)
}

fn device_fields_from_json(
    section: &str,
    group: &str,
    fields: &Vec<JsonMember>,
    out: &mut StatusGroup,
) -> (r: Result<(), Error>)
    ensures
        match r {
            Ok(_) => spec_device_fields(section@, group@, json_obj_v(fields@)) matches Some(g)
                && group_view(final(out)@) =~= group_view(old(out)@) + g,
            Err(e) => e == Error::ParseError && spec_device_fields(
                section@,
                group@,
                json_obj_v(fields@),
            ) is None,
        },
{
    let n = fields.len();
    let ghost fv = json_obj_v(fields@);
    proof {
        lemma_json_obj_v(fields@);
        assert(fv.skip(0) =~= fv);
    }
    for i in 0..n
        invariant
            n == fields@.len(),
            fv == json_obj_v(fields@),
            fv.len() == n,
            (spec_device_fields(section@, group@, fv) is Some) == (spec_device_fields(
                section@,
                group@,
                fv.skip(i as int),
            ) is Some),
            spec_device_fields(section@, group@, fv) matches Some(all) ==> spec_device_fields(
                section@,
                group@,
                fv.skip(i as int),
            ) matches Some(rest) && group_view(old(out)@) + all =~= group_view(out@) + rest,
    {
        proof {
            lemma_json_obj_v(fields@);
            assert(fv.skip(i as int)[0] == fv[i as int]);
            assert(fv.skip(i as int).skip(1) =~= fv.skip(i as int + 1));
        }
        let is_array = match &fields[i].val {
            Json::Arr(_) => true,
            _ => false,
        };
        if !is_array {
            match status_field_from_json(&fields[i].val) {
                Some(v) => {
                    let key = String::from_str(section).concat("/").concat(group).concat(
                        "/",
                    ).concat(fields[i].key.as_str());
                    let ghost before = group_view(out@);
                    let ghost vv = v@;
                    let ghost kv = key@;
                    out.push((key, StatusField { val: v }));
                    proof {
                        assert(group_view(out@) =~= before.push((kv, vv)));
                    }
                },
                None => {
                    return Err(Error::ParseError);
                },
            }
        }
    }
    proof {
        assert(fv.skip(n as int) =~= Seq::<(Seq<char>, JsonV)>::empty());
        match spec_device_fields(section@, group@, fv) {
            Some(all) => {
                assert(group_view(old(out)@) + all =~= group_view(out@));
            },
            None => {
                assert(false);
            },
        }
    }
    Ok(())
}

fn device_groups_from_json(section: &str, groups: &Vec<JsonMember>, out: &mut StatusGroup) -> (r:
    Result<(), Error>)
    ensures
        match r {
            Ok(_) => spec_device_groups(section@, json_obj_v(groups@)) matches Some(g)
                && group_view(final(out)@) =~= group_view(old(out)@) + g,
            Err(e) => e == Error::ParseError && spec_device_groups(
                section@,
                json_obj_v(groups@),
            ) is None,
        },
{
    let n = groups.len();
    let ghost gv = json_obj_v(groups@);
    proof {
        lemma_json_obj_v(groups@);
        assert(gv.skip(0) =~= gv);
    }
    for i in 0..n
        invariant
            n == groups@.len(),
            gv == json_obj_v(groups@),
            gv.len() == n,
            (spec_device_groups(section@, gv) is Some) == (spec_device_groups(
                section@,
                gv.skip(i as int),
            ) is Some),
            spec_device_groups(section@, gv) matches Some(all) ==> spec_device_groups(
                section@,
                gv.skip(i as int),
            ) matches Some(rest) && group_view(old(out)@) + all =~= group_view(out@) + rest,
    {
        proof {
            lemma_json_obj_v(groups@);
            assert(gv.skip(i as int)[0] == gv[i as int]);
            assert(gv.skip(i as int).skip(1) =~= gv.skip(i as int + 1));
        }
        match &groups[i].val {
            Json::Obj(fields) => {
                match device_fields_from_json(section, groups[i].key.as_str(), fields, out) {
                    Ok(_) => {},
                    Err(e) => {
                        return Err(e);
                    },
                }
            },
            _ => {
                return Err(Error::ParseError);
            },
        }
    }
    proof {
        assert(gv.skip(n as int) =~= Seq::<(Seq<char>, JsonV)>::empty());
        match spec_device_groups(section@, gv) {
            Some(all) => {
                assert(group_view(old(out)@) + all =~= group_view(out@));
            },
            None => {
                assert(false);
            },
        }
    }
    Ok(())
}

/// Reads the flat device group out of a parsed device-info document.
pub fn device_info_from_json(j: &Json) -> (r: Result<DeviceInfo, Error>)
    ensures
        match r {
            Ok(dev) => spec_device_info_doc_of(json_v(*j)) == Some(dev@),
            Err(e) => e == Error::ParseError && spec_device_info_doc_of(json_v(*j)) is None,
        },
{
    let members = match j {
        Json::Obj(m) => m,
        _ => {
            return Err(Error::ParseError);
        },
    };
    let n = members.len();
    let ghost mv = json_obj_v(members@);
    let mut out: StatusGroup = Vec::new();
    proof {
        lemma_json_obj_v(members@);
        assert(mv.skip(0) =~= mv);
        assert(group_view(out@) =~= Seq::<(Seq<char>, ValueView)>::empty());
    }
    for i in 0..n
        invariant
            n == members@.len(),
            mv == json_obj_v(members@),
            mv.len() == n,
            spec_device_info_doc_of(json_v(*j)) == spec_device_sections(mv),
            (spec_device_sections(mv) is Some) == (spec_device_sections(
                mv.skip(i as int),
            ) is Some),
            spec_device_sections(mv) matches Some(all) ==> spec_device_sections(mv.skip(i as int))
                matches Some(rest) && all =~= group_view(out@) + rest,
    {
        proof {
            lemma_json_obj_v(members@);
            assert(mv.skip(i as int)[0] == mv[i as int]);
            assert(mv.skip(i as int).skip(1) =~= mv.skip(i as int + 1));
        }
        let wanted = crate::text::str_eq(members[i].key.as_str(), "General")
            || crate::text::str_eq(members[i].key.as_str(), "HeatRecovery");
        if wanted {
            match &members[i].val {
                Json::Obj(groups) => {
                    match device_groups_from_json(members[i].key.as_str(), groups, &mut out) {
                        Ok(_) => {},
                        Err(e) => {
                            return Err(e);
                        },
                    }
                },
                _ => {
                    return Err(Error::ParseError);
                },
            }
        }
    }
    proof {
        assert(mv.skip(n as int) =~= Seq::<(Seq<char>, JsonV)>::empty());
        match spec_device_sections(mv) {
            Some(all) => {
                assert(all =~= group_view(out@));
            },
            None => {
                assert(false);
            },
        }
    }
    Ok(DeviceInfo { general: out })
}

/// Parses the device-info endpoint's response.
pub fn parse_device_info(json_data: &[u8]) -> (r: Result<DeviceInfo, Error>)
    ensures
        match r {
            Ok(dev) => spec_parse_device_info(json_data@) == Some(dev@),
            Err(e) => e == Error::ParseError && spec_parse_device_info(json_data@) is None,
        },
{
    let doc = match crate::json::parse_json(json_data) {
        Ok(j) => j,
        Err(e) => {
            return Err(e);
        },
    };
    device_info_from_json(&doc)
}

fn strings_from_json(items: &Vec<Json>) -> (r: Result<Vec<String>, Error>)
    ensures
        match r {
            Ok(vs) => spec_strings_of(json_arr_v(items@)) == Some(vs.deep_view()),
            Err(e) => e == Error::ParseError && spec_strings_of(json_arr_v(items@)) is None,
        },
{
    let n = items.len();
    let ghost av = json_arr_v(items@);
    let mut out: Vec<String> = Vec::new();
    proof {
        lemma_json_arr_v(items@);
        assert(av.skip(0) =~= av);
        assert(out.deep_view() =~= Seq::<Seq<char>>::empty());
    }
    for i in 0..n
        invariant
            n == items@.len(),
            av == json_arr_v(items@),
            av.len() == n,
            (spec_strings_of(av) is Some) == (spec_strings_of(av.skip(i as int)) is Some),
            spec_strings_of(av) matches Some(all) ==> spec_strings_of(av.skip(i as int)) matches
                Some(rest) && all =~= out.deep_view() + rest,
    {
        proof {
            lemma_json_arr_v(items@);
            assert(av.skip(i as int)[0] == av[i as int]);
            assert(av.skip(i as int).skip(1) =~= av.skip(i as int + 1));
        }
        match &items[i] {
            Json::Str(s) => {
                let ghost before = out.deep_view();
                out.push(s.clone());
                proof {
                    assert(out.deep_view() =~= before.push(items@[i as int]->Str_0@));
                }
            },
            _ => {
                return Err(Error::ParseError);
            },
        }
    }
    proof {
        assert(av.skip(n as int) =~= Seq::<JsonV>::empty());
        match spec_strings_of(av) {
            Some(all) => {
                assert(all =~= out.deep_view());
            },
            None => {
                assert(false);
            },
        }
    }
    Ok(out)
}

/// Reads one action description out of a JSON value.
pub fn action_desc_from_json(j: &Json) -> (r: Result<NodeActionDescription, Error>)
    ensures
        match r {
            Ok(d) => spec_action_desc_of(json_v(*j)) == Some(d@),
            Err(e) => e == Error::ParseError && spec_action_desc_of(json_v(*j)) is None,
        },
{
    let members = match j {
        Json::Obj(m) => m,
        _ => {
            return Err(Error::ParseError);
        },
    };
    let action = match json_obj_get(members, "Action") {
        Some(Json::Str(s)) => s.clone(),
        _ => {
            return Err(Error::ParseError);
        },
    };
    let val_type = match json_obj_get(members, "ValType") {
        Some(Json::Str(s)) => s.clone(),
        _ => {
            return Err(Error::ParseError);
        },
    };
    let values = match json_obj_get(members, "Enum") {
        None => None,
        Some(Json::Null) => None,
        Some(Json::Arr(items)) => match strings_from_json(items) {
            Ok(vs) => Some(vs),
            Err(e) => {
                return Err(e);
            },
        },
        Some(_) => {
            return Err(Error::ParseError);
        },
    };
    let d = NodeActionDescription { action, val_type, values };
    proof {
        match spec_action_desc_of(json_v(*j)) {
            Some(v) => {
                assert(d@ =~= v);
            },
            None => {
                assert(false);
            },
        }
    }
    Ok(d)
}

/// Reads one node's action report out of a JSON value.
pub fn node_actions_entry_from_json(j: &Json) -> (r: Result<NodeActions, Error>)
    ensures
        match r {
            Ok(na) => spec_node_actions_of(json_v(*j)) == Some(na@),
            Err(e) => e == Error::ParseError && spec_node_actions_of(json_v(*j)) is None,
        },
{
    let members = match j {
        Json::Obj(m) => m,
        _ => {
            return Err(Error::ParseError);
        },
    };
    let number: u16 = match json_obj_get(members, "Node") {
        Some(Json::Int(n)) => {
            if *n < 0 || *n > 0xffff {
                return Err(Error::ParseError);
            }
            *n as u16
        },
        _ => {
            return Err(Error::ParseError);
        },
    };
    let items = match json_obj_get(members, "Actions") {
        Some(Json::Arr(items)) => items,
        _ => {
            return Err(Error::ParseError);
        },
    };
    let n = items.len();
    let ghost av = json_arr_v(items@);
    let mut actions: Vec<NodeActionDescription> = Vec::new();
    proof {
        lemma_json_arr_v(items@);
        assert(av.skip(0) =~= av);
        assert(actions.deep_view() =~= Seq::<ActionDescriptionView>::empty());
    }
    for i in 0..n
        invariant
            n == items@.len(),
            av == json_arr_v(items@),
            av.len() == n,
            (spec_node_actions_of(json_v(*j)) is Some) == (spec_action_descs_of(av) is Some),
            (spec_action_descs_of(av) is Some) == (spec_action_descs_of(
                av.skip(i as int),
            ) is Some),
            spec_action_descs_of(av) matches Some(all) ==> spec_action_descs_of(av.skip(i as int))
                matches Some(rest) && all =~= actions.deep_view() + rest,
    {
        proof {
            lemma_json_arr_v(items@);
            assert(av.skip(i as int)[0] == av[i as int]);
            assert(av.skip(i as int).skip(1) =~= av.skip(i as int + 1));
        }
        match action_desc_from_json(&items[i]) {
            Ok(d) => {
                let ghost before = actions.deep_view();
                let ghost dv = d@;
                actions.push(d);
                proof {
                    assert(actions.deep_view() =~= before.push(dv));
                }
            },
            Err(e) => {
                return Err(e);
            },
        }
    }
    proof {
        assert(av.skip(n as int) =~= Seq::<JsonV>::empty());
        match spec_action_descs_of(av) {
            Some(all) => {
                assert(all =~= actions.deep_view());
            },
            None => {
                assert(false);
            },
        }
    }
    let na = NodeActions { node: number, actions };
    proof {
        match spec_node_actions_of(json_v(*j)) {
            Some(v) => {
                assert(na@ =~= v);
            },
            None => {
                assert(false);
            },
        }
    }
    Ok(na)
}

/// Reads the action-report list out of a parsed node-actions document.
pub fn node_actions_from_json(j: &Json) -> (r: Result<Vec<NodeActions>, Error>)
    ensures
        match r {
            Ok(nas) => spec_node_actions_doc_of(json_v(*j)) == Some(nas.deep_view()),
            Err(e) => e == Error::ParseError && spec_node_actions_doc_of(json_v(*j)) is None,
        },
{
    let members = match j {
        Json::Obj(m) => m,
        _ => {
            return Err(Error::ParseError);
        },
    };
    let items = match json_obj_get(members, "Nodes") {
        Some(Json::Arr(items)) => items,
        _ => {
            return Err(Error::ParseError);
        },
    };
    let n = items.len();
    let ghost av = json_arr_v(items@);
    let mut out: Vec<NodeActions> = Vec::new();
    proof {
        lemma_json_arr_v(items@);
        assert(av.skip(0) =~= av);
        assert(out.deep_view() =~= Seq::<NodeActionsView>::empty());
    }
    for i in 0..n
        invariant
            n == items@.len(),
            av == json_arr_v(items@),
            av.len() == n,
            spec_node_actions_doc_of(json_v(*j)) == spec_node_actions_list_of(av),
            (spec_node_actions_list_of(av) is Some) == (spec_node_actions_list_of(
                av.skip(i as int),
            ) is Some),
            spec_node_actions_list_of(av) matches Some(all) ==> spec_node_actions_list_of(
                av.skip(i as int),
            ) matches Some(rest) && all =~= out.deep_view() + rest,
    {
        proof {
            lemma_json_arr_v(items@);
            assert(av.skip(i as int)[0] == av[i as int]);
            assert(av.skip(i as int).skip(1) =~= av.skip(i as int + 1));
        }
        match node_actions_entry_from_json(&items[i]) {
            Ok(na) => {
                let ghost before = out.deep_view();
                let ghost nav = na@;
                out.push(na);
                proof {
                    assert(out.deep_view() =~= before.push(nav));
                }
            },
            Err(e) => {
                return Err(e);
            },
        }
    }
    proof {
        assert(av.skip(n as int) =~= Seq::<JsonV>::empty());
        match spec_node_actions_list_of(av) {
            Some(all) => {
                assert(all =~= out.deep_view());
            },
            None => {
                assert(false);
            },
        }
    }
    Ok(out)
}

/// Parses the node-actions endpoint's response.
pub fn parse_node_actions(json_data: &[u8]) -> (r: Result<Vec<NodeActions>, Error>)
    ensures
        match r {
            Ok(nas) => spec_parse_node_actions(json_data@) == Some(nas.deep_view()),
            Err(e) => e == Error::ParseError && spec_parse_node_actions(json_data@) is None,
        },
{
    let doc = match crate::json::parse_json(json_data) {
        Ok(j) => j,
        Err(e) => {
            return Err(e);
        },
    };
    node_actions_from_json(&doc)
}

} // verus!
