//! The controller's own status: one flat change-tracked field map keyed by
//! `Section/Group/Field` names.

use crate::ducoapi::DeviceInfo;
use crate::mqtt::MqttData;
use crate::statusmap::{
    msgs_view, spec_drain_msgs, spec_map_clear, spec_map_merge, spec_map_reset, spec_unique_keys,
    EntryView, StatusMap,
};
use vstd::prelude::*;

verus! {

/// The device entity: created empty, merged on every successful poll, and
/// forced to the unknown sentinel on poll failure.
#[derive(Debug)]
pub struct DucoBoxDevice {
    status: StatusMap,
}

impl View for DucoBoxDevice {
    type V = Seq<EntryView>;

    closed spec fn view(&self) -> Seq<EntryView> {
        self.status@
    }
}

impl DucoBoxDevice {
    /// Every field name occurs once.
    pub open spec fn wf(&self) -> bool {
        spec_unique_keys(self@)
    }

    /// A device with no fields yet.
    pub fn new() -> (r: DucoBoxDevice)
        ensures
            r@ =~= Seq::<EntryView>::empty(),
            r.wf(),
    {
        DucoBoxDevice { status: StatusMap::new() }
    }

    /// Merges a fresh report: existing fields are `set`, new names inserted
    /// dirty, and names the report omits keep their last value.
    pub fn update_status(&mut self, dev: DeviceInfo)
        requires
            old(self).wf(),
        ensures
            final(self)@ =~= spec_map_merge(old(self)@, dev@),
            final(self).wf(),
    {
        self.status.merge_values(dev.general);
    }

    /// Forces every field to the unknown sentinel, dirtying exactly the
    /// fields that held something else.
    pub fn reset(&mut self)
        requires
            old(self).wf(),
        ensures
            final(self)@ =~= spec_map_reset(old(self)@),
            final(self).wf(),
    {
        self.status.reset();
    }

    /// Collects every dirty field as a message whose topic is the field name,
    /// clearing the flags; within one call no name repeats and no dirty field
    /// is skipped.
    pub fn topics_that_need_updating(&mut self) -> (r: Vec<MqttData>)
        requires
            old(self).wf(),
        ensures
            r.deep_view() =~= spec_drain_msgs(old(self)@),
            final(self)@ =~= spec_map_clear(old(self)@),
            final(self).wf(),
    {
        let pairs = self.status.drain();
        let mut r: Vec<MqttData> = Vec::new();
        let n = pairs.len();
        let ghost target = msgs_view(pairs@);
        for i in 0..n
            invariant
                n == pairs@.len(),
                target == msgs_view(pairs@),
                r.deep_view() =~= target.take(i as int),
        {
            let (topic, payload) = crate::ducoboxdevice::pair_parts(&pairs, i);
            let ghost before = r.deep_view();
            r.push(MqttData { topic, payload });
            proof {
                assert(r.deep_view() =~= before.push((target[i as int].0, target[i as int].1)));
                assert(r.deep_view() =~= target.take(i as int + 1));
            }
        }
        proof {
            assert(target.take(n as int) =~= target);
        }
        r
    }
}

/// Clones the two halves of the pair at `i`.
fn pair_parts(pairs: &Vec<(String, String)>, i: usize) -> (r: (String, String))
    requires
        i < pairs@.len(),
    ensures
        r.0@ == pairs@[i as int].0@,
        r.1@ == pairs@[i as int].1@,
{
    (pairs[i].0.clone(), pairs[i].1.clone())
}

} // verus!
