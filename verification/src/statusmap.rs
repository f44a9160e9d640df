//! The change-tracked field map shared by the device and the nodes: a
//! mapping from field name to [`InfoValue`], merged on every poll, drained
//! into outbound messages, and forced to the unknown sentinel on failure.

use crate::ducoapi::{spec_render, StatusGroup, StatusValue, ValueView};
use crate::infovalue::{
    spec_field_clear, spec_field_new, spec_field_set, FieldView, InfoValue, UNKNOWN,
};
use vstd::prelude::*;
use vstd::string::StringExecFns;

verus! {

/// The sentinel value as a character sequence.
pub open spec fn spec_unknown() -> Seq<char> {
    "UNKNOWN"@
}

/// One modelled map entry: field name and field state.
pub type EntryView = (Seq<char>, FieldView);

/// No two entries share a field name.
pub open spec fn spec_unique_keys(s: Seq<EntryView>) -> bool {
    forall|i: int, j: int| 0 <= i < j < s.len() ==> s[i].0 != s[j].0
}

/// The model of storing one value: an existing entry is `set`, a new name is
/// appended as a fresh (dirty) field. Names absent from an update are never
/// removed.
pub open spec fn spec_map_set(s: Seq<EntryView>, key: Seq<char>, v: ValueView) -> Seq<EntryView> {
    if exists|i: int| 0 <= i < s.len() && s[i].0 == key {
        let i = choose|i: int| 0 <= i < s.len() && s[i].0 == key;
        s.update(i, (key, spec_field_set(s[i].1, v)))
    } else {
        s.push((key, spec_field_new(v)))
    }
}

/// The model of merging a whole report group, pair by pair, in report order.
pub open spec fn spec_map_merge(
    s: Seq<EntryView>,
    pairs: Seq<(Seq<char>, ValueView)>,
) -> Seq<EntryView>
    decreases pairs.len(),
{
    if pairs.len() == 0 {
        s
    } else {
        spec_map_merge(spec_map_set(s, pairs[0].0, pairs[0].1), pairs.skip(1))
    }
}

/// The model of a poll failure: every field is `set` to the unknown
/// sentinel, which dirties exactly the fields that held something else.
pub open spec fn spec_map_reset(s: Seq<EntryView>) -> Seq<EntryView> {
    Seq::new(s.len(), |i: int| (s[i].0, spec_field_set(s[i].1, ValueView::Str(spec_unknown()))))
}

/// The map after a drain: same names, same values, nothing dirty.
pub open spec fn spec_map_clear(s: Seq<EntryView>) -> Seq<EntryView> {
    Seq::new(s.len(), |i: int| (s[i].0, spec_field_clear(s[i].1)))
}

/// What a drain emits: for each dirty field, in map order, its name paired
/// with its rendered value.
pub open spec fn spec_drain_msgs(s: Seq<EntryView>) -> Seq<(Seq<char>, Seq<char>)>
    decreases s.len(),
{
    if s.len() == 0 {
        Seq::empty()
    } else {
        let rest = spec_drain_msgs(s.skip(1));
        if s[0].1.modified {
            seq![(s[0].0, spec_render(s[0].1.value))] + rest
        } else {
            rest
        }
    }
}

/// Spec-level reading of a vector of name/payload pairs.
pub open spec fn msgs_view(v: Seq<(String, String)>) -> Seq<(Seq<char>, Seq<char>)> {
    Seq::new(v.len(), |i: int| (v[i].0@, v[i].1@))
}

/// A mapping from field name to change-tracked value, in insertion order.
#[derive(Debug)]
pub struct StatusMap {
    entries: Vec<(String, InfoValue)>,
}

impl View for StatusMap {
    type V = Seq<EntryView>;

    closed spec fn view(&self) -> Seq<EntryView> {
        Seq::new(self.entries@.len(), |i: int| (self.entries@[i].0@, self.entries@[i].1@))
    }
}

impl StatusMap {
    /// Every field name occurs once.
    pub open spec fn wf(&self) -> bool {
        spec_unique_keys(self@)
    }

    /// An empty map.
    pub fn new() -> (r: StatusMap)
        ensures
            r@ =~= Seq::<EntryView>::empty(),
            r.wf(),
    {
        StatusMap { entries: Vec::new() }
    }

    fn find(&self, key: &String) -> (r: Option<usize>)
        ensures
            match r {
                Some(i) => i < self@.len() && self@[i as int].0 == key@,
                None => forall|i: int| 0 <= i < self@.len() ==> self@[i].0 != key@,
            },
    {
        for i in 0..self.entries.len()
            invariant
                forall|j: int| 0 <= j < i ==> self@[j].0 != key@,
        {
            if self.entries[i].0 == *key {
                return Some(i);
            }
        }
        None
    }

    /// Stores `val` under `key`: an existing field is `set`, a new name is
    /// inserted as a fresh dirty field.
    pub fn set_value(&mut self, key: String, val: StatusValue)
        requires
            old(self).wf(),
        ensures
            final(self)@ =~= spec_map_set(old(self)@, key@, val@),
            final(self).wf(),
    {
        match self.find(&key) {
            Some(i) => {
                self.entries[i].1.set(val);
                proof {
                    let w = choose|w: int|
                        0 <= w < old(self)@.len() && old(self)@[w].0 == key@;
                    assert(w == i);
                    assert(self@ =~= old(self)@.update(
                        i as int,
                        (key@, spec_field_set(old(self)@[i as int].1, val@)),
                    ));
                }
            },
            None => {
                self.entries.push((key, InfoValue::new(val)));
                proof {
                    assert(self@ =~= old(self)@.push((key@, spec_field_new(val@))));
                }
            },
        }
    }

    /// Merges a report group: every pair is stored in order; names the group
    /// omits keep their last value.
    pub fn merge_values(&mut self, values: StatusGroup)
        requires
            old(self).wf(),
        ensures
            final(self)@ =~= spec_map_merge(old(self)@, crate::ducoapi::group_view(values@)),
            final(self).wf(),
    {
        let ghost pairs = crate::ducoapi::group_view(values@);
        let n = values.len();
        proof {
            assert(pairs.skip(0) =~= pairs);
        }
        for k in 0..n
            invariant
                n == values@.len(),
                pairs == crate::ducoapi::group_view(values@),
                self.wf(),
                spec_map_merge(old(self)@, pairs) =~= spec_map_merge(self@, pairs.skip(k as int)),
        {
            let key = values[k].0.clone();
            let val = values[k].1.val.duplicate();
            self.set_value(key, val);
            proof {
                assert(pairs.skip(k as int)[0] == pairs[k as int]);
                assert(pairs.skip(k as int).skip(1) =~= pairs.skip(k as int + 1));
            }
        }
    }

    /// Forces every field to the unknown sentinel, dirtying exactly those
    /// that held something else.
    pub fn reset(&mut self)
        requires
            old(self).wf(),
        ensures
            final(self)@ =~= spec_map_reset(old(self)@),
            final(self).wf(),
    {
        let n = self.entries.len();
        for i in 0..n
            invariant
                n == self@.len(),
                self@.len() == old(self)@.len(),
                forall|j: int|
                    0 <= j < i ==> self@[j].0 == old(self)@[j].0 && self@[j].1 == spec_field_set(
                        old(self)@[j].1,
                        ValueView::Str(spec_unknown()),
                    ),
                forall|j: int| i <= j < n ==> self@[j] == old(self)@[j],
        {
            let unknown = StatusValue::String(String::from_str(UNKNOWN));
            self.entries[i].1.set(unknown);
        }
        proof {
            assert forall|j: int| 0 <= j < self@.len() implies self@[j] == spec_map_reset(
                old(self)@,
            )[j] by {
                assert(spec_map_reset(old(self)@)[j].0 == old(self)@[j].0);
                assert(spec_map_reset(old(self)@)[j].1 == spec_field_set(
                    old(self)@[j].1,
                    ValueView::Str(spec_unknown()),
                ));
            }
            assert(self@ =~= spec_map_reset(old(self)@));
        }
    }

    /// Collects every dirty field as a name/payload pair, in map order,
    /// clearing each flag; values themselves are untouched.
    pub fn drain(&mut self) -> (r: Vec<(String, String)>)
        requires
            old(self).wf(),
        ensures
            msgs_view(r@) =~= spec_drain_msgs(old(self)@),
            final(self)@ =~= spec_map_clear(old(self)@),
            final(self).wf(),
    {
        let mut r: Vec<(String, String)> = Vec::new();
        let n = self.entries.len();
        proof {
            assert(old(self)@.skip(0) =~= old(self)@);
        }
        for i in 0..n
            invariant
                n == self@.len(),
                self@.len() == old(self)@.len(),
                forall|j: int|
                    0 <= j < i ==> self@[j].0 == old(self)@[j].0 && self@[j].1 == spec_field_clear(
                        old(self)@[j].1,
                    ),
                forall|j: int| i <= j < n ==> self@[j] == old(self)@[j],
                spec_drain_msgs(old(self)@) =~= msgs_view(r@) + spec_drain_msgs(
                    old(self)@.skip(i as int),
                ),
        {
            proof {
                assert(old(self)@.skip(i as int)[0] == old(self)@[i as int]);
                assert(old(self)@.skip(i as int).skip(1) =~= old(self)@.skip(i as int + 1));
            }
            if self.entries[i].1.is_modified() {
                let key = self.entries[i].0.clone();
                let val = self.entries[i].1.get_and_reset();
                let payload = val.render();
                let ghost before = msgs_view(r@);
                r.push((key, payload));
                proof {
                    assert(msgs_view(r@) =~= before.push((key@, payload@)));
                }
            } else {
                let _ = self.entries[i].1.get_and_reset();
            }
        }
        proof {
            assert(old(self)@.skip(n as int) =~= Seq::<EntryView>::empty());
            assert forall|j: int| 0 <= j < self@.len() implies self@[j] == spec_map_clear(
                old(self)@,
            )[j] by {
                assert(spec_map_clear(old(self)@)[j].0 == old(self)@[j].0);
                assert(spec_map_clear(old(self)@)[j].1 == spec_field_clear(old(self)@[j].1));
            }
            assert(self@ =~= spec_map_clear(old(self)@));
        }
        r
    }
}

/// A drain emits nothing exactly when no field is dirty.
pub proof fn lemma_drain_empty_iff(s: Seq<EntryView>)
    ensures
        spec_drain_msgs(s).len() == 0 <==> (forall|i: int|
            0 <= i < s.len() ==> !s[i].1.modified),
    decreases s.len(),
{
    if s.len() > 0 {
        lemma_drain_empty_iff(s.skip(1));
        assert(forall|i: int| 0 <= i < s.skip(1).len() ==> s.skip(1)[i] == s[i + 1]);
        if s[0].1.modified {
            assert(spec_drain_msgs(s).len() > 0);
        } else {
            if forall|i: int| 0 <= i < s.skip(1).len() ==> !s.skip(1)[i].1.modified {
                assert forall|i: int| 0 <= i < s.len() implies !s[i].1.modified by {
                    if i > 0 {
                        assert(s.skip(1)[i - 1] == s[i]);
                    }
                }
            }
        }
    }
}

/// Two drains in a row with no update in between: the first clears every
/// dirty flag, so the second always yields an empty sequence; and the first
/// yields a non-empty sequence exactly when some field was dirty before it.
pub proof fn lemma_drain_twice(s: Seq<EntryView>)
    ensures
        spec_drain_msgs(spec_map_clear(s)).len() == 0,
        spec_drain_msgs(s).len() == 0 <==> (forall|i: int|
            0 <= i < s.len() ==> !s[i].1.modified),
{
    lemma_drain_empty_iff(spec_map_clear(s));
    lemma_drain_empty_iff(s);
    assert(forall|i: int|
        0 <= i < spec_map_clear(s).len() ==> !spec_map_clear(s)[i].1.modified);
}

/// What a failure makes visible: one message per field that held something
/// other than the unknown sentinel, carrying the sentinel as payload.
pub open spec fn spec_stale_msgs(s: Seq<EntryView>) -> Seq<(Seq<char>, Seq<char>)>
    decreases s.len(),
{
    if s.len() == 0 {
        Seq::empty()
    } else {
        let rest = spec_stale_msgs(s.skip(1));
        if s[0].1.value != ValueView::Str(spec_unknown()) {
            seq![(s[0].0, spec_unknown())] + rest
        } else {
            rest
        }
    }
}

/// After a drain has settled the map, a reset followed by a drain
/// republishes exactly the fields whose value was not already the unknown
/// sentinel, each as the sentinel text, and nothing else.
pub proof fn lemma_reset_republishes(s: Seq<EntryView>)
    requires
        forall|i: int| 0 <= i < s.len() ==> !s[i].1.modified,
    ensures
        spec_drain_msgs(spec_map_reset(s)) =~= spec_stale_msgs(s),
    decreases s.len(),
{
    if s.len() > 0 {
        assert(forall|i: int| 0 <= i < s.skip(1).len() ==> s.skip(1)[i] == s[i + 1]);
        lemma_reset_republishes(s.skip(1));
        let t = spec_map_reset(s);
        assert(t.skip(1) =~= spec_map_reset(s.skip(1)));
        assert(t[0].1 == spec_field_set(s[0].1, ValueView::Str(spec_unknown())));
        if s[0].1.value != ValueView::Str(spec_unknown()) {
            assert(t[0].1.modified);
            assert(spec_render(t[0].1.value) == spec_unknown());
            assert(spec_drain_msgs(t) =~= seq![(s[0].0, spec_unknown())] + spec_drain_msgs(
                t.skip(1),
            ));
        } else {
            assert(!t[0].1.modified);
        }
    }
}

/// An update whose names never repeat, as the members of a JSON object.
pub open spec fn spec_unique_pair_keys(pairs: Seq<(Seq<char>, ValueView)>) -> bool {
    forall|i: int, j: int| 0 <= i < j < pairs.len() ==> pairs[i].0 != pairs[j].0
}

/// Whether the map holds an entry named `key`.
pub open spec fn spec_map_has(s: Seq<EntryView>, key: Seq<char>) -> bool {
    exists|i: int| 0 <= i < s.len() && s[i].0 == key
}

/// The field stored under `key` (meaningful only when present).
pub open spec fn spec_map_at(s: Seq<EntryView>, key: Seq<char>) -> FieldView {
    s[choose|i: int| 0 <= i < s.len() && s[i].0 == key].1
}

proof fn lemma_at_witness(s: Seq<EntryView>, key: Seq<char>, w: int)
    requires
        spec_unique_keys(s),
        0 <= w < s.len(),
        s[w].0 == key,
    ensures
        spec_map_has(s, key),
        spec_map_at(s, key) == s[w].1,
{
    assert(spec_map_has(s, key));
    let i = choose|i: int| 0 <= i < s.len() && s[i].0 == key;
    if i < w {
        assert(s[i].0 != s[w].0);
    } else if w < i {
        assert(s[w].0 != s[i].0);
    }
}

proof fn lemma_set_same(s: Seq<EntryView>, key: Seq<char>, v: ValueView)
    requires
        spec_unique_keys(s),
    ensures
        spec_unique_keys(spec_map_set(s, key, v)),
        spec_map_has(spec_map_set(s, key, v), key),
        spec_map_at(spec_map_set(s, key, v), key) == if spec_map_has(s, key) {
            spec_field_set(spec_map_at(s, key), v)
        } else {
            spec_field_new(v)
        },
{
    let r = spec_map_set(s, key, v);
    if spec_map_has(s, key) {
        let w = choose|i: int| 0 <= i < s.len() && s[i].0 == key;
        lemma_at_witness(s, key, w);
        assert(forall|j: int| 0 <= j < r.len() ==> r[j].0 == s[j].0);
        lemma_at_witness(r, key, w);
    } else {
        assert(forall|j: int| 0 <= j < s.len() ==> s[j].0 != key);
        lemma_at_witness(r, key, s.len() as int);
    }
}

proof fn lemma_set_other(s: Seq<EntryView>, key: Seq<char>, v: ValueView, k: Seq<char>)
    requires
        spec_unique_keys(s),
        k != key,
    ensures
        spec_map_has(spec_map_set(s, key, v), k) == spec_map_has(s, k),
        spec_map_has(s, k) ==> spec_map_at(spec_map_set(s, key, v), k) == spec_map_at(s, k),
{
    let r = spec_map_set(s, key, v);
    lemma_set_same(s, key, v);
    if spec_map_has(s, key) {
        assert(forall|j: int| 0 <= j < r.len() ==> r[j].0 == s[j].0);
        if spec_map_has(s, k) {
            let w = choose|i: int| 0 <= i < s.len() && s[i].0 == k;
            lemma_at_witness(s, k, w);
            assert(r[w].1 == s[w].1);
            lemma_at_witness(r, k, w);
        } else {
            assert(forall|j: int| 0 <= j < r.len() ==> r[j].0 != k);
        }
    } else {
        if spec_map_has(s, k) {
            let w = choose|i: int| 0 <= i < s.len() && s[i].0 == k;
            lemma_at_witness(s, k, w);
            lemma_at_witness(r, k, w);
        } else {
            assert(forall|j: int| 0 <= j < r.len() ==> r[j].0 != k);
        }
    }
}

proof fn lemma_merge_unique(s: Seq<EntryView>, pairs: Seq<(Seq<char>, ValueView)>)
    requires
        spec_unique_keys(s),
    ensures
        spec_unique_keys(spec_map_merge(s, pairs)),
    decreases pairs.len(),
{
    if pairs.len() > 0 {
        lemma_set_same(s, pairs[0].0, pairs[0].1);
        lemma_merge_unique(spec_map_set(s, pairs[0].0, pairs[0].1), pairs.skip(1));
    }
}

proof fn lemma_merge_other(s: Seq<EntryView>, pairs: Seq<(Seq<char>, ValueView)>, k: Seq<char>)
    requires
        spec_unique_keys(s),
        forall|i: int| 0 <= i < pairs.len() ==> (#[trigger] pairs[i]).0 != k,
    ensures
        spec_map_has(spec_map_merge(s, pairs), k) == spec_map_has(s, k),
        spec_map_has(s, k) ==> spec_map_at(spec_map_merge(s, pairs), k) == spec_map_at(s, k),
    decreases pairs.len(),
{
    if pairs.len() > 0 {
        lemma_set_other(s, pairs[0].0, pairs[0].1, k);
        lemma_set_same(s, pairs[0].0, pairs[0].1);
        assert(forall|i: int|
            0 <= i < pairs.skip(1).len() ==> pairs.skip(1)[i] == pairs[i + 1]);
        lemma_merge_other(spec_map_set(s, pairs[0].0, pairs[0].1), pairs.skip(1), k);
    }
}

proof fn lemma_merge_lookup(s: Seq<EntryView>, pairs: Seq<(Seq<char>, ValueView)>, i: int)
    requires
        spec_unique_keys(s),
        0 <= i < pairs.len(),
        forall|j: int| i < j < pairs.len() ==> (#[trigger] pairs[j]).0 != pairs[i].0,
    ensures
        spec_map_has(spec_map_merge(s, pairs), pairs[i].0),
        spec_map_at(spec_map_merge(s, pairs), pairs[i].0).value == pairs[i].1,
    decreases pairs.len(),
{
    let s1 = spec_map_set(s, pairs[0].0, pairs[0].1);
    lemma_set_same(s, pairs[0].0, pairs[0].1);
    assert(forall|j: int| 0 <= j < pairs.skip(1).len() ==> pairs.skip(1)[j] == pairs[j + 1]);
    if i == 0 {
        assert(spec_map_at(s1, pairs[0].0).value == pairs[0].1);
        lemma_merge_other(s1, pairs.skip(1), pairs[0].0);
    } else {
        lemma_merge_lookup(s1, pairs.skip(1), i - 1);
    }
}

proof fn lemma_clear_at(s: Seq<EntryView>, k: Seq<char>)
    requires
        spec_unique_keys(s),
    ensures
        spec_unique_keys(spec_map_clear(s)),
        spec_map_has(spec_map_clear(s), k) == spec_map_has(s, k),
        spec_map_has(s, k) ==> spec_map_at(spec_map_clear(s), k) == spec_field_clear(
            spec_map_at(s, k),
        ),
{
    let c = spec_map_clear(s);
    assert(forall|j: int| 0 <= j < c.len() ==> c[j].0 == s[j].0);
    if spec_map_has(s, k) {
        let w = choose|i: int| 0 <= i < s.len() && s[i].0 == k;
        lemma_at_witness(s, k, w);
        assert(c[w].1 == spec_field_clear(s[w].1));
        lemma_at_witness(c, k, w);
    } else {
        assert(forall|j: int| 0 <= j < c.len() ==> c[j].0 != k);
    }
}

proof fn lemma_merge_matching_clean(s: Seq<EntryView>, pairs: Seq<(Seq<char>, ValueView)>)
    requires
        spec_unique_keys(s),
        spec_unique_pair_keys(pairs),
        forall|j: int| 0 <= j < s.len() ==> !s[j].1.modified,
        forall|i: int|
            0 <= i < pairs.len() ==> spec_map_has(s, (#[trigger] pairs[i]).0) && spec_map_at(
                s,
                pairs[i].0,
            ).value == pairs[i].1,
    ensures
        forall|j: int|
            0 <= j < spec_map_merge(s, pairs).len() ==> !spec_map_merge(s, pairs)[j].1.modified,
    decreases pairs.len(),
{
    if pairs.len() > 0 {
        let k = pairs[0].0;
        let v = pairs[0].1;
        let s1 = spec_map_set(s, k, v);
        lemma_set_same(s, k, v);
        let w = choose|i: int| 0 <= i < s.len() && s[i].0 == k;
        lemma_at_witness(s, k, w);
        assert(spec_field_set(s[w].1, v) == FieldView { value: v, modified: false });
        assert(forall|j: int| 0 <= j < s1.len() ==> !s1[j].1.modified);
        assert(forall|j: int| 0 <= j < pairs.skip(1).len() ==> pairs.skip(1)[j] == pairs[j + 1]);
        assert forall|i: int| 0 <= i < pairs.skip(1).len() implies spec_map_has(
            s1,
            (#[trigger] pairs.skip(1)[i]).0,
        ) && spec_map_at(s1, pairs.skip(1)[i].0).value == pairs.skip(1)[i].1 by {
            assert(pairs[i + 1].0 != k);
            lemma_set_other(s, k, v, pairs[i + 1].0);
        }
        lemma_merge_matching_clean(s1, pairs.skip(1));
    }
}

/// Merging the identical report again right after a drain is quiet: every
/// stored value already equals the report's, so no flag rises and the next
/// drain emits nothing. The report's names may not repeat, as the members
/// of one JSON group never do.
pub proof fn lemma_identical_merge_is_quiet(
    s: Seq<EntryView>,
    pairs: Seq<(Seq<char>, ValueView)>,
)
    requires
        spec_unique_keys(s),
        spec_unique_pair_keys(pairs),
    ensures
        spec_drain_msgs(
            spec_map_merge(spec_map_clear(spec_map_merge(s, pairs)), pairs),
        ).len() == 0,
{
    lemma_merge_unique(s, pairs);
    let m1 = spec_map_merge(s, pairs);
    let c = spec_map_clear(m1);
    assert(forall|j: int| 0 <= j < c.len() ==> !c[j].1.modified);
    assert forall|i: int| 0 <= i < pairs.len() implies spec_map_has(
        c,
        (#[trigger] pairs[i]).0,
    ) && spec_map_at(c, pairs[i].0).value == pairs[i].1 by {
        lemma_merge_lookup(s, pairs, i);
        lemma_clear_at(m1, pairs[i].0);
    }
    assert(forall|j: int| 0 <= j < c.len() ==> c[j].0 == m1[j].0);
    assert(spec_unique_keys(c));
    lemma_merge_matching_clean(c, pairs);
    lemma_drain_empty_iff(spec_map_merge(c, pairs));
}

} // verus!
