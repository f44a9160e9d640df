//! A change-tracked field: one status value plus a dirty flag.
//!
//! The flag records whether the current value has been reported outbound
//! since it last changed. A fresh field is dirty, so its first value is
//! always published once.

use crate::ducoapi::{StatusValue, ValueView};
use vstd::prelude::*;

verus! {

/// The sentinel text a field is forced to when the device stops answering.
pub const UNKNOWN: &'static str = "UNKNOWN";

/// Spec-level model of a change-tracked field.
#[verifier::ext_equal]
pub struct FieldView {
    pub value: ValueView,
    pub modified: bool,
}

/// The model of a freshly constructed field: dirty from the start.
pub open spec fn spec_field_new(v: ValueView) -> FieldView {
    FieldView { value: v, modified: true }
}

/// The model of `set`: the value is replaced, and the flag is raised exactly
/// when the new value differs from the stored one.
pub open spec fn spec_field_set(f: FieldView, v: ValueView) -> FieldView {
    FieldView { value: v, modified: f.modified || v != f.value }
}

/// The model of `get_and_reset`: the value stays, the flag drops.
pub open spec fn spec_field_clear(f: FieldView) -> FieldView {
    FieldView { value: f.value, modified: false }
}

/// One status value with its dirty flag.
#[derive(Debug)]
pub struct InfoValue {
    value: StatusValue,
    modified: bool,
}

impl View for InfoValue {
    type V = FieldView;

    closed spec fn view(&self) -> FieldView {
        FieldView { value: self.value@, modified: self.modified }
    }
}

impl InfoValue {
    /// Wraps a first value; the field starts out dirty.
    pub fn new(value: StatusValue) -> (r: InfoValue)
        ensures
            r@ == spec_field_new(value@),
    {
        InfoValue { value, modified: true }
    }

    /// Stores `val`, raising the dirty flag iff it differs structurally from
    /// the current value (a text is never equal to a number).
    pub fn set(&mut self, val: StatusValue)
        ensures
            final(self)@ == spec_field_set(old(self)@, val@),
    {
        if val != self.value {
            self.modified = true;
            self.value = val;
        }
    }

    /// Observes the dirty flag without clearing it.
    pub fn modified(&self) -> (r: bool)
        ensures
            r == self@.modified,
    {
        self.modified
    }

    /// Observes the dirty flag without clearing it.
    pub fn is_modified(&self) -> (r: bool)
        ensures
            r == self@.modified,
    {
        self.modified
    }

    /// Returns the current value and clears the dirty flag, whether or not it
    /// was raised. The stored value itself never changes here.
    pub fn get_and_reset(&mut self) -> (r: StatusValue)
        ensures
            r@ == old(self)@.value,
            final(self)@ == spec_field_clear(old(self)@),
    {
        self.modified = false;
        self.value.duplicate()
    }
}

/// The field after a whole sequence of `set` calls.
pub open spec fn spec_field_run(f: FieldView, vals: Seq<ValueView>) -> FieldView
    decreases vals.len(),
{
    if vals.len() == 0 {
        f
    } else {
        spec_field_run(spec_field_set(f, vals[0]), vals.skip(1))
    }
}

/// Once dirty, a field stays dirty under any further `set` calls.
pub proof fn lemma_modified_monotone(f: FieldView, vals: Seq<ValueView>)
    requires
        f.modified,
    ensures
        spec_field_run(f, vals).modified,
    decreases vals.len(),
{
    if vals.len() > 0 {
        lemma_modified_monotone(spec_field_set(f, vals[0]), vals.skip(1));
    }
}

/// For any sequence of `set` calls on a clean field, the field ends dirty
/// exactly when some call carried a value that differs (structurally, with a
/// text never equal to a number) from the value observed at the last
/// `get_and_reset`.
pub proof fn lemma_set_tracks_changes(f: FieldView, vals: Seq<ValueView>)
    requires
        !f.modified,
    ensures
        spec_field_run(f, vals).modified <==> exists|i: int|
            0 <= i < vals.len() && vals[i] != f.value,
    decreases vals.len(),
{
    if vals.len() > 0 {
        let f1 = spec_field_set(f, vals[0]);
        if vals[0] != f.value {
            lemma_modified_monotone(f1, vals.skip(1));
        } else {
            assert(f1 == f);
            lemma_set_tracks_changes(f, vals.skip(1));
            assert(forall|i: int|
                0 <= i < vals.skip(1).len() ==> vals.skip(1)[i] == vals[i + 1]);
            if spec_field_run(f, vals).modified {
                let i = choose|i: int|
                    0 <= i < vals.skip(1).len() && vals.skip(1)[i] != f.value;
                assert(vals[i + 1] != f.value);
            }
            if exists|i: int| 0 <= i < vals.len() && vals[i] != f.value {
                let i = choose|i: int| 0 <= i < vals.len() && vals[i] != f.value;
                assert(i >= 1);
                assert(vals.skip(1)[i - 1] != f.value);
            }
        }
    }
}

/// A freshly constructed field reports itself modified until the first
/// `get_and_reset`, whatever `set` calls happen in between.
pub proof fn lemma_fresh_field_modified_once(v: ValueView, vals: Seq<ValueView>)
    ensures
        spec_field_run(spec_field_new(v), vals).modified,
{
    lemma_modified_monotone(spec_field_new(v), vals);
}

} // verus!
