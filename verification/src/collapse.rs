//! The collapse state of one container: a flag for each direct child.

use crate::common::value_length;
use crate::value::{Json, JsonValue};
use crate::JsonViewerOption;
use vstd::prelude::*;

verus! {


/// The flags with which a container's children start: a child is collapsed
/// if the configuration collapses every child, or if the size rule applies
/// to the child's own length.
pub open spec fn initial_flags(value: Json, option: JsonViewerOption) -> Seq<bool> {
    Seq::new(value.length(), |i: int| option.collapses(value.child(i).length()))
}

/// The flags after a toggle of `index`: that flag inverted and every other
/// flag as it was; the same flags where `index` is out of bounds.
pub open spec fn toggled(flags: Seq<bool>, index: int) -> Seq<bool> {
    if 0 <= index < flags.len() {
        flags.update(index, !flags[index])
    } else {
        flags
    }
}

/// Which children of one container are collapsed: one flag for each direct
/// child, by the child's index.
#[derive(Debug, PartialEq, Eq)]
pub struct CollapseState {
    pub flags: Vec<bool>,
}

impl View for CollapseState {
    type V = Seq<bool>;

    open spec fn view(&self) -> Seq<bool> {
        self.flags@
    }
}

impl Clone for CollapseState {
    fn clone(&self) -> (r: Self)
        ensures
            r@ == self@,
    {
        CollapseState { flags: self.flags.clone() }
    }
}

/// The collapse state with which the container `value` is first rendered.
pub fn get_collapsed_state(value: &JsonValue, option: &JsonViewerOption) -> (r: CollapseState)
    ensures
        r@ == initial_flags(value@, *option),
        r@.len() == value@.length(),
{
    let mut flags: Vec<bool> = Vec::new();
    proof {
        value.lemma_children();
    }
    match value {
        JsonValue::Array(items) => {
            let mut k: usize = 0;
            while k < items.len()
                invariant
                    k <= items@.len(),
                    flags@.len() == k,
                    forall|i: int|
                        0 <= i < k ==> flags@[i] == option.collapses(items@[i]@.length()),
                decreases items@.len() - k,
            {
                let length = value_length(&items[k]);
                flags.push(option.collapsable || option.is_force_default_collapse(length));
                k += 1;
            }
        },
        JsonValue::Object(entries) => {
            let mut k: usize = 0;
            while k < entries.len()
                invariant
                    k <= entries@.len(),
                    flags@.len() == k,
                    forall|i: int|
                        0 <= i < k ==> flags@[i] == option.collapses(
                            entries@[i].value@.length(),
                        ),
                decreases entries@.len() - k,
            {
                let length = value_length(&entries[k].value);
                flags.push(option.collapsable || option.is_force_default_collapse(length));
                k += 1;
            }
        },
        _ => {},
    }
    assert(flags@ =~= initial_flags(value@, *option));
    CollapseState { flags }
}

/// Whether a collapse state made for `old_count` children must be made
/// afresh for a container that now has `new_count`.
pub fn should_reinitialize(old_count: usize, new_count: usize) -> (b: bool)
    ensures
        b == (old_count != new_count),
{
    old_count != new_count
}

impl CollapseState {
    /// The number of flags.
    pub fn len(&self) -> (n: usize)
        ensures
            n == self@.len(),
    {
        self.flags.len()
    }

    /// Whether the child at `index` is collapsed. A child without a flag
    /// counts as the configuration's default says.
    pub fn is_collapsed(&self, index: usize, option: &JsonViewerOption) -> (b: bool)
        ensures
            b == if index < self@.len() {
                self@[index as int]
            } else {
                option.collapsable
            },
    {
        if index < self.flags.len() {
            self.flags[index]
        } else {
            option.collapsable
        }
    }

    /// Inverts the flag of the child at `index`, and leaves the state as it
    /// is where there is no such child.
    pub fn toggle(&mut self, index: usize)
        ensures
            final(self)@ == toggled(old(self)@, index as int),
            final(self)@.len() == old(self)@.len(),
    {
        if index < self.flags.len() {
            let flag = self.flags[index];
            self.flags.set(index, !flag);
        }
    }

    /// The state to go on with when the container is now `value`: this state
    /// where it has one flag for each child of `value`, and the initial
    /// state of `value`, with nothing kept, where it has not.
    pub fn reconcile(self, value: &JsonValue, option: &JsonViewerOption) -> (r: CollapseState)
        ensures
            r@ == if self@.len() == value@.length() {
                self@
            } else {
                initial_flags(value@, *option)
            },
            r@.len() == value@.length(),
    {
        if should_reinitialize(self.flags.len(), value_length(value)) {
            get_collapsed_state(value, option)
        } else {
            self
        }
    }
}

/// A toggle changes the flag of its index and no other.
pub proof fn lemma_toggle_changes_one_flag(flags: Seq<bool>, index: int)
    ensures
        toggled(flags, index).len() == flags.len(),
        0 <= index < flags.len() ==> toggled(flags, index)[index] == !flags[index],
        forall|j: int| 0 <= j < flags.len() && j != index ==> toggled(flags, index)[j] == flags[j],
{
}

/// Two toggles of one index give back the state they started from.
pub proof fn lemma_toggle_twice(flags: Seq<bool>, index: int)
    ensures
        toggled(toggled(flags, index), index) == flags,
{
    assert(toggled(toggled(flags, index), index) =~= flags);
}

/// The initial flags of a container are one for each of its direct children.
pub proof fn lemma_initial_flags_length(value: Json, option: JsonViewerOption)
    ensures
        initial_flags(value, option).len() == value.length(),
        forall|i: int|
            0 <= i < value.length() ==> initial_flags(value, option)[i] == option.collapses(
                value.child(i).length(),
            ),
{
}

} // verus!
