//! The bookkeeping of a shader program's uniforms: which lookups succeed, and the one
//! value slot that each uniform location shares among its handles.
use vstd::prelude::*;

verus! {

/// Why a uniform could not be handed out.
#[derive(Debug, PartialEq, Eq, Structural)]
pub enum UniformError {
    /// The program has no active uniform of that name.
    UniformDoesNotExist,
    /// The uniform's type, as the driver reports it, is not the one asked for.
    UniformTypeMismatch(u32),
}

/// What a uniform lookup comes to, given the location the driver reports for the name
/// (`-1` when there is none), the type it reports there and the type asked for.
pub open spec fn spec_check_uniform(location: i32, reported_type: u32, expected_type: u32) -> Result<(), UniformError> {
    if location == -1 {
        Err(UniformError::UniformDoesNotExist)
    } else if expected_type != reported_type {
        Err(UniformError::UniformTypeMismatch(reported_type))
    } else {
        Ok(())
    }
}

/// Decides a uniform lookup: no location means no such uniform; a reported type other than
/// the one asked for is a mismatch that carries the reported type.
pub fn check_uniform(location: i32, reported_type: u32, expected_type: u32) -> (r: Result<(), UniformError>)
    ensures
        r == spec_check_uniform(location, reported_type, expected_type),
{
    if location == -1 {
        return Err(UniformError::UniformDoesNotExist);
    }
    if expected_type != reported_type {
        return Err(UniformError::UniformTypeMismatch(reported_type));
    }
    Ok(())
}

/// The value slots of a program's uniforms, one per location, in the order they were
/// first asked for.
pub struct UniformSlots<V> {
    slots: Vec<(i32, V)>,
}

/// No location occurs twice.
pub open spec fn distinct_locations<V>(s: Seq<(i32, V)>) -> bool {
    forall|i: int, j: int| 0 <= i < j < s.len() ==> #[trigger] s[i].0 != #[trigger] s[j].0
}

/// The position of the slot of `location`, if there is one.
pub open spec fn slot_of<V>(s: Seq<(i32, V)>, location: i32) -> Option<int> {
    if exists|i: int| 0 <= i < s.len() && #[trigger] s[i].0 == location {
        Some(choose|i: int| 0 <= i < s.len() && #[trigger] s[i].0 == location)
    } else {
        None
    }
}

impl<V> UniformSlots<V> {
    /// The slots, each a location and its value.
    pub closed spec fn entries(&self) -> Seq<(i32, V)> {
        self.slots@
    }

    #[verifier::type_invariant]
    closed spec fn well_formed(&self) -> bool {
        distinct_locations(self.slots@)
    }

    /// No slots yet.
    pub fn new() -> (r: UniformSlots<V>)
        ensures
            r.entries() == Seq::<(i32, V)>::empty(),
    {
        UniformSlots { slots: Vec::new() }
    }

    /// How many locations have a slot.
    pub fn len(&self) -> (r: usize)
        ensures
            r == self.entries().len(),
    {
        self.slots.len()
    }

    /// The location and value of the slot at position `i`.
    pub fn get(&self, i: usize) -> (r: &(i32, V))
        requires
            i < self.entries().len(),
        ensures
            *r == self.entries()[i as int],
    {
        &self.slots[i]
    }

    /// The position of the slot of `location`: the one it already has, or else a new slot
    /// holding `fresh` at the end. Existing slots never change.
    pub fn slot_for(&mut self, location: i32, fresh: V) -> (pos: usize)
        ensures
            distinct_locations(final(self).entries()),
            slot_of(old(self).entries(), location) matches Some(i) ==> {
                &&& pos == i
                &&& final(self).entries() == old(self).entries()
            },
            slot_of(old(self).entries(), location) is None ==> {
                &&& pos == old(self).entries().len()
                &&& final(self).entries() == old(self).entries().push((location, fresh))
            },
            pos < final(self).entries().len(),
            final(self).entries()[pos as int].0 == location,
    {
        proof {
            use_type_invariant(&*self);
        }
        let mut i: usize = 0;
        while i < self.slots.len()
            invariant
                i <= self.slots@.len(),
                distinct_locations(self.slots@),
                forall|k: int| 0 <= k < i ==> #[trigger] self.slots@[k].0 != location,
            decreases self.slots@.len() - i,
        {
            if self.slots[i].0 == location {
                proof {
                    let s = self.slots@;
                    assert(exists|k: int| 0 <= k < s.len() && #[trigger] s[k].0 == location);
                    let c = choose|k: int| 0 <= k < s.len() && #[trigger] s[k].0 == location;
                    if c != i as int {
                        if c < i {
                            assert(s[c].0 != location);
                        } else {
                            assert(s[i as int].0 != s[c].0);
                        }
                    }
                }
                return i;
            }
            i = i + 1;
        }
        proof {
            let s = self.slots@;
            assert(!(exists|k: int| 0 <= k < s.len() && #[trigger] s[k].0 == location));
        }
        let len = self.slots.len();
        let mut slots: Vec<(i32, V)> = Vec::new();
        std::mem::swap(&mut slots, &mut self.slots);
        slots.push((location, fresh));
        proof {
            let s = slots@;
            assert forall|a: int, b: int| 0 <= a < b < s.len() implies #[trigger] s[a].0 != #[trigger] s[b].0 by {
                if b == len as int {
                    assert(s[a] == old(self).slots@[a]);
                }
            }
        }
        self.slots = slots;
        len
    }
}

/// Asking twice for the slot of a location gives the same slot and adds nothing the
/// second time; slots of different locations differ.
pub proof fn law_slot_is_stable<V>(s: Seq<(i32, V)>, location: i32, fresh: V)
    requires
        distinct_locations(s),
    ensures
        ({
            let after = match slot_of(s, location) {
                Some(_) => s,
                None => s.push((location, fresh)),
            };
            &&& slot_of(after, location) is Some
            &&& after[slot_of(after, location)->0].0 == location
            &&& (slot_of(s, location) matches Some(i) ==> slot_of(after, location) == Some(i))
            &&& (slot_of(s, location) is None ==> slot_of(after, location) == Some(s.len() as int))
        }),
{
    let after = match slot_of(s, location) {
        Some(_) => s,
        None => s.push((location, fresh)),
    };
    if slot_of(s, location) is None {
        assert(after[s.len() as int].0 == location);
        assert(exists|i: int| 0 <= i < after.len() && #[trigger] after[i].0 == location);
        let c = choose|i: int| 0 <= i < after.len() && #[trigger] after[i].0 == location;
        if c < s.len() {
            assert(s[c].0 == location);
        }
    }
}

} // verus!
