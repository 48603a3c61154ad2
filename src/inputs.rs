//! The registry of named inputs. The providers themselves (video, picture,
//! camera, MIDI) live with the caller, keyed by the id the registry assigns;
//! the registry decides which name refers to which provider.

use vstd::prelude::*;
use crate::named::{unique_keys, has_key, key_index, lookup, upserted, without_key, lemma_upserted, lemma_without_key, position, upsert, take_key};
use crate::ratio::Ratio;

verus! {

#[derive(Clone, Copy, Debug, PartialEq, Eq, Structural)]
pub enum InputKind {
    Video,
    Picture,
    Camera,
    Midi,
}

/// What the registry knows of one provider: its identity and variant.
#[derive(Clone, Copy, Debug, PartialEq, Eq, Structural)]
pub struct InputSlot {
    pub id: u64,
    pub kind: InputKind,
}

/// A property change forwarded to one provider.
#[derive(Clone, Debug)]
pub enum InputProperty {
    Width(u64),
    Height(u64),
    Path(String),
    /// Playback speed in frames per beat.
    SpeedFpb(Ratio),
    /// Playback speed in frames per second.
    SpeedFps(Ratio),
}

#[derive(Clone, Copy, Debug, PartialEq, Eq, Structural)]
pub enum RegistryError {
    /// Every provider id has been handed out.
    IdsExhausted,
}

/// Names of the live providers, each mapped to its slot.
#[derive(Debug)]
pub struct InputRegistry {
    pub entries: Vec<(String, InputSlot)>,
    pub next_id: u64,
}

pub open spec fn ids_fresh(entries: Seq<(String, InputSlot)>, next_id: u64) -> bool {
    &&& forall|i: int| 0 <= i < entries.len() ==> #[trigger] entries[i].1.id < next_id
    &&& forall|i: int, j: int| 0 <= i < j < entries.len() ==> #[trigger] entries[i].1.id != #[trigger] entries[j].1.id
}

/// Removing a key keeps ids fresh and distinct, and none of them is the
/// removed entry's id.
proof fn lemma_without_key_ids(s: Seq<(String, InputSlot)>, k: Seq<char>, next_id: u64)
    requires
        ids_fresh(s, next_id),
    ensures
        ids_fresh(without_key(s, k), next_id),
        has_key(s, k) ==> forall|i: int| 0 <= i < without_key(s, k).len() ==> #[trigger] without_key(s, k)[i].1.id
            != s[key_index(s, k)].1.id,
{
    if has_key(s, k) {
        let x = key_index(s, k);
        let r = without_key(s, k);
        assert forall|i: int| 0 <= i < r.len() implies #[trigger] r[i].1.id < next_id && r[i].1.id != s[x].1.id by {
            let si = if i < x { i } else { i + 1 };
            assert(s[si].1.id < next_id);
            if si < x {
                assert(s[si].1.id != s[x].1.id);
            } else {
                assert(s[x].1.id != s[si].1.id);
            }
        }
        assert forall|i: int, j: int| 0 <= i < j < r.len() implies #[trigger] r[i].1.id != #[trigger] r[j].1.id by {
            let si = if i < x { i } else { i + 1 };
            let sj = if j < x { j } else { j + 1 };
            assert(s[si].1.id != s[sj].1.id);
        }
    }
}

/// Upserting a slot whose id no entry holds keeps ids distinct.
proof fn lemma_upserted_ids(s: Seq<(String, InputSlot)>, k: String, slot: InputSlot, next_id: u64)
    requires
        ids_fresh(s, next_id),
        slot.id < next_id,
        forall|i: int| 0 <= i < s.len() ==> #[trigger] s[i].1.id != slot.id,
    ensures
        ids_fresh(upserted(s, k, slot), next_id),
{
    let r = upserted(s, k, slot);
    assert forall|i: int, j: int| 0 <= i < j < r.len() implies #[trigger] r[i].1.id != #[trigger] r[j].1.id by {
        if i < s.len() && r[i] == s[i] && j < s.len() && r[j] == s[j] {
            assert(s[i].1.id != s[j].1.id);
        } else if i < s.len() && r[i] == s[i] {
            assert(s[i].1.id != slot.id);
        } else if j < s.len() && r[j] == s[j] {
            assert(s[j].1.id != slot.id);
        }
    }
    assert forall|i: int| 0 <= i < r.len() implies #[trigger] r[i].1.id < next_id by {
        if i < s.len() {
            assert(s[i].1.id < next_id);
        }
    }
}

impl InputRegistry {
    /// Names are unique, and so are ids, each below the next id to hand
    /// out: two names never share a provider.
    pub open spec fn wf(&self) -> bool {
        &&& unique_keys(self.entries@)
        &&& ids_fresh(self.entries@, self.next_id)
    }

    pub open spec fn slot(&self, name: Seq<char>) -> Option<InputSlot> {
        lookup(self.entries@, name)
    }

    pub fn new() -> (r: InputRegistry)
        ensures
            r.wf(),
            r.entries@.len() == 0,
            r.next_id == 0,
    {
        InputRegistry { entries: Vec::new(), next_id: 0 }
    }

    /// The slot registered under `name`.
    pub fn find(&self, name: &String) -> (r: Option<InputSlot>)
        requires
            self.wf(),
        ensures
            r == self.slot(name@),
    {
        match position(&self.entries, name) {
            Some(i) => Some(self.entries[i].1),
            None => None,
        }
    }

    /// Registers a new provider under `name` with a fresh id, in place of any
    /// provider of that name, which is returned beside the new slot.
    pub fn add(&mut self, name: String, kind: InputKind) -> (r: Result<(InputSlot, Option<InputSlot>), RegistryError>)
        requires
            old(self).wf(),
        ensures
            final(self).wf(),
            old(self).next_id == u64::MAX ==> r == Err::<(InputSlot, Option<InputSlot>), RegistryError>(
                RegistryError::IdsExhausted,
            ) && *final(self) == *old(self),
            old(self).next_id < u64::MAX ==> (r matches Ok((slot, replaced))
                && slot == (InputSlot { id: old(self).next_id, kind })
                && replaced == old(self).slot(name@)
                && final(self).entries@ == upserted(old(self).entries@, name, slot)
                && final(self).next_id == old(self).next_id + 1),
    {
        if self.next_id == u64::MAX {
            return Err(RegistryError::IdsExhausted);
        }
        let slot = InputSlot { id: self.next_id, kind };
        let replaced = self.find(&name);
        proof {
            assert forall|i: int| 0 <= i < self.entries@.len() implies #[trigger] self.entries@[i].1.id != slot.id by {
                assert(self.entries@[i].1.id < self.next_id);
            }
            assert forall|i: int| 0 <= i < self.entries@.len() implies #[trigger] self.entries@[i].1.id < self.next_id + 1 by {
                assert(self.entries@[i].1.id < self.next_id);
            }
            lemma_upserted_ids(self.entries@, name, slot, (self.next_id + 1) as u64);
        }
        upsert(&mut self.entries, name, slot);
        self.next_id = self.next_id + 1;
        Ok((slot, replaced))
    }

    /// Unregisters `name`, returning its slot.
    pub fn remove(&mut self, name: &String) -> (r: Option<InputSlot>)
        requires
            old(self).wf(),
        ensures
            final(self).wf(),
            r == old(self).slot(name@),
            r is None ==> *final(self) == *old(self),
            final(self).entries@ == without_key(old(self).entries@, name@),
            final(self).next_id == old(self).next_id,
    {
        proof {
            lemma_without_key_ids(self.entries@, name@, self.next_id);
        }
        take_key(&mut self.entries, name)
    }

    /// Moves the provider registered under `from` to the name `to`, keeping
    /// its slot; a provider already under `to` is dropped and returned as
    /// the second item. `None`, with nothing changed, when `from` is unknown.
    pub fn rename(&mut self, from: &String, to: String) -> (r: Option<(InputSlot, Option<InputSlot>)>)
        requires
            old(self).wf(),
        ensures
            final(self).wf(),
            final(self).next_id == old(self).next_id,
            old(self).slot(from@) is None ==> r is None && *final(self) == *old(self),
            old(self).slot(from@) matches Some(slot) ==> (r matches Some((moved, replaced))
                && moved == slot
                && replaced == lookup(without_key(old(self).entries@, from@), to@)
                && final(self).entries@ == upserted(without_key(old(self).entries@, from@), to, slot)),
    {
        let ghost before = self.entries@;
        proof {
            lemma_without_key_ids(before, from@, self.next_id);
        }
        match take_key(&mut self.entries, from) {
            None => None,
            Some(slot) => {
                proof {
                    let x = key_index(before, from@);
                    assert(before[x].1.id < self.next_id);
                    lemma_upserted_ids(self.entries@, to, slot, self.next_id);
                }
                let replaced = self.find(&to);
                upsert(&mut self.entries, to, slot);
                Some((slot, replaced))
            },
        }
    }

    /// Every registered slot, in registration order.
    pub fn slots(&self) -> (r: Vec<InputSlot>)
        ensures
            r@.len() == self.entries@.len(),
            forall|i: int| 0 <= i < r@.len() ==> #[trigger] r@[i] == self.entries@[i].1,
    {
        let mut r: Vec<InputSlot> = Vec::new();
        let mut i: usize = 0;
        while i < self.entries.len()
            invariant
                0 <= i <= self.entries@.len(),
                r@.len() == i,
                forall|j: int| 0 <= j < i ==> #[trigger] r@[j] == self.entries@[j].1,
            decreases self.entries@.len() - i,
        {
            r.push(self.entries[i].1);
            i = i + 1;
        }
        r
    }
}

/// Renaming a provider keeps its identity: the new name maps to the very
/// slot the old name had, the old name maps to nothing, and every other name
/// keeps its provider.
pub proof fn lemma_rename_keeps_identity(
    before: Seq<(String, InputSlot)>,
    from: Seq<char>,
    to: String,
    slot: InputSlot,
)
    requires
        unique_keys(before),
        lookup(before, from) == Some(slot),
    ensures
        ({
            let after = upserted(without_key(before, from), to, slot);
            &&& unique_keys(after)
            &&& lookup(after, to@) == Some(slot)
            &&& from != to@ ==> lookup(after, from) is None
            &&& forall|o: Seq<char>| o != from && o != to@ ==> lookup(after, o) == lookup(before, o)
        }),
{
    let mid = without_key(before, from);
    lemma_without_key(before, from);
    lemma_upserted(mid, to, slot);
}

} // verus!
