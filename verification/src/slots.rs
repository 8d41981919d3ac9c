//! The slot maps of the `slotmap` crate that hold the library's records,
//! with what the crate's source shows of the methods the library calls.
//!
//! A key is handed to the rest of the library as the 64-bit number that
//! `KeyData::as_ffi` gives: its version in the high half and its slot index
//! in the low half. Keys of stored values always have an odd version.

use vstd::prelude::*;
use slotmap::{DefaultKey, Key, KeyData, SlotMap};
use crate::model::{SetRecord, SetView, SoundRecord, SoundView, set_record_view, sound_record_view};

verus! {

/// The slot map of sounds. `SlotMap` bounds its key parameter by the
/// crate's `Key` trait, which cannot be declared here, so the map stands in
/// a field that only the trusted functions below touch.
#[verifier::external_body]
pub struct SoundSlots {
    inner: SlotMap<DefaultKey, SoundRecord>,
}

/// The slot map of sets, held as [`SoundSlots`] holds the sounds.
#[verifier::external_body]
pub struct SetSlots {
    inner: SlotMap<DefaultKey, SetRecord>,
}

/// `serde_json::Value`, carried through opaque.
#[verifier::external_type_specification]
#[verifier::external_body]
pub struct ExJsonValue(serde_json::Value);

/// `serde_json::Error`, carried through opaque.
#[verifier::external_type_specification]
#[verifier::external_body]
pub struct ExJsonError(serde_json::Error);

/// What a JSON value describes as a slot map of sounds: what the map that
/// `serde_json::from_value` reads from it holds, or `None` where it reads none.
pub uninterp spec fn stored_sounds(v: serde_json::Value) -> Option<Map<u64, SoundView>>;

/// What a JSON value describes as a slot map of sets: what the map that
/// `serde_json::from_value` reads from it holds, or `None` where it reads none.
pub uninterp spec fn stored_sets(v: serde_json::Value) -> Option<Map<u64, SetView>>;

/// The versions of all slots of a slot map of sounds, vacant ones
/// included, the sentinel slot 0 first: odd where a slot holds a value,
/// even where it is vacant.
pub uninterp spec fn sound_slot_versions(m: SoundSlots) -> Seq<u32>;

/// The versions of all slots of a slot map of sets, as
/// [`sound_slot_versions`] gives those of a map of sounds.
pub uninterp spec fn set_slot_versions(m: SetSlots) -> Seq<u32>;

/// The identifier of the value in slot `i` when the slot has version `v`.
pub open spec fn slot_key(i: int, v: u32) -> u64 {
    (v * 0x1_0000_0000 + i) as u64
}

/// Whether `keys` are the identifiers of the occupied slots among slots of
/// these `versions`, slot 0 being the vacant sentinel, and there are at most
/// `u32::MAX` slots.
pub open spec fn slots_agree(keys: Set<u64>, versions: Seq<u32>) -> bool {
    &&& 1 <= versions.len() <= u32::MAX
    &&& versions[0] == 0
    &&& forall|k: u64|
        #[trigger] keys.contains(k) <==> (1 <= slot_index(k) < versions.len() && versions[slot_index(k)] % 2 == 1
            && k / 0x1_0000_0000 == versions[slot_index(k)])
}

/// How an insertion that returned `id` changes the slot versions: a
/// vacant slot, where there is one, is taken and its version raised by one;
/// otherwise a slot of version 1 is added. `id` names the slot taken.
pub open spec fn inserted_slot(old: Seq<u32>, new: Seq<u32>, id: u64) -> bool {
    let i = slot_index(id);
    &&& (i == old.len() && new == old.push(1)) || (1 <= i < old.len() && old[i] % 2 == 0 && new == old.update(
        i,
        (old[i] + 1) as u32,
    ))
    &&& id == slot_key(i, new[i])
    &&& (exists|j: int| 1 <= j < old.len() && #[trigger] old[j] % 2 == 0) ==> i < old.len()
    &&& new.len() <= u32::MAX
}

/// How removing the value named `id` changes the slot versions: where
/// there was one, its slot's version is raised by one, wrapping around.
pub open spec fn removed_slot(old: Seq<u32>, new: Seq<u32>, id: u64, present: bool) -> bool {
    if present {
        let i = slot_index(slot_id(id));
        new == old.update(i, ((old[i] + 1) % 0x1_0000_0000) as u32)
    } else {
        new == old
    }
}

/// Upper bound, exclusive, on the number of values that a slot map holds
/// before an insertion: at `u32::MAX - 1` values an insertion panics.
pub const SLOT_LIMIT: u64 = 4294967294;

/// The identifier that a number `id` is taken as by `KeyData::from_ffi`:
/// the same slot index, with the lowest bit of the version set.
pub open spec fn slot_id(id: u64) -> u64 {
    if (id / 0x1_0000_0000) % 2 == 1 {
        id
    } else {
        (id + 0x1_0000_0000) as u64
    }
}

/// The slot index part of an identifier.
pub open spec fn slot_index(id: u64) -> int {
    (id % 0x1_0000_0000) as int
}

/// What a slot map of sounds holds: identifier to sound.
pub uninterp spec fn sound_slots(m: SoundSlots) -> Map<u64, SoundView>;

/// What a slot map of sets holds: identifier to set.
pub uninterp spec fn set_slots(m: SetSlots) -> Map<u64, SetView>;

/// `SlotMap::new`: an empty map, of the sentinel slot alone, at version 0.
#[verifier::external_body]
pub(crate) fn new_sound_slots() -> (r: SoundSlots)
    ensures
        sound_slots(r).dom() == Set::<u64>::empty(),
        sound_slot_versions(r) == seq![0u32],
        slots_agree(sound_slots(r).dom(), sound_slot_versions(r)),
{
    SoundSlots { inner: SlotMap::new() }
}

/// `SlotMap::new`: an empty map, of the sentinel slot alone, at version 0.
#[verifier::external_body]
pub(crate) fn new_set_slots() -> (r: SetSlots)
    ensures
        set_slots(r).dom() == Set::<u64>::empty(),
        set_slot_versions(r) == seq![0u32],
        slots_agree(set_slots(r).dom(), set_slot_versions(r)),
{
    SetSlots { inner: SlotMap::new() }
}

/// `SlotMap::len`: the number of values held.
#[verifier::external_body]
pub(crate) fn sound_slots_len(m: &SoundSlots) -> (n: usize)
    ensures
        n == sound_slots(*m).len(),
{
    m.inner.len()
}

/// `SlotMap::len`: the number of values held.
#[verifier::external_body]
pub(crate) fn set_slots_len(m: &SetSlots) -> (n: usize)
    ensures
        n == set_slots(*m).len(),
{
    m.inner.len()
}

/// `SlotMap::insert`: stores the value under a key that no stored value
/// had, with an odd version, counts one value more, and returns that key.
/// The value goes to a vacant slot, raising its version by one, where there
/// is one, and otherwise to a new slot of version 1.
#[verifier::external_body]
pub(crate) fn insert_sound_slot(m: &mut SoundSlots, rec: SoundRecord) -> (id: u64)
    requires
        sound_slots(*old(m)).len() < SLOT_LIMIT,
    ensures
        !sound_slots(*old(m)).dom().contains(id),
        slot_id(id) == id,
        sound_slots(*final(m)) == sound_slots(*old(m)).insert(id, sound_record_view(rec)),
        sound_slots(*final(m)).len() == sound_slots(*old(m)).len() + 1,
        inserted_slot(sound_slot_versions(*old(m)), sound_slot_versions(*final(m)), id),
        slots_agree(sound_slots(*final(m)).dom(), sound_slot_versions(*final(m))),
{
    m.inner.insert(rec).data().as_ffi()
}

/// `SlotMap::insert`: stores the value under a key that no stored value
/// had, with an odd version, counts one value more, and returns that key.
/// The value goes to a vacant slot, raising its version by one, where there
/// is one, and otherwise to a new slot of version 1.
#[verifier::external_body]
pub(crate) fn insert_set_slot(m: &mut SetSlots, rec: SetRecord) -> (id: u64)
    requires
        set_slots(*old(m)).len() < SLOT_LIMIT,
    ensures
        !set_slots(*old(m)).dom().contains(id),
        slot_id(id) == id,
        set_slots(*final(m)) == set_slots(*old(m)).insert(id, set_record_view(rec)),
        set_slots(*final(m)).len() == set_slots(*old(m)).len() + 1,
        inserted_slot(set_slot_versions(*old(m)), set_slot_versions(*final(m)), id),
        slots_agree(set_slots(*final(m)).dom(), set_slot_versions(*final(m))),
{
    m.inner.insert(rec).data().as_ffi()
}

/// `SlotMap::get` with the key `KeyData::from_ffi(id)`.
#[verifier::external_body]
pub(crate) fn get_sound_slot(m: &SoundSlots, id: u64) -> (r: Option<&SoundRecord>)
    ensures
        r is Some == sound_slots(*m).dom().contains(slot_id(id)),
        r matches Some(rec) ==> sound_record_view(*rec) == sound_slots(*m)[slot_id(id)],
{
    m.inner.get(KeyData::from_ffi(id).into())
}

/// `SlotMap::get` with the key `KeyData::from_ffi(id)`.
#[verifier::external_body]
pub(crate) fn get_set_slot(m: &SetSlots, id: u64) -> (r: Option<&SetRecord>)
    ensures
        r is Some == set_slots(*m).dom().contains(slot_id(id)),
        r matches Some(rec) ==> set_record_view(*rec) == set_slots(*m)[slot_id(id)],
{
    m.inner.get(KeyData::from_ffi(id).into())
}

/// `SlotMap::get_mut` with the key `KeyData::from_ffi(id)`: a reference to
/// the stored value, through which the value under that key is replaced;
/// the slots and their versions stay as they are.
#[verifier::external_body]
pub(crate) fn get_sound_slot_mut(m: &mut SoundSlots, id: u64) -> (r: Option<&mut SoundRecord>)
    ensures
        r is Some == sound_slots(*old(m)).dom().contains(slot_id(id)),
        r matches Some(rec) ==> sound_record_view(*rec) == sound_slots(*old(m))[slot_id(id)],
        r matches Some(rec) ==> sound_slots(*final(m)) == sound_slots(*old(m)).insert(
            slot_id(id),
            sound_record_view(*final(rec)),
        ),
        r is None ==> sound_slots(*final(m)) == sound_slots(*old(m)),
        sound_slot_versions(*final(m)) == sound_slot_versions(*old(m)),
        slots_agree(sound_slots(*final(m)).dom(), sound_slot_versions(*final(m))),
{
    m.inner.get_mut(KeyData::from_ffi(id).into())
}

/// `SlotMap::remove` with the key `KeyData::from_ffi(id)`: takes the value
/// out, if one is stored under that key, and raises its slot's version by
/// one, wrapping around.
#[verifier::external_body]
pub(crate) fn remove_set_slot(m: &mut SetSlots, id: u64) -> (r: Option<SetRecord>)
    ensures
        r is Some == set_slots(*old(m)).dom().contains(slot_id(id)),
        r matches Some(rec) ==> set_record_view(rec) == set_slots(*old(m))[slot_id(id)],
        set_slots(*final(m)) == set_slots(*old(m)).remove(slot_id(id)),
        removed_slot(set_slot_versions(*old(m)), set_slot_versions(*final(m)), id, r is Some),
        slots_agree(set_slots(*final(m)).dom(), set_slot_versions(*final(m))),
{
    m.inner.remove(KeyData::from_ffi(id).into())
}

/// `SlotMap::keys`, each key as `as_ffi` gives it: every key once, in
/// the order of the slots, each with an odd version.
#[verifier::external_body]
pub(crate) fn sound_slot_ids(m: &SoundSlots) -> (r: Vec<u64>)
    ensures
        r@.no_duplicates(),
        forall|i: int| 0 <= i < r.len() ==> sound_slots(*m).dom().contains(#[trigger] r@[i]),
        forall|i: int| 0 <= i < r.len() ==> slot_id(#[trigger] r@[i]) == r@[i],
        forall|k: u64| sound_slots(*m).dom().contains(k) ==> r@.contains(k),
        forall|i: int, j: int|
            0 <= i < j < r.len() ==> slot_index(#[trigger] r@[i]) < slot_index(#[trigger] r@[j]),
{
    m.inner.keys().map(|k| k.data().as_ffi()).collect()
}

/// `SlotMap::keys`, each key as `as_ffi` gives it: every key once, in
/// the order of the slots, each with an odd version.
#[verifier::external_body]
pub(crate) fn set_slot_ids(m: &SetSlots) -> (r: Vec<u64>)
    ensures
        r@.no_duplicates(),
        forall|i: int| 0 <= i < r.len() ==> set_slots(*m).dom().contains(#[trigger] r@[i]),
        forall|i: int| 0 <= i < r.len() ==> slot_id(#[trigger] r@[i]) == r@[i],
        forall|k: u64| set_slots(*m).dom().contains(k) ==> r@.contains(k),
        forall|i: int, j: int|
            0 <= i < j < r.len() ==> slot_index(#[trigger] r@[i]) < slot_index(#[trigger] r@[j]),
{
    m.inner.keys().map(|k| k.data().as_ffi()).collect()
}

/// `serde_json::to_value` on the slot map of sounds. The map serializes as
/// the sequence of its slots, each a struct of its version and its value
/// (strings, optional strings, integers below 2^64 and sequences of them),
/// none of which serde_json's value serializer refuses (it refuses only
/// non-string map keys and integers out of the 64-bit range), so the call
/// succeeds. Reading the value back gives every occupied slot again with
/// its version and value, so what the map read back holds is what this map
/// holds. Reading it back succeeds where the map has fewer than `u32::MAX`
/// slots, vacant ones included; slotmap refuses more.
#[verifier::external_body]
pub(crate) fn sound_slots_to_json(m: &SoundSlots) -> (r: Result<serde_json::Value, serde_json::Error>)
    ensures
        r is Ok,
        r matches Ok(v) ==> (stored_sounds(v) matches Some(c) ==> c == sound_slots(*m)),
        r matches Ok(v) ==> (sound_slot_versions(*m).len() < u32::MAX ==> stored_sounds(v) == Some(
            sound_slots(*m),
        )),
{
    serde_json::to_value(&m.inner)
}

/// `serde_json::to_value` on the slot map of sets. The map serializes as
/// the sequence of its slots, each a struct of its version and its value
/// (strings, optional strings, integers below 2^64 and sequences of them),
/// none of which serde_json's value serializer refuses (it refuses only
/// non-string map keys and integers out of the 64-bit range), so the call
/// succeeds. Reading the value back gives every occupied slot again with
/// its version and value, so what the map read back holds is what this map
/// holds. Reading it back succeeds where the map has fewer than `u32::MAX`
/// slots, vacant ones included; slotmap refuses more.
#[verifier::external_body]
pub(crate) fn set_slots_to_json(m: &SetSlots) -> (r: Result<serde_json::Value, serde_json::Error>)
    ensures
        r is Ok,
        r matches Ok(v) ==> (stored_sets(v) matches Some(c) ==> c == set_slots(*m)),
        r matches Ok(v) ==> (set_slot_versions(*m).len() < u32::MAX ==> stored_sets(v) == Some(set_slots(*m))),
{
    serde_json::to_value(&m.inner)
}

/// `serde_json::from_value` into a slot map of sounds: succeeds exactly where
/// the value describes one, and the map then holds what the value describes,
/// in fewer than `u32::MAX` slots whose sentinel has version 0 and whose
/// occupied slots have odd versions.
#[verifier::external_body]
pub(crate) fn sound_slots_from_json(v: serde_json::Value) -> (r: Result<SoundSlots, serde_json::Error>)
    ensures
        r is Ok <==> stored_sounds(v) is Some,
        r matches Ok(m) ==> stored_sounds(v) == Some(sound_slots(m)),
        r matches Ok(m) ==> slots_agree(sound_slots(m).dom(), sound_slot_versions(m))
            && sound_slot_versions(m).len() < u32::MAX,
{
    match serde_json::from_value(v) {
        Ok(inner) => Ok(SoundSlots { inner }),
        Err(e) => Err(e),
    }
}

/// `serde_json::from_value` into a slot map of sets: succeeds exactly where
/// the value describes one, and the map then holds what the value describes,
/// in fewer than `u32::MAX` slots whose sentinel has version 0 and whose
/// occupied slots have odd versions.
#[verifier::external_body]
pub(crate) fn set_slots_from_json(v: serde_json::Value) -> (r: Result<SetSlots, serde_json::Error>)
    ensures
        r is Ok <==> stored_sets(v) is Some,
        r matches Ok(m) ==> stored_sets(v) == Some(set_slots(m)),
        r matches Ok(m) ==> slots_agree(set_slots(m).dom(), set_slot_versions(m))
            && set_slot_versions(m).len() < u32::MAX,
{
    match serde_json::from_value(v) {
        Ok(inner) => Ok(SetSlots { inner }),
        Err(e) => Err(e),
    }
}

} // verus!
