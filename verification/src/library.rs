//! The sound library: every sound found in the sounds folder, and the sets
//! that users make of them.

use vstd::prelude::*;
use crate::model::{SetView, Sound, SoundSet, SoundView};
use crate::slots::{
    SetSlots, SoundSlots, get_set_slot, get_sound_slot, get_sound_slot_mut, insert_set_slot,
    insert_sound_slot, new_set_slots, new_sound_slots, remove_set_slot, set_slot_ids, set_slots,
    slot_id, slot_index, sound_slot_ids, sound_slots, SLOT_LIMIT, set_slots_from_json,
    set_slots_to_json, sound_slots_from_json, sound_slots_to_json, set_slots_len, sound_slots_len, stored_sets, stored_sounds, sound_slot_versions,
    set_slot_versions, inserted_slot, removed_slot, slots_agree, slot_key,
};
use crate::text::{path_matches, paths_equal, trim, trimmed};

verus! {

/// Why the stored library could not be read or written.
#[derive(PartialEq, Eq, Structural)]
pub enum StoreError {
    /// The stored sounds do not describe a slot map of sounds.
    MalformedSounds,
    /// The stored sets do not describe a slot map of sets.
    MalformedSets,
    /// The library could not be turned into JSON.
    Unserializable,
}

/// The library as stored in the data file.
pub struct SoundsFile {
    pub sounds: SoundSlots,
    pub sets: SetSlots,
}

/// The view of a [`SoundsFile`]: sounds and sets by identifier.
pub struct LibraryView {
    pub sounds: Map<u64, SoundView>,
    pub sets: Map<u64, SetView>,
}

impl View for SoundsFile {
    type V = LibraryView;

    open spec fn view(&self) -> LibraryView {
        LibraryView { sounds: sound_slots(self.sounds), sets: set_slots(self.sets) }
    }
}

/// The views of a sequence of strings.
pub open spec fn strings_view(v: Seq<String>) -> Seq<Seq<char>> {
    v.map_values(|s: String| s@)
}

/// The views of a sequence of sounds.
pub open spec fn sounds_view(v: Seq<Sound>) -> Seq<SoundView> {
    v.map_values(|s: Sound| s@)
}

/// Whether some sound of `m` lies at `p`: its path is `p`, or is the same
/// path as `p` when compared as paths.
pub open spec fn known_path(m: Map<u64, SoundView>, p: Seq<char>) -> bool {
    exists|k: u64| #[trigger] m.dom().contains(k) && path_matches(m[k].path, p)
}

/// Whether some path of `v` matches `p`.
pub open spec fn listed_path(v: Seq<Seq<char>>, p: Seq<char>) -> bool {
    exists|j: int| 0 <= j < v.len() && path_matches(#[trigger] v[j], p)
}

/// The paths of `entries` that no sound of `m` lies at, in their order.
pub open spec fn unknown_paths(m: Map<u64, SoundView>, entries: Seq<Seq<char>>) -> Seq<Seq<char>>
    decreases entries.len(),
{
    if entries.len() == 0 {
        Seq::empty()
    } else {
        let rest = unknown_paths(m, entries.drop_last());
        if known_path(m, entries.last()) {
            rest
        } else {
            rest.push(entries.last())
        }
    }
}

/// `m` with an unnamed sound at `paths[i]` added under `ids[i]`, for each `i`.
pub open spec fn with_new_sounds(
    m: Map<u64, SoundView>,
    ids: Seq<u64>,
    paths: Seq<Seq<char>>,
) -> Map<u64, SoundView>
    decreases ids.len(),
{
    if ids.len() == 0 {
        m
    } else {
        with_new_sounds(m, ids.drop_last(), paths.drop_last()).insert(
            ids.last(),
            SoundView { path: paths.last(), name: None },
        )
    }
}

/// The sounds that the identifiers `members` name, in their order; an
/// identifier that names no sound is passed over.
pub open spec fn resolve_members(sounds: Map<u64, SoundView>, members: Seq<u64>) -> Seq<SoundView>
    decreases members.len(),
{
    if members.len() == 0 {
        Seq::empty()
    } else {
        let rest = resolve_members(sounds, members.drop_last());
        let k = slot_id(members.last());
        if sounds.dom().contains(k) {
            rest.push(sounds[k])
        } else {
            rest
        }
    }
}

/// The sounds of the set `id`, or `None` where there is no such set.
pub open spec fn set_listing(v: LibraryView, id: u64) -> Option<Seq<SoundView>> {
    if v.sets.dom().contains(slot_id(id)) {
        Some(resolve_members(v.sounds, v.sets[slot_id(id)].sounds))
    } else {
        None
    }
}

/// The name that a sound is given from what a user typed: the input
/// without surrounding white space, or no name where nothing remains.
pub open spec fn given_name(input: Seq<char>) -> Option<Seq<char>> {
    let t = trimmed(input);
    if t.len() == 0 {
        None
    } else {
        Some(t)
    }
}

/// The sounds of `m` after the sound `id` is given the name typed as `input`.
pub open spec fn renamed(m: Map<u64, SoundView>, id: u64, input: Seq<char>) -> Map<u64, SoundView> {
    m.insert(slot_id(id), SoundView { path: m[slot_id(id)].path, name: given_name(input) })
}

/// The message of the error that renaming an unknown sound gives.
pub open spec fn sound_not_found() -> Seq<char> {
    seq!['s', 'o', 'u', 'n', 'd', ' ', 'n', 'o', 't', ' ', 'f', 'o', 'u', 'n', 'd']
}

proof fn lemma_with_new_sounds_dom(m: Map<u64, SoundView>, ids: Seq<u64>, paths: Seq<Seq<char>>, k: u64)
    ensures
        with_new_sounds(m, ids, paths).dom().contains(k) <==> (m.dom().contains(k) || ids.contains(k)),
        !ids.contains(k) ==> with_new_sounds(m, ids, paths).dom().contains(k) ==> with_new_sounds(m, ids, paths)[k] == m[k],
    decreases ids.len(),
{
    if ids.len() > 0 {
        lemma_with_new_sounds_dom(m, ids.drop_last(), paths.drop_last(), k);
        if ids.drop_last().contains(k) {
            let i = choose|i: int| 0 <= i < ids.drop_last().len() && ids.drop_last()[i] == k;
            assert(ids[i] == k);
        }
        if ids.contains(k) && k != ids.last() {
            let i = choose|i: int| 0 <= i < ids.len() && ids[i] == k;
            assert(ids.drop_last()[i] == k);
        }
    }
}

/// Whether some path of `v` is the same path as `s`.
fn contains_path(v: &Vec<String>, s: &String) -> (r: bool)
    ensures
        r == listed_path(strings_view(v@), s@),
{
    let mut i: usize = 0;
    while i < v.len()
        invariant
            i <= v.len(),
            forall|j: int| 0 <= j < i ==> !path_matches(#[trigger] v@[j]@, s@),
        decreases v.len() - i,
    {
        if paths_equal(&v[i], s) {
            assert(path_matches(strings_view(v@)[i as int], s@));
            return true;
        }
        i = i + 1;
    }
    proof {
        if listed_path(strings_view(v@), s@) {
            let j = choose|j: int| 0 <= j < strings_view(v@).len() && path_matches(#[trigger] strings_view(v@)[j], s@);
            assert(path_matches(v@[j]@, s@));
        }
    }
    false
}

impl SoundsFile {
    /// The library that the stored JSON values of the sounds and of the
    /// sets describe. Fails, naming the part, where one of them describes
    /// no slot map of that kind; the sounds are read first.
    pub fn from_stored(sounds: serde_json::Value, sets: serde_json::Value) -> (r: Result<SoundsFile, StoreError>)
        ensures
            r is Ok <==> stored_sounds(sounds) is Some && stored_sets(sets) is Some,
            r matches Ok(f) ==> stored_sounds(sounds) == Some(f@.sounds) && stored_sets(sets) == Some(f@.sets),
            stored_sounds(sounds) is None ==> r == Err::<SoundsFile, StoreError>(StoreError::MalformedSounds),
            stored_sounds(sounds) is Some && stored_sets(sets) is None ==> r == Err::<SoundsFile, StoreError>(
                StoreError::MalformedSets,
            ),
    {
        let sounds = match sound_slots_from_json(sounds) {
            Ok(m) => m,
            Err(_) => return Err(StoreError::MalformedSounds),
        };
        let sets = match set_slots_from_json(sets) {
            Ok(m) => m,
            Err(_) => return Err(StoreError::MalformedSets),
        };
        Ok(SoundsFile { sounds, sets })
    }

    /// The JSON values of the sounds and of the sets, to be stored. Always
    /// succeeds: a library's slot maps always have a JSON form. Each value,
    /// where it is read back, describes the same sounds, or sets, as this
    /// library holds; it is read back wherever its slot map has fewer than
    /// `u32::MAX` slots, vacant ones included.
    pub fn to_stored(&self) -> (r: Result<(serde_json::Value, serde_json::Value), StoreError>)
        ensures
            r is Ok,
            r matches Ok(p) ==> (stored_sounds(p.0) matches Some(c) ==> c == self@.sounds),
            r matches Ok(p) ==> (stored_sets(p.1) matches Some(c) ==> c == self@.sets),
            r matches Ok(p) ==> (sound_slot_versions(self.sounds).len() < u32::MAX ==> stored_sounds(p.0) == Some(
                self@.sounds,
            )),
            r matches Ok(p) ==> (set_slot_versions(self.sets).len() < u32::MAX ==> stored_sets(p.1) == Some(
                self@.sets,
            )),
    {
        let sounds = match sound_slots_to_json(&self.sounds) {
            Ok(v) => v,
            Err(_) => return Err(StoreError::Unserializable),
        };
        let sets = match set_slots_to_json(&self.sets) {
            Ok(v) => v,
            Err(_) => return Err(StoreError::Unserializable),
        };
        Ok((sounds, sets))
    }

    /// An empty library.
    pub fn new() -> (r: SoundsFile)
        ensures
            r@.sounds.dom() == Set::<u64>::empty(),
            r@.sets.dom() == Set::<u64>::empty(),
            sound_slot_versions(r.sounds) == seq![0u32],
            set_slot_versions(r.sets) == seq![0u32],
            slots_agree(r@.sets.dom(), set_slot_versions(r.sets)),
    {
        SoundsFile { sounds: new_sound_slots(), sets: new_set_slots() }
    }

    /// The paths of all sounds, in the order of their slots.
    fn sound_paths(&self) -> (r: Vec<String>)
        ensures
            forall|p: Seq<char>| #[trigger] listed_path(strings_view(r@), p) <==> known_path(self@.sounds, p),
    {
        let ids = sound_slot_ids(&self.sounds);
        let mut paths: Vec<String> = Vec::new();
        let mut i: usize = 0;
        while i < ids.len()
            invariant
                i <= ids.len(),
                paths.len() == i,
                forall|j: int| 0 <= j < ids.len() ==> self@.sounds.dom().contains(#[trigger] ids@[j]),
                forall|j: int| 0 <= j < ids.len() ==> slot_id(#[trigger] ids@[j]) == ids@[j],
                forall|j: int| 0 <= j < i ==> #[trigger] paths@[j]@ == self@.sounds[ids@[j]].path,
            decreases ids.len() - i,
        {
            let id = ids[i];
            proof {
                assert(self@.sounds.dom().contains(ids@[i as int]));
                assert(slot_id(id) == id);
            }
            let rec = get_sound_slot(&self.sounds, id);
            match rec {
                Some(rec) => {
                    paths.push(rec.0.clone());
                },
                None => {
                    assert(false);
                    return paths;
                },
            }
            i = i + 1;
        }
        proof {
            assert forall|p: Seq<char>| #[trigger] listed_path(strings_view(paths@), p) <==> known_path(self@.sounds, p) by {
                if listed_path(strings_view(paths@), p) {
                    let j = choose|j: int| 0 <= j < strings_view(paths@).len() && path_matches(#[trigger] strings_view(paths@)[j], p);
                    assert(paths@[j]@ == strings_view(paths@)[j]);
                    assert(self@.sounds.dom().contains(ids@[j]));
                }
                if known_path(self@.sounds, p) {
                    let k = choose|k: u64| #[trigger] self@.sounds.dom().contains(k) && path_matches(self@.sounds[k].path, p);
                    assert(ids@.contains(k));
                    let j = choose|j: int| 0 <= j < ids@.len() && ids@[j] == k;
                    assert(path_matches(strings_view(paths@)[j], p));
                }
            }
        }
        paths
    }

    /// Every sound with its identifier, in the order of the slots.
    pub fn sounds_list(&self) -> (r: Vec<(u64, Sound)>)
        ensures
            forall|i: int| 0 <= i < r.len() ==> #[trigger] self@.sounds.dom().contains(r@[i].0)
                && r@[i].1@ == self@.sounds[r@[i].0],
            forall|i: int| 0 <= i < r.len() ==> slot_id(#[trigger] r@[i].0) == r@[i].0,
            forall|k: u64| #[trigger] self@.sounds.dom().contains(k) ==> exists|i: int| 0 <= i < r.len() && r@[i].0 == k,
            forall|i: int, j: int| 0 <= i < j < r.len() ==> slot_index(#[trigger] r@[i].0) < slot_index(#[trigger] r@[j].0),
    {
        let ids = sound_slot_ids(&self.sounds);
        let mut out: Vec<(u64, Sound)> = Vec::new();
        let mut i: usize = 0;
        while i < ids.len()
            invariant
                i <= ids.len(),
                out.len() == i,
                forall|j: int| 0 <= j < ids.len() ==> self@.sounds.dom().contains(#[trigger] ids@[j]),
                forall|j: int| 0 <= j < ids.len() ==> slot_id(#[trigger] ids@[j]) == ids@[j],
                forall|j: int| 0 <= j < i ==> (#[trigger] out@[j]).0 == ids@[j] && out@[j].1@ == self@.sounds[ids@[j]],
            decreases ids.len() - i,
        {
            let id = ids[i];
            assert(self@.sounds.dom().contains(ids@[i as int]));
            match get_sound_slot(&self.sounds, id) {
                Some(rec) => {
                    out.push((id, Sound::from_record(rec)));
                },
                None => {
                    assert(false);
                    return out;
                },
            }
            i = i + 1;
        }
        proof {
            assert forall|k: u64| #[trigger] self@.sounds.dom().contains(k) implies exists|i: int| 0 <= i < out.len() && out@[i].0 == k by {
                assert(ids@.contains(k));
                let j = choose|j: int| 0 <= j < ids@.len() && ids@[j] == k;
                assert(out@[j].0 == k);
            }
            assert forall|a: int, b: int| 0 <= a < b < out.len() implies slot_index(#[trigger] out@[a].0) < slot_index(#[trigger] out@[b].0) by {
                assert(out@[a].0 == ids@[a]);
                assert(out@[b].0 == ids@[b]);
            }
        }
        out
    }

    /// Every set with its identifier, in the order of the slots.
    pub fn sets_list(&self) -> (r: Vec<(u64, SoundSet)>)
        ensures
            forall|i: int| 0 <= i < r.len() ==> #[trigger] self@.sets.dom().contains(r@[i].0)
                && r@[i].1@ == self@.sets[r@[i].0],
            forall|i: int| 0 <= i < r.len() ==> slot_id(#[trigger] r@[i].0) == r@[i].0,
            forall|k: u64| #[trigger] self@.sets.dom().contains(k) ==> exists|i: int| 0 <= i < r.len() && r@[i].0 == k,
            forall|i: int, j: int| 0 <= i < j < r.len() ==> slot_index(#[trigger] r@[i].0) < slot_index(#[trigger] r@[j].0),
    {
        let ids = set_slot_ids(&self.sets);
        let mut out: Vec<(u64, SoundSet)> = Vec::new();
        let mut i: usize = 0;
        while i < ids.len()
            invariant
                i <= ids.len(),
                out.len() == i,
                forall|j: int| 0 <= j < ids.len() ==> self@.sets.dom().contains(#[trigger] ids@[j]),
                forall|j: int| 0 <= j < ids.len() ==> slot_id(#[trigger] ids@[j]) == ids@[j],
                forall|j: int| 0 <= j < i ==> (#[trigger] out@[j]).0 == ids@[j] && out@[j].1@ == self@.sets[ids@[j]],
            decreases ids.len() - i,
        {
            let id = ids[i];
            assert(self@.sets.dom().contains(ids@[i as int]));
            match get_set_slot(&self.sets, id) {
                Some(rec) => {
                    out.push((id, SoundSet::from_record(rec)));
                },
                None => {
                    assert(false);
                    return out;
                },
            }
            i = i + 1;
        }
        proof {
            assert forall|k: u64| #[trigger] self@.sets.dom().contains(k) implies exists|i: int| 0 <= i < out.len() && out@[i].0 == k by {
                assert(ids@.contains(k));
                let j = choose|j: int| 0 <= j < ids@.len() && ids@[j] == k;
                assert(out@[j].0 == k);
            }
            assert forall|a: int, b: int| 0 <= a < b < out.len() implies slot_index(#[trigger] out@[a].0) < slot_index(#[trigger] out@[b].0) by {
                assert(out@[a].0 == ids@[a]);
                assert(out@[b].0 == ids@[b]);
            }
        }
        out
    }

    /// Registers the new entries of the sounds folder as
    /// [`register_new_sounds`](Self::register_new_sounds) does, where the
    /// slot map has room for all of them; otherwise changes nothing and
    /// returns `None`.
    pub fn try_register_new_sounds(&mut self, entries: &Vec<String>) -> (r: Option<Vec<u64>>)
        ensures
            r is None <==> old(self)@.sounds.len() + unknown_paths(old(self)@.sounds, strings_view(entries@)).len()
                > SLOT_LIMIT,
            r is None ==> *final(self) == *old(self),
            r matches Some(ids) ==> ids.len() == unknown_paths(old(self)@.sounds, strings_view(entries@)).len()
                && ids@.no_duplicates()
                && final(self)@.sounds == with_new_sounds(
                    old(self)@.sounds,
                    ids@,
                    unknown_paths(old(self)@.sounds, strings_view(entries@)),
                ) && final(self).sets == old(self).sets
                && final(self)@.sounds.len() == old(self)@.sounds.len() + ids.len(),
            r matches Some(ids) ==> forall|i: int|
                0 <= i < ids.len() ==> !old(self)@.sounds.dom().contains(#[trigger] ids@[i])
                    && slot_id(ids@[i]) == ids@[i],
    {
        let n = sound_slots_len(&self.sounds);
        let fresh = self.new_sound_paths(entries);
        let count = fresh.len();
        if count as u64 > SLOT_LIMIT || n as u64 > SLOT_LIMIT - count as u64 {
            return None;
        }
        Some(self.register_new_sounds(entries))
    }

    /// Adds an empty set as [`add_set`](Self::add_set) does, where the slot
    /// map has room for it; otherwise changes nothing and returns `None`.
    pub fn try_add_set(&mut self, name: String) -> (r: Option<u64>)
        ensures
            r is None <==> old(self)@.sets.len() >= SLOT_LIMIT,
            r is None ==> *final(self) == *old(self),
            r matches Some(id) ==> !old(self)@.sets.dom().contains(id) && slot_id(id) == id
                && final(self)@.sets == old(self)@.sets.insert(id, SetView { name: name@, sounds: Seq::empty() })
                && final(self).sounds == old(self).sounds
                && inserted_slot(set_slot_versions(old(self).sets), set_slot_versions(final(self).sets), id)
                && slots_agree(final(self)@.sets.dom(), set_slot_versions(final(self).sets)),
    {
        let n = set_slots_len(&self.sets);
        if n as u64 >= SLOT_LIMIT {
            return None;
        }
        Some(self.add_set(name))
    }

    /// Adds an empty set named `name` and returns its identifier.
    pub fn add_set(&mut self, name: String) -> (id: u64)
        requires
            old(self)@.sets.len() < SLOT_LIMIT,
        ensures
            !old(self)@.sets.dom().contains(id),
            slot_id(id) == id,
            final(self)@.sets == old(self)@.sets.insert(id, SetView { name: name@, sounds: Seq::empty() }),
            final(self).sounds == old(self).sounds,
            inserted_slot(set_slot_versions(old(self).sets), set_slot_versions(final(self).sets), id),
            slots_agree(final(self)@.sets.dom(), set_slot_versions(final(self).sets)),
    {
        let sounds: Vec<u64> = Vec::new();
        insert_set_slot(&mut self.sets, (name, sounds))
    }

    /// Removes the set `id`, returning it where there was one.
    pub fn delete_set(&mut self, id: u64) -> (r: Option<SoundSet>)
        ensures
            r is Some == old(self)@.sets.dom().contains(slot_id(id)),
            r matches Some(set) ==> set@ == old(self)@.sets[slot_id(id)],
            final(self)@.sets == old(self)@.sets.remove(slot_id(id)),
            final(self).sounds == old(self).sounds,
            removed_slot(set_slot_versions(old(self).sets), set_slot_versions(final(self).sets), id, r is Some),
            slots_agree(final(self)@.sets.dom(), set_slot_versions(final(self).sets)),
    {
        match remove_set_slot(&mut self.sets, id) {
            Some(rec) => Some(SoundSet { name: rec.0, sounds: rec.1 }),
            None => None,
        }
    }

    /// The sounds of the set `id`, in the set's order, passing over the
    /// members that name no sound; `None` where there is no set `id`.
    pub fn fetch_set(&self, id: u64) -> (r: Option<Vec<Sound>>)
        ensures
            r is Some == set_listing(self@, id) is Some,
            r matches Some(v) ==> sounds_view(v@) == set_listing(self@, id).unwrap(),
            r matches Some(v) ==> sounds_view(v@) == self@.sets[slot_id(id)].sounds.filter(
                |k: u64| self@.sounds.dom().contains(slot_id(k)),
            ).map_values(|k: u64| self@.sounds[slot_id(k)]),
    {
        match get_set_slot(&self.sets, id) {
            None => None,
            Some(rec) => {
                let members = &rec.1;
                let ghost mv = members@;
                let mut out: Vec<Sound> = Vec::new();
                let mut i: usize = 0;
                while i < members.len()
                    invariant
                        i <= members.len(),
                        mv == members@,
                        sounds_view(out@) == resolve_members(self@.sounds, mv.take(i as int)),
                    decreases members.len() - i,
                {
                    let ghost before = out@;
                    let member = members[i];
                    match get_sound_slot(&self.sounds, member) {
                        Some(sound) => {
                            out.push(Sound::from_record(sound));
                            assert(sounds_view(out@) =~= sounds_view(before).push(self@.sounds[slot_id(member)]));
                        },
                        None => {},
                    }
                    proof {
                        assert(mv.take(i + 1).drop_last() =~= mv.take(i as int));
                        assert(mv.take(i + 1).last() == member);
                    }
                    i = i + 1;
                }
                assert(mv.take(members.len() as int) =~= mv);
                proof {
                    lemma_listing_is_every_known_member(self@.sounds, mv);
                }
                Some(out)
            },
        }
    }

    /// Gives the sound `id` the name typed as `input`: the input without
    /// surrounding white space, or no name where nothing remains. Fails with
    /// "sound not found", changing nothing, where there is no sound `id`.
    pub fn set_sound_name(&mut self, id: u64, input: &str) -> (r: Result<(), String>)
        ensures
            r is Ok == old(self)@.sounds.dom().contains(slot_id(id)),
            r is Ok ==> final(self)@.sounds == renamed(old(self)@.sounds, id, input@),
            r is Ok && trimmed(input@).len() > 0 ==> final(self)@.sounds[slot_id(id)].name == Some(
                trimmed(input@),
            ),
            r is Ok && trimmed(input@).len() == 0 ==> final(self)@.sounds[slot_id(id)].name is None,
            r matches Err(e) ==> e@ == sound_not_found() && final(self)@.sounds == old(self)@.sounds,
            final(self).sets == old(self).sets,
    {
        let name = trim(input);
        match get_sound_slot_mut(&mut self.sounds, id) {
            Some(rec) => {
                if name.is_empty() {
                    rec.1 = None;
                } else {
                    rec.1 = Some(name.to_owned());
                }
                Ok(())
            },
            None => {
                let msg = "sound not found";
                proof {
                    reveal_strlit("sound not found");
                }
                assert(msg@ =~= sound_not_found());
                Err(msg.to_owned())
            },
        }
    }

    /// The entries of the sounds folder that no sound lies at yet, in
    /// their order.
    pub fn new_sound_paths(&self, entries: &Vec<String>) -> (r: Vec<String>)
        ensures
            strings_view(r@) == unknown_paths(self@.sounds, strings_view(entries@)),
    {
        let index = self.sound_paths();
        let ghost ev = strings_view(entries@);
        let mut fresh: Vec<String> = Vec::new();
        let mut i: usize = 0;
        while i < entries.len()
            invariant
                i <= entries.len(),
                ev == strings_view(entries@),
                forall|p: Seq<char>| #[trigger] listed_path(strings_view(index@), p) <==> known_path(self@.sounds, p),
                strings_view(fresh@) == unknown_paths(self@.sounds, ev.take(i as int)),
            decreases entries.len() - i,
        {
            let ghost before = fresh@;
            let known = contains_path(&index, &entries[i]);
            if !known {
                fresh.push(entries[i].clone());
                assert(strings_view(fresh@) =~= strings_view(before).push(entries@[i as int]@));
            }
            proof {
                assert(ev.take(i + 1).drop_last() =~= ev.take(i as int));
                assert(ev.take(i + 1).last() == entries@[i as int]@);
            }
            i = i + 1;
        }
        assert(ev.take(entries.len() as int) =~= ev);
        fresh
    }

    /// Adds an unnamed sound for each entry of the sounds folder that no
    /// sound lies at yet, and returns the new sounds' identifiers, in the
    /// order of the entries.
    pub fn register_new_sounds(&mut self, entries: &Vec<String>) -> (ids: Vec<u64>)
        requires
            old(self)@.sounds.len() + unknown_paths(old(self)@.sounds, strings_view(entries@)).len()
                <= SLOT_LIMIT,
        ensures
            ids.len() == unknown_paths(old(self)@.sounds, strings_view(entries@)).len(),
            ids@.no_duplicates(),
            forall|i: int|
                0 <= i < ids.len() ==> !old(self)@.sounds.dom().contains(#[trigger] ids@[i])
                    && slot_id(ids@[i]) == ids@[i],
            final(self)@.sounds == with_new_sounds(
                old(self)@.sounds,
                ids@,
                unknown_paths(old(self)@.sounds, strings_view(entries@)),
            ),
            final(self).sets == old(self).sets,
            final(self)@.sounds.len() == old(self)@.sounds.len() + ids.len(),
    {
        let fresh = self.new_sound_paths(entries);
        let ghost start = self@.sounds;
        let ghost sets = self.sets;
        let ghost fv = strings_view(fresh@);
        let mut ids: Vec<u64> = Vec::new();
        let mut j: usize = 0;
        while j < fresh.len()
            invariant
                j <= fresh.len(),
                ids.len() == j,
                fv == strings_view(fresh@),
                ids@.no_duplicates(),
                forall|i: int|
                    0 <= i < j ==> !start.dom().contains(#[trigger] ids@[i]) && slot_id(ids@[i]) == ids@[i],
                self@.sounds == with_new_sounds(start, ids@, fv.take(j as int)),
                self@.sounds.len() == start.len() + j,
                start.len() + fv.len() <= SLOT_LIMIT,
                self.sets == sets,
            decreases fresh.len() - j,
        {
            let path = fresh[j].clone();
            let id = insert_sound_slot(&mut self.sounds, (path, None));
            proof {
                lemma_with_new_sounds_dom(start, ids@, fv.take(j as int), id);
                assert(ids@.push(id).drop_last() =~= ids@);
                assert(fv.take(j + 1).drop_last() =~= fv.take(j as int));
                assert(fv.take(j + 1).last() == fv[j as int]);
                assert(fv[j as int] == fresh@[j as int]@);
                assert forall|a: int, b: int| 0 <= a < b < ids@.push(id).len() implies ids@.push(id)[a] != ids@.push(id)[b] by {
                    if b == j {
                        assert(ids@.contains(ids@[a]));
                    }
                }
            }
            ids.push(id);
            j = j + 1;
        }
        assert(fv.take(fresh.len() as int) =~= fv);
        ids
    }
}

} // verus!

verus! {

/// Registering new sounds keeps every sound already known, with its path
/// and name, under its identifier.
pub proof fn lemma_register_keeps_known_sounds(m: Map<u64, SoundView>, ids: Seq<u64>, paths: Seq<Seq<char>>, k: u64)
    requires
        forall|i: int| 0 <= i < ids.len() ==> !m.dom().contains(#[trigger] ids[i]),
        m.dom().contains(k),
    ensures
        with_new_sounds(m, ids, paths).dom().contains(k),
        with_new_sounds(m, ids, paths)[k] == m[k],
{
    lemma_with_new_sounds_dom(m, ids, paths, k);
    if ids.contains(k) {
        let i = choose|i: int| 0 <= i < ids.len() && ids[i] == k;
        assert(!m.dom().contains(ids[i]));
    }
}

proof fn lemma_with_new_sounds_len(m: Map<u64, SoundView>, ids: Seq<u64>, paths: Seq<Seq<char>>)
    requires
        m.dom().finite(),
        ids.no_duplicates(),
        forall|i: int| 0 <= i < ids.len() ==> !m.dom().contains(#[trigger] ids[i]),
    ensures
        with_new_sounds(m, ids, paths).dom().finite(),
        with_new_sounds(m, ids, paths).len() == m.len() + ids.len(),
    decreases ids.len(),
{
    if ids.len() > 0 {
        let rest = ids.drop_last();
        assert forall|i: int| 0 <= i < rest.len() implies !m.dom().contains(#[trigger] rest[i]) by {
            assert(rest[i] == ids[i]);
        }
        lemma_with_new_sounds_len(m, rest, paths.drop_last());
        lemma_with_new_sounds_dom(m, rest, paths.drop_last(), ids.last());
        if rest.contains(ids.last()) {
            let i = choose|i: int| 0 <= i < rest.len() && rest[i] == ids.last();
            assert(ids[i] == ids[ids.len() - 1]);
        }
        assert(!m.dom().contains(ids[ids.len() - 1]));
    }
}

/// Registering the same folder entries a second time, with nothing changed
/// since the first registration, finds room, adds nothing, and leaves the
/// sounds as they are.
pub proof fn lemma_second_registration_changes_nothing(m: Map<u64, SoundView>, entries: Seq<Seq<char>>, ids: Seq<u64>)
    requires
        m.dom().finite(),
        m.len() + unknown_paths(m, entries).len() <= SLOT_LIMIT,
        ids.len() == unknown_paths(m, entries).len(),
        ids.no_duplicates(),
        forall|i: int| 0 <= i < ids.len() ==> !m.dom().contains(#[trigger] ids[i]),
    ensures
        ({
            let after = with_new_sounds(m, ids, unknown_paths(m, entries));
            &&& unknown_paths(after, entries) == Seq::<Seq<char>>::empty()
            &&& after.len() + unknown_paths(after, entries).len() <= SLOT_LIMIT
            &&& with_new_sounds(after, Seq::empty(), unknown_paths(after, entries)) == after
        }),
{
    lemma_register_is_idempotent(m, entries, ids);
    lemma_with_new_sounds_len(m, ids, unknown_paths(m, entries));
}

proof fn lemma_slot_key_parts(i: int, v: u32)
    requires
        0 <= i < 0x1_0000_0000,
    ensures
        slot_index(slot_key(i, v)) == i,
        slot_key(i, v) / 0x1_0000_0000 == v,
{
    let x: int = v * 0x1_0000_0000 + i;
    assert(0 <= x < 0x1_0000_0000_0000_0000) by (nonlinear_arith)
        requires
            x == v * 0x1_0000_0000 + i,
            0 <= i < 0x1_0000_0000,
            0 <= v < 0x1_0000_0000,
    ;
    assert(slot_key(i, v) == x);
    assert(x % 0x1_0000_0000 == i && x / 0x1_0000_0000 == v) by (nonlinear_arith)
        requires
            x == v * 0x1_0000_0000 + i,
            0 <= i < 0x1_0000_0000,
            0 <= v,
    ;
}

/// The identifier of a deleted set is not handed out again by the next set
/// added: where that set takes the deleted set's slot, the slot has a new
/// version by then.
pub proof fn lemma_deleted_set_id_not_reissued(
    keys: Set<u64>,
    versions: Seq<u32>,
    k: u64,
    after_delete: Seq<u32>,
    after_add: Seq<u32>,
    id: u64,
)
    requires
        slots_agree(keys, versions),
        keys.contains(k),
        removed_slot(versions, after_delete, k, true),
        inserted_slot(after_delete, after_add, id),
    ensures
        id != k,
{
    let i = slot_index(k);
    let v = versions[i];
    assert(slot_id(k) == k);
    let i2 = slot_index(id);
    if i2 == i {
        assert(i2 < after_delete.len());
        lemma_slot_key_parts(i, after_add[i]);
        assert(id / 0x1_0000_0000 == after_add[i]);
        if v == u32::MAX {
            assert(after_delete[i] == 0);
        } else {
            assert(after_delete[i] == v + 1);
        }
        assert(after_add[i] != v);
    }
}

/// A set just added lists no sounds.
pub proof fn lemma_added_set_is_empty(v: LibraryView, id: u64, name: Seq<char>)
    requires
        slot_id(id) == id,
    ensures
        set_listing(
            LibraryView { sounds: v.sounds, sets: v.sets.insert(id, SetView { name, sounds: Seq::empty() }) },
            id,
        ) == Some(Seq::<SoundView>::empty()),
{
}

/// A deleted set is no longer found.
pub proof fn lemma_deleted_set_is_gone(v: LibraryView, id: u64)
    ensures
        set_listing(LibraryView { sounds: v.sounds, sets: v.sets.remove(slot_id(id)) }, id) is None,
{
}

/// Renaming a sound keeps its path, gives it the trimmed input as its name
/// (no name where the input is blank), and leaves every other sound as it was.
pub proof fn lemma_rename_effect(m: Map<u64, SoundView>, id: u64, input: Seq<char>, other: u64)
    requires
        m.dom().contains(slot_id(id)),
    ensures
        renamed(m, id, input).dom() == m.dom(),
        renamed(m, id, input)[slot_id(id)].path == m[slot_id(id)].path,
        renamed(m, id, input)[slot_id(id)].name == given_name(input),
        trimmed(input).len() == 0 ==> renamed(m, id, input)[slot_id(id)].name is None,
        other != slot_id(id) ==> renamed(m, id, input)[other] == m[other],
{
    assert(renamed(m, id, input).dom() =~= m.dom());
}

proof fn lemma_with_new_sounds_at(m: Map<u64, SoundView>, ids: Seq<u64>, paths: Seq<Seq<char>>, i: int)
    requires
        ids.len() == paths.len(),
        ids.no_duplicates(),
        0 <= i < ids.len(),
    ensures
        with_new_sounds(m, ids, paths).dom().contains(ids[i]),
        with_new_sounds(m, ids, paths)[ids[i]] == (SoundView { path: paths[i], name: None }),
    decreases ids.len(),
{
    if i < ids.len() - 1 {
        lemma_with_new_sounds_at(m, ids.drop_last(), paths.drop_last(), i);
        assert(ids.drop_last()[i] == ids[i]);
        assert(ids[i] != ids.last());
    }
}

proof fn lemma_unknown_paths_cover(m: Map<u64, SoundView>, entries: Seq<Seq<char>>, e: int)
    requires
        0 <= e < entries.len(),
    ensures
        known_path(m, entries[e]) || unknown_paths(m, entries).contains(entries[e]),
    decreases entries.len(),
{
    if e < entries.len() - 1 {
        lemma_unknown_paths_cover(m, entries.drop_last(), e);
        assert(entries.drop_last()[e] == entries[e]);
        let rest = unknown_paths(m, entries.drop_last());
        if rest.contains(entries[e]) {
            let j = choose|j: int| 0 <= j < rest.len() && rest[j] == entries[e];
            if !known_path(m, entries.last()) {
                assert(rest.push(entries.last())[j] == entries[e]);
            }
        }
    } else {
        let rest = unknown_paths(m, entries.drop_last());
        if !known_path(m, entries.last()) {
            assert(rest.push(entries.last())[rest.len() as int] == entries[e]);
        }
    }
}

proof fn lemma_all_known_means_none_unknown(m: Map<u64, SoundView>, entries: Seq<Seq<char>>)
    requires
        forall|e: int| 0 <= e < entries.len() ==> known_path(m, #[trigger] entries[e]),
    ensures
        unknown_paths(m, entries) == Seq::<Seq<char>>::empty(),
    decreases entries.len(),
{
    if entries.len() > 0 {
        assert forall|e: int| 0 <= e < entries.drop_last().len() implies known_path(m, #[trigger] entries.drop_last()[e]) by {
            assert(entries.drop_last()[e] == entries[e]);
        }
        lemma_all_known_means_none_unknown(m, entries.drop_last());
        assert(known_path(m, entries[entries.len() - 1]));
    }
}

/// Registering the entries of the sounds folder a second time adds nothing:
/// after the first registration every entry names a known sound.
pub proof fn lemma_register_is_idempotent(m: Map<u64, SoundView>, entries: Seq<Seq<char>>, ids: Seq<u64>)
    requires
        ids.len() == unknown_paths(m, entries).len(),
        ids.no_duplicates(),
        forall|i: int| 0 <= i < ids.len() ==> !m.dom().contains(#[trigger] ids[i]),
    ensures
        unknown_paths(with_new_sounds(m, ids, unknown_paths(m, entries)), entries)
            == Seq::<Seq<char>>::empty(),
{
    let fresh = unknown_paths(m, entries);
    let after = with_new_sounds(m, ids, fresh);
    assert forall|e: int| 0 <= e < entries.len() implies known_path(after, #[trigger] entries[e]) by {
        lemma_unknown_paths_cover(m, entries, e);
        if known_path(m, entries[e]) {
            let k = choose|k: u64| #[trigger] m.dom().contains(k) && path_matches(m[k].path, entries[e]);
            lemma_with_new_sounds_dom(m, ids, fresh, k);
            if ids.contains(k) {
                let i = choose|i: int| 0 <= i < ids.len() && ids[i] == k;
                assert(!m.dom().contains(ids[i]));
            }
            assert(after.dom().contains(k));
            assert(path_matches(after[k].path, entries[e]));
        } else {
            let i = choose|i: int| 0 <= i < fresh.len() && fresh[i] == entries[e];
            lemma_with_new_sounds_at(m, ids, fresh, i);
            assert(after.dom().contains(ids[i]));
            assert(path_matches(after[ids[i]].path, entries[e]));
        }
    }
    lemma_all_known_means_none_unknown(after, entries);
}

/// A name typed for a sound, or for a new set, is kept as its text
/// without surrounding white space whenever any text remains, whatever its
/// length; the name is cleared only when nothing but white space was typed.
pub proof fn lemma_given_name_keeps_any_text(input: Seq<char>)
    ensures
        trimmed(input).len() > 0 ==> given_name(input) == Some(trimmed(input)),
        trimmed(input).len() == 0 <==> given_name(input) is None,
{
}

/// The sounds listed for a set are those of its members that name a sound,
/// every one of them, in the members' order.
pub proof fn lemma_listing_is_every_known_member(sounds: Map<u64, SoundView>, members: Seq<u64>)
    ensures
        resolve_members(sounds, members) == members.filter(|k: u64| sounds.dom().contains(slot_id(k))).map_values(
            |k: u64| sounds[slot_id(k)],
        ),
        resolve_members(sounds, members).len() == members.filter(|k: u64| sounds.dom().contains(slot_id(k))).len(),
    decreases members.len(),
{
    let pred = |k: u64| sounds.dom().contains(slot_id(k));
    let f = |k: u64| sounds[slot_id(k)];
    reveal(Seq::filter);
    if members.len() > 0 {
        lemma_listing_is_every_known_member(sounds, members.drop_last());
        let sub = members.drop_last().filter(pred);
        if pred(members.last()) {
            assert(members.filter(pred) == sub.push(members.last()));
            assert(sub.push(members.last()).map_values(f) =~= sub.map_values(f).push(f(members.last())));
        } else {
            assert(members.filter(pred) == sub);
        }
    } else {
        assert(members.filter(pred) =~= Seq::<u64>::empty());
        assert(Seq::<u64>::empty().map_values(f) =~= Seq::<SoundView>::empty());
    }
}

} // verus!
