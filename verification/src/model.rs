//! The sound library's records and their mathematical views.

use vstd::prelude::*;

verus! {

/// A sound file known to the library: where it lies, and the name a user
/// gave it, if any.
pub struct Sound {
    pub path: String,
    pub name: Option<String>,
}

/// A named, ordered selection of sounds, by their identifiers.
pub struct SoundSet {
    pub name: String,
    pub sounds: Vec<u64>,
}

/// The view of a [`Sound`].
pub struct SoundView {
    pub path: Seq<char>,
    pub name: Option<Seq<char>>,
}

/// The view of a [`SoundSet`].
pub struct SetView {
    pub name: Seq<char>,
    pub sounds: Seq<u64>,
}

/// How a sound is stored: its path and its optional name.
pub type SoundRecord = (String, Option<String>);

/// How a set is stored: its name and the identifiers of its sounds.
pub type SetRecord = (String, Vec<u64>);

/// The view of an optional string.
pub open spec fn opt_view(s: Option<String>) -> Option<Seq<char>> {
    match s {
        Some(t) => Some(t@),
        None => None,
    }
}

/// The view of a stored sound.
pub open spec fn sound_record_view(r: SoundRecord) -> SoundView {
    SoundView { path: r.0@, name: opt_view(r.1) }
}

/// The view of a stored set.
pub open spec fn set_record_view(r: SetRecord) -> SetView {
    SetView { name: r.0@, sounds: r.1@ }
}

impl View for Sound {
    type V = SoundView;

    open spec fn view(&self) -> SoundView {
        SoundView { path: self.path@, name: opt_view(self.name) }
    }
}

impl View for SoundSet {
    type V = SetView;

    open spec fn view(&self) -> SetView {
        SetView { name: self.name@, sounds: self.sounds@ }
    }
}

/// A copy of an optional string.
pub(crate) fn clone_opt_string(s: &Option<String>) -> (r: Option<String>)
    ensures
        opt_view(r) == opt_view(*s),
{
    match s {
        Some(t) => Some(t.clone()),
        None => None,
    }
}

impl Sound {
    /// A sound made from its stored record.
    pub fn from_record(r: &SoundRecord) -> (s: Sound)
        ensures
            s@ == sound_record_view(*r),
    {
        Sound { path: r.0.clone(), name: clone_opt_string(&r.1) }
    }
}

impl SoundSet {
    /// A set made from its stored record.
    pub fn from_record(r: &SetRecord) -> (s: SoundSet)
        ensures
            s@ == set_record_view(*r),
    {
        SoundSet { name: r.0.clone(), sounds: r.1.clone() }
    }
}

} // verus!
