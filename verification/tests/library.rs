use mysoundboard::library::{SoundsFile, StoreError};

fn paths(v: &[&str]) -> Vec<String> {
    v.iter().map(|s| s.to_string()).collect()
}

fn stored(sounds: &str, sets: &str) -> SoundsFile {
    let sounds: serde_json::Value = serde_json::from_str(sounds).unwrap();
    let sets: serde_json::Value = serde_json::from_str(sets).unwrap();
    match SoundsFile::from_stored(sounds, sets) {
        Ok(f) => f,
        Err(_) => panic!("stored library refused"),
    }
}

const EMPTY: &str = r#"[{"value":null,"version":0}]"#;

#[test]
fn new_library_is_empty() {
    let f = SoundsFile::new();
    assert!(f.sounds_list().is_empty());
    assert!(f.sets_list().is_empty());
}

#[test]
fn register_new_sounds_adds_unnamed_sounds_in_entry_order() {
    let mut f = SoundsFile::new();
    let ids = f.register_new_sounds(&paths(&["./sounds/a.mp3", "./sounds/b.mp3"]));
    assert_eq!(ids.len(), 2);
    assert_ne!(ids[0], ids[1]);
    let list = f.sounds_list();
    assert_eq!(list.len(), 2);
    assert_eq!(list[0].0, ids[0]);
    assert_eq!(list[0].1.path, "./sounds/a.mp3");
    assert_eq!(list[0].1.name, None);
    assert_eq!(list[1].0, ids[1]);
    assert_eq!(list[1].1.path, "./sounds/b.mp3");
}

#[test]
fn register_new_sounds_twice_adds_nothing() {
    let mut f = SoundsFile::new();
    let entries = paths(&["x.ogg", "y.ogg"]);
    f.register_new_sounds(&entries);
    let again = f.register_new_sounds(&entries);
    assert!(again.is_empty());
    assert_eq!(f.sounds_list().len(), 2);
}

#[test]
fn register_new_sounds_skips_known_paths() {
    let mut f = SoundsFile::new();
    f.register_new_sounds(&paths(&["x.ogg"]));
    let fresh = f.new_sound_paths(&paths(&["w.ogg", "x.ogg", "z.ogg"]));
    assert_eq!(fresh, paths(&["w.ogg", "z.ogg"]));
    let ids = f.register_new_sounds(&paths(&["w.ogg", "x.ogg", "z.ogg"]));
    assert_eq!(ids.len(), 2);
    let mut all: Vec<String> = f.sounds_list().into_iter().map(|(_, s)| s.path).collect();
    all.sort();
    assert_eq!(all, paths(&["w.ogg", "x.ogg", "z.ogg"]));
}

#[test]
fn first_key_of_a_slot_map() {
    let mut f = SoundsFile::new();
    let ids = f.register_new_sounds(&paths(&["a"]));
    // slot 1, version 1
    assert_eq!(ids[0], (1u64 << 32) | 1);
}

#[test]
fn add_set_then_fetch_lists_nothing() {
    let mut f = SoundsFile::new();
    let id = f.add_set("drums".to_string());
    let set = f.fetch_set(id).expect("the set is there");
    assert!(set.is_empty());
    let sets = f.sets_list();
    assert_eq!(sets.len(), 1);
    assert_eq!(sets[0].0, id);
    assert_eq!(sets[0].1.name, "drums");
    assert!(sets[0].1.sounds.is_empty());
}

#[test]
fn delete_set_removes_it() {
    let mut f = SoundsFile::new();
    let a = f.add_set("a".to_string());
    let b = f.add_set("b".to_string());
    let removed = f.delete_set(a).expect("a was there");
    assert_eq!(removed.name, "a");
    assert!(f.fetch_set(a).is_none());
    assert!(f.fetch_set(b).is_some());
    assert!(f.delete_set(a).is_none());
    assert_eq!(f.sets_list().len(), 1);
}

#[test]
fn deleted_set_key_is_not_reused_for_the_next_set() {
    let mut f = SoundsFile::new();
    let a = f.add_set("a".to_string());
    f.delete_set(a);
    let b = f.add_set("b".to_string());
    assert_ne!(a, b);
    assert!(f.fetch_set(a).is_none());
    assert_eq!(f.sets_list()[0].1.name, "b");
}

#[test]
fn fetch_unknown_set_is_none() {
    let f = SoundsFile::new();
    assert!(f.fetch_set(12345).is_none());
}

#[test]
fn set_sound_name_trims_the_input() {
    let mut f = SoundsFile::new();
    let ids = f.register_new_sounds(&paths(&["a.mp3", "b.mp3"]));
    assert_eq!(f.set_sound_name(ids[0], "  Drum roll \n"), Ok(()));
    let list = f.sounds_list();
    assert_eq!(list[0].1.name.as_deref(), Some("Drum roll"));
    assert_eq!(list[0].1.path, "a.mp3");
    assert_eq!(list[1].1.name, None);
}

#[test]
fn set_sound_name_blank_clears_the_name() {
    let mut f = SoundsFile::new();
    let ids = f.register_new_sounds(&paths(&["a.mp3"]));
    f.set_sound_name(ids[0], "x").unwrap();
    assert_eq!(f.set_sound_name(ids[0], " \t "), Ok(()));
    assert_eq!(f.sounds_list()[0].1.name, None);
}

#[test]
fn set_sound_name_unknown_sound_fails() {
    let mut f = SoundsFile::new();
    f.register_new_sounds(&paths(&["a.mp3"]));
    assert_eq!(f.set_sound_name(99, "x"), Err("sound not found".to_string()));
    assert_eq!(f.sounds_list()[0].1.name, None);
}

#[test]
fn fetch_set_resolves_members_in_order_and_skips_unknown_ones() {
    let sounds = r#"[{"value":null,"version":0},
        {"value":["one.mp3",null],"version":1},
        {"value":["two.mp3","Two"],"version":3}]"#;
    let two = (3u64 << 32) | 2;
    let one = (1u64 << 32) | 1;
    let missing = (1u64 << 32) | 7;
    let sets = format!(
        r#"[{{"value":null,"version":0}},{{"value":["mix",[{},{},{}]],"version":1}}]"#,
        two, missing, one
    );
    let f = stored(sounds, &sets);
    let set_id = (1u64 << 32) | 1;
    let listed = f.fetch_set(set_id).expect("set is there");
    assert_eq!(listed.len(), 2);
    assert_eq!(listed[0].path, "two.mp3");
    assert_eq!(listed[0].name.as_deref(), Some("Two"));
    assert_eq!(listed[1].path, "one.mp3");
    assert_eq!(listed[1].name, None);
}

#[test]
fn identifier_with_even_version_is_taken_as_the_odd_one() {
    let sounds = r#"[{"value":null,"version":0},{"value":["one.mp3",null],"version":1}]"#;
    let mut f = stored(sounds, EMPTY);
    // version 0 in the high half is read as version 1
    assert_eq!(f.set_sound_name(1, "One"), Ok(()));
    assert_eq!(f.sounds_list()[0].1.name.as_deref(), Some("One"));
}

#[test]
fn from_stored_refuses_malformed_parts() {
    let bad: serde_json::Value = serde_json::from_str(r#"{"not":"a slot map"}"#).unwrap();
    let empty: serde_json::Value = serde_json::from_str(EMPTY).unwrap();
    assert!(matches!(
        SoundsFile::from_stored(bad.clone(), empty.clone()),
        Err(StoreError::MalformedSounds)
    ));
    assert!(matches!(
        SoundsFile::from_stored(empty, bad),
        Err(StoreError::MalformedSets)
    ));
}

#[test]
fn stored_library_reads_back_the_same() {
    let mut f = SoundsFile::new();
    let ids = f.register_new_sounds(&paths(&["a.mp3", "b.mp3"]));
    f.set_sound_name(ids[1], "Bee").unwrap();
    let s = f.add_set("set".to_string());
    let (sounds, sets) = match f.to_stored() {
        Ok(v) => v,
        Err(_) => panic!("not stored"),
    };
    let g = match SoundsFile::from_stored(sounds, sets) {
        Ok(g) => g,
        Err(_) => panic!("not read back"),
    };
    let before = f.sounds_list();
    let after = g.sounds_list();
    assert_eq!(before.len(), after.len());
    for (x, y) in before.iter().zip(after.iter()) {
        assert_eq!(x.0, y.0);
        assert_eq!(x.1.path, y.1.path);
        assert_eq!(x.1.name, y.1.name);
    }
    assert_eq!(g.sets_list()[0].0, s);
    assert_eq!(g.sets_list()[0].1.name, "set");
}

#[test]
fn try_variants_succeed_below_the_limit() {
    let mut f = SoundsFile::new();
    let ids = f.try_register_new_sounds(&paths(&["a", "b", "a"])).expect("room left");
    // the entries are compared with the sounds known before, not with each other
    assert_eq!(ids.len(), 3);
    assert_eq!(f.try_register_new_sounds(&paths(&["a", "b"])).expect("room left").len(), 0);
    let id = f.try_add_set("s".to_string()).expect("room left");
    assert!(f.fetch_set(id).is_some());
}

#[test]
fn registering_more_sounds_keeps_known_ones() {
    let mut f = SoundsFile::new();
    let first = f.register_new_sounds(&paths(&["a.mp3"]));
    f.set_sound_name(first[0], "Alpha").unwrap();
    let more = f.register_new_sounds(&paths(&["a.mp3", "b.mp3"]));
    assert_eq!(more.len(), 1);
    assert!(!more.contains(&first[0]));
    let list = f.sounds_list();
    let a = list.iter().find(|(id, _)| *id == first[0]).expect("still there");
    assert_eq!(a.1.path, "a.mp3");
    assert_eq!(a.1.name.as_deref(), Some("Alpha"));
}

#[test]
fn listed_identifiers_address_their_items() {
    let mut f = SoundsFile::new();
    f.register_new_sounds(&paths(&["a.mp3"]));
    f.add_set("s".to_string());
    let (set_id, _) = f.sets_list()[0];
    assert!(f.fetch_set(set_id).is_some());
    let (sound_id, _) = f.sounds_list().into_iter().next().unwrap();
    assert_eq!(f.set_sound_name(sound_id, "A"), Ok(()));
}

#[test]
fn paths_are_compared_as_paths() {
    let mut f = SoundsFile::new();
    f.register_new_sounds(&paths(&["snd//a.wav", "snd/./b.wav"]));
    let again = f.register_new_sounds(&paths(&["snd/a.wav", "snd/b.wav", "snd/c.wav"]));
    assert_eq!(again.len(), 1);
    assert_eq!(f.new_sound_paths(&paths(&["snd/a.wav/"])), Vec::<String>::new());
}
