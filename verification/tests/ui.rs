use mysoundboard::ui::{click_sound, get_name, new_set_name, parse_set_id, set_href, ClickCommand};

#[test]
fn label_is_name_or_path() {
    assert_eq!(get_name("./sounds/a.mp3".to_string(), Some("A".to_string())), "A");
    assert_eq!(get_name("./sounds/a.mp3".to_string(), None), "./sounds/a.mp3");
}

#[test]
fn set_href_is_decimal() {
    assert_eq!(set_href(0), "/set/0");
    assert_eq!(set_href(4294967297), "/set/4294967297");
    assert_eq!(set_href(u64::MAX), "/set/18446744073709551615");
}

#[test]
fn parse_set_id_cases() {
    assert_eq!(parse_set_id(Some("4294967297")), Some(4294967297));
    assert_eq!(parse_set_id(Some("+12")), Some(12));
    assert_eq!(parse_set_id(Some("007")), Some(7));
    assert_eq!(parse_set_id(Some("")), None);
    assert_eq!(parse_set_id(Some("+")), None);
    assert_eq!(parse_set_id(Some("-1")), None);
    assert_eq!(parse_set_id(Some("1 2")), None);
    assert_eq!(parse_set_id(Some("18446744073709551616")), None);
    assert_eq!(parse_set_id(None), None);
}

#[test]
fn set_route_roundtrip() {
    for id in [0u64, 1, 4294967297, 12884901890, u64::MAX] {
        let href = set_href(id);
        let param = href.strip_prefix("/set/").unwrap();
        assert_eq!(parse_set_id(Some(param)), Some(id));
    }
}

#[test]
fn new_set_name_cases() {
    assert_eq!(new_set_name("  Drums "), Some("Drums".to_string()));
    assert_eq!(new_set_name("\u{3000}効果音\u{3000}"), Some("効果音".to_string()));
    assert_eq!(new_set_name("   "), None);
    assert_eq!(new_set_name(""), None);
}

#[test]
fn click_outside_edit_mode_plays() {
    let r = click_sound(false, 3, "a.mp3".to_string(), Some("A".to_string()), Some("ignored".to_string()));
    assert_eq!(r.shown_name.as_deref(), Some("A"));
    assert!(matches!(r.command, ClickCommand::Play(ref p) if p == "a.mp3"));
}

#[test]
fn click_in_edit_mode_renames() {
    let r = click_sound(true, 3, "a.mp3".to_string(), None, Some(" New ".to_string()));
    assert_eq!(r.shown_name.as_deref(), Some(" New "));
    assert!(matches!(r.command, ClickCommand::Rename { id: 3, ref name } if name == " New "));
}

#[test]
fn click_in_edit_mode_cancelled_keeps_name() {
    let r = click_sound(true, 3, "a.mp3".to_string(), Some("A".to_string()), None);
    assert_eq!(r.shown_name.as_deref(), Some("A"));
    assert!(matches!(r.command, ClickCommand::Nothing));
}
