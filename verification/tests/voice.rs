use mysoundboard::voice::{
    decide_join, decide_leave, finish_join, finish_leave, finish_stale_call, on_voice_state_update,
    route_signal, JoinDecision, LeaveDecision, Reply, SignalAction, SignalFromWeb, VoiceSession,
};

const OWNER: u64 = 42;
const STRANGER: u64 = 7;
const GUILD: u64 = 1000;
const CHANNEL: u64 = 2000;

fn idle() -> VoiceSession {
    VoiceSession { connected_guild: None }
}

#[test]
fn join_by_stranger_is_refused() {
    let d = decide_join(&idle(), STRANGER, OWNER, Some(GUILD), Some(CHANNEL), false);
    assert!(d == JoinDecision::Answer(Reply::NotAllowed));
    assert_eq!(Reply::NotAllowed.text(), "指定されたユーザー以外は使用できません");
    assert!(Reply::NotAllowed.is_ephemeral());
}

#[test]
fn join_while_connected_asks_to_leave_first() {
    let s = VoiceSession { connected_guild: Some(5) };
    let d = decide_join(&s, OWNER, OWNER, Some(GUILD), Some(CHANNEL), false);
    assert!(d == JoinDecision::Answer(Reply::LeaveOtherServerFirst));
    assert!(Reply::LeaveOtherServerFirst.is_ephemeral());
}

#[test]
fn join_outside_a_server_fails() {
    let d = decide_join(&idle(), OWNER, OWNER, None, None, false);
    assert!(d == JoinDecision::GuildUnavailable);
}

#[test]
fn join_outside_voice_asks_to_join_voice() {
    let d = decide_join(&idle(), OWNER, OWNER, Some(GUILD), None, false);
    assert!(d == JoinDecision::Answer(Reply::JoinVoiceChannel));
    assert_eq!(Reply::JoinVoiceChannel.text(), "ボイスチャットに参加してください");
}

#[test]
fn join_with_existing_call_says_already_joined() {
    let d = decide_join(&idle(), OWNER, OWNER, Some(GUILD), Some(CHANNEL), true);
    assert!(d == JoinDecision::Answer(Reply::AlreadyJoined));
    assert!(!Reply::AlreadyJoined.is_ephemeral());
    assert_eq!(Reply::AlreadyJoined.text(), "すでに参加しています");
}

#[test]
fn join_connects_and_records_the_server() {
    let mut s = idle();
    let d = decide_join(&s, OWNER, OWNER, Some(GUILD), Some(CHANNEL), false);
    assert!(d == JoinDecision::Connect { guild: GUILD, channel: CHANNEL });
    let r = finish_join(&mut s, GUILD, true);
    assert!(r == Reply::Joined);
    assert_eq!(r.text(), "参加しました");
    assert_eq!(s.connected_guild, Some(GUILD));
}

#[test]
fn failed_join_keeps_the_session() {
    let mut s = idle();
    let r = finish_join(&mut s, GUILD, false);
    assert!(r == Reply::JoinFailed);
    assert_eq!(r.text(), "なにかしらのエラーが発生しました");
    assert_eq!(s.connected_guild, None);
}

#[test]
fn leave_cases() {
    assert!(decide_leave(&idle(), STRANGER, OWNER, true) == LeaveDecision::Answer(Reply::NotAllowed));
    assert!(decide_leave(&idle(), OWNER, OWNER, true) == LeaveDecision::Answer(Reply::NotInVoice));
    let s = VoiceSession { connected_guild: Some(GUILD) };
    assert!(decide_leave(&s, OWNER, OWNER, false) == LeaveDecision::Answer(Reply::NotInVoice));
    assert!(decide_leave(&s, OWNER, OWNER, true) == LeaveDecision::Disconnect { guild: GUILD });
    assert_eq!(Reply::NotInVoice.text(), "ボットがボイスチャットにいません");
}

#[test]
fn join_then_leave_returns_to_idle() {
    let mut s = idle();
    finish_join(&mut s, GUILD, true);
    assert!(decide_leave(&s, OWNER, OWNER, true) == LeaveDecision::Disconnect { guild: GUILD });
    let r = finish_leave(&mut s, true);
    assert!(r == Reply::Left);
    assert_eq!(r.text(), "離脱しました");
    assert_eq!(s.connected_guild, None);
}

#[test]
fn failed_leave_keeps_the_connection() {
    let mut s = VoiceSession { connected_guild: Some(GUILD) };
    let r = finish_leave(&mut s, false);
    assert!(r == Reply::LeaveFailed);
    assert!(r.text().starts_with("エラーが発生しました"));
    assert_eq!(s.connected_guild, Some(GUILD));
}

#[test]
fn bot_kicked_from_channel_ends_the_call() {
    let mut s = VoiceSession { connected_guild: Some(GUILD) };
    let bot = 9;
    assert_eq!(on_voice_state_update(&s, bot, bot, true, None, Some(GUILD)), Some(GUILD));
    // someone else, a move, a first join, or another server: nothing
    assert_eq!(on_voice_state_update(&s, bot, 8, true, None, Some(GUILD)), None);
    assert_eq!(on_voice_state_update(&s, bot, bot, true, Some(3), Some(GUILD)), None);
    assert_eq!(on_voice_state_update(&s, bot, bot, false, None, Some(GUILD)), None);
    assert_eq!(on_voice_state_update(&s, bot, bot, true, None, Some(1)), None);
    finish_stale_call(&mut s, false);
    assert_eq!(s.connected_guild, Some(GUILD));
    finish_stale_call(&mut s, true);
    assert_eq!(s.connected_guild, None);
}

#[test]
fn signals_need_a_connection_and_a_call() {
    let s = VoiceSession { connected_guild: Some(GUILD) };
    match route_signal(&s, SignalFromWeb::Play("a.mp3".to_string()), true) {
        SignalAction::Play { guild, path } => {
            assert_eq!(guild, GUILD);
            assert_eq!(path, "a.mp3");
        }
        _ => panic!("expected play"),
    }
    assert!(matches!(route_signal(&s, SignalFromWeb::Stop, true), SignalAction::Stop { guild: GUILD }));
    assert!(matches!(route_signal(&s, SignalFromWeb::Stop, false), SignalAction::Ignore));
    assert!(matches!(
        route_signal(&idle(), SignalFromWeb::Play("a.mp3".to_string()), true),
        SignalAction::Ignore
    ));
}
