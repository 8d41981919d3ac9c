//! The bot's decisions: who may make it join or leave a voice channel,
//! what it answers, what becomes of its connection, and which signals from
//! the web interface it acts on. The bot itself performs the calls and the
//! replies; each decision here is a function of what it has observed.

use vstd::prelude::*;

verus! {

/// A request from the web interface to the bot.
pub enum SignalFromWeb {
    /// Stop what is playing.
    Stop,
    /// Play the sound file at this path.
    Play(String),
}

/// The bot's voice connection: the server whose voice channel it is in, if any.
pub struct VoiceSession {
    pub connected_guild: Option<u64>,
}

/// What the bot answers to a command.
#[derive(PartialEq, Eq, Structural)]
pub enum Reply {
    /// The command came from someone else than the bot's owner.
    NotAllowed,
    /// The bot is connected in some server already.
    LeaveOtherServerFirst,
    /// The owner is in no voice channel.
    JoinVoiceChannel,
    /// A call exists already in this server.
    AlreadyJoined,
    /// The bot joined.
    Joined,
    /// Joining failed.
    JoinFailed,
    /// The bot is in no voice channel.
    NotInVoice,
    /// The bot left.
    Left,
    /// Leaving failed; the error's description follows the text.
    LeaveFailed,
}

/// The text of a reply.
pub open spec fn reply_text(r: Reply) -> Seq<char> {
    match r {
        Reply::NotAllowed => "指定されたユーザー以外は使用できません"@,
        Reply::LeaveOtherServerFirst => "先に、すでに接続しているサーバーから退出させてください\nそのサーバーが分からない場合でもここで`/leave`を使用することで退出させることができます"@,
        Reply::JoinVoiceChannel => "ボイスチャットに参加してください"@,
        Reply::AlreadyJoined => "すでに参加しています"@,
        Reply::Joined => "参加しました"@,
        Reply::JoinFailed => "なにかしらのエラーが発生しました"@,
        Reply::NotInVoice => "ボットがボイスチャットにいません"@,
        Reply::Left => "離脱しました"@,
        Reply::LeaveFailed => "エラーが発生しました: "@,
    }
}

/// Whether a reply is shown to the requester alone.
pub open spec fn reply_is_ephemeral(r: Reply) -> bool {
    match r {
        Reply::NotAllowed | Reply::LeaveOtherServerFirst | Reply::JoinVoiceChannel | Reply::NotInVoice => true,
        _ => false,
    }
}

impl Reply {
    /// The text that the bot sends.
    pub fn text(&self) -> (r: &'static str)
        ensures
            r@ == reply_text(*self),
    {
        match self {
            Reply::NotAllowed => "指定されたユーザー以外は使用できません",
            Reply::LeaveOtherServerFirst => "先に、すでに接続しているサーバーから退出させてください\nそのサーバーが分からない場合でもここで`/leave`を使用することで退出させることができます",
            Reply::JoinVoiceChannel => "ボイスチャットに参加してください",
            Reply::AlreadyJoined => "すでに参加しています",
            Reply::Joined => "参加しました",
            Reply::JoinFailed => "なにかしらのエラーが発生しました",
            Reply::NotInVoice => "ボットがボイスチャットにいません",
            Reply::Left => "離脱しました",
            Reply::LeaveFailed => "エラーが発生しました: ",
        }
    }

    /// Whether the reply is shown to the requester alone.
    pub fn is_ephemeral(&self) -> (r: bool)
        ensures
            r == reply_is_ephemeral(*self),
    {
        match self {
            Reply::NotAllowed | Reply::LeaveOtherServerFirst | Reply::JoinVoiceChannel | Reply::NotInVoice => true,
            _ => false,
        }
    }
}

/// What the bot does on `/join`.
#[derive(PartialEq, Eq, Structural)]
pub enum JoinDecision {
    /// Answer, and do nothing else.
    Answer(Reply),
    /// The command came from no server: the command fails.
    GuildUnavailable,
    /// Join this voice channel of this server.
    Connect { guild: u64, channel: u64 },
}

/// What the bot does on `/leave`.
#[derive(PartialEq, Eq, Structural)]
pub enum LeaveDecision {
    /// Answer, and do nothing else.
    Answer(Reply),
    /// Leave the call in this server.
    Disconnect { guild: u64 },
}

/// What the bot does with a signal from the web interface.
pub enum SignalAction {
    /// Nothing.
    Ignore,
    /// Play the file at `path` in the call of server `guild`.
    Play { guild: u64, path: String },
    /// Stop what plays in the call of server `guild`.
    Stop { guild: u64 },
}

/// The decision on `/join`, from who asked (`author`), who owns the bot
/// (`owner`), the server the command came from, the voice channel the
/// author is in there, and whether a call exists in that server.
pub open spec fn join_decision(
    session: VoiceSession,
    author: u64,
    owner: u64,
    guild: Option<u64>,
    voice_channel: Option<u64>,
    in_call: bool,
) -> JoinDecision {
    if author != owner {
        JoinDecision::Answer(Reply::NotAllowed)
    } else if session.connected_guild is Some {
        JoinDecision::Answer(Reply::LeaveOtherServerFirst)
    } else if guild is None {
        JoinDecision::GuildUnavailable
    } else if voice_channel is None {
        JoinDecision::Answer(Reply::JoinVoiceChannel)
    } else if in_call {
        JoinDecision::Answer(Reply::AlreadyJoined)
    } else {
        JoinDecision::Connect { guild: guild.unwrap(), channel: voice_channel.unwrap() }
    }
}

/// The decision on `/leave`, from who asked, who owns the bot, and whether
/// a call exists in the server the bot is connected in.
pub open spec fn leave_decision(session: VoiceSession, author: u64, owner: u64, in_call: bool) -> LeaveDecision {
    if author != owner {
        LeaveDecision::Answer(Reply::NotAllowed)
    } else {
        match session.connected_guild {
            None => LeaveDecision::Answer(Reply::NotInVoice),
            Some(g) => if in_call {
                LeaveDecision::Disconnect { guild: g }
            } else {
                LeaveDecision::Answer(Reply::NotInVoice)
            },
        }
    }
}

/// The call to end after a voice state update: where the bot itself,
/// having been in a channel, is now in none, in the server it is connected in.
pub open spec fn stale_call(
    session: VoiceSession,
    bot: u64,
    user: u64,
    was_in_channel: bool,
    now_channel: Option<u64>,
    guild: Option<u64>,
) -> Option<u64> {
    if user == bot && was_in_channel && now_channel is None && guild is Some
        && session.connected_guild == guild {
        guild
    } else {
        None
    }
}

/// Decides what to do on `/join`.
pub fn decide_join(
    session: &VoiceSession,
    author: u64,
    owner: u64,
    guild: Option<u64>,
    voice_channel: Option<u64>,
    in_call: bool,
) -> (d: JoinDecision)
    ensures
        d == join_decision(*session, author, owner, guild, voice_channel, in_call),
        author == owner && session.connected_guild is Some ==> d == JoinDecision::Answer(
            Reply::LeaveOtherServerFirst,
        ),
{
    if author != owner {
        return JoinDecision::Answer(Reply::NotAllowed);
    }
    if session.connected_guild.is_some() {
        return JoinDecision::Answer(Reply::LeaveOtherServerFirst);
    }
    match guild {
        None => JoinDecision::GuildUnavailable,
        Some(g) => match voice_channel {
            None => JoinDecision::Answer(Reply::JoinVoiceChannel),
            Some(c) => if in_call {
                JoinDecision::Answer(Reply::AlreadyJoined)
            } else {
                JoinDecision::Connect { guild: g, channel: c }
            },
        },
    }
}

/// Records the outcome of joining a voice channel of server `guild`, and
/// returns the answer: connected there where joining succeeded, unchanged
/// where it failed.
pub fn finish_join(session: &mut VoiceSession, guild: u64, joined: bool) -> (r: Reply)
    ensures
        joined ==> final(session).connected_guild == Some(guild) && r == Reply::Joined,
        !joined ==> *final(session) == *old(session) && r == Reply::JoinFailed,
{
    if joined {
        session.connected_guild = Some(guild);
        Reply::Joined
    } else {
        Reply::JoinFailed
    }
}

/// Decides what to do on `/leave`.
pub fn decide_leave(session: &VoiceSession, author: u64, owner: u64, in_call: bool) -> (d: LeaveDecision)
    ensures
        d == leave_decision(*session, author, owner, in_call),
        author == owner && session.connected_guild is None ==> d == LeaveDecision::Answer(Reply::NotInVoice),
{
    if author != owner {
        return LeaveDecision::Answer(Reply::NotAllowed);
    }
    match session.connected_guild {
        None => LeaveDecision::Answer(Reply::NotInVoice),
        Some(g) => if in_call {
            LeaveDecision::Disconnect { guild: g }
        } else {
            LeaveDecision::Answer(Reply::NotInVoice)
        },
    }
}

/// Records the outcome of leaving the call, and returns the answer:
/// disconnected where leaving succeeded, unchanged where it failed.
pub fn finish_leave(session: &mut VoiceSession, removed: bool) -> (r: Reply)
    ensures
        removed ==> final(session).connected_guild is None && r == Reply::Left,
        !removed ==> *final(session) == *old(session) && r == Reply::LeaveFailed,
{
    if removed {
        session.connected_guild = None;
        Reply::Left
    } else {
        Reply::LeaveFailed
    }
}

/// Decides, on a voice state update, which call has to be ended because
/// the bot was taken out of its channel.
pub fn on_voice_state_update(
    session: &VoiceSession,
    bot: u64,
    user: u64,
    was_in_channel: bool,
    now_channel: Option<u64>,
    guild: Option<u64>,
) -> (r: Option<u64>)
    ensures
        r == stale_call(*session, bot, user, was_in_channel, now_channel, guild),
        r is Some ==> session.connected_guild == r,
{
    if user == bot && was_in_channel && now_channel.is_none() {
        match (guild, session.connected_guild) {
            (Some(g), Some(c)) => if g == c {
                return Some(g);
            },
            _ => {},
        }
    }
    None
}

/// Records that the call ended after the bot was taken out of its channel,
/// where ending it succeeded.
pub fn finish_stale_call(session: &mut VoiceSession, removed: bool)
    ensures
        removed ==> final(session).connected_guild is None,
        !removed ==> *final(session) == *old(session),
{
    if removed {
        session.connected_guild = None;
    }
}

/// Decides what to do with a signal from the web interface: act on the
/// call of the connected server, where there is one and a call exists
/// there, and otherwise nothing.
pub fn route_signal(session: &VoiceSession, signal: SignalFromWeb, in_call: bool) -> (a: SignalAction)
    ensures
        (session.connected_guild is None || !in_call) ==> a is Ignore,
        in_call ==> (session.connected_guild matches Some(g) ==> match signal {
            SignalFromWeb::Stop => a == (SignalAction::Stop { guild: g }),
            SignalFromWeb::Play(p) => a matches SignalAction::Play { guild, path } && guild == g && path@ == p@,
        }),
{
    match session.connected_guild {
        Some(g) => if in_call {
            match signal {
                SignalFromWeb::Stop => SignalAction::Stop { guild: g },
                SignalFromWeb::Play(path) => SignalAction::Play { guild: g, path },
            }
        } else {
            SignalAction::Ignore
        },
        None => SignalAction::Ignore,
    }
}

/// Only the owner moves the bot: a request from anyone else is refused
/// with the same answer and leaves the connection as it is.
pub proof fn lemma_only_owner_commands(session: VoiceSession, author: u64, owner: u64, guild: Option<u64>, channel: Option<u64>, in_call: bool)
    requires
        author != owner,
    ensures
        join_decision(session, author, owner, guild, channel, in_call) == JoinDecision::Answer(Reply::NotAllowed),
        leave_decision(session, author, owner, in_call) == LeaveDecision::Answer(Reply::NotAllowed),
{
}

/// While connected, the bot is never sent to a second server.
pub proof fn lemma_single_connection(session: VoiceSession, author: u64, owner: u64, guild: Option<u64>, channel: Option<u64>, in_call: bool)
    requires
        session.connected_guild is Some,
    ensures
        join_decision(session, author, owner, guild, channel, in_call) !is Connect,
{
}

/// After joining server `g`, a `/leave` by the owner while the call exists
/// leaves server `g`.
pub proof fn lemma_leave_targets_joined_server(session: VoiceSession, g: u64, owner: u64)
    requires
        session.connected_guild == Some(g),
    ensures
        leave_decision(session, owner, owner, true) == (LeaveDecision::Disconnect { guild: g }),
{
}

/// While the bot is connected somewhere, the owner's `/join` is answered
/// by asking to make it leave that server first, whatever server and
/// channel the command comes from and whether a call exists there.
pub proof fn lemma_join_while_connected_asks_to_leave(
    session: VoiceSession,
    owner: u64,
    guild: Option<u64>,
    channel: Option<u64>,
    in_call: bool,
)
    requires
        session.connected_guild is Some,
    ensures
        join_decision(session, owner, owner, guild, channel, in_call) == JoinDecision::Answer(
            Reply::LeaveOtherServerFirst,
        ),
{
}

/// While the bot is connected nowhere, the owner's `/leave` is answered by
/// saying it is in no voice channel, whatever the call lookup says.
pub proof fn lemma_leave_unconnected_says_not_in_voice(session: VoiceSession, owner: u64, in_call: bool)
    requires
        session.connected_guild is None,
    ensures
        leave_decision(session, owner, owner, in_call) == LeaveDecision::Answer(Reply::NotInVoice),
{
}

/// A call is only ever ended in the server the bot is connected in, and
/// never while it is connected nowhere.
pub proof fn lemma_stale_call_is_the_connected_one(
    session: VoiceSession,
    bot: u64,
    user: u64,
    was_in_channel: bool,
    now_channel: Option<u64>,
    guild: Option<u64>,
)
    ensures
        stale_call(session, bot, user, was_in_channel, now_channel, guild) matches Some(g)
            ==> session.connected_guild == Some(g),
        session.connected_guild is None ==> stale_call(session, bot, user, was_in_channel, now_channel, guild) is None,
{
}

} // verus!
