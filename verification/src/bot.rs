//! Reading chat messages as commands, and the facts about members that the
//! bot derives from Discord's data.

use vstd::prelude::*;
use crate::text::{
    lowercase, nat_text, push_u64, split_once, split_once_char, split_words, starts_with,
    to_lowercase, trim, trim_text, views, words, is_ws, law_words_clean,
};

verus! {

/// The prefix that marks a message as a command.
pub open spec fn command_prefix() -> Seq<char> {
    seq!['t', '!']
}

/// The label and arguments of a message: after the `t!` prefix and the
/// surrounding whitespace, the label is the part before the first space,
/// lower-cased and not empty; the arguments are the whitespace-separated
/// words after that space.
pub open spec fn command_parts(content: Seq<char>) -> Option<(Seq<char>, Seq<Seq<char>>)> {
    if !starts_with(content, command_prefix()) {
        None
    } else {
        let body = trim(content.skip(2));
        let (label, rest) = split_once(body, ' ');
        if label.len() == 0 {
            None
        } else {
            Some((lowercase(label), words(rest)))
        }
    }
}

/// Reads a message as a command: its lower-cased label and its arguments,
/// or `None` when it is not a command.
pub fn parse_command(content: &str) -> (r: Option<(String, Vec<String>)>)
    ensures
        match command_parts(content@) {
            None => r is None,
            Some((label, args)) => r matches Some((l, a)) && l@ == label && views(a@) == args,
        },
{
    let n = content.unicode_len();
    if n < 2 || content.get_char(0) != 't' || content.get_char(1) != '!' {
        proof {
            if n >= 2 && starts_with(content@, command_prefix()) {
                assert(content@.take(2)[0] == content@[0]);
                assert(content@.take(2)[1] == content@[1]);
            }
        }
        return None;
    }
    assert(content@.take(2) =~= command_prefix());
    let after = content.substring_char(2, n);
    assert(after@ =~= content@.skip(2));
    let body = trim_text(after);
    let (label, rest) = split_once_char(body.as_str(), ' ');
    if label.unicode_len() == 0 {
        return None;
    }
    let args = split_words(rest.as_str());
    Some((to_lowercase(label.as_str()), args))
}

/// The name shown for an author: the server nickname, else the global
/// display name, else the user name.
pub open spec fn display_name_text(nick: Option<String>, global_name: Option<String>, username: String) -> Seq<char> {
    match nick {
        Some(n) => n@,
        None => match global_name {
            Some(g) => g@,
            None => username@,
        },
    }
}

/// Chooses the name shown for an author.
pub fn display_name(nick: &Option<String>, global_name: &Option<String>, username: &String) -> (r: String)
    ensures
        r@ == display_name_text(*nick, *global_name, *username),
{
    match nick {
        Some(n) => n.clone(),
        None => match global_name {
            Some(g) => g.clone(),
            None => username.clone(),
        },
    }
}

/// The address of a member's server avatar: animated hashes (`a_...`) are
/// GIFs, the rest WebP, at 1024 pixels.
pub open spec fn member_avatar_text(guild_id: u64, user_id: u64, hash: Seq<char>) -> Seq<char> {
    "https://cdn.discordapp.com/guilds/"@ + nat_text(guild_id as nat) + "/users/"@ + nat_text(
        user_id as nat,
    ) + "/avatars/"@ + hash + "."@ + if starts_with(hash, seq!['a', '_']) {
        "gif"@
    } else {
        "webp"@
    } + "?size=1024"@
}

/// Builds the address of a member's server avatar.
pub fn member_avatar_url(guild_id: u64, user_id: u64, hash: &str) -> (r: String)
    ensures
        r@ == member_avatar_text(guild_id, user_id, hash@),
{
    let n = hash.unicode_len();
    let animated = n >= 2 && hash.get_char(0) == 'a' && hash.get_char(1) == '_';
    proof {
        if starts_with(hash@, seq!['a', '_']) {
            assert(hash@.take(2)[0] == hash@[0]);
            assert(hash@.take(2)[1] == hash@[1]);
        }
        if animated {
            assert(hash@.take(2) =~= seq!['a', '_']);
        }
    }
    let mut r = String::from_str("https://cdn.discordapp.com/guilds/");
    push_u64(&mut r, guild_id);
    r.append("/users/");
    push_u64(&mut r, user_id);
    r.append("/avatars/");
    r.append(hash);
    r.append(".");
    if animated {
        r.append("gif");
    } else {
        r.append("webp");
    }
    r.append("?size=1024");
    assert(r@ =~= member_avatar_text(guild_id, user_id, hash@));
    r
}

/// The avatar shown for an author: the server avatar when the member has
/// one, else the account's avatar address, if any.
pub fn author_avatar(guild_id: u64, user_id: u64, member_hash: Option<&str>, user_avatar: Option<String>) -> (r: Option<String>)
    ensures
        match member_hash {
            Some(h) => r matches Some(u) && u@ == member_avatar_text(guild_id, user_id, h@),
            None => r == user_avatar,
        },
{
    match member_hash {
        Some(h) => Some(member_avatar_url(guild_id, user_id, h)),
        None => user_avatar,
    }
}

/// What the bot knows of one voice connection in a server.
#[derive(Debug, Clone, Copy, PartialEq, Eq, Structural)]
pub struct VoiceMember {
    pub channel_id: Option<u64>,
    pub user_id: u64,
    pub is_bot: bool,
}

/// Whether `m` is a human other than the bot itself in channel `channel`.
pub open spec fn is_listener(m: VoiceMember, channel: u64, me: u64) -> bool {
    m.channel_id == Some(channel) && m.user_id != me && !m.is_bot
}

/// The number of listeners among `s`.
pub open spec fn listeners(s: Seq<VoiceMember>, channel: u64, me: u64) -> nat
    decreases s.len(),
{
    if s.len() == 0 {
        0
    } else {
        listeners(s.drop_last(), channel, me) + if is_listener(s.last(), channel, me) {
            1nat
        } else {
            0nat
        }
    }
}

proof fn lemma_listeners_bound(s: Seq<VoiceMember>, channel: u64, me: u64)
    ensures
        listeners(s, channel, me) <= s.len(),
    decreases s.len(),
{
    if s.len() > 0 {
        lemma_listeners_bound(s.drop_last(), channel, me);
    }
}

/// Counts the humans other than the bot in the bot's voice channel. When it
/// is zero the bot leaves (after a grace period and a second count).
pub fn count_listeners(states: &[VoiceMember], channel: u64, me: u64) -> (n: usize)
    ensures
        n == listeners(states@, channel, me),
{
    let mut n: usize = 0;
    let mut i: usize = 0;
    while i < states.len()
        invariant
            i <= states@.len(),
            n == listeners(states@.take(i as int), channel, me),
        decreases states@.len() - i,
    {
        proof {
            lemma_listeners_bound(states@.take(i as int), channel, me);
        }
        let m = states[i];
        assert(states@.take(i + 1).drop_last() =~= states@.take(i as int));
        if m.channel_id == Some(channel) && m.user_id != me && !m.is_bot {
            n = n + 1;
        }
        i = i + 1;
    }
    assert(states@.take(states@.len() as int) =~= states@);
    n
}

/// Seconds the bot waits in a voice channel left without listeners before
/// it leaves.
pub const LEAVE_GRACE_SECS: u64 = 30;

/// Decides, on a change of voice states, whether the grace period before
/// leaving starts: it does when no listener is left in the bot's channel.
pub fn start_leave_timer(states: &[VoiceMember], channel: u64, me: u64) -> (b: bool)
    ensures
        b == (listeners(states@, channel, me) == 0),
{
    count_listeners(states, channel, me) == 0
}

/// Decides, once the grace period is over, whether the bot leaves: only when
/// the server's voice states could be read again (`Some`) and still no
/// listener is in the bot's channel.
pub fn leave_after_grace(states: Option<&[VoiceMember]>, channel: u64, me: u64) -> (b: bool)
    ensures
        b == (states matches Some(m) && listeners(m@, channel, me) == 0),
{
    match states {
        Some(m) => count_listeners(m, channel, me) == 0,
        None => false,
    }
}

/// The arguments of a message read as a command are non-empty and hold no
/// whitespace.
pub proof fn law_command_parts_clean(content: Seq<char>)
    ensures
        command_parts(content) matches Some((label, args)) ==> {
            &&& forall|i: int| 0 <= i < args.len() ==> (#[trigger] args[i]).len() > 0
            &&& forall|i: int, j: int| 0 <= i < args.len() && 0 <= j < args[i].len() ==> !is_ws(#[trigger] args[i][j])
        },
{
    let body = trim(content.skip(2));
    law_words_clean(split_once(body, ' ').1);
}

} // verus!
