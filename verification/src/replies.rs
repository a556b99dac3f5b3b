//! What the playback commands answer: the choice between texts and embeds,
//! and the texts themselves.

use vstd::prelude::*;
use crate::args::{parse_volume_level, volume_arg};
use crate::embeds::{
    build_full_queue_embed, build_queue_embed, build_track_embed, full_queue_embed_view,
    opt_str_text, opt_text, queue_embed_view, track_embed_view, Embed, TrackEmbedOptions,
    COLOR_PLAYING,
};
use crate::model::{Artist, PlaybackStatus, QueuedTrack};
use crate::text::{join, nat_text, push_u64};
use crate::embeds::artist_names;

verus! {

/// The speaker icon for a volume: muted at 0, then one, two or three waves
/// below 40, below 75, and from 75 up.
pub open spec fn volume_icon(level: u8) -> Seq<char> {
    if level == 0 {
        "\u{1f507}"@
    } else if level < 40 {
        "\u{1f508}"@
    } else if level < 75 {
        "\u{1f509}"@
    } else {
        "\u{1f50a}"@
    }
}

/// The speaker icon for a volume.
pub fn volume_emoji(level: u8) -> (r: &'static str)
    ensures
        r@ == volume_icon(level),
{
    if level == 0 {
        "\u{1f507}"
    } else if level < 40 {
        "\u{1f508}"
    } else if level < 75 {
        "\u{1f509}"
    } else {
        "\u{1f50a}"
    }
}

/// The reply that shows the volume.
pub open spec fn volume_shown_text(level: u8) -> Seq<char> {
    volume_icon(level) + " El volumen actual es **"@ + nat_text(level as nat) + "%**"@
}

/// The reply after the volume was set.
pub open spec fn volume_set_text(level: u8) -> Seq<char> {
    volume_icon(level) + " Volumen ajustado a **"@ + nat_text(level as nat) + "%**"@
}

/// Tells the volume.
pub fn volume_shown_reply(level: u8) -> (r: String)
    ensures
        r@ == volume_shown_text(level),
{
    let mut r = String::from_str(volume_emoji(level));
    r.append(" El volumen actual es **");
    push_u64(&mut r, level as u64);
    r.append("%**");
    r
}

/// Confirms a new volume.
pub fn volume_set_reply(level: u8) -> (r: String)
    ensures
        r@ == volume_set_text(level),
{
    let mut r = String::from_str(volume_emoji(level));
    r.append(" Volumen ajustado a **");
    push_u64(&mut r, level as u64);
    r.append("%**");
    r
}

/// What the volume command does with its arguments.
#[derive(Debug, PartialEq, Eq, Structural)]
pub enum VolumeRequest {
    /// No argument: show the volume.
    Show,
    /// Set the volume to this level.
    Change(u8),
    /// An argument that is not a level from 0 to 100: show the usage.
    Usage,
}

/// Reads the arguments of the volume command.
pub fn volume_request(args: &[String]) -> (r: VolumeRequest)
    ensures
        args@.len() == 0 ==> r == VolumeRequest::Show,
        args@.len() > 0 ==> match volume_arg(args@) {
            Some(n) => r == VolumeRequest::Change(n as u8),
            None => r == VolumeRequest::Usage,
        },
{
    if args.len() == 0 {
        return VolumeRequest::Show;
    }
    match parse_volume_level(args) {
        Some(n) => VolumeRequest::Change(n),
        None => VolumeRequest::Usage,
    }
}

/// The reply of `skipto`: the position, the title and the artists joined
/// with `" & "` (nothing when there are none).
pub open spec fn skip_to_text(position: usize, q: QueuedTrack) -> Seq<char> {
    "Saltando a la posición "@ + nat_text(position as nat) + ": **"@ + q.track.title@ + " - "@
        + join(artist_names(q.track.artists@), " & "@) + "**"@
}

fn push_joined_names(out: &mut String, artists: &[Artist])
    ensures
        final(out)@ == old(out)@ + join(artist_names(artists@), " & "@),
{
    let n = artists.len();
    if n == 0 {
        assert(artist_names(artists@) =~= Seq::<Seq<char>>::empty());
        assert(out@ =~= old(out)@ + join(artist_names(artists@), " & "@));
        return;
    }
    let mut acc = String::from_str(artists[0].name.as_str());
    assert(artist_names(artists@).take(1) =~= seq![artists@[0].name@]);
    let mut i: usize = 1;
    while i < n
        invariant
            n == artists@.len(),
            1 <= i <= n,
            acc@ == join(artist_names(artists@).take(i as int), " & "@),
        decreases n - i,
    {
        let ghost before = artist_names(artists@).take(i as int);
        acc.append(" & ");
        acc.append(artists[i].name.as_str());
        i = i + 1;
        assert(artist_names(artists@).take(i as int).drop_last() =~= before);
        assert(acc@ =~= join(artist_names(artists@).take(i as int), " & "@));
    }
    assert(artist_names(artists@).take(n as int) =~= artist_names(artists@));
    out.append(acc.as_str());
}

/// Announces the skip to a queue position.
pub fn skip_to_reply(position: usize, q: &QueuedTrack) -> (r: String)
    ensures
        r@ == skip_to_text(position, *q),
{
    let mut r = String::from_str("Saltando a la posición ");
    push_u64(&mut r, position as u64);
    r.append(": **");
    r.append(q.track.title.as_str());
    r.append(" - ");
    push_joined_names(&mut r, q.track.artists.as_slice());
    r.append("**");
    assert(r@ =~= skip_to_text(position, *q));
    r
}

/// What the queue command answers.
#[derive(Debug)]
pub enum QueueReply {
    Text(String),
    Embed(Embed),
}

/// Decides the answer of the queue command from the server's queue, if the
/// server has a player: a note when there is none or when nothing plays or
/// waits, else the queue listing with at most 10 entries.
pub fn queue_reply(info: Option<(Option<QueuedTrack>, Vec<QueuedTrack>)>) -> (r: QueueReply)
    ensures
        match info {
            None => r matches QueueReply::Text(t) && t@ == "El reproductor no está activo en este servidor."@,
            Some((current, queue)) => if current is None && queue@.len() == 0 {
                r matches QueueReply::Text(t) && t@ == "No hay nada en reproducción ni en cola."@
            } else {
                r matches QueueReply::Embed(e) && e@ == full_queue_embed_view(current, queue@, 10)
            },
        },
{
    match info {
        None => QueueReply::Text(String::from_str("El reproductor no está activo en este servidor.")),
        Some((current, queue)) => {
            if current.is_none() && queue.len() == 0 {
                QueueReply::Text(String::from_str("No hay nada en reproducción ni en cola."))
            } else {
                let e = match &current {
                    Some(c) => build_full_queue_embed(Some(c), queue.as_slice(), 10),
                    None => build_full_queue_embed(None, queue.as_slice(), 10),
                };
                QueueReply::Embed(e)
            }
        },
    }
}

/// The name shown as the requester: the server nickname when there is one,
/// else the author's name.
pub open spec fn requester_text(nick: Option<String>, name: String) -> Seq<char> {
    match nick {
        Some(n) => n@,
        None => name@,
    }
}

/// The name shown as the requester.
pub fn requester_name(nick: &Option<String>, name: &String) -> (r: String)
    ensures
        r@ == requester_text(*nick, *name),
{
    match nick {
        Some(n) => n.clone(),
        None => name.clone(),
    }
}

/// The answer to a play request: the track embed with `title_prefix` when it
/// plays now, the queue embed with its position when it waits.
pub fn playback_embed(status: &PlaybackStatus, requested_by: &str, author_icon_url: Option<&str>, title_prefix: &str) -> (e: Embed)
    ensures
        match *status {
            PlaybackStatus::PlayingNow(t) => e@ == track_embed_view(
                t,
                requested_by@,
                opt_str_text(author_icon_url),
                None,
                COLOR_PLAYING,
                title_prefix@,
            ),
            PlaybackStatus::Enqueued { track, position } => e@ == queue_embed_view(
                track,
                requested_by@,
                opt_str_text(author_icon_url),
                position,
            ),
        },
{
    match status {
        PlaybackStatus::PlayingNow(track) => build_track_embed(TrackEmbedOptions {
            track,
            requested_by,
            author_icon_url,
            position: None,
            color: COLOR_PLAYING,
            title_prefix,
        }),
        PlaybackStatus::Enqueued { track, position } => build_queue_embed(
            track,
            requested_by,
            author_icon_url,
            *position,
        ),
    }
}

/// The checks of `playnext` before it runs, each with its reply: a server,
/// a voice channel, and a query.
pub open spec fn play_next_refusal(in_guild: bool, in_voice: bool, nargs: nat) -> Option<Seq<char>> {
    if !in_guild {
        Some("Este comando solo funciona en servidores."@)
    } else if !in_voice {
        Some("Debes estar en un canal de voz primero."@)
    } else if nargs == 0 {
        Some("Dime qué canción poner primero."@)
    } else {
        None
    }
}

/// Runs the checks of `playnext`; `None` means it may go on.
pub fn play_next_check(in_guild: bool, in_voice: bool, nargs: usize) -> (r: Option<String>)
    ensures
        match play_next_refusal(in_guild, in_voice, nargs as nat) {
            Some(m) => r matches Some(t) && t@ == m,
            None => r is None,
        },
{
    if !in_guild {
        Some(String::from_str("Este comando solo funciona en servidores."))
    } else if !in_voice {
        Some(String::from_str("Debes estar en un canal de voz primero."))
    } else if nargs == 0 {
        Some(String::from_str("Dime qué canción poner primero."))
    } else {
        None
    }
}


/// The embed posted when a queued track starts after the previous one ended:
/// its requester and avatar, no queue position, the playing colour.
pub fn now_playing_embed(q: &QueuedTrack) -> (e: Embed)
    ensures
        e@ == track_embed_view(
            q.track,
            q.requested_by@,
            opt_text(q.requester_avatar),
            None,
            COLOR_PLAYING,
            "\u{1f3b5} Estás escuchando:"@,
        ),
{
    let avatar: Option<&str> = match &q.requester_avatar {
        Some(a) => Some(a.as_str()),
        None => None,
    };
    build_track_embed(TrackEmbedOptions {
        track: &q.track,
        requested_by: q.requested_by.as_str(),
        author_icon_url: avatar,
        position: None,
        color: COLOR_PLAYING,
        title_prefix: "\u{1f3b5} Estás escuchando:",
    })
}

} // verus!
