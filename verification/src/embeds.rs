//! The text and layout of the messages that show tracks and queues.

use vstd::prelude::*;
use crate::text::{int_text, join, nat_text, occurs_at, split_scan, split_text, pad2_text, push_char, push_i64, push_pad2, push_u64};
use crate::model::{Artist, QueuedTrack, Track, TrackState};

verus! {

/// Quotient of `a` by `b > 0` rounded toward zero, as Rust's `/` on
/// integers computes it.
pub open spec fn tdiv(a: int, b: int) -> int {
    if a >= 0 {
        a / b
    } else {
        -((-a) / b)
    }
}

/// Remainder that goes with [`tdiv`], as Rust's `%` on integers gives it.
pub open spec fn trem(a: int, b: int) -> int {
    a - b * tdiv(a, b)
}

fn tdiv_exec(a: i64, b: i64) -> (r: i64)
    requires
        b > 0,
        -0x1_0000_0000 <= a <= 0x1_0000_0000,
    ensures
        r == tdiv(a as int, b as int),
{
    if a >= 0 {
        a / b
    } else {
        -((-a) / b)
    }
}


/// The text of a duration in seconds: `h:mm:ss` when there is a whole hour,
/// `m:ss` otherwise, with Rust's rounding toward zero for negative input.
pub open spec fn duration_text(secs: int) -> Seq<char> {
    let h = tdiv(secs, 3600);
    let m = tdiv(trem(secs, 3600), 60);
    let s = trem(secs, 60);
    if h > 0 {
        int_text(h) + ":"@ + pad2_text(m) + ":"@ + pad2_text(s)
    } else {
        int_text(m) + ":"@ + pad2_text(s)
    }
}

/// Appends [`duration_text`] of `secs`.
fn push_duration(out: &mut String, secs: i32)
    ensures
        final(out)@ == old(out)@ + duration_text(secs as int),
{
    let a = secs as i64;
    let h = tdiv_exec(a, 3600);
    let r = a - 3600 * h;
    let m = tdiv_exec(r, 60);
    let s = a - 60 * tdiv_exec(a, 60);
    if h > 0 {
        push_i64(out, h);
        out.append(":");
        push_pad2(out, m);
        out.append(":");
        push_pad2(out, s);
    } else {
        push_i64(out, m);
        out.append(":");
        push_pad2(out, s);
    }
    assert(out@ =~= old(out)@ + duration_text(secs as int));
}

/// Formats a duration in seconds as `h:mm:ss` or `m:ss`.
pub fn fmt_duration(secs: i32) -> (r: String)
    ensures
        r@ == duration_text(secs as int),
{
    let mut r = String::new();
    push_duration(&mut r, secs);
    assert(r@ =~= duration_text(secs as int));
    r
}

/// The names of the artists, in order.
pub open spec fn artist_names(a: Seq<Artist>) -> Seq<Seq<char>> {
    a.map_values(|x: Artist| x.name@)
}

/// The artists' names joined with `" & "`, or `"Desconocido"` when there
/// are none.
pub open spec fn artists_text(a: Seq<Artist>) -> Seq<char> {
    if a.len() == 0 {
        "Desconocido"@
    } else {
        join(artist_names(a), " & "@)
    }
}

/// Appends [`artists_text`] of `artists`.
fn push_artists(out: &mut String, artists: &[Artist])
    ensures
        final(out)@ == old(out)@ + artists_text(artists@),
{
    let n = artists.len();
    if n == 0 {
        out.append("Desconocido");
        return;
    }
    let mut acc = String::from_str(artists[0].name.as_str());
    assert(artist_names(artists@).take(1) =~= seq![artists@[0].name@]);
    let mut i: usize = 1;
    while i < n
        invariant
            n == artists@.len(),
            1 <= i <= n,
            acc@ == join(artist_names(artists@).take(i as int), " & "@),
        decreases n - i,
    {
        let ghost before = artist_names(artists@).take(i as int);
        acc.append(" & ");
        acc.append(artists[i].name.as_str());
        i = i + 1;
        let ghost after = artist_names(artists@).take(i as int);
        assert(after.drop_last() =~= before);
        assert(acc@ =~= join(after, " & "@));
    }
    assert(artist_names(artists@).take(n as int) =~= artist_names(artists@));
    out.append(acc.as_str());
}

/// Names the artists of a track: joined with `" & "`, or `"Desconocido"`.
pub fn fmt_artists(artists: &[Artist]) -> (r: String)
    ensures
        r@ == artists_text(artists@),
{
    let mut r = String::new();
    push_artists(&mut r, artists);
    assert(r@ =~= artists_text(artists@));
    r
}

/// `n` copies of `c`.
pub open spec fn repeat_char(c: char, n: nat) -> Seq<char> {
    Seq::new(n, |_i: int| c)
}

fn push_repeat(out: &mut String, c: char, n: usize)
    ensures
        final(out)@ == old(out)@ + repeat_char(c, n as nat),
{
    let mut i: usize = 0;
    while i < n
        invariant
            i <= n,
            out@ == old(out)@ + repeat_char(c, i as nat),
        decreases n - i,
    {
        push_char(out, c);
        i = i + 1;
        assert(out@ =~= old(out)@ + repeat_char(c, i as nat));
    }
}

/// Number of filled blocks of the duration bar: one per 30 seconds, at
/// least 1 and at most 20. A negative quotient reaches `usize` as a huge
/// value and is therefore cut to 20.
pub open spec fn bar_blocks(secs: int) -> int {
    let q = tdiv(secs, 30);
    if q < 0 || q > 20 {
        20
    } else if q < 1 {
        1
    } else {
        q
    }
}

/// The duration bar: [`bar_blocks`] full blocks, then light shade up to 20
/// characters.
pub open spec fn bar_text(secs: int) -> Seq<char> {
    repeat_char('\u{2588}', bar_blocks(secs) as nat) + repeat_char(
        '\u{2591}',
        (20 - bar_blocks(secs)) as nat,
    )
}

fn push_bar(out: &mut String, secs: i32)
    ensures
        final(out)@ == old(out)@ + bar_text(secs as int),
{
    let q = tdiv_exec(secs as i64, 30);
    let blocks: usize = if q < 0 || q > 20 {
        20
    } else if q < 1 {
        1
    } else {
        q as usize
    };
    push_repeat(out, '\u{2588}', blocks);
    push_repeat(out, '\u{2591}', 20 - blocks);
    assert(out@ =~= old(out)@ + bar_text(secs as int));
}

/// A 20-character bar that shows a duration, one block per 30 seconds.
pub fn duration_bar(secs: i32) -> (r: String)
    ensures
        r@ == bar_text(secs as int),
{
    let mut r = String::new();
    push_bar(&mut r, secs);
    assert(r@ =~= bar_text(secs as int));
    r
}


/// Embed colour: purple, for the track that plays now.
pub const COLOR_PLAYING: u32 = 180 * 65536 + 160 * 256 + 255;

/// Embed colour: teal, for queued tracks and the queue.
pub const COLOR_QUEUED: u32 = 120 * 65536 + 190 * 256 + 170;

/// Embed colour: yellow, for skips.
pub const COLOR_SKIP: u32 = 254 * 65536 + 231 * 256 + 92;

/// Embed colour: grey, for a finished queue.
pub const COLOR_FINISHED: u32 = 128 * 65536 + 128 * 256 + 128;

/// Embed colour: pink, for radio stations.
pub const COLOR_RADIO: u32 = 255 * 65536 + 105 * 256 + 180;

/// One named field of an embed.
#[derive(Debug)]
pub struct EmbedField {
    pub name: String,
    pub value: String,
    pub inline: bool,
}

/// The footer line of an embed, with an optional icon.
#[derive(Debug)]
pub struct EmbedFooter {
    pub text: String,
    pub icon_url: Option<String>,
}

/// A rich message: colour, title, description, thumbnail, fields in order
/// and a footer, each part present only when it was set.
#[derive(Debug)]
pub struct Embed {
    pub color: u32,
    pub title: Option<String>,
    pub description: Option<String>,
    pub thumbnail: Option<String>,
    pub fields: Vec<EmbedField>,
    pub footer: Option<EmbedFooter>,
}

/// An embed field by its texts.
pub struct FieldView {
    pub name: Seq<char>,
    pub value: Seq<char>,
    pub inline: bool,
}

/// An embed by its texts.
pub struct EmbedView {
    pub color: u32,
    pub title: Option<Seq<char>>,
    pub description: Option<Seq<char>>,
    pub thumbnail: Option<Seq<char>>,
    pub fields: Seq<FieldView>,
    pub footer: Option<(Seq<char>, Option<Seq<char>>)>,
}

/// The text of an optional string.
pub open spec fn opt_text(o: Option<String>) -> Option<Seq<char>> {
    match o {
        Some(s) => Some(s@),
        None => None,
    }
}

/// The text of an optional string slice.
pub open spec fn opt_str_text(o: Option<&str>) -> Option<Seq<char>> {
    match o {
        Some(s) => Some(s@),
        None => None,
    }
}

/// A field by its texts.
pub open spec fn field_view(name: Seq<char>, value: Seq<char>, inline: bool) -> FieldView {
    FieldView { name, value, inline }
}

impl View for EmbedField {
    type V = FieldView;

    open spec fn view(&self) -> FieldView {
        field_view(self.name@, self.value@, self.inline)
    }
}

impl View for Embed {
    type V = EmbedView;

    open spec fn view(&self) -> EmbedView {
        EmbedView {
            color: self.color,
            title: opt_text(self.title),
            description: opt_text(self.description),
            thumbnail: opt_text(self.thumbnail),
            fields: self.fields@.map_values(|f: EmbedField| f@),
            footer: match self.footer {
                Some(f) => Some((f.text@, opt_text(f.icon_url))),
                None => None,
            },
        }
    }
}

fn copy_opt_string(o: &Option<String>) -> (r: Option<String>)
    ensures
        opt_text(r) == opt_text(*o),
{
    match o {
        Some(s) => Some(s.clone()),
        None => None,
    }
}

fn copy_opt_str(o: Option<&str>) -> (r: Option<String>)
    ensures
        opt_text(r) == opt_str_text(o),
{
    match o {
        Some(s) => Some(String::from_str(s)),
        None => None,
    }
}

fn push_field(fields: &mut Vec<EmbedField>, name: &str, value: String, inline: bool)
    ensures
        final(fields)@.map_values(|f: EmbedField| f@) == old(fields)@.map_values(
            |f: EmbedField| f@,
        ).push(field_view(name@, value@, inline)),
{
    fields.push(EmbedField { name: String::from_str(name), value, inline });
    assert(fields@.map_values(|f: EmbedField| f@) =~= old(fields)@.map_values(
        |f: EmbedField| f@,
    ).push(field_view(name@, value@, inline)));
}

/// What a track embed is made from.
pub struct TrackEmbedOptions<'a> {
    pub track: &'a Track,
    pub requested_by: &'a str,
    pub author_icon_url: Option<&'a str>,
    pub position: Option<usize>,
    pub color: u32,
    pub title_prefix: &'a str,
}

/// The value of the duration field: the bar, two spaces, the duration in
/// backticks.
pub open spec fn duration_field_text(secs: int) -> Seq<char> {
    bar_text(secs) + "  `"@ + duration_text(secs) + "`"@
}

/// The fields of a track embed, in order: duration, then album, BPM, key
/// and queue position where the track or the request has them.
pub open spec fn track_fields(t: Track, position: Option<usize>) -> Seq<FieldView> {
    seq![field_view("\u{23f1} Duración"@, duration_field_text(t.duration_seconds as int), false)]
        + match t.album {
        Some(a) => seq![field_view("\u{1f4bf} Álbum"@, a.name@, true)],
        None => Seq::<FieldView>::empty(),
    } + match t.bpm {
        Some(b) => seq![field_view("BPM"@, nat_text(b as nat), true)],
        None => Seq::<FieldView>::empty(),
    } + match t.camelot_key {
        Some(k) => seq![field_view("Clave"@, k@, true)],
        None => Seq::<FieldView>::empty(),
    } + match position {
        Some(p) => seq![field_view("\u{1f4cb} Posición en cola"@, "#"@ + nat_text(p as nat), true)],
        None => Seq::<FieldView>::empty(),
    }
}

/// The embed that shows one track.
pub open spec fn track_embed_view(
    t: Track,
    requested_by: Seq<char>,
    icon: Option<Seq<char>>,
    position: Option<usize>,
    color: u32,
    title_prefix: Seq<char>,
) -> EmbedView {
    EmbedView {
        color,
        title: Some(title_prefix + " \u{2014} "@ + t.title@),
        description: Some("**"@ + artists_text(t.artists@) + "**"@),
        thumbnail: opt_text(t.thumbnail_url),
        fields: track_fields(t, position),
        footer: Some(("Request by "@ + requested_by, icon)),
    }
}

/// Builds the embed that shows a track: title, artists, duration bar and
/// the optional album, BPM, key and queue position fields.
pub fn build_track_embed(opts: TrackEmbedOptions<'_>) -> (e: Embed)
    ensures
        e@ == track_embed_view(
            *opts.track,
            opts.requested_by@,
            opt_str_text(opts.author_icon_url),
            opts.position,
            opts.color,
            opts.title_prefix@,
        ),
{
    let track = opts.track;
    let mut title = String::from_str(opts.title_prefix);
    title.append(" \u{2014} ");
    title.append(track.title.as_str());
    let mut description = String::from_str("**");
    push_artists(&mut description, track.artists.as_slice());
    description.append("**");
    let mut fields: Vec<EmbedField> = Vec::new();
    let mut dur = String::new();
    push_bar(&mut dur, track.duration_seconds);
    dur.append("  `");
    push_duration(&mut dur, track.duration_seconds);
    dur.append("`");
    assert(dur@ =~= duration_field_text(track.duration_seconds as int));
    push_field(&mut fields, "\u{23f1} Duración", dur, false);
    let ghost f1 = fields@.map_values(|f: EmbedField| f@);
    if let Some(album) = &track.album {
        push_field(&mut fields, "\u{1f4bf} Álbum", album.name.clone(), true);
    }
    let ghost f2 = fields@.map_values(|f: EmbedField| f@);
    if let Some(bpm) = track.bpm {
        push_field(&mut fields, "BPM", crate::text::u64_text(bpm as u64), true);
    }
    let ghost f3 = fields@.map_values(|f: EmbedField| f@);
    if let Some(key) = &track.camelot_key {
        push_field(&mut fields, "Clave", key.clone(), true);
    }
    let ghost f4 = fields@.map_values(|f: EmbedField| f@);
    if let Some(pos) = opts.position {
        let mut v = String::from_str("#");
        push_u64(&mut v, pos as u64);
        push_field(&mut fields, "\u{1f4cb} Posición en cola", v, true);
    }
    assert(fields@.map_values(|f: EmbedField| f@) =~= track_fields(*track, opts.position));
    let footer = EmbedFooter {
        text: {
            let mut t = String::from_str("Request by ");
            t.append(opts.requested_by);
            t
        },
        icon_url: copy_opt_str(opts.author_icon_url),
    };
    let e = Embed {
        color: opts.color,
        title: Some(title),
        description: Some(description),
        thumbnail: copy_opt_string(&track.thumbnail_url),
        fields,
        footer: Some(footer),
    };
    assert(e@.fields =~= track_fields(*track, opts.position));
    e
}


fn footer_with(prefix: &str, who: &str, icon: Option<&str>) -> (f: EmbedFooter)
    ensures
        f.text@ == prefix@ + who@,
        opt_text(f.icon_url) == opt_str_text(icon),
{
    let mut t = String::from_str(prefix);
    t.append(who);
    EmbedFooter { text: t, icon_url: copy_opt_str(icon) }
}

/// The embed for a track that was put in the queue at `position`.
pub open spec fn queue_embed_view(
    t: Track,
    requested_by: Seq<char>,
    icon: Option<Seq<char>>,
    position: usize,
) -> EmbedView {
    EmbedView {
        color: COLOR_QUEUED,
        title: Some("**"@ + t.title@ + "** \u{2014} "@ + artists_text(t.artists@)),
        description: Some("Posición en cola: #"@ + nat_text(position as nat) + " \u{23f1} `"@
            + duration_text(t.duration_seconds as int) + "`"@),
        thumbnail: opt_text(t.thumbnail_url),
        fields: Seq::<FieldView>::empty(),
        footer: Some(("Request by "@ + requested_by, icon)),
    }
}

/// Builds the embed that announces a track added to the queue.
pub fn build_queue_embed(
    track: &Track,
    requested_by: &str,
    author_icon_url: Option<&str>,
    position: usize,
) -> (e: Embed)
    ensures
        e@ == queue_embed_view(*track, requested_by@, opt_str_text(author_icon_url), position),
{
    let mut title = String::from_str("**");
    title.append(track.title.as_str());
    title.append("** \u{2014} ");
    push_artists(&mut title, track.artists.as_slice());
    let mut description = String::from_str("Posición en cola: #");
    push_u64(&mut description, position as u64);
    description.append(" \u{23f1} `");
    push_duration(&mut description, track.duration_seconds);
    description.append("`");
    let e = Embed {
        color: COLOR_QUEUED,
        title: Some(title),
        description: Some(description),
        thumbnail: copy_opt_string(&track.thumbnail_url),
        fields: Vec::new(),
        footer: Some(footer_with("Request by ", requested_by, author_icon_url)),
    };
    assert(e@.fields =~= Seq::<FieldView>::empty());
    assert(e@.title =~= queue_embed_view(*track, requested_by@, opt_str_text(author_icon_url), position).title);
    e
}

/// The mark after a queued track's artists: a folder for a cached file,
/// nothing for one still to be fetched.
pub open spec fn state_mark(s: TrackState) -> Seq<char> {
    match s {
        TrackState::Cached => "\u{1f4c1}"@,
        TrackState::Partial => ""@,
    }
}

/// The lines of the queue listing for entry `i` (0-based).
pub open spec fn queue_entry_text(i: nat, q: QueuedTrack) -> Seq<char> {
    "`"@ + nat_text(i + 1) + ".` **"@ + q.track.title@ + "** \u{2014} "@ + artists_text(
        q.track.artists@,
    ) + " "@ + state_mark(q.track.state) + "\n`"@ + duration_text(
        q.track.duration_seconds as int,
    ) + "` \u{2022} "@ + q.requested_by@ + "\n\n"@
}

/// The listing of the first `n` entries of a queue.
pub open spec fn queue_lines(q: Seq<QueuedTrack>, n: nat) -> Seq<char>
    decreases n,
{
    if n == 0 {
        Seq::<char>::empty()
    } else {
        queue_lines(q, (n - 1) as nat) + queue_entry_text((n - 1) as nat, q[n - 1])
    }
}

/// The queue listing: at most `limit` entries, then a note of how many more
/// there are.
pub open spec fn queue_list_text(q: Seq<QueuedTrack>, limit: nat) -> Seq<char> {
    if q.len() > limit {
        queue_lines(q, limit) + "*...y "@ + nat_text((q.len() - limit) as nat)
            + " canciones más.*"@
    } else {
        queue_lines(q, q.len())
    }
}

/// The field for the track that plays now.
pub open spec fn now_playing_text(c: QueuedTrack) -> Seq<char> {
    "**"@ + c.track.title@ + "** \u{2014} "@ + artists_text(c.track.artists@) + "\n`"@
        + duration_text(c.track.duration_seconds as int) + "` \u{2022} Pedido por: "@
        + c.requested_by@
}

/// The embed that lists the queue.
pub open spec fn full_queue_embed_view(
    current: Option<QueuedTrack>,
    queue: Seq<QueuedTrack>,
    limit: nat,
) -> EmbedView {
    EmbedView {
        color: COLOR_QUEUED,
        title: Some("\u{1f4cb} Cola de Reproducción"@),
        description: if queue.len() == 0 {
            Some("No hay más canciones en la cola."@)
        } else {
            None
        },
        thumbnail: None,
        fields: match current {
            Some(c) => seq![field_view("Reproduciendo Ahora"@, now_playing_text(c), false)],
            None => Seq::<FieldView>::empty(),
        } + if queue.len() == 0 {
            Seq::<FieldView>::empty()
        } else {
            seq![field_view("Siguientes en cola"@, queue_list_text(queue, limit), false)]
        },
        footer: None,
    }
}

fn push_queue_entry(out: &mut String, i: usize, q: &QueuedTrack)
    requires
        i < usize::MAX,
    ensures
        final(out)@ == old(out)@ + queue_entry_text(i as nat, *q),
{
    out.append("`");
    push_u64(out, (i + 1) as u64);
    out.append(".` **");
    out.append(q.track.title.as_str());
    out.append("** \u{2014} ");
    push_artists(out, q.track.artists.as_slice());
    out.append(" ");
    match q.track.state {
        TrackState::Cached => out.append("\u{1f4c1}"),
        TrackState::Partial => out.append(""),
    }
    out.append("\n`");
    push_duration(out, q.track.duration_seconds);
    out.append("` \u{2022} ");
    out.append(q.requested_by.as_str());
    out.append("\n\n");
    assert(out@ =~= old(out)@ + queue_entry_text(i as nat, *q));
}

/// Builds the embed that lists the queue: the track that plays now, then at
/// most `limit` waiting tracks and a count of the rest.
pub fn build_full_queue_embed(current: Option<&QueuedTrack>, queue: &[QueuedTrack], limit: usize) -> (e: Embed)
    ensures
        e@ == full_queue_embed_view(
            match current {
                Some(c) => Some(*c),
                None => None,
            },
            queue@,
            limit as nat,
        ),
{
    let ghost cur = match current {
        Some(c) => Some(*c),
        None => None::<QueuedTrack>,
    };
    let mut fields: Vec<EmbedField> = Vec::new();
    if let Some(c) = current {
        let mut v = String::from_str("**");
        v.append(c.track.title.as_str());
        v.append("** \u{2014} ");
        push_artists(&mut v, c.track.artists.as_slice());
        v.append("\n`");
        push_duration(&mut v, c.track.duration_seconds);
        v.append("` \u{2022} Pedido por: ");
        v.append(c.requested_by.as_str());
        assert(v@ =~= now_playing_text(*c));
        push_field(&mut fields, "Reproduciendo Ahora", v, false);
    }
    let mut description: Option<String> = None;
    let n = queue.len();
    if n == 0 {
        description = Some(String::from_str("No hay más canciones en la cola."));
    } else {
        let shown = if limit < n {
            limit
        } else {
            n
        };
        let mut list = String::new();
        let mut i: usize = 0;
        while i < shown
            invariant
                n == queue@.len(),
                shown <= n,
                i <= shown,
                list@ == queue_lines(queue@, i as nat),
            decreases shown - i,
        {
            push_queue_entry(&mut list, i, &queue[i]);
            i = i + 1;
        }
        if n > limit {
            list.append("*...y ");
            push_u64(&mut list, (n - limit) as u64);
            list.append(" canciones más.*");
        }
        assert(list@ =~= queue_list_text(queue@, limit as nat));
        push_field(&mut fields, "Siguientes en cola", list, false);
    }
    let e = Embed {
        color: COLOR_QUEUED,
        title: Some(String::from_str("\u{1f4cb} Cola de Reproducción")),
        description,
        thumbnail: None,
        fields,
        footer: None,
    };
    assert(e@.fields =~= full_queue_embed_view(cur, queue@, limit as nat).fields);
    e
}

/// What a radio embed is made from.
pub struct RadioEmbedOptions<'a> {
    pub seed_track: &'a Track,
    pub enqueued_count: usize,
    pub requested_by: &'a str,
    pub author_icon_url: Option<&'a str>,
}

/// The embed that announces a radio station.
pub open spec fn radio_embed_view(
    seed: Track,
    count: usize,
    requested_by: Seq<char>,
    icon: Option<Seq<char>>,
) -> EmbedView {
    EmbedView {
        color: COLOR_RADIO,
        title: Some("\u{1f4fb} Estación de Radio Iniciada"@),
        description: Some("Se ha generado un mix automático basado en:\n**"@ + seed.title@
            + "** \u{2014} "@ + artists_text(seed.artists@)),
        thumbnail: opt_text(seed.thumbnail_url),
        fields: seq![
            field_view(
                "\u{1f4ca} Estado de la Cola"@,
                "Se añadieron **"@ + nat_text(count as nat)
                    + "** canciones generadas dinámicamente."@,
                false,
            ),
        ],
        footer: Some(("Iniciada por "@ + requested_by, icon)),
    }
}

/// Builds the embed that announces a radio station built from a seed track.
pub fn build_radio_embed(opts: RadioEmbedOptions<'_>) -> (e: Embed)
    ensures
        e@ == radio_embed_view(
            *opts.seed_track,
            opts.enqueued_count,
            opts.requested_by@,
            opt_str_text(opts.author_icon_url),
        ),
{
    let seed = opts.seed_track;
    let mut description = String::from_str("Se ha generado un mix automático basado en:\n**");
    description.append(seed.title.as_str());
    description.append("** \u{2014} ");
    push_artists(&mut description, seed.artists.as_slice());
    let mut v = String::from_str("Se añadieron **");
    push_u64(&mut v, opts.enqueued_count as u64);
    v.append("** canciones generadas dinámicamente.");
    let mut fields: Vec<EmbedField> = Vec::new();
    push_field(&mut fields, "\u{1f4ca} Estado de la Cola", v, false);
    let e = Embed {
        color: COLOR_RADIO,
        title: Some(String::from_str("\u{1f4fb} Estación de Radio Iniciada")),
        description: Some(description),
        thumbnail: copy_opt_string(&seed.thumbnail_url),
        fields,
        footer: Some(footer_with("Iniciada por ", opts.requested_by, opts.author_icon_url)),
    };
    assert(e@.fields =~= radio_embed_view(
        *seed,
        opts.enqueued_count,
        opts.requested_by@,
        opt_str_text(opts.author_icon_url),
    ).fields);
    e
}


/// For a non-negative duration, the hours, minutes and seconds that are
/// shown add back up to it, with minutes and seconds below 60.
pub proof fn law_duration_parts_recombine(secs: int)
    requires
        secs >= 0,
    ensures
        ({
            let h = tdiv(secs, 3600);
            let m = tdiv(trem(secs, 3600), 60);
            let s = trem(secs, 60);
            &&& 0 <= m < 60
            &&& 0 <= s < 60
            &&& h >= 0
            &&& h * 3600 + m * 60 + s == secs
        }),
{
    let h = secs / 3600;
    let r = secs % 3600;
    assert(secs == h * 3600 + r && 0 <= r < 3600) by (nonlinear_arith)
        requires
            secs >= 0,
            h == secs / 3600,
            r == secs % 3600,
    ;
    assert(tdiv(secs, 3600) == h);
    assert(trem(secs, 3600) == r);
    let m = r / 60;
    let s = r % 60;
    assert(r == m * 60 + s && 0 <= s < 60 && 0 <= m < 60) by (nonlinear_arith)
        requires
            0 <= r < 3600,
            m == r / 60,
            s == r % 60,
    ;
    assert(tdiv(r, 60) == m);
    let q = secs / 60;
    assert(secs - 60 * q == s) by (nonlinear_arith)
        requires
            secs == h * 3600 + m * 60 + s,
            0 <= s < 60,
            h >= 0,
            m >= 0,
            q == secs / 60,
    {
        assert(secs == (h * 60 + m) * 60 + s);
    }
    assert(tdiv(secs, 60) == q);
}

/// The duration bar is always 20 characters, with 1 to 20 full blocks.
pub proof fn law_bar_width(secs: int)
    ensures
        bar_text(secs).len() == 20,
        1 <= bar_blocks(secs) <= 20,
{
}


/// A longer track never gets a shorter bar: for durations `0 <= a <= b`
/// the bar of `b` has at least as many full blocks, and in every bar the
/// full blocks are exactly the first [`bar_blocks`] characters.
pub proof fn law_bar_monotonic(a: int, b: int)
    requires
        0 <= a <= b,
    ensures
        bar_blocks(a) <= bar_blocks(b),
        forall|i: int| 0 <= i < 20 ==> (#[trigger] bar_text(a)[i] == '\u{2588}') == (i < bar_blocks(a)),
        forall|i: int| 0 <= i < 20 ==> (#[trigger] bar_text(b)[i] == '\u{2588}') == (i < bar_blocks(b)),
{
    assert(a / 30 <= b / 30) by (nonlinear_arith)
        requires
            0 <= a <= b,
    ;
    lemma_bar_cells(a);
    lemma_bar_cells(b);
}

proof fn lemma_bar_cells(secs: int)
    ensures
        forall|i: int| 0 <= i < 20 ==> (#[trigger] bar_text(secs)[i] == '\u{2588}') == (i < bar_blocks(secs)),
{
    let n = bar_blocks(secs);
    let full = repeat_char('\u{2588}', n as nat);
    let light = repeat_char('\u{2591}', (20 - n) as nat);
    assert forall|i: int| 0 <= i < 20 implies (#[trigger] bar_text(secs)[i] == '\u{2588}') == (i < n) by {
        if i < n {
            assert(bar_text(secs)[i] == full[i]);
        } else {
            assert(bar_text(secs)[i] == light[i - n]);
        }
    }
}

/// `s` holds no `'&'`.
pub open spec fn without_ampersand(s: Seq<char>) -> bool {
    forall|i: int| 0 <= i < s.len() ==> s[i] != '&'
}

/// The artists' names can be read back from the text that names them: for
/// non-empty lists of artists whose names hold no `'&'`, the same text
/// means the same names in the same order.
pub proof fn law_artists_text_injective(a: Seq<Artist>, b: Seq<Artist>)
    requires
        a.len() >= 1,
        b.len() >= 1,
        forall|i: int| 0 <= i < a.len() ==> without_ampersand(#[trigger] a[i].name@),
        forall|i: int| 0 <= i < b.len() ==> without_ampersand(#[trigger] b[i].name@),
        artists_text(a) == artists_text(b),
    ensures
        artist_names(a) == artist_names(b),
{
    law_artists_text_splits_back(a);
    law_artists_text_splits_back(b);
}

proof fn lemma_join_front(ys: Seq<Seq<char>>, sep: Seq<char>)
    requires
        ys.len() >= 2,
    ensures
        join(ys, sep) == ys[0] + sep + join(ys.drop_first(), sep),
    decreases ys.len(),
{
    let f = ys.drop_first();
    if ys.len() == 2 {
        assert(ys.drop_last() =~= seq![ys[0]]);
        assert(f =~= seq![ys[1]]);
        assert(join(ys.drop_last(), sep) == ys[0]);
        assert(join(f, sep) == ys[1]);
        assert(join(ys, sep) == join(ys.drop_last(), sep) + sep + ys.last());
    } else {
        let d = ys.drop_last();
        lemma_join_front(d, sep);
        assert(d.drop_first() =~= f.drop_last());
        assert(f.last() == ys.last());
        assert(d[0] == ys[0]);
        assert(join(ys, sep) == join(d, sep) + sep + ys.last());
        assert(join(f, sep) == join(f.drop_last(), sep) + sep + f.last());
        assert(join(ys, sep) =~= ys[0] + sep + join(f, sep));
    }
}

proof fn lemma_scan_to_last(t: Seq<char>, start: int, i: int)
    requires
        0 <= start <= i <= t.len(),
        forall|q: int| i + 1 <= q < t.len() ==> t[q] != '&',
    ensures
        split_scan(t, " & "@, start, i) == seq![t.subrange(start, t.len() as int)],
    decreases t.len() - i,
{
    reveal_strlit(" & ");
    if i + 3 <= t.len() {
        assert(!occurs_at(t, " & "@, i)) by {
            if occurs_at(t, " & "@, i) {
                assert(t.subrange(i, i + 3)[1] == t[i + 1]);
            }
        }
        lemma_scan_to_last(t, start, i + 1);
    }
}

proof fn lemma_scan_to_sep(t: Seq<char>, start: int, i: int, m: int)
    requires
        0 <= start <= i <= m,
        m + 3 <= t.len(),
        occurs_at(t, " & "@, m),
        forall|q: int| i + 1 <= q <= m ==> t[q] != '&',
    ensures
        split_scan(t, " & "@, start, i) == seq![t.subrange(start, m)] + split_scan(t, " & "@, m + 3, m + 3),
    decreases m - i,
{
    reveal_strlit(" & ");
    if i < m {
        assert(!occurs_at(t, " & "@, i)) by {
            if occurs_at(t, " & "@, i) {
                assert(t.subrange(i, i + 3)[1] == t[i + 1]);
            }
        }
        lemma_scan_to_sep(t, start, i + 1, m);
    }
}

proof fn lemma_split_join(t: Seq<char>, k: int, ys: Seq<Seq<char>>)
    requires
        ys.len() >= 1,
        forall|i: int| 0 <= i < ys.len() ==> without_ampersand(#[trigger] ys[i]),
        0 <= k <= t.len(),
        t.skip(k) == join(ys, " & "@),
    ensures
        split_scan(t, " & "@, k, k) == ys,
    decreases ys.len(),
{
    reveal_strlit(" & ");
    if ys.len() == 1 {
        assert(without_ampersand(ys[0]));
        assert forall|q: int| k + 1 <= q < t.len() implies t[q] != '&' by {
            assert(t[q] == t.skip(k)[q - k]);
        }
        lemma_scan_to_last(t, k, k);
        assert(t.subrange(k, t.len() as int) =~= ys[0]);
        assert(seq![ys[0]] =~= ys);
    } else {
        lemma_join_front(ys, " & "@);
        let a = ys[0];
        let r = ys.drop_first();
        let m = k + a.len();
        assert(without_ampersand(a));
        assert(t.skip(k) == a + " & "@ + join(r, " & "@));
        assert forall|q: int| k + 1 <= q <= m implies t[q] != '&' by {
            assert(t[q] == t.skip(k)[q - k]);
            if q < m {
                assert(t.skip(k)[q - k] == a[q - k]);
            } else {
                assert(t.skip(k)[q - k] == " & "@[0]);
            }
        }
        assert(t.subrange(m, m + 3) =~= " & "@) by {
            assert forall|j: int| 0 <= j < 3 implies t.subrange(m, m + 3)[j] == " & "@[j] by {
                assert(t[m + j] == t.skip(k)[a.len() + j]);
            }
        }
        lemma_scan_to_sep(t, k, k, m);
        assert(t.subrange(k, m) =~= a) by {
            assert forall|j: int| 0 <= j < a.len() implies t.subrange(k, m)[j] == a[j] by {
                assert(t[k + j] == t.skip(k)[j]);
            }
        }
        assert(t.skip(m + 3) =~= join(r, " & "@)) by {
            assert forall|j: int| 0 <= j < t.skip(m + 3).len() implies t.skip(m + 3)[j] == join(r, " & "@)[j] by {
                assert(t[m + 3 + j] == t.skip(k)[a.len() + 3 + j]);
            }
        }
        assert forall|i: int| 0 <= i < r.len() implies without_ampersand(#[trigger] r[i]) by {
            assert(r[i] == ys[i + 1]);
        }
        lemma_split_join(t, m + 3, r);
        assert(seq![a] + r =~= ys);
    }
}

/// The names come back from the text that names them: splitting it at each
/// `" & "` gives the artists' names in order, when there is at least one
/// artist and no name holds `'&'`.
pub proof fn law_artists_text_splits_back(a: Seq<Artist>)
    requires
        a.len() >= 1,
        forall|i: int| 0 <= i < a.len() ==> without_ampersand(#[trigger] a[i].name@),
    ensures
        split_text(artists_text(a), " & "@) == artist_names(a),
{
    let xs = artist_names(a);
    assert forall|i: int| 0 <= i < xs.len() implies without_ampersand(#[trigger] xs[i]) by {
        assert(xs[i] == a[i].name@);
    }
    let t = artists_text(a);
    assert(t.skip(0) =~= t);
    lemma_split_join(t, 0, xs);
}

/// 1 when `b` holds, else 0.
pub open spec fn one_if(b: bool) -> int {
    if b { 1 } else { 0 }
}

/// A track embed shows, in this order: the duration; the album when the
/// track has one; its BPM when it has one; its key when it has one; the
/// queue position when one is given. Each appears exactly when its part is
/// there, independently of the others.
pub proof fn law_track_fields(t: Track, position: Option<usize>)
    ensures
        ({
            let f = track_fields(t, position);
            let a = one_if(t.album is Some);
            let b = one_if(t.bpm is Some);
            let k = one_if(t.camelot_key is Some);
            let p = one_if(position is Some);
            &&& f.len() == 1 + a + b + k + p
            &&& f[0] == field_view("\u{23f1} Duración"@, duration_field_text(t.duration_seconds as int), false)
            &&& (t.album matches Some(al) ==> f[1] == field_view("\u{1f4bf} Álbum"@, al.name@, true))
            &&& (t.bpm matches Some(bpm) ==> f[1 + a] == field_view("BPM"@, nat_text(bpm as nat), true))
            &&& (t.camelot_key matches Some(key) ==> f[1 + a + b] == field_view("Clave"@, key@, true))
            &&& (position matches Some(pos) ==> f[1 + a + b + k] == field_view(
                "\u{1f4cb} Posición en cola"@,
                "#"@ + nat_text(pos as nat),
                true,
            ))
        }),
{
}

/// The queue embed shows the track that plays now as its first field
/// whenever one plays, whatever waits, and the listing of the waiting
/// tracks as its last field whenever any wait; it has no other field, and
/// says that nothing waits exactly when the queue is empty.
pub proof fn law_queue_embed_fields(current: Option<QueuedTrack>, queue: Seq<QueuedTrack>, limit: nat)
    ensures
        ({
            let e = full_queue_embed_view(current, queue, limit);
            let c = one_if(current is Some);
            let w = one_if(queue.len() > 0);
            &&& e.fields.len() == c + w
            &&& (current matches Some(q) ==> e.fields[0] == field_view("Reproduciendo Ahora"@, now_playing_text(q), false))
            &&& (queue.len() > 0 ==> e.fields[c] == field_view("Siguientes en cola"@, queue_list_text(queue, limit), false))
            &&& (e.description is Some <==> queue.len() == 0)
        }),
{
}

} // verus!
