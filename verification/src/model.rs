//! The data that the bot moves around: tracks, their artists and albums, and
//! the entries of a play queue.

use vstd::prelude::*;

verus! {

/// Whether a track's audio file is already on disk (`Cached`) or still has
/// to be fetched by the music service before it can play (`Partial`).
#[derive(Debug, Clone, Copy, PartialEq, Eq, Structural)]
pub enum TrackState {
    Cached,
    Partial,
}

impl Default for TrackState {
    fn default() -> (s: Self)
        ensures
            s == TrackState::Cached,
    {
        TrackState::Cached
    }
}

/// A performer of a track.
#[derive(Debug)]
pub struct Artist {
    pub name: String,
}

impl Clone for Artist {
    fn clone(&self) -> (r: Self)
        ensures
            r == *self,
    {
        Artist { name: self.name.clone() }
    }
}

/// The album a track belongs to.
#[derive(Debug)]
pub struct Album {
    pub name: String,
}

impl Clone for Album {
    fn clone(&self) -> (r: Self)
        ensures
            r == *self,
    {
        Album { name: self.name.clone() }
    }
}

/// A track as the music service describes it.
#[derive(Debug)]
pub struct Track {
    pub id: String,
    pub title: String,
    pub artists: Vec<Artist>,
    pub album: Option<Album>,
    pub duration_seconds: i32,
    pub thumbnail_url: Option<String>,
    pub bpm: Option<u32>,
    pub camelot_key: Option<String>,
    pub file_path: Option<String>,
    pub state: TrackState,
}

/// A track with its list of artists taken by its contents.
pub struct TrackView {
    pub id: String,
    pub title: String,
    pub artists: Seq<Artist>,
    pub album: Option<Album>,
    pub duration_seconds: i32,
    pub thumbnail_url: Option<String>,
    pub bpm: Option<u32>,
    pub camelot_key: Option<String>,
    pub file_path: Option<String>,
    pub state: TrackState,
}

impl View for Track {
    type V = TrackView;

    open spec fn view(&self) -> TrackView {
        TrackView {
            id: self.id,
            title: self.title,
            artists: self.artists@,
            album: self.album,
            duration_seconds: self.duration_seconds,
            thumbnail_url: self.thumbnail_url,
            bpm: self.bpm,
            camelot_key: self.camelot_key,
            file_path: self.file_path,
            state: self.state,
        }
    }
}

/// Clones a list of artists exactly.
fn clone_artists(v: &Vec<Artist>) -> (r: Vec<Artist>)
    ensures
        r@ == v@,
{
    let mut r: Vec<Artist> = Vec::new();
    let mut i: usize = 0;
    while i < v.len()
        invariant
            i <= v.len(),
            r@ == v@.take(i as int),
        decreases v.len() - i,
    {
        r.push(v[i].clone());
        i = i + 1;
        assert(r@ =~= v@.take(i as int));
    }
    assert(v@.take(v.len() as int) =~= v@);
    r
}

fn clone_opt_string(o: &Option<String>) -> (r: Option<String>)
    ensures
        r == *o,
{
    match o {
        Some(s) => Some(s.clone()),
        None => None,
    }
}

impl Clone for Track {
    fn clone(&self) -> (r: Self)
        ensures
            r@ == self@,
    {
        Track {
            id: self.id.clone(),
            title: self.title.clone(),
            artists: clone_artists(&self.artists),
            album: match &self.album {
                Some(a) => Some(a.clone()),
                None => None,
            },
            duration_seconds: self.duration_seconds,
            thumbnail_url: clone_opt_string(&self.thumbnail_url),
            bpm: self.bpm,
            camelot_key: clone_opt_string(&self.camelot_key),
            file_path: clone_opt_string(&self.file_path),
            state: self.state,
        }
    }
}

/// A track in a play queue, with who asked for it.
#[derive(Debug)]
pub struct QueuedTrack {
    pub track: Track,
    pub requested_by: String,
    pub requester_avatar: Option<String>,
}

/// A queue entry with its track taken by its view.
pub struct QueuedView {
    pub track: TrackView,
    pub requested_by: String,
    pub requester_avatar: Option<String>,
}

impl View for QueuedTrack {
    type V = QueuedView;

    open spec fn view(&self) -> QueuedView {
        QueuedView {
            track: self.track@,
            requested_by: self.requested_by,
            requester_avatar: self.requester_avatar,
        }
    }
}

impl Clone for QueuedTrack {
    fn clone(&self) -> (r: Self)
        ensures
            r@ == self@,
    {
        QueuedTrack {
            track: self.track.clone(),
            requested_by: self.requested_by.clone(),
            requester_avatar: clone_opt_string(&self.requester_avatar),
        }
    }
}

/// What became of a track that was asked for: it plays at once, or it waits
/// in the queue at a 1-based position.
#[derive(Debug)]
pub enum PlaybackStatus {
    PlayingNow(Track),
    Enqueued { track: Track, position: usize },
}

} // verus!
