//! The play queue of one server: the track that plays, the tracks that wait,
//! and the volume. Audio itself is driven elsewhere; this is the state that
//! decides what plays next.

use std::collections::VecDeque;
use vstd::prelude::*;
use crate::errors::MusicError;
use crate::model::{PlaybackStatus, QueuedTrack, QueuedView, Track, TrackState, TrackView};

verus! {

/// The state of a scheduler by its contents.
pub struct SchedulerView {
    pub queue: Seq<QueuedView>,
    pub current: Option<QueuedView>,
    pub volume: u8,
}

/// The views of a sequence of queue entries.
pub open spec fn entry_views(s: Seq<QueuedTrack>) -> Seq<QueuedView> {
    s.map_values(|q: QueuedTrack| q@)
}

/// The view of an optional queue entry.
pub open spec fn opt_entry_view(o: Option<QueuedTrack>) -> Option<QueuedView> {
    match o {
        Some(q) => Some(q@),
        None => None,
    }
}

/// A scheduler state from its parts.
pub open spec fn sched(queue: Seq<QueuedView>, current: Option<QueuedView>, volume: u8) -> SchedulerView {
    SchedulerView { queue, current, volume }
}

/// The state after the track that plays ends: the head of the queue plays,
/// or nothing does when the queue is empty.
pub open spec fn advance(s: SchedulerView) -> SchedulerView {
    if s.queue.len() > 0 {
        sched(s.queue.drop_first(), Some(s.queue[0]), s.volume)
    } else {
        sched(s.queue, None, s.volume)
    }
}

/// The state after `q` joins the back of the queue; when nothing played, the
/// queue then advances.
pub open spec fn after_enqueue(s: SchedulerView, q: QueuedView) -> SchedulerView {
    let t = sched(s.queue.push(q), s.current, s.volume);
    if s.current is None {
        advance(t)
    } else {
        t
    }
}

/// The state after `q` joins the front of the queue; when nothing played, the
/// queue then advances.
pub open spec fn after_enqueue_next(s: SchedulerView, q: QueuedView) -> SchedulerView {
    let t = sched(seq![q] + s.queue, s.current, s.volume);
    if s.current is None {
        advance(t)
    } else {
        t
    }
}

/// The state after skipping to 0-based queue position `i`: the entries before
/// it leave the queue, or nothing changes when `i` is out of range.
pub open spec fn after_skip_to(s: SchedulerView, i: int) -> SchedulerView {
    if 0 <= i < s.queue.len() {
        sched(s.queue.skip(i), s.current, s.volume)
    } else {
        s
    }
}

/// The state after clearing: no track plays and none waits.
pub open spec fn after_clear(s: SchedulerView) -> SchedulerView {
    sched(Seq::empty(), None, s.volume)
}

/// The state after the volume is set to `level` percent.
pub open spec fn after_set_volume(s: SchedulerView, level: u8) -> SchedulerView {
    sched(s.queue, s.current, level)
}

/// A queue entry by its parts.
pub open spec fn entry(track: TrackView, requested_by: String, avatar: Option<String>) -> QueuedView {
    QueuedView { track, requested_by, requester_avatar: avatar }
}

/// The play queue of one server.
pub struct TrackScheduler {
    pub queue: VecDeque<QueuedTrack>,
    pub current: Option<QueuedTrack>,
    volume: u8,
}

impl View for TrackScheduler {
    type V = SchedulerView;

    closed spec fn view(&self) -> SchedulerView {
        sched(entry_views(self.queue@), opt_entry_view(self.current), self.volume)
    }
}

impl TrackScheduler {
    /// An empty scheduler at full volume (100%).
    pub fn new() -> (s: Self)
        ensures
            s@ == sched(Seq::empty(), None, 100),
    {
        let s = TrackScheduler { queue: VecDeque::new(), current: None, volume: 100 };
        assert(s@.queue =~= Seq::<QueuedView>::empty());
        s
    }

    /// Moves the head of the queue into `current` (or clears `current` when
    /// the queue is empty).
    pub fn advance_logical_queue(&mut self)
        ensures
            final(self)@ == advance(old(self)@),
    {
        self.current = self.queue.pop_front();
        assert(self@.queue =~= advance(old(self)@).queue);
    }

    /// Appends a track; when nothing played, it starts at once. Returns
    /// whether playback has to be started.
    pub fn enqueue(&mut self, track: Track, requested_by: String, requester_avatar: Option<String>) -> (start: bool)
        ensures
            start == (old(self)@.current is None),
            final(self)@ == after_enqueue(old(self)@, entry(track@, requested_by, requester_avatar)),
    {
        let queued = QueuedTrack { track, requested_by, requester_avatar };
        let ghost q = queued@;
        let was_idle = self.current.is_none();
        self.queue.push_back(queued);
        assert(self@.queue =~= old(self)@.queue.push(q));
        if was_idle {
            self.advance_logical_queue();
        }
        was_idle
    }

    /// Puts a track at the front of the queue; when nothing played, it
    /// starts at once. Returns whether playback has to be started.
    pub fn enqueue_next(&mut self, track: Track, requested_by: String, requester_avatar: Option<String>) -> (start: bool)
        ensures
            start == (old(self)@.current is None),
            final(self)@ == after_enqueue_next(
                old(self)@,
                entry(track@, requested_by, requester_avatar),
            ),
    {
        let queued = QueuedTrack { track, requested_by, requester_avatar };
        let ghost q = queued@;
        let was_idle = self.current.is_none();
        self.queue.push_front(queued);
        assert(self@.queue =~= seq![q] + old(self)@.queue);
        if was_idle {
            self.advance_logical_queue();
        }
        was_idle
    }

    /// Drops the `index` entries before 0-based position `index` and returns
    /// a copy of the entry there, which plays once the current track is
    /// stopped. An index past the queue is refused and changes nothing.
    pub fn skip_to(&mut self, index: usize) -> (r: Result<QueuedTrack, MusicError>)
        ensures
            final(self)@ == after_skip_to(old(self)@, index as int),
            index < old(self)@.queue.len() ==> (r matches Ok(q) && q@ == old(self)@.queue[index as int]),
            index >= old(self)@.queue.len() ==> (r matches Err(MusicError::OutOfRange)),
    {
        if index >= self.queue.len() {
            return Err(MusicError::OutOfRange);
        }
        let ghost q0 = self.queue@;
        assert(q0.skip(0) =~= q0);
        let mut k: usize = 0;
        while k < index
            invariant
                k <= index,
                index < q0.len(),
                self.queue@ == q0.skip(k as int),
                self.current == old(self).current,
                self.volume == old(self).volume,
            decreases index - k,
        {
            let _ = self.queue.pop_front();
            k = k + 1;
            assert(self.queue@ =~= q0.skip(k as int));
        }
        assert(entry_views(self.queue@) =~= entry_views(q0).skip(index as int));
        Ok(self.queue[0].clone())
    }

    /// Empties the queue and forgets the track that played.
    pub fn clear(&mut self)
        ensures
            final(self)@ == after_clear(old(self)@),
    {
        self.queue.clear();
        self.current = None;
        assert(self@.queue =~= Seq::<QueuedView>::empty());
    }

    /// Sets the volume in percent. It cannot fail.
    pub fn set_volume(&mut self, level: u8) -> (r: Result<(), MusicError>)
        ensures
            r is Ok,
            final(self)@ == after_set_volume(old(self)@, level),
    {
        self.volume = level;
        Ok(())
    }

    /// The volume in percent.
    pub fn current_volume_percent(&self) -> (v: u8)
        ensures
            v == self@.volume,
    {
        self.volume
    }

    /// Appends a track and says what became of it: it plays now when nothing
    /// played, else it waits at the 1-based position at the back of the queue.
    pub fn enqueue_with_status(&mut self, track: Track, requested_by: String, requester_avatar: Option<String>) -> (status: PlaybackStatus)
        requires
            old(self)@.queue.len() < usize::MAX,
        ensures
            final(self)@ == after_enqueue(old(self)@, entry(track@, requested_by, requester_avatar)),
            old(self)@.current is None ==> (status matches PlaybackStatus::PlayingNow(t) && t@ == track@),
            old(self)@.current is Some ==> (status matches PlaybackStatus::Enqueued { track: t, position }
                && t@ == track@ && position == old(self)@.queue.len() + 1),
    {
        let copy = track.clone();
        let status = if self.current.is_none() {
            PlaybackStatus::PlayingNow(copy)
        } else {
            PlaybackStatus::Enqueued { track: copy, position: self.queue.len() + 1 }
        };
        self.enqueue(track, requested_by, requester_avatar);
        status
    }

    /// Puts a track at the front of the queue and says what became of it: it
    /// plays now when nothing played, else it waits at position 1.
    pub fn enqueue_next_with_status(&mut self, track: Track, requested_by: String, requester_avatar: Option<String>) -> (status: PlaybackStatus)
        ensures
            final(self)@ == after_enqueue_next(old(self)@, entry(track@, requested_by, requester_avatar)),
            old(self)@.current is None ==> (status matches PlaybackStatus::PlayingNow(t) && t@ == track@),
            old(self)@.current is Some ==> (status matches PlaybackStatus::Enqueued { track: t, position }
                && t@ == track@ && position == 1),
    {
        let copy = track.clone();
        let status = if self.current.is_none() {
            PlaybackStatus::PlayingNow(copy)
        } else {
            PlaybackStatus::Enqueued { track: copy, position: 1 }
        };
        self.enqueue_next(track, requested_by, requester_avatar);
        status
    }

    /// Appends every track in order, all asked for by the same user, and
    /// returns how many were added.
    pub fn enqueue_all(&mut self, tracks: Vec<Track>, requested_by: String, requester_avatar: Option<String>) -> (count: usize)
        ensures
            count == tracks@.len(),
            final(self)@ == after_enqueue_all(
                old(self)@,
                track_views(tracks@),
                requested_by,
                requester_avatar,
            ),
    {
        let n = tracks.len();
        let ghost all = track_views(tracks@);
        let mut rest = tracks;
        let mut count: usize = 0;
        assert(all.take(0) =~= Seq::<TrackView>::empty());
        while count < n
            invariant
                n == all.len(),
                count <= n,
                track_views(rest@) == all.skip(count as int),
                self@ == after_enqueue_all(old(self)@, all.take(count as int), requested_by, requester_avatar),
            decreases n - count,
        {
            assert(track_views(rest@).len() == rest@.len());
            assert(track_views(rest@)[0] == all[count as int]);
            let ghost before = rest@;
            let t = rest.remove(0);
            assert forall|j: int| 0 <= j < rest@.len() implies #[trigger] track_views(rest@)[j] == all.skip(count + 1)[j] by {
                assert(rest@[j] == before[j + 1]);
                assert(track_views(before)[j + 1] == all.skip(count as int)[j + 1]);
            }
            assert(track_views(rest@) =~= all.skip(count + 1));
            self.enqueue(t, requested_by.clone(), match &requester_avatar {
                Some(a) => Some(a.clone()),
                None => None,
            });
            count = count + 1;
            assert(all.take(count as int).drop_last() =~= all.take(count - 1));
        }
        assert(all.take(n as int) =~= all);
        count
    }

    /// Copies of the track that plays and of the waiting tracks.
    pub fn queue_snapshot(&self) -> (r: (Option<QueuedTrack>, Vec<QueuedTrack>))
        ensures
            opt_entry_view(r.0) == self@.current,
            entry_views(r.1@) == self@.queue,
    {
        let current = match &self.current {
            Some(q) => Some(q.clone()),
            None => None,
        };
        let mut v: Vec<QueuedTrack> = Vec::new();
        let mut i: usize = 0;
        while i < self.queue.len()
            invariant
                i <= self.queue@.len(),
                v@.len() == i,
                entry_views(v@) == entry_views(self.queue@).take(i as int),
            decreases self.queue@.len() - i,
        {
            let c = self.queue[i].clone();
            assert(c@ == entry_views(self.queue@)[i as int]);
            let ghost before = v@;
            v.push(c);
            assert forall|j: int| 0 <= j < i implies #[trigger] entry_views(v@)[j] == entry_views(before)[j] by {
                assert(v@[j] == before[j]);
            }
            i = i + 1;
            assert(entry_views(v@) =~= entry_views(self.queue@).take(i as int));
        }
        assert(entry_views(self.queue@).take(i as int) =~= entry_views(self.queue@));
        (current, v)
    }

    /// What has to happen before the track in `current` can play: nothing
    /// plays, its file has to be fetched first, or it can be opened.
    pub fn jit_step(&self) -> (step: JitStep)
        ensures
            match self@.current {
                None => step is Idle,
                Some(q) => if q.track.state == TrackState::Partial {
                    step matches JitStep::Resolve(id) && id == q.track.id
                } else {
                    step matches JitStep::Open(t) && t@ == q.track
                },
            },
    {
        match &self.current {
            None => JitStep::Idle,
            Some(q) => {
                if q.track.state == TrackState::Partial {
                    JitStep::Resolve(q.track.id.clone())
                } else {
                    JitStep::Open(q.track.clone())
                }
            },
        }
    }

    /// Puts a freshly fetched track in place of the current one, keeping who
    /// asked for it. Nothing changes when no track is current.
    pub fn replace_current_track(&mut self, track: Track)
        ensures
            final(self)@ == with_current_track(old(self)@, track@),
    {
        match self.current.take() {
            Some(q) => {
                self.current = Some(QueuedTrack {
                    track,
                    requested_by: q.requested_by,
                    requester_avatar: q.requester_avatar,
                });
            },
            None => {},
        }
    }

    /// The step after the track that played ended: the head of the queue
    /// becomes current. Returns whether there is a track to play now.
    pub fn track_ended(&mut self) -> (play: bool)
        ensures
            final(self)@ == advance(old(self)@),
            play == (final(self)@.current is Some),
    {
        self.advance_logical_queue();
        self.current.is_some()
    }

    /// The step after preparing the current track: a fetched track takes the
    /// place of the current one and is to be opened; when fetching or opening
    /// failed, the current track is given up and the queue moves on.
    pub fn after_jit(&mut self, outcome: JitOutcome) -> (open: Option<Track>)
        ensures
            match outcome {
                JitOutcome::Fetched(t) => final(self)@ == with_current_track(old(self)@, t@)
                    && (open matches Some(o) && o@ == t@),
                _ => final(self)@ == advance(old(self)@) && open is None,
            },
    {
        match outcome {
            JitOutcome::Fetched(t) => {
                let copy = t.clone();
                self.replace_current_track(t);
                Some(copy)
            },
            _ => {
                self.advance_logical_queue();
                None
            },
        }
    }

    /// Whether the first track of a radio station has to be fetched before
    /// it can play: it is still partial and nothing plays, so it plays at
    /// once.
    pub fn radio_needs_fetch(&self, first: &Track) -> (b: bool)
        ensures
            b == (self@.current is None && first.state == TrackState::Partial),
    {
        self.current.is_none() && first.state == TrackState::Partial
    }

    /// Appends the tracks of a radio station, the first one and then the
    /// rest, all asked for by the same user. Returns how many were added and
    /// whether playback has to be started.
    pub fn enqueue_radio(&mut self, first: Track, rest: Vec<Track>, requested_by: String, requester_avatar: Option<String>) -> (r: (usize, bool))
        requires
            rest@.len() < usize::MAX,
        ensures
            r.0 == rest@.len() + 1,
            r.1 == (old(self)@.current is None),
            final(self)@ == after_enqueue_all(
                old(self)@,
                seq![first@] + track_views(rest@),
                requested_by,
                requester_avatar,
            ),
    {
        let ghost f = first@;
        let ghost rv = track_views(rest@);
        let av2 = match &requester_avatar {
            Some(a) => Some(a.clone()),
            None => None,
        };
        assert(av2 == requester_avatar);
        let by2 = requested_by.clone();
        let start = self.enqueue(first, by2, av2);
        proof {
            let one = seq![f];
            assert(one.drop_last() =~= Seq::<TrackView>::empty());
            assert(after_enqueue_all(old(self)@, one.drop_last(), requested_by, requester_avatar) == old(self)@);
            assert(one.last() == f);
            assert(self@ == after_enqueue_all(old(self)@, one, requested_by, requester_avatar));
            lemma_enqueue_all_concat(old(self)@, one, rv, requested_by, requester_avatar);
        }
        let n = self.enqueue_all(rest, requested_by, requester_avatar);
        (n + 1, start)
    }
}


/// The views of a sequence of tracks.
pub open spec fn track_views(s: Seq<Track>) -> Seq<TrackView> {
    s.map_values(|t: Track| t@)
}

/// The state after appending each of `ts` in order, all asked for by the
/// same user.
pub open spec fn after_enqueue_all(
    s: SchedulerView,
    ts: Seq<TrackView>,
    requested_by: String,
    avatar: Option<String>,
) -> SchedulerView
    decreases ts.len(),
{
    if ts.len() == 0 {
        s
    } else {
        after_enqueue(
            after_enqueue_all(s, ts.drop_last(), requested_by, avatar),
            entry(ts.last(), requested_by, avatar),
        )
    }
}

/// The state with `t` in place of the current track, asked for by the same
/// user; unchanged when no track is current.
pub open spec fn with_current_track(s: SchedulerView, t: TrackView) -> SchedulerView {
    match s.current {
        Some(q) => sched(s.queue, Some(entry(t, q.requested_by, q.requester_avatar)), s.volume),
        None => s,
    }
}

/// How preparing the current track went.
#[derive(Debug)]
pub enum JitOutcome {
    /// The music service fetched this track.
    Fetched(Track),
    /// The music service could not fetch it.
    FetchFailed,
    /// Its file could not be opened.
    OpenFailed,
}

/// Appending `a` and then `b` is appending `a + b`.
pub proof fn lemma_enqueue_all_concat(
    s: SchedulerView,
    a: Seq<TrackView>,
    b: Seq<TrackView>,
    requested_by: String,
    avatar: Option<String>,
)
    ensures
        after_enqueue_all(after_enqueue_all(s, a, requested_by, avatar), b, requested_by, avatar)
            == after_enqueue_all(s, a + b, requested_by, avatar),
    decreases b.len(),
{
    if b.len() == 0 {
        assert(a + b =~= a);
    } else {
        lemma_enqueue_all_concat(s, a, b.drop_last(), requested_by, avatar);
        assert((a + b).drop_last() =~= a + b.drop_last());
        assert((a + b).last() == b.last());
    }
}

/// What has to happen before the current track can play.
#[derive(Debug)]
pub enum JitStep {
    /// No track is current.
    Idle,
    /// The track with this id has to be fetched by the music service.
    Resolve(String),
    /// The track's file can be opened.
    Open(Track),
}

/// The voice channel status shown while `q` plays.
pub open spec fn topic_text(q: QueuedTrack) -> Seq<char> {
    "\u{1f3b6} "@ + q.track.title@ + " \u{2014} Request by "@ + q.requested_by@
}

/// The voice channel status shown while `q` plays: note, title, requester.
pub fn now_playing_topic(q: &QueuedTrack) -> (r: String)
    ensures
        r@ == topic_text(*q),
{
    let mut r = String::from_str("\u{1f3b6} ");
    r.append(q.track.title.as_str());
    r.append(" \u{2014} Request by ");
    r.append(q.requested_by.as_str());
    r
}

/// The tracks of a radio station: the service's tracks, preceded by the
/// seed unless the service already put it first.
pub open spec fn radio_playlist(seed: TrackView, tracks: Seq<TrackView>) -> Seq<TrackView> {
    if tracks[0].id@ == seed.id@ {
        tracks
    } else {
        seq![seed] + tracks
    }
}

/// Orders the tracks of a radio station after its seed. An empty answer from
/// the service is refused.
pub fn plan_radio(seed: &Track, tracks: Vec<Track>) -> (r: Result<Vec<Track>, MusicError>)
    ensures
        tracks@.len() == 0 ==> (r matches Err(MusicError::ResolveError(m))
            && m@ == "La radio no devolvió resultados para esta semilla."@),
        tracks@.len() > 0 ==> (r matches Ok(v) && track_views(v@) == radio_playlist(seed@, track_views(tracks@))),
{
    if tracks.len() == 0 {
        return Err(MusicError::ResolveError(String::from_str("La radio no devolvió resultados para esta semilla.")));
    }
    let mut tracks = tracks;
    let ghost old_views = track_views(tracks@);
    let same = tracks[0].id == seed.id;
    assert(tracks@[0]@ == old_views[0]);
    if !same {
        tracks.insert(0, seed.clone());
        assert(track_views(tracks@) =~= seq![seed@] + old_views);
    }
    Ok(tracks)
}

/// Number of track ends after which a state is reached.
pub open spec fn advance_n(s: SchedulerView, n: nat) -> SchedulerView
    decreases n,
{
    if n == 0 {
        s
    } else {
        advance_n(advance(s), (n - 1) as nat)
    }
}

proof fn lemma_advance_to_last(t: SchedulerView, q: QueuedView)
    requires
        t.queue.len() > 0,
        t.queue.last() == q,
    ensures
        advance_n(t, t.queue.len()).current == Some(q),
    decreases t.queue.len(),
{
    let a = advance(t);
    if t.queue.len() > 1 {
        assert(a.queue.last() == q);
        lemma_advance_to_last(a, q);
    } else {
        assert(advance_n(a, 0) == a);
    }
}

/// A track appended while another plays waits its turn: it becomes current
/// after exactly as many track ends as there were tracks before it, plus one.
pub proof fn law_fifo_order(s: SchedulerView, q: QueuedView)
    requires
        s.current is Some,
    ensures
        advance_n(after_enqueue(s, q), s.queue.len() + 1).current == Some(q),
{
    let t = after_enqueue(s, q);
    assert(t.queue.last() == q);
    lemma_advance_to_last(t, q);
}

/// A track put first while another plays is the next to play.
pub proof fn law_priority_plays_next(s: SchedulerView, q: QueuedView)
    requires
        s.current is Some,
    ensures
        advance(after_enqueue_next(s, q)).current == Some(q),
        advance(after_enqueue_next(s, q)).queue == s.queue,
{
    assert((seq![q] + s.queue).drop_first() =~= s.queue);
}

/// When nothing plays, an asked-for track plays at once; with an empty queue
/// it leaves the queue empty.
pub proof fn law_idle_plays_at_once(s: SchedulerView, q: QueuedView)
    requires
        s.current is None,
    ensures
        after_enqueue_next(s, q).current == Some(q),
        after_enqueue_next(s, q).queue == s.queue,
        s.queue.len() == 0 ==> after_enqueue(s, q).current == Some(q),
        s.queue.len() == 0 ==> after_enqueue(s, q).queue.len() == 0,
{
    assert((seq![q] + s.queue).drop_first() =~= s.queue);
}

/// The queue position reported for an added track is where it stands:
/// 1-based at the back for a plain request, first for a priority request.
pub proof fn law_reported_position(s: SchedulerView, q: QueuedView)
    requires
        s.current is Some,
    ensures
        after_enqueue(s, q).queue[(s.queue.len() + 1) - 1] == q,
        after_enqueue_next(s, q).queue[1 - 1] == q,
{
}

/// After skipping to position `i`, the track that was there is the next to
/// play, and the ones after it follow in order.
pub proof fn law_skip_to_plays_target(s: SchedulerView, i: int)
    requires
        0 <= i < s.queue.len(),
    ensures
        advance(after_skip_to(s, i)).current == Some(s.queue[i]),
        advance(after_skip_to(s, i)).queue == s.queue.skip(i + 1),
{
    assert(s.queue.skip(i).drop_first() =~= s.queue.skip(i + 1));
}

/// After clearing, nothing plays and nothing more will.
pub proof fn law_clear_stays_idle(s: SchedulerView)
    ensures
        after_clear(s).current is None,
        advance(after_clear(s)) == after_clear(s),
{
}

/// The volume reads back as it was set, and setting it leaves the queue and
/// the current track alone.
pub proof fn law_volume_read_back(s: SchedulerView, level: u8)
    ensures
        after_set_volume(s, level).volume == level,
        after_set_volume(s, level).queue == s.queue,
        after_set_volume(s, level).current == s.current,
{
}


/// A radio station starts with its seed, keeps the service's tracks in
/// their order after it, and does not repeat the seed when the service
/// already put it first.
pub proof fn law_radio_starts_with_seed(seed: TrackView, tracks: Seq<TrackView>)
    requires
        tracks.len() > 0,
    ensures
        radio_playlist(seed, tracks)[0].id@ == seed.id@,
        radio_playlist(seed, tracks).skip(
            radio_playlist(seed, tracks).len() - tracks.len(),
        ) == tracks,
        tracks[0].id@ == seed.id@ ==> radio_playlist(seed, tracks).len() == tracks.len(),
        tracks[0].id@ != seed.id@ ==> radio_playlist(seed, tracks).len() == tracks.len() + 1,
{
    if tracks[0].id@ == seed.id@ {
        assert(tracks.skip(0) =~= tracks);
    } else {
        assert((seq![seed] + tracks).skip(1) =~= tracks);
    }
}


/// The tracks in the order they will play: the current one, then the queue.
pub open spec fn lineup(s: SchedulerView) -> Seq<QueuedView> {
    match s.current {
        Some(c) => seq![c] + s.queue,
        None => s.queue,
    }
}

/// No request is lost or duplicated: a plain request joins the end of the
/// line-up, a priority request comes right after the track that plays (or
/// first when nothing plays), and a track end removes only the track that
/// played.
pub proof fn law_lineup(s: SchedulerView, q: QueuedView)
    ensures
        lineup(after_enqueue(s, q)) == lineup(s).push(q),
        s.current is Some ==> lineup(after_enqueue_next(s, q)) == seq![s.current.unwrap(), q] + s.queue,
        s.current is None ==> lineup(after_enqueue_next(s, q)) == seq![q] + s.queue,
        s.current is Some ==> lineup(advance(s)) == lineup(s).drop_first(),
        s.current is None ==> lineup(advance(s)) == lineup(s),
{
    let t = s.queue.push(q);
    if s.current is None {
        assert(seq![t[0]] + t.drop_first() =~= t);
        assert((seq![q] + s.queue).drop_first() =~= s.queue);
        if s.queue.len() > 0 {
            assert(seq![s.queue[0]] + s.queue.drop_first() =~= s.queue);
        }
    } else {
        assert(seq![s.current.unwrap()] + t =~= (seq![s.current.unwrap()] + s.queue).push(q));
        assert(seq![s.current.unwrap()] + (seq![q] + s.queue) =~= seq![s.current.unwrap(), q] + s.queue);
        assert((seq![s.current.unwrap()] + s.queue).drop_first() =~= s.queue);
        if s.queue.len() > 0 {
            assert(seq![s.queue[0]] + s.queue.drop_first() =~= s.queue);
        }
    }
}


/// Either a track plays or nothing waits: a waiting track is never left
/// behind by an idle player.
pub open spec fn plays_or_empty(s: SchedulerView) -> bool {
    s.current is Some || s.queue.len() == 0
}

proof fn lemma_enqueue_all_keeps(s: SchedulerView, ts: Seq<TrackView>, by: String, avatar: Option<String>)
    requires
        plays_or_empty(s),
    ensures
        plays_or_empty(after_enqueue_all(s, ts, by, avatar)),
    decreases ts.len(),
{
    if ts.len() > 0 {
        lemma_enqueue_all_keeps(s, ts.drop_last(), by, avatar);
    }
}

/// A new player holds the invariant, every step keeps it, and under it a
/// track asked for while nothing plays is the one that plays.
pub proof fn law_plays_or_empty(
    s: SchedulerView,
    q: QueuedView,
    i: int,
    level: u8,
    t: TrackView,
    ts: Seq<TrackView>,
    by: String,
    avatar: Option<String>,
)
    requires
        plays_or_empty(s),
    ensures
        plays_or_empty(sched(Seq::empty(), None, 100)),
        plays_or_empty(advance(s)),
        plays_or_empty(after_enqueue(s, q)),
        plays_or_empty(after_enqueue_next(s, q)),
        plays_or_empty(after_skip_to(s, i)),
        plays_or_empty(after_clear(s)),
        plays_or_empty(after_set_volume(s, level)),
        plays_or_empty(with_current_track(s, t)),
        plays_or_empty(after_enqueue_all(s, ts, by, avatar)),
        s.current is None ==> after_enqueue(s, q).current == Some(q),
        s.current is None ==> after_enqueue(s, q).queue.len() == 0,
        s.current is None ==> after_enqueue_next(s, q).current == Some(q),
{
    lemma_enqueue_all_keeps(s, ts, by, avatar);
    assert((seq![q] + s.queue).drop_first() =~= s.queue);
}

/// A step that changes a player, named by the method that takes it:
/// `advance_logical_queue` (also `track_ended`, and `after_jit` when preparing
/// failed), `enqueue` (also `enqueue_with_status`), `enqueue_next` (also
/// `enqueue_next_with_status`), `skip_to`, `clear`, `set_volume`,
/// `replace_current_track` (also `after_jit` with a fetched track) and
/// `enqueue_all` (also `enqueue_radio`).
pub enum SchedulerStep {
    Advance,
    Enqueue(QueuedView),
    EnqueueNext(QueuedView),
    SkipTo(int),
    Clear,
    SetVolume(u8),
    ReplaceCurrent(TrackView),
    EnqueueAll(Seq<TrackView>, String, Option<String>),
}

/// The state after one step.
pub open spec fn apply_step(s: SchedulerView, step: SchedulerStep) -> SchedulerView {
    match step {
        SchedulerStep::Advance => advance(s),
        SchedulerStep::Enqueue(q) => after_enqueue(s, q),
        SchedulerStep::EnqueueNext(q) => after_enqueue_next(s, q),
        SchedulerStep::SkipTo(i) => after_skip_to(s, i),
        SchedulerStep::Clear => after_clear(s),
        SchedulerStep::SetVolume(level) => after_set_volume(s, level),
        SchedulerStep::ReplaceCurrent(t) => with_current_track(s, t),
        SchedulerStep::EnqueueAll(ts, by, avatar) => after_enqueue_all(s, ts, by, avatar),
    }
}

/// The state after the steps, in order.
pub open spec fn run_steps(s: SchedulerView, steps: Seq<SchedulerStep>) -> SchedulerView
    decreases steps.len(),
{
    if steps.len() == 0 {
        s
    } else {
        apply_step(run_steps(s, steps.drop_last()), steps.last())
    }
}

/// The level of the last `SetVolume` among the steps, or `initial` when
/// there is none.
pub open spec fn last_volume(steps: Seq<SchedulerStep>, initial: u8) -> u8
    decreases steps.len(),
{
    if steps.len() == 0 {
        initial
    } else {
        match steps.last() {
            SchedulerStep::SetVolume(level) => level,
            _ => last_volume(steps.drop_last(), initial),
        }
    }
}

proof fn lemma_enqueue_all_volume(s: SchedulerView, ts: Seq<TrackView>, by: String, avatar: Option<String>)
    ensures
        after_enqueue_all(s, ts, by, avatar).volume == s.volume,
    decreases ts.len(),
{
    if ts.len() > 0 {
        lemma_enqueue_all_volume(s, ts.drop_last(), by, avatar);
    }
}

/// The volume read back after any sequence of steps is the level last set,
/// whatever it is (above 100 too); with none set it is the volume before,
/// so 100 for a new player.
pub proof fn law_volume_after_steps(s: SchedulerView, steps: Seq<SchedulerStep>)
    ensures
        run_steps(s, steps).volume == last_volume(steps, s.volume),
        run_steps(sched(Seq::empty(), None, 100), steps).volume == last_volume(steps, 100),
    decreases steps.len(),
{
    if steps.len() > 0 {
        law_volume_after_steps(s, steps.drop_last());
        let p = run_steps(s, steps.drop_last());
        let p0 = run_steps(sched(Seq::empty(), None, 100), steps.drop_last());
        if let SchedulerStep::EnqueueAll(ts, by, avatar) = steps.last() {
            lemma_enqueue_all_volume(p, ts, by, avatar);
            lemma_enqueue_all_volume(p0, ts, by, avatar);
        }
    }
}

/// From a new player, every sequence of steps keeps "a track plays or
/// nothing waits".
pub proof fn law_plays_or_empty_after_steps(steps: Seq<SchedulerStep>)
    ensures
        plays_or_empty(run_steps(sched(Seq::empty(), None, 100), steps)),
    decreases steps.len(),
{
    let s0 = sched(Seq::empty(), None, 100);
    if steps.len() == 0 {
        assert(s0.queue.len() == 0);
    } else {
        law_plays_or_empty_after_steps(steps.drop_last());
        let p = run_steps(s0, steps.drop_last());
        match steps.last() {
            SchedulerStep::Enqueue(q) => law_plays_or_empty(p, q, 0, 0, q.track, Seq::empty(), q.requested_by, None),
            SchedulerStep::EnqueueNext(q) => law_plays_or_empty(p, q, 0, 0, q.track, Seq::empty(), q.requested_by, None),
            SchedulerStep::SkipTo(i) => law_plays_or_empty(p, arbitrary(), i, 0, arbitrary(), Seq::empty(), arbitrary(), None),
            SchedulerStep::SetVolume(level) => law_plays_or_empty(p, arbitrary(), 0, level, arbitrary(), Seq::empty(), arbitrary(), None),
            SchedulerStep::ReplaceCurrent(t) => law_plays_or_empty(p, arbitrary(), 0, 0, t, Seq::empty(), arbitrary(), None),
            SchedulerStep::EnqueueAll(ts, by, avatar) => law_plays_or_empty(p, arbitrary(), 0, 0, arbitrary(), ts, by, avatar),
            _ => law_plays_or_empty(p, arbitrary(), 0, 0, arbitrary(), Seq::empty(), arbitrary(), None),
        }
    }
}

} // verus!
