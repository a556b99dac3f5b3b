use music_bot::errors::MusicError;
use music_bot::model::{Artist, PlaybackStatus, QueuedTrack, Track, TrackState};
use music_bot::scheduler::{now_playing_topic, plan_radio, JitOutcome, JitStep, TrackScheduler};

fn track(id: &str) -> Track {
    Track {
        id: id.to_string(),
        title: format!("title-{}", id),
        artists: vec![Artist { name: "Ana".to_string() }],
        album: None,
        duration_seconds: 100,
        thumbnail_url: None,
        bpm: None,
        camelot_key: None,
        file_path: Some(format!("/m/{}.mp3", id)),
        state: TrackState::Cached,
    }
}

fn current_id(s: &TrackScheduler) -> Option<String> {
    s.current.as_ref().map(|q| q.track.id.clone())
}

fn queue_ids(s: &TrackScheduler) -> Vec<String> {
    s.queue.iter().map(|q| q.track.id.clone()).collect()
}

#[test]
fn new_scheduler_is_idle_at_full_volume() {
    let s = TrackScheduler::new();
    assert!(s.current.is_none());
    assert!(s.queue.is_empty());
    assert_eq!(s.current_volume_percent(), 100);
}

#[test]
fn idle_enqueue_plays_at_once() {
    let mut s = TrackScheduler::new();
    assert!(s.enqueue(track("a"), "u".into(), None));
    assert_eq!(current_id(&s), Some("a".to_string()));
    assert!(s.queue.is_empty());
}

#[test]
fn fifo_order_of_plain_requests() {
    let mut s = TrackScheduler::new();
    s.enqueue(track("a"), "u".into(), None);
    assert!(!s.enqueue(track("b"), "u".into(), None));
    assert!(!s.enqueue(track("c"), "u".into(), None));
    assert_eq!(queue_ids(&s), vec!["b", "c"]);
    s.advance_logical_queue();
    assert_eq!(current_id(&s), Some("b".to_string()));
    s.advance_logical_queue();
    assert_eq!(current_id(&s), Some("c".to_string()));
    s.advance_logical_queue();
    assert_eq!(current_id(&s), None);
    s.advance_logical_queue();
    assert_eq!(current_id(&s), None);
}

#[test]
fn priority_request_plays_next() {
    let mut s = TrackScheduler::new();
    s.enqueue(track("a"), "u".into(), None);
    s.enqueue(track("b"), "u".into(), None);
    assert!(!s.enqueue_next(track("n"), "u".into(), None));
    assert_eq!(queue_ids(&s), vec!["n", "b"]);
    s.advance_logical_queue();
    assert_eq!(current_id(&s), Some("n".to_string()));
}

#[test]
fn priority_request_when_idle_plays_at_once() {
    let mut s = TrackScheduler::new();
    assert!(s.enqueue_next(track("n"), "u".into(), None));
    assert_eq!(current_id(&s), Some("n".to_string()));
}

#[test]
fn status_reports_position() {
    let mut s = TrackScheduler::new();
    match s.enqueue_with_status(track("a"), "u".into(), None) {
        PlaybackStatus::PlayingNow(t) => assert_eq!(t.id, "a"),
        other => panic!("unexpected {:?}", other),
    }
    s.enqueue_with_status(track("b"), "u".into(), None);
    match s.enqueue_with_status(track("c"), "u".into(), None) {
        PlaybackStatus::Enqueued { track, position } => {
            assert_eq!(track.id, "c");
            assert_eq!(position, 2);
            assert_eq!(s.queue[position - 1].track.id, "c");
        }
        other => panic!("unexpected {:?}", other),
    }
    match s.enqueue_next_with_status(track("n"), "u".into(), None) {
        PlaybackStatus::Enqueued { track, position } => {
            assert_eq!(track.id, "n");
            assert_eq!(position, 1);
            assert_eq!(s.queue[0].track.id, "n");
        }
        other => panic!("unexpected {:?}", other),
    }
}

#[test]
fn skip_to_drops_earlier_tracks() {
    let mut s = TrackScheduler::new();
    for id in ["a", "b", "c", "d"] {
        s.enqueue(track(id), "u".into(), None);
    }
    let q = s.skip_to(1).unwrap();
    assert_eq!(q.track.id, "c");
    assert_eq!(queue_ids(&s), vec!["c", "d"]);
    s.advance_logical_queue();
    assert_eq!(current_id(&s), Some("c".to_string()));
}

#[test]
fn skip_to_out_of_range_changes_nothing() {
    let mut s = TrackScheduler::new();
    s.enqueue(track("a"), "u".into(), None);
    s.enqueue(track("b"), "u".into(), None);
    assert!(matches!(s.skip_to(1), Err(MusicError::OutOfRange)));
    assert_eq!(queue_ids(&s), vec!["b"]);
}

#[test]
fn clear_stays_idle() {
    let mut s = TrackScheduler::new();
    s.enqueue(track("a"), "u".into(), None);
    s.enqueue(track("b"), "u".into(), None);
    s.clear();
    assert!(s.current.is_none());
    assert!(s.queue.is_empty());
    s.advance_logical_queue();
    assert!(s.current.is_none());
}

#[test]
fn volume_reads_back() {
    let mut s = TrackScheduler::new();
    s.enqueue(track("a"), "u".into(), None);
    assert!(s.set_volume(37).is_ok());
    assert_eq!(s.current_volume_percent(), 37);
    assert_eq!(current_id(&s), Some("a".to_string()));
}

#[test]
fn enqueue_all_counts_and_orders() {
    let mut s = TrackScheduler::new();
    let n = s.enqueue_all(vec![track("a"), track("b"), track("c")], "u".into(), Some("av".into()));
    assert_eq!(n, 3);
    assert_eq!(current_id(&s), Some("a".to_string()));
    assert_eq!(queue_ids(&s), vec!["b", "c"]);
    assert_eq!(s.queue[1].requester_avatar.as_deref(), Some("av"));
}

#[test]
fn snapshot_copies() {
    let mut s = TrackScheduler::new();
    s.enqueue(track("a"), "u".into(), None);
    s.enqueue(track("b"), "u".into(), None);
    let (cur, rest) = s.queue_snapshot();
    assert_eq!(cur.unwrap().track.id, "a");
    assert_eq!(rest.len(), 1);
    assert_eq!(rest[0].track.id, "b");
}

#[test]
fn jit_steps() {
    let mut s = TrackScheduler::new();
    assert!(matches!(s.jit_step(), JitStep::Idle));
    let mut p = track("p");
    p.state = TrackState::Partial;
    s.enqueue(p, "u".into(), None);
    match s.jit_step() {
        JitStep::Resolve(id) => assert_eq!(id, "p"),
        other => panic!("unexpected {:?}", other),
    }
    s.replace_current_track(track("full"));
    match s.jit_step() {
        JitStep::Open(t) => assert_eq!(t.id, "full"),
        other => panic!("unexpected {:?}", other),
    }
    assert_eq!(s.current.as_ref().unwrap().requested_by, "u");
}

#[test]
fn topic_text() {
    let q = QueuedTrack { track: track("a"), requested_by: "dei".into(), requester_avatar: None };
    assert_eq!(now_playing_topic(&q), "🎶 title-a — Request by dei");
}

#[test]
fn radio_plan_prepends_seed() {
    let seed = track("s");
    let v = plan_radio(&seed, vec![track("x"), track("y")]).unwrap();
    let ids: Vec<&str> = v.iter().map(|t| t.id.as_str()).collect();
    assert_eq!(ids, vec!["s", "x", "y"]);
}

#[test]
fn radio_plan_keeps_seed_already_first() {
    let seed = track("s");
    let v = plan_radio(&seed, vec![track("s"), track("y")]).unwrap();
    assert_eq!(v.len(), 2);
}

#[test]
fn radio_plan_refuses_empty() {
    match plan_radio(&track("s"), vec![]) {
        Err(MusicError::ResolveError(m)) => {
            assert_eq!(m, "La radio no devolvió resultados para esta semilla.")
        }
        other => panic!("unexpected {:?}", other),
    }
}

#[test]
fn lineup_grows_at_the_end_even_when_idle() {
    let mut s = TrackScheduler::new();
    s.queue.push_back(QueuedTrack { track: track("w"), requested_by: "u".into(), requester_avatar: None });
    assert!(s.enqueue(track("c"), "u".into(), None));
    assert_eq!(current_id(&s), Some("w".to_string()));
    assert_eq!(queue_ids(&s), vec!["c"]);
}

#[test]
fn track_end_moves_to_next_or_stops() {
    let mut s = TrackScheduler::new();
    s.enqueue(track("a"), "u".into(), None);
    s.enqueue(track("b"), "u".into(), None);
    assert!(s.track_ended());
    assert_eq!(current_id(&s), Some("b".to_string()));
    assert!(!s.track_ended());
    assert_eq!(current_id(&s), None);
}

#[test]
fn fetched_track_replaces_current_and_opens() {
    let mut s = TrackScheduler::new();
    let mut partial = track("p");
    partial.state = TrackState::Partial;
    s.enqueue(partial, "ana".into(), Some("av".into()));
    s.enqueue(track("b"), "u".into(), None);
    let mut fetched = track("p");
    fetched.file_path = Some("/m/fetched.mp3".into());
    let open = s.after_jit(JitOutcome::Fetched(fetched)).unwrap();
    assert_eq!(open.file_path.as_deref(), Some("/m/fetched.mp3"));
    let cur = s.current.as_ref().unwrap();
    assert_eq!(cur.track.file_path.as_deref(), Some("/m/fetched.mp3"));
    assert_eq!(cur.requested_by, "ana");
    assert_eq!(cur.requester_avatar.as_deref(), Some("av"));
    assert_eq!(queue_ids(&s), vec!["b"]);
}

#[test]
fn failed_fetch_or_open_moves_on() {
    let mut s = TrackScheduler::new();
    s.enqueue(track("a"), "u".into(), None);
    s.enqueue(track("b"), "u".into(), None);
    s.enqueue(track("c"), "u".into(), None);
    assert!(s.after_jit(JitOutcome::FetchFailed).is_none());
    assert_eq!(current_id(&s), Some("b".to_string()));
    assert!(s.after_jit(JitOutcome::OpenFailed).is_none());
    assert_eq!(current_id(&s), Some("c".to_string()));
    assert!(queue_ids(&s).is_empty());
}

#[test]
fn radio_fetch_needed_only_when_idle_and_partial() {
    let mut s = TrackScheduler::new();
    let mut partial = track("p");
    partial.state = TrackState::Partial;
    assert!(s.radio_needs_fetch(&partial));
    assert!(!s.radio_needs_fetch(&track("c")));
    s.enqueue(track("a"), "u".into(), None);
    assert!(!s.radio_needs_fetch(&partial));
}

#[test]
fn radio_enqueues_first_then_rest() {
    let mut s = TrackScheduler::new();
    let (n, start) = s.enqueue_radio(track("s"), vec![track("x"), track("y")], "u".into(), None);
    assert_eq!(n, 3);
    assert!(start);
    assert_eq!(current_id(&s), Some("s".to_string()));
    assert_eq!(queue_ids(&s), vec!["x", "y"]);
    let (n, start) = s.enqueue_radio(track("t"), vec![], "u".into(), None);
    assert_eq!(n, 1);
    assert!(!start);
    assert_eq!(queue_ids(&s), vec!["x", "y", "t"]);
}

#[test]
fn idle_player_never_leaves_tracks_waiting() {
    let mut s = TrackScheduler::new();
    s.enqueue_next(track("a"), "u".into(), None);
    assert!(s.current.is_some());
    s.enqueue(track("b"), "u".into(), None);
    s.track_ended();
    s.track_ended();
    assert!(s.current.is_none() && s.queue.is_empty());
    s.enqueue(track("c"), "u".into(), None);
    assert!(s.current.is_some() && s.queue.is_empty());
}

#[test]
fn volume_is_the_last_level_set_whatever_came_between() {
    let mut s = TrackScheduler::new();
    s.enqueue(track("a"), "u".into(), None);
    s.track_ended();
    assert_eq!(s.current_volume_percent(), 100);
    s.set_volume(150).unwrap();
    s.enqueue(track("b"), "u".into(), None);
    s.enqueue_next(track("c"), "u".into(), None);
    s.enqueue_all(vec![track("d")], "u".into(), None);
    let _ = s.skip_to(0);
    s.advance_logical_queue();
    s.replace_current_track(track("e"));
    s.clear();
    assert_eq!(s.current_volume_percent(), 150);
    s.set_volume(7).unwrap();
    s.set_volume(0).unwrap();
    s.enqueue_radio(track("r"), vec![], "u".into(), None);
    assert_eq!(s.current_volume_percent(), 0);
}
