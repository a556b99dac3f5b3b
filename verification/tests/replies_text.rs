use music_bot::embeds::COLOR_PLAYING;
use music_bot::model::{Artist, PlaybackStatus, QueuedTrack, Track, TrackState};
use music_bot::replies::{
    now_playing_embed, play_next_check, playback_embed, queue_reply, requester_name,
    skip_to_reply, volume_emoji, volume_request, volume_set_reply, volume_shown_reply,
    QueueReply, VolumeRequest,
};

fn track(title: &str, artists: &[&str]) -> Track {
    Track {
        id: "id".into(),
        title: title.into(),
        artists: artists.iter().map(|a| Artist { name: a.to_string() }).collect(),
        album: None,
        duration_seconds: 200,
        thumbnail_url: None,
        bpm: None,
        camelot_key: None,
        file_path: None,
        state: TrackState::Cached,
    }
}

#[test]
fn volume_icons() {
    assert_eq!(volume_emoji(0), "🔇");
    assert_eq!(volume_emoji(1), "🔈");
    assert_eq!(volume_emoji(39), "🔈");
    assert_eq!(volume_emoji(40), "🔉");
    assert_eq!(volume_emoji(74), "🔉");
    assert_eq!(volume_emoji(75), "🔊");
    assert_eq!(volume_emoji(100), "🔊");
}

#[test]
fn volume_texts() {
    assert_eq!(volume_shown_reply(50), "🔉 El volumen actual es **50%**");
    assert_eq!(volume_set_reply(0), "🔇 Volumen ajustado a **0%**");
}

#[test]
fn volume_requests() {
    assert_eq!(volume_request(&[]), VolumeRequest::Show);
    assert_eq!(volume_request(&["80".to_string()]), VolumeRequest::Change(80));
    assert_eq!(volume_request(&["120".to_string()]), VolumeRequest::Usage);
    assert_eq!(volume_request(&["alto".to_string()]), VolumeRequest::Usage);
}

#[test]
fn skip_to_text() {
    let q = QueuedTrack { track: track("Song", &["A", "B"]), requested_by: "u".into(), requester_avatar: None };
    assert_eq!(skip_to_reply(3, &q), "Saltando a la posición 3: **Song - A & B**");
    let q2 = QueuedTrack { track: track("Solo", &[]), requested_by: "u".into(), requester_avatar: None };
    assert_eq!(skip_to_reply(1, &q2), "Saltando a la posición 1: **Solo - **");
}

#[test]
fn queue_replies() {
    match queue_reply(None) {
        QueueReply::Text(t) => assert_eq!(t, "El reproductor no está activo en este servidor."),
        _ => panic!(),
    }
    match queue_reply(Some((None, vec![]))) {
        QueueReply::Text(t) => assert_eq!(t, "No hay nada en reproducción ni en cola."),
        _ => panic!(),
    }
    let q = QueuedTrack { track: track("Song", &["A"]), requested_by: "u".into(), requester_avatar: None };
    match queue_reply(Some((Some(q), vec![]))) {
        QueueReply::Embed(e) => assert_eq!(e.fields[0].name, "Reproduciendo Ahora"),
        _ => panic!(),
    }
}

#[test]
fn requester_prefers_nick() {
    assert_eq!(requester_name(&Some("nick".into()), &"name".into()), "nick");
    assert_eq!(requester_name(&None, &"name".into()), "name");
}

#[test]
fn playback_embeds() {
    let now = playback_embed(&PlaybackStatus::PlayingNow(track("S", &["A"])), "u", None, "🎵 Reproduciendo");
    assert_eq!(now.color, COLOR_PLAYING);
    assert_eq!(now.title.as_deref(), Some("🎵 Reproduciendo — S"));
    let later = playback_embed(
        &PlaybackStatus::Enqueued { track: track("S", &["A"]), position: 2 },
        "u",
        None,
        "ignored",
    );
    assert_eq!(later.description.as_deref(), Some("Posición en cola: #2 ⏱ `3:20`"));
}

#[test]
fn now_playing_embed_uses_requester() {
    let q = QueuedTrack { track: track("S", &["A"]), requested_by: "ana".into(), requester_avatar: Some("av".into()) };
    let e = now_playing_embed(&q);
    assert_eq!(e.title.as_deref(), Some("🎵 Estás escuchando: — S"));
    let f = e.footer.unwrap();
    assert_eq!(f.text, "Request by ana");
    assert_eq!(f.icon_url.as_deref(), Some("av"));
}

#[test]
fn play_next_checks() {
    assert_eq!(play_next_check(false, true, 1).as_deref(), Some("Este comando solo funciona en servidores."));
    assert_eq!(play_next_check(true, false, 1).as_deref(), Some("Debes estar en un canal de voz primero."));
    assert_eq!(play_next_check(true, true, 0).as_deref(), Some("Dime qué canción poner primero."));
    assert_eq!(play_next_check(true, true, 2), None);
}
