use std::sync::Arc;
use music_bot::config::{input_path, Config, MicroserviceConfig, PathsConfig};
use music_bot::encoder::{classify_extension, plan_input, AudioUtils, InputPlan};
use music_bot::errors::{EncoderError, MicroserviceError, MusicError};
use music_bot::microservice::{
    played_outcome, radio_outcome, resolve_outcome, ApiResponse, MicroserviceClient,
};
use music_bot::model::{Track, TrackState};
use music_bot::sessions::SessionTable;

fn config(mount: Option<&str>) -> Config {
    Config {
        token: "SECRET-REDACTED".into(),
        prefix: "t!".into(),
        microservice: MicroserviceConfig { host: "127.0.0.1".into(), port: 5000 },
        paths: PathsConfig {
            music_path: "/home/pi/music_storage".into(),
            mount_path: mount.map(str::to_string),
        },
    }
}

fn track(file: Option<&str>) -> Track {
    Track {
        id: "Yz91CpCX84o".into(),
        title: "T".into(),
        artists: vec![],
        album: None,
        duration_seconds: 1,
        thumbnail_url: None,
        bpm: None,
        camelot_key: None,
        file_path: file.map(str::to_string),
        state: TrackState::Cached,
    }
}

fn answer<T>(status: &str, data: Option<T>, message: Option<&str>) -> ApiResponse<T> {
    ApiResponse { status: status.into(), data, message: message.map(str::to_string) }
}

#[test]
fn mount_path_replaces_music_path() {
    let c = config(Some("/home/dei/music_storage"));
    assert_eq!(
        c.resolve_path("/home/pi/music_storage/Yz91CpCX84o.m4a"),
        "/home/dei/music_storage/Yz91CpCX84o.m4a"
    );
    assert_eq!(c.resolve_path("/other/x.m4a"), "/other/x.m4a");
}

#[test]
fn music_path_only_replaced_as_prefix() {
    let c = Config {
        paths: PathsConfig { music_path: "/m".into(), mount_path: Some("/n".into()) },
        ..config(None)
    };
    assert_eq!(c.resolve_path("/x/m/a"), "/x/m/a");
    assert_eq!(c.resolve_path("/m/a"), "/n/a");
    assert_eq!(c.resolve_path("/m"), "/n");
}

#[test]
fn empty_or_missing_mount_keeps_path() {
    assert_eq!(config(Some("")).resolve_path("/home/pi/music_storage/a.mp3"), "/home/pi/music_storage/a.mp3");
    assert_eq!(config(None).resolve_path("/home/pi/music_storage/a.mp3"), "/home/pi/music_storage/a.mp3");
}

#[test]
fn input_path_needs_a_file() {
    let c = config(Some("/mnt"));
    assert_eq!(input_path(&c, &track(Some("/home/pi/music_storage/a.mp3"))).unwrap(), "/mnt/a.mp3");
    assert!(matches!(input_path(&c, &track(None)), Err(MusicError::NoFilePath)));
}

#[test]
fn client_address() {
    let c = MicroserviceClient::new(&Arc::new(config(None)));
    assert_eq!(c.address(), "127.0.0.1:5000");
}

#[test]
fn request_lines_are_json_lines() {
    let c = MicroserviceClient::new(&Arc::new(config(None)));
    assert_eq!(c.resolve_request("daft punk"), "{\"action\":\"resolve\",\"query\":\"daft punk\"}\n");
    assert_eq!(c.radio_request("abc"), "{\"action\":\"radio\",\"query\":\"abc\"}\n");
    assert_eq!(c.played_request("id1"), "{\"action\":\"played\",\"query\":\"id1\"}\n");
    let tricky = c.resolve_request("a\n\"b\"");
    assert_eq!(tricky, "{\"action\":\"resolve\",\"query\":\"a\\n\\\"b\\\"\"}\n");
    assert_eq!(tricky.matches('\n').count(), 1);
}

#[test]
fn request_lines_escape_like_json() {
    let c = MicroserviceClient::new(&Arc::new(config(None)));
    assert_eq!(
        c.played_request("a\\b\tc\u{1}\u{8}\u{c}\r\u{1f}é\u{7f}/"),
        "{\"action\":\"played\",\"query\":\"a\\\\b\\tc\\u0001\\b\\f\\r\\u001fé\u{7f}/\"}\n"
    );
    assert_eq!(c.radio_request(""), "{\"action\":\"radio\",\"query\":\"\"}\n");
}

#[test]
fn resolve_answers() {
    let ok = resolve_outcome(Ok(answer("ok", Some(track(None)), None)), "raw").unwrap();
    assert_eq!(ok.id, "Yz91CpCX84o");
    match resolve_outcome(Ok(answer::<Track>("ok", None, None)), "raw") {
        Err(MicroserviceError::ServiceError(m)) => assert_eq!(m, "El microservicio devolvió ok pero 'data' es null"),
        other => panic!("unexpected {:?}", other),
    }
    match resolve_outcome(Ok(answer::<Track>("error", None, Some("no hay"))), "raw") {
        Err(MicroserviceError::ServiceError(m)) => assert_eq!(m, "no hay"),
        other => panic!("unexpected {:?}", other),
    }
    match resolve_outcome(Ok(answer::<Track>("error", None, None)), "raw") {
        Err(MicroserviceError::ServiceError(m)) => assert_eq!(m, "Error desconocido del microservicio"),
        other => panic!("unexpected {:?}", other),
    }
    match resolve_outcome(Err("EOF".into()), "{") {
        Err(MicroserviceError::InvalidResponse(m)) => assert_eq!(m, "Fallo parseo resolve: EOF. Raw: {"),
        other => panic!("unexpected {:?}", other),
    }
}

#[test]
fn radio_and_played_answers() {
    assert_eq!(radio_outcome(Ok(answer("ok", Some(vec![track(None)]), None)), "r").unwrap().len(), 1);
    match radio_outcome(Ok(answer::<Vec<Track>>("fail", None, None)), "r") {
        Err(MicroserviceError::ServiceError(m)) => assert_eq!(m, "Error al generar la radio desde el microservicio"),
        other => panic!("unexpected {:?}", other),
    }
    match radio_outcome(Err("bad".into()), "r") {
        Err(MicroserviceError::InvalidResponse(m)) => assert_eq!(m, "Fallo parseo radio: bad. Raw: r"),
        other => panic!("unexpected {:?}", other),
    }
    assert!(played_outcome(Ok(answer("ok", None, None))).is_ok());
    match played_outcome(Ok(answer("x", None, None))) {
        Err(MicroserviceError::ServiceError(m)) => assert_eq!(m, "Error al registrar el play en el microservicio"),
        other => panic!("unexpected {:?}", other),
    }
    match played_outcome(Err("bad".into())) {
        Err(MicroserviceError::InvalidResponse(m)) => assert_eq!(m, "Fallo parseo en mark_as_played: bad"),
        other => panic!("unexpected {:?}", other),
    }
}

#[test]
fn error_texts() {
    assert_eq!(MusicError::ResolveError("x".into()).message(), "Error al resolver la pista: x");
    assert_eq!(MusicError::NoFilePath.message(), "La pista no tiene ruta de archivo");
    assert_eq!(MusicError::EncoderError("e".into()).message(), "Error al codificar audio: e");
    assert_eq!(MusicError::NotPlaying.message(), "No hay ningún scheduler activo para este servidor");
    assert_eq!(MusicError::OutOfRange.message(), "La posición indicada está fuera del rango de la cola");
    assert_eq!(EncoderError::FileNotFound("p".into()).message(), "Archivo no encontrado: p");
    assert_eq!(EncoderError::UnsupportedFormat(".txt".into()).message(), "Formato no soportado: .txt");
    assert_eq!(EncoderError::SpawnError("s".into()).message(), "Error al lanzar FFmpeg: s");
    assert_eq!(MicroserviceError::ServiceError("s".into()).message(), "Error del servicio: s");
    assert_eq!(MicroserviceError::InvalidResponse("r".into()).message(), "Respuesta invalida: r");
    let io = std::io::Error::new(std::io::ErrorKind::Other, "boom");
    assert_eq!(MicroserviceError::ConnectionFailed(io).message(), "Conexion fallida: boom");
    let io2 = std::io::Error::new(std::io::ErrorKind::Other, "cut");
    assert_eq!(MicroserviceError::IoError(io2).message(), "Error de IO: cut");
}

#[test]
fn service_errors_become_resolve_errors() {
    match MusicError::from_service("Fallo al generar mix: ", &MicroserviceError::ServiceError("x".into())) {
        MusicError::ResolveError(m) => assert_eq!(m, "Fallo al generar mix: Error del servicio: x"),
        other => panic!("unexpected {:?}", other),
    }
    match MusicError::from_encoder(&EncoderError::FileNotFound("/a".into())) {
        MusicError::EncoderError(m) => assert_eq!(m, "Archivo no encontrado: /a"),
        other => panic!("unexpected {:?}", other),
    }
}

#[test]
fn extension_plans() {
    assert_eq!(classify_extension(Some("mp3")).unwrap(), InputPlan::File);
    assert_eq!(classify_extension(Some("M4A")).unwrap(), InputPlan::File);
    assert_eq!(classify_extension(Some("FLAC")).unwrap(), InputPlan::Ffmpeg);
    match classify_extension(Some("txt")) {
        Err(EncoderError::UnsupportedFormat(e)) => assert_eq!(e, ".txt"),
        other => panic!("unexpected {:?}", other),
    }
    match classify_extension(None) {
        Err(EncoderError::UnsupportedFormat(e)) => assert_eq!(e, ""),
        other => panic!("unexpected {:?}", other),
    }
}

#[test]
fn input_plans_from_paths() {
    assert_eq!(plan_input("/m/song.FLAC", true).unwrap(), InputPlan::Ffmpeg);
    assert_eq!(plan_input("/m/song.opus", true).unwrap(), InputPlan::File);
    match plan_input("/m/song", true) {
        Err(EncoderError::UnsupportedFormat(e)) => assert_eq!(e, ""),
        other => panic!("unexpected {:?}", other),
    }
    match plan_input("/m/song.mp3", false) {
        Err(EncoderError::FileNotFound(p)) => assert_eq!(p, "/m/song.mp3"),
        other => panic!("unexpected {:?}", other),
    }
}

#[test]
fn session_table_lookup() {
    let mut t: SessionTable<String> = SessionTable::new();
    assert!(matches!(t.require(1), Err(MusicError::NotPlaying)));
    assert!(t.insert_if_absent(1, "one".into()));
    assert!(!t.insert_if_absent(1, "uno".into()));
    assert!(t.insert_if_absent(2, "two".into()));
    assert_eq!(t.require(1).unwrap(), "one");
    assert_eq!(t.find(2).map(|s| s.as_str()), Some("two"));
    assert!(t.find(3).is_none());
    assert_eq!(t.values().len(), 2);
}

#[test]
fn ffmpeg_command_lines() {
    assert_eq!(
        AudioUtils::pipe_args("/m/a.flac"),
        vec!["-i", "/m/a.flac", "-f", "f32le", "-ac", "2", "-ar", "48000", "-loglevel", "quiet", "pipe:1"]
    );
    let n = AudioUtils::normalized_stream_args("x");
    assert_eq!(n[8], "-af");
    assert_eq!(n[9], "loudnorm=I=-16:TP=-1.5:LRA=11");
    assert_eq!(n.len(), 13);
}

#[test]
fn path_without_dot_has_no_format() {
    match plan_input("/home/pi/music_storage/sin_extension", true) {
        Err(EncoderError::UnsupportedFormat(m)) => assert_eq!(m, ""),
        other => panic!("unexpected {:?}", other),
    }
    assert!(matches!(plan_input("/m/a.FLAC", true), Ok(InputPlan::Ffmpeg)));
    assert!(matches!(plan_input("/m.d/a", true), Err(EncoderError::UnsupportedFormat(_))));
}

#[test]
fn bare_file_names_are_planned_by_their_extension() {
    assert_eq!(plan_input("song.mp3", true).unwrap(), InputPlan::File);
    assert_eq!(plan_input("song.Flac", true).unwrap(), InputPlan::Ffmpeg);
    assert_eq!(plan_input("a.b.wav", true).unwrap(), InputPlan::File);
    match plan_input(".mp3", true) {
        Err(EncoderError::UnsupportedFormat(m)) => assert_eq!(m, ""),
        other => panic!("unexpected {:?}", other),
    }
    match plan_input("song.", true) {
        Err(EncoderError::UnsupportedFormat(m)) => assert_eq!(m, "."),
        other => panic!("unexpected {:?}", other),
    }
    match plan_input("song.txt", true) {
        Err(EncoderError::UnsupportedFormat(m)) => assert_eq!(m, ".txt"),
        other => panic!("unexpected {:?}", other),
    }
}
