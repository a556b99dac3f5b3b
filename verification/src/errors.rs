//! The errors of the library and the text that the bot prints for them.

use vstd::prelude::*;
use crate::text::starts_with;

verus! {

/// Errors of playback requests.
#[derive(Debug)]
pub enum MusicError {
    ResolveError(String),
    NoFilePath,
    EncoderError(String),
    NotPlaying,
    OutOfRange,
}

/// The text shown for a [`MusicError`].
pub open spec fn music_error_text(e: MusicError) -> Seq<char> {
    match e {
        MusicError::ResolveError(s) => "Error al resolver la pista: "@ + s@,
        MusicError::NoFilePath => "La pista no tiene ruta de archivo"@,
        MusicError::EncoderError(s) => "Error al codificar audio: "@ + s@,
        MusicError::NotPlaying => "No hay ningún scheduler activo para este servidor"@,
        MusicError::OutOfRange => "La posición indicada está fuera del rango de la cola"@,
    }
}

impl MusicError {
    /// The text shown for this error.
    pub fn message(&self) -> (r: String)
        ensures
            r@ == music_error_text(*self),
    {
        match self {
            MusicError::ResolveError(s) => {
                let mut r = String::from_str("Error al resolver la pista: ");
                r.append(s.as_str());
                r
            },
            MusicError::NoFilePath => String::from_str("La pista no tiene ruta de archivo"),
            MusicError::EncoderError(s) => {
                let mut r = String::from_str("Error al codificar audio: ");
                r.append(s.as_str());
                r
            },
            MusicError::NotPlaying => String::from_str(
                "No hay ningún scheduler activo para este servidor",
            ),
            MusicError::OutOfRange => String::from_str(
                "La posición indicada está fuera del rango de la cola",
            ),
        }
    }
}

/// Errors of opening a track's audio file.
#[derive(Debug)]
pub enum EncoderError {
    FileNotFound(String),
    UnsupportedFormat(String),
    SpawnError(String),
}

/// The text shown for an [`EncoderError`].
pub open spec fn encoder_error_text(e: EncoderError) -> Seq<char> {
    match e {
        EncoderError::FileNotFound(p) => "Archivo no encontrado: "@ + p@,
        EncoderError::UnsupportedFormat(p) => "Formato no soportado: "@ + p@,
        EncoderError::SpawnError(p) => "Error al lanzar FFmpeg: "@ + p@,
    }
}

impl EncoderError {
    /// The text shown for this error.
    pub fn message(&self) -> (r: String)
        ensures
            r@ == encoder_error_text(*self),
    {
        let (prefix, detail) = match self {
            EncoderError::FileNotFound(p) => ("Archivo no encontrado: ", p),
            EncoderError::UnsupportedFormat(p) => ("Formato no soportado: ", p),
            EncoderError::SpawnError(p) => ("Error al lanzar FFmpeg: ", p),
        };
        let mut r = String::from_str(prefix);
        r.append(detail.as_str());
        r
    }
}

/// `std::io::Error`, carried through the service errors.
#[verifier::external_type_specification]
#[verifier::external_body]
pub struct ExIoError(std::io::Error);

/// Errors of talking to the music service.
#[derive(Debug)]
pub enum MicroserviceError {
    ConnectionFailed(std::io::Error),
    IoError(std::io::Error),
    ServiceError(String),
    InvalidResponse(String),
}

/// Renders an I/O error with its `Display` impl. What the text holds is
/// left unsaid: it depends on the operating system's error strings.
#[verifier::external_body]
fn io_error_text(e: &std::io::Error) -> String {
    e.to_string()
}

impl MicroserviceError {
    /// The text shown for this error: a fixed prefix per variant, then the
    /// detail.
    pub fn message(&self) -> (r: String)
        ensures
            match *self {
                MicroserviceError::ConnectionFailed(_) => starts_with(r@, "Conexion fallida: "@),
                MicroserviceError::IoError(_) => starts_with(r@, "Error de IO: "@),
                MicroserviceError::ServiceError(s) => r@ == "Error del servicio: "@ + s@,
                MicroserviceError::InvalidResponse(s) => r@ == "Respuesta invalida: "@ + s@,
            },
    {
        match self {
            MicroserviceError::ConnectionFailed(e) => {
                let mut r = String::from_str("Conexion fallida: ");
                let ghost pre = r@;
                let d = io_error_text(e);
                r.append(d.as_str());
                assert(r@.take(pre.len() as int) =~= pre);
                r
            },
            MicroserviceError::IoError(e) => {
                let mut r = String::from_str("Error de IO: ");
                let ghost pre = r@;
                let d = io_error_text(e);
                r.append(d.as_str());
                assert(r@.take(pre.len() as int) =~= pre);
                r
            },
            MicroserviceError::ServiceError(s) => {
                let mut r = String::from_str("Error del servicio: ");
                r.append(s.as_str());
                r
            },
            MicroserviceError::InvalidResponse(s) => {
                let mut r = String::from_str("Respuesta invalida: ");
                r.append(s.as_str());
                r
            },
        }
    }
}


impl MusicError {
    /// A failed request to the music service, as a resolve error whose text
    /// is `prefix` and then the service error's text.
    pub fn from_service(prefix: &str, e: &MicroserviceError) -> (r: MusicError)
        ensures
            r matches MusicError::ResolveError(m) && match *e {
                MicroserviceError::ConnectionFailed(_) => starts_with(m@, prefix@ + "Conexion fallida: "@),
                MicroserviceError::IoError(_) => starts_with(m@, prefix@ + "Error de IO: "@),
                MicroserviceError::ServiceError(d) => m@ == prefix@ + "Error del servicio: "@ + d@,
                MicroserviceError::InvalidResponse(d) => m@ == prefix@ + "Respuesta invalida: "@ + d@,
            },
    {
        let text = e.message();
        let mut m = String::from_str(prefix);
        let ghost p = m@;
        m.append(text.as_str());
        proof {
            let t = text@;
            match *e {
                MicroserviceError::ConnectionFailed(_) => {
                    let q = "Conexion fallida: "@;
                    assert(m@.take((p + q).len() as int) =~= p + t.take(q.len() as int));
                },
                MicroserviceError::IoError(_) => {
                    let q = "Error de IO: "@;
                    assert(m@.take((p + q).len() as int) =~= p + t.take(q.len() as int));
                },
                _ => {
                    assert(m@ =~= p + t);
                },
            }
        }
        MusicError::ResolveError(m)
    }

    /// An encoder error as a playback error carrying its text.
    pub fn from_encoder(e: &EncoderError) -> (r: MusicError)
        ensures
            r matches MusicError::EncoderError(m) && m@ == encoder_error_text(*e),
    {
        MusicError::EncoderError(e.message())
    }
}

} // verus!
