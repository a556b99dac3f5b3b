//! Deciding how a track's audio file is opened: directly by the player, or
//! through an FFmpeg pipe that resamples it.

use vstd::prelude::*;
use crate::errors::EncoderError;
use crate::text::{lowercase, to_lowercase, views};

verus! {

/// How an audio file is to be opened.
#[derive(Debug, Clone, Copy, PartialEq, Eq, Structural)]
pub enum InputPlan {
    /// Handed to the player as a file.
    File,
    /// Piped through FFmpeg as 48 kHz stereo samples (used for FLAC).
    Ffmpeg,
}

/// The extensions that can be played, with their dot.
pub open spec fn supported_extension(e: Seq<char>) -> bool {
    e == ".ogg"@ || e == ".opus"@ || e == ".webm"@ || e == ".m4a"@ || e == ".flac"@ || e
        == ".mp3"@ || e == ".wav"@
}

/// The dotted, lower-case form of a file extension, or the empty text when
/// the path has none.
pub open spec fn dotted_extension(ext: Option<Seq<char>>) -> Seq<char> {
    match ext {
        Some(e) => "."@ + lowercase(e),
        None => ""@,
    }
}

/// The plan for a file with extension `ext`: FLAC goes through FFmpeg,
/// the other supported formats are opened directly, the rest are refused.
pub open spec fn extension_plan(ext: Option<Seq<char>>) -> Result<InputPlan, Seq<char>> {
    let e = dotted_extension(ext);
    if !supported_extension(e) {
        Err(e)
    } else if e == ".flac"@ {
        Ok(InputPlan::Ffmpeg)
    } else {
        Ok(InputPlan::File)
    }
}

fn str_eq(a: &String, b: &str) -> (r: bool)
    ensures
        r == (a@ == b@),
{
    let b2 = String::from_str(b);
    *a == b2
}

/// Whether `r` is what the plan `p` stands for: the same plan, or the
/// refusal of an unsupported format with the same text.
pub open spec fn plan_outcome(r: Result<InputPlan, EncoderError>, p: Result<InputPlan, Seq<char>>) -> bool {
    match p {
        Ok(plan) => r == Ok::<InputPlan, EncoderError>(plan),
        Err(e) => r matches Err(EncoderError::UnsupportedFormat(m)) && m@ == e,
    }
}

/// Chooses how to open a file from its extension (as `Path::extension`
/// gives it, without the dot).
pub fn classify_extension(ext: Option<&str>) -> (r: Result<InputPlan, EncoderError>)
    ensures
        plan_outcome(r, extension_plan(match ext {
            Some(e) => Some(e@),
            None => None,
        })),
{
    let dotted = match ext {
        Some(e) => {
            let mut d = String::from_str(".");
            let low = to_lowercase(e);
            d.append(low.as_str());
            d
        },
        None => String::new(),
    };
    let ghost ev = match ext {
        Some(e) => Some(e@),
        None => None,
    };
    proof {
        reveal_strlit("");
    }
    assert(dotted@ =~= dotted_extension(ev));
    let supported = str_eq(&dotted, ".ogg") || str_eq(&dotted, ".opus") || str_eq(&dotted, ".webm")
        || str_eq(&dotted, ".m4a") || str_eq(&dotted, ".flac") || str_eq(&dotted, ".mp3")
        || str_eq(&dotted, ".wav");
    if !supported {
        return Err(EncoderError::UnsupportedFormat(dotted));
    }
    if str_eq(&dotted, ".flac") {
        Ok(InputPlan::Ffmpeg)
    } else {
        Ok(InputPlan::File)
    }
}

/// The index of the last `.` in `s`, or -1 when it has none.
pub open spec fn last_dot(s: Seq<char>) -> int
    decreases s.len(),
{
    if s.len() == 0 {
        -1
    } else if s.last() == '.' {
        s.len() - 1
    } else {
        last_dot(s.drop_last())
    }
}

/// A bare file name: no separator (`/`, `\`) and no drive (`:`) in it,
/// and neither `.` nor `..`. On every platform such a path is one
/// component, the file name itself.
pub open spec fn bare_name(s: Seq<char>) -> bool {
    !s.contains('/') && !s.contains('\\') && !s.contains(':') && s != seq!['.'] && s != seq!['.', '.']
}

/// The extension of a bare file name: the text after its last `.`, unless
/// that `.` is the first character or there is none.
pub open spec fn name_extension(s: Seq<char>) -> Option<Seq<char>> {
    if last_dot(s) > 0 {
        Some(s.skip(last_dot(s) + 1))
    } else {
        None
    }
}

/// The extension of the last component of `path` (`Path::extension`, read
/// as UTF-8). As documented, the extension is the part of the file name
/// after its final `.`, none when the name has no `.` or its only `.` is the
/// first character; for a bare file name that is [`name_extension`]. Which
/// component is the file name of a longer path follows the path rules of
/// the platform the program runs on, so for such paths only this is said:
/// without any `.` there is no extension, and an extension holds no `.`.
#[verifier::external_body]
fn file_extension(path: &str) -> (r: Option<String>)
    ensures
        !path@.contains('.') ==> r is None,
        r matches Some(e) ==> !e@.contains('.'),
        bare_name(path@) ==> match r {
            Some(e) => name_extension(path@) == Some(e@),
            None => name_extension(path@) is None,
        },
{
    std::path::Path::new(path).extension().and_then(|e| e.to_str()).map(|e| e.to_string())
}

/// Chooses how to open the file at `file_path`; `exists` tells whether the
/// file is there. A missing file is refused first; otherwise the plan is
/// that of the extension the platform's path rules find.
pub fn plan_input(file_path: &str, exists: bool) -> (r: Result<InputPlan, EncoderError>)
    ensures
        !exists ==> (r matches Err(EncoderError::FileNotFound(p)) && p@ == file_path@),
        exists ==> !(r matches Err(EncoderError::FileNotFound(_))),
        exists ==> !(r matches Err(EncoderError::SpawnError(_))),
        exists ==> exists|e: Option<Seq<char>>| #[trigger] plan_outcome(r, extension_plan(e)) && (e matches Some(x)
            ==> !x.contains('.')),
        exists && !file_path@.contains('.') ==> (r matches Err(EncoderError::UnsupportedFormat(m))
            && m@.len() == 0),
        exists && bare_name(file_path@) ==> plan_outcome(r, extension_plan(name_extension(file_path@))),
{
    if !exists {
        return Err(EncoderError::FileNotFound(String::from_str(file_path)));
    }
    let ext = file_extension(file_path);
    let ghost ev = match &ext {
        Some(e) => Some(e@),
        None => None,
    };
    let r = match &ext {
        Some(e) => classify_extension(Some(e.as_str())),
        None => classify_extension(None),
    };
    proof {
        assert(plan_outcome(r, extension_plan(ev)));
        if !file_path@.contains('.') {
            reveal_strlit("");
            reveal_strlit(".ogg");
            reveal_strlit(".opus");
            reveal_strlit(".webm");
            reveal_strlit(".m4a");
            reveal_strlit(".flac");
            reveal_strlit(".mp3");
            reveal_strlit(".wav");
            assert(dotted_extension(ev).len() == 0);
            assert(!supported_extension(dotted_extension(ev)));
        }
    }
    r
}


/// The formats the player opens: an extension that lower-cases to `ogg`,
/// `opus`, `webm`, `m4a`, `mp3` or `wav` is opened directly, one that
/// lower-cases to `flac` goes through FFmpeg, and any other extension, or
/// none, is refused with the dotted lower-case extension (empty for none).
pub proof fn law_supported_formats(x: Seq<char>)
    ensures
        (lowercase(x) == "ogg"@ || lowercase(x) == "opus"@ || lowercase(x) == "webm"@ || lowercase(x)
            == "m4a"@ || lowercase(x) == "mp3"@ || lowercase(x) == "wav"@) ==> extension_plan(Some(x))
            == Ok::<InputPlan, Seq<char>>(InputPlan::File),
        lowercase(x) == "flac"@ ==> extension_plan(Some(x)) == Ok::<InputPlan, Seq<char>>(InputPlan::Ffmpeg),
        !(lowercase(x) == "ogg"@ || lowercase(x) == "opus"@ || lowercase(x) == "webm"@ || lowercase(x)
            == "m4a"@ || lowercase(x) == "mp3"@ || lowercase(x) == "wav"@ || lowercase(x) == "flac"@)
            ==> extension_plan(Some(x)) == Err::<InputPlan, Seq<char>>("."@ + lowercase(x)),
        extension_plan(None) == Err::<InputPlan, Seq<char>>(Seq::empty()),
{
    reveal_strlit("");
    reveal_strlit(".");
    reveal_strlit("ogg");
    reveal_strlit("opus");
    reveal_strlit("webm");
    reveal_strlit("m4a");
    reveal_strlit("mp3");
    reveal_strlit("wav");
    reveal_strlit("flac");
    reveal_strlit(".ogg");
    reveal_strlit(".opus");
    reveal_strlit(".webm");
    reveal_strlit(".m4a");
    reveal_strlit(".mp3");
    reveal_strlit(".wav");
    reveal_strlit(".flac");
    let l = lowercase(x);
    let e = "."@ + l;
    assert(e.drop_first() =~= l);
    assert(".ogg"@.drop_first() =~= "ogg"@);
    assert(".opus"@.drop_first() =~= "opus"@);
    assert(".webm"@.drop_first() =~= "webm"@);
    assert(".m4a"@.drop_first() =~= "m4a"@);
    assert(".mp3"@.drop_first() =~= "mp3"@);
    assert(".wav"@.drop_first() =~= "wav"@);
    assert(".flac"@.drop_first() =~= "flac"@);
    if l == "ogg"@ { assert(e =~= ".ogg"@); }
    if l == "opus"@ { assert(e =~= ".opus"@); }
    if l == "webm"@ { assert(e =~= ".webm"@); }
    if l == "m4a"@ { assert(e =~= ".m4a"@); }
    if l == "mp3"@ { assert(e =~= ".mp3"@); }
    if l == "wav"@ { assert(e =~= ".wav"@); }
    if l == "flac"@ { assert(e =~= ".flac"@); }
    if e == ".flac"@ {
        assert(l == e.drop_first());
        assert(l == "flac"@);
    }
    assert(dotted_extension(Some(x)) == e);
    assert("flac"@[0] == 'f');
    assert("ogg"@[0] != 'f' && "opus"@[0] != 'f' && "webm"@[0] != 'f' && "m4a"@[0] != 'f'
        && "mp3"@[0] != 'f' && "wav"@[0] != 'f');
    assert(""@ =~= Seq::<char>::empty());
}

/// The FFmpeg command lines that turn a file into raw samples for the
/// player: 32-bit float, stereo, 48 kHz, on standard output, silently.
pub struct AudioUtils;

impl AudioUtils {
    /// Decodes `file_path` as it is.
    pub fn pipe_args(file_path: &str) -> (r: Vec<String>)
        ensures
            views(r@) == seq!["-i"@, file_path@, "-f"@, "f32le"@, "-ac"@, "2"@, "-ar"@, "48000"@, "-loglevel"@, "quiet"@, "pipe:1"@],
    {
        let mut v: Vec<String> = Vec::new();
        v.push(String::from_str("-i"));
        v.push(String::from_str(file_path));
        v.push(String::from_str("-f"));
        v.push(String::from_str("f32le"));
        v.push(String::from_str("-ac"));
        v.push(String::from_str("2"));
        v.push(String::from_str("-ar"));
        v.push(String::from_str("48000"));
        v.push(String::from_str("-loglevel"));
        v.push(String::from_str("quiet"));
        v.push(String::from_str("pipe:1"));
        assert(views(v@) =~= seq!["-i"@, file_path@, "-f"@, "f32le"@, "-ac"@, "2"@, "-ar"@, "48000"@, "-loglevel"@, "quiet"@, "pipe:1"@]);
        v
    }

    /// Decodes `file_path` with loudness normalisation (EBU R128, -16 LUFS).
    pub fn normalized_stream_args(file_path: &str) -> (r: Vec<String>)
        ensures
            views(r@) == seq!["-i"@, file_path@, "-f"@, "f32le"@, "-ac"@, "2"@, "-ar"@, "48000"@, "-af"@, "loudnorm=I=-16:TP=-1.5:LRA=11"@, "-loglevel"@, "quiet"@, "pipe:1"@],
    {
        let mut v: Vec<String> = Vec::new();
        v.push(String::from_str("-i"));
        v.push(String::from_str(file_path));
        v.push(String::from_str("-f"));
        v.push(String::from_str("f32le"));
        v.push(String::from_str("-ac"));
        v.push(String::from_str("2"));
        v.push(String::from_str("-ar"));
        v.push(String::from_str("48000"));
        v.push(String::from_str("-af"));
        v.push(String::from_str("loudnorm=I=-16:TP=-1.5:LRA=11"));
        v.push(String::from_str("-loglevel"));
        v.push(String::from_str("quiet"));
        v.push(String::from_str("pipe:1"));
        assert(views(v@) =~= seq!["-i"@, file_path@, "-f"@, "f32le"@, "-ac"@, "2"@, "-ar"@, "48000"@, "-af"@, "loudnorm=I=-16:TP=-1.5:LRA=11"@, "-loglevel"@, "quiet"@, "pipe:1"@]);
        v
    }
}

} // verus!
