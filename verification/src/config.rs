//! Settings of the bot and the mapping of stored file paths to local ones.

use vstd::prelude::*;
use crate::errors::MusicError;
use crate::model::Track;
use crate::text::{starts_with, starts_with_text, suffix_from};

verus! {

/// Where the music service listens.
#[derive(Debug)]
pub struct MicroserviceConfig {
    pub host: String,
    pub port: u16,
}

/// Where the music files live.
#[derive(Debug)]
pub struct PathsConfig {
    /// The folder on the server that holds the music.
    pub music_path: String,
    /// A local mount of that folder; when set and not empty it replaces
    /// `music_path` in the paths of tracks.
    pub mount_path: Option<String>,
}

/// Settings of the bot.
#[derive(Debug)]
pub struct Config {
    pub token: String,
    pub prefix: String,
    pub microservice: MicroserviceConfig,
    pub paths: PathsConfig,
}

/// The effective path of `file_path`: with a non-empty mount path, a
/// leading music path is replaced by it; any other path is kept.
pub open spec fn effective_path(paths: PathsConfig, file_path: Seq<char>) -> Seq<char> {
    match paths.mount_path {
        Some(m) => if m@.len() > 0 && starts_with(file_path, paths.music_path@) {
            m@ + file_path.skip(paths.music_path@.len() as int)
        } else {
            file_path
        },
        None => file_path,
    }
}

impl Config {
    /// The path under which `file_path` can be opened here.
    pub fn resolve_path(&self, file_path: &str) -> (r: String)
        ensures
            r@ == effective_path(self.paths, file_path@),
    {
        match &self.paths.mount_path {
            Some(mount) => {
                let music = self.paths.music_path.as_str();
                if mount.unicode_len() > 0 && starts_with_text(file_path, music) {
                    let mut r = mount.clone();
                    let rest = suffix_from(file_path, music.unicode_len());
                    r.append(rest.as_str());
                    r
                } else {
                    String::from_str(file_path)
                }
            },
            None => String::from_str(file_path),
        }
    }
}

/// Only a leading music path is swapped for a non-empty mount path, and the
/// rest of the path is kept; every other path, and every path when the
/// mount path is missing or empty, stays as it is.
pub proof fn law_mount_replaces_prefix(paths: PathsConfig, file_path: Seq<char>)
    ensures
        (paths.mount_path matches Some(m) && m@.len() > 0 && starts_with(file_path, paths.music_path@))
            ==> effective_path(paths, file_path) == paths.mount_path.unwrap()@ + file_path.skip(
            paths.music_path@.len() as int,
        ),
        !(paths.mount_path matches Some(m) && m@.len() > 0 && starts_with(file_path, paths.music_path@))
            ==> effective_path(paths, file_path) == file_path,
{
}

/// The path to open for a track: its file path, mapped by
/// [`Config::resolve_path`]; a track without a file cannot be opened.
pub fn input_path(config: &Config, track: &Track) -> (r: Result<String, MusicError>)
    ensures
        match track.file_path {
            Some(p) => r matches Ok(q) && q@ == effective_path(config.paths, p@),
            None => r matches Err(MusicError::NoFilePath),
        },
{
    match &track.file_path {
        Some(p) => Ok(config.resolve_path(p.as_str())),
        None => Err(MusicError::NoFilePath),
    }
}

} // verus!
