//! The backend's runtime configuration.
//!
//! The server reads a handful of optional settings at launch; each falls
//! back to a documented default.  Resolving the settings is verified here;
//! reading the configuration source is the server's job.

use vstd::prelude::*;

verus! {

/// What one indexer run needs to know: where the cue card collection
/// lives, and which database to keep in sync with it.
pub struct Config {
    pub basepath: String,
    pub database_url: String,
}

/// The resolved backend configuration.
pub struct BackendConfig {
    pub music_files_dir: String,
    pub indexer_path: String,
    pub cuecards_lib_dir: String,
    pub db_url: String,
    pub cuecards_self_managed: bool,
    pub minutes_per_tip: u32,
}

/// The file name a client announces for an uploaded document.
pub struct FileNameHeader(pub String);

/// Picks the announced file name out of the matching header values:
/// the first one, or nothing when the header is missing.
pub fn filename_from_headers(headers: &Vec<String>) -> (r: Option<FileNameHeader>)
    ensures
        r is Some <==> headers@.len() > 0,
        r matches Some(h) ==> h.0@ == headers@[0]@,
{
    if headers.len() == 0 {
        None
    } else {
        Some(FileNameHeader(headers[0].clone()))
    }
}

/// Resolves the configuration the server launches with: every missing
/// setting falls back to its default — `music_files` for the music
/// directory, `cuecards` for the library directory, `cuecard_indexer` for
/// the indexer executable, `library.db` for the database, and a
/// not-self-managed library.
pub fn rocket(
    music_files_dir: Option<String>,
    cuecards_lib_dir: Option<String>,
    indexer_path: Option<String>,
    db_url: Option<String>,
    cuecards_self_managed: Option<bool>,
    minutes_per_tip: u32,
) -> (r: BackendConfig)
    ensures
        r.music_files_dir@ == match music_files_dir {
            Some(v) => v@,
            None => "music_files"@,
        },
        r.cuecards_lib_dir@ == match cuecards_lib_dir {
            Some(v) => v@,
            None => "cuecards"@,
        },
        r.indexer_path@ == match indexer_path {
            Some(v) => v@,
            None => "cuecard_indexer"@,
        },
        r.db_url@ == match db_url {
            Some(v) => v@,
            None => "library.db"@,
        },
        r.cuecards_self_managed == match cuecards_self_managed {
            Some(v) => v,
            None => false,
        },
        r.minutes_per_tip == minutes_per_tip,
{
    BackendConfig {
        music_files_dir: match music_files_dir {
            Some(v) => v,
            None => String::from_str("music_files"),
        },
        cuecards_lib_dir: match cuecards_lib_dir {
            Some(v) => v,
            None => String::from_str("cuecards"),
        },
        indexer_path: match indexer_path {
            Some(v) => v,
            None => String::from_str("cuecard_indexer"),
        },
        db_url: match db_url {
            Some(v) => v,
            None => String::from_str("library.db"),
        },
        cuecards_self_managed: match cuecards_self_managed {
            Some(v) => v,
            None => false,
        },
        minutes_per_tip,
    }
}

} // verus!
