//! The per-run search configuration: root directory, compiled pattern,
//! traversal and diagnostic flags, and the two suffix lists. Built once
//! from parsed arguments and never mutated afterwards.

use vstd::prelude::*;
use crate::pattern::Pattern;

verus! {

/// Immutable configuration of one search run. The include list restricts
/// scanning only while `check_extra` is set; an empty ignore entry is
/// inert (see `crate::filter::ignored`).
pub struct Config {
    pub directory: String,
    pub search_term: Pattern,
    pub recursive: bool,
    pub debug: bool,
    pub files_to_ignore: Vec<String>,
    pub files_to_search: Vec<String>,
    pub check_extra: bool,
}

impl Config {
    /// Build a configuration from already-parsed values.
    pub fn new(
        directory: String,
        search_term: Pattern,
        recursive: bool,
        debug: bool,
        files_to_ignore: Vec<String>,
        files_to_search: Vec<String>,
        check_extra: bool,
    ) -> (c: Config)
        ensures
            c.directory == directory,
            c.search_term == search_term,
            c.recursive == recursive,
            c.debug == debug,
            c.files_to_ignore == files_to_ignore,
            c.files_to_search == files_to_search,
            c.check_extra == check_extra,
    {
        Config {
            directory,
            search_term,
            recursive,
            debug,
            files_to_ignore,
            files_to_search,
            check_extra,
        }
    }
}

/// The built-in ignore suffixes: common binary, media and archive
/// extensions that a search run skips unless told otherwise.
pub open spec fn default_ignore_suffixes() -> Seq<Seq<char>> {
    seq![
        "zip"@, "lib"@, "so"@, "dll"@, "dylib"@, "exe"@, "pyc"@, "pyo"@, "bin"@, "pdb"@,
        "jpg"@, "jpeg"@, "png"@, "gif"@, "bmp"@, "ico"@, "tiff"@, "mp3"@, "wav"@, "ogg"@,
        "flac"@, "mp4"@, "mkv"@, "avi"@, "mov"@, "wmv"@, "flv"@, "7zip"@, "rar"@, "gz"@,
        "tar"@, "tgz"@, "blend"@, "blend1"@, "img"@,
    ]
}

/// The built-in ignore list, as owned strings.
pub fn default_ignore_list() -> (r: Vec<String>)
    ensures
        r.deep_view() == default_ignore_suffixes(),
{
    let r: Vec<String> = vec![
        String::from_str("zip"),
        String::from_str("lib"),
        String::from_str("so"),
        String::from_str("dll"),
        String::from_str("dylib"),
        String::from_str("exe"),
        String::from_str("pyc"),
        String::from_str("pyo"),
        String::from_str("bin"),
        String::from_str("pdb"),
        String::from_str("jpg"),
        String::from_str("jpeg"),
        String::from_str("png"),
        String::from_str("gif"),
        String::from_str("bmp"),
        String::from_str("ico"),
        String::from_str("tiff"),
        String::from_str("mp3"),
        String::from_str("wav"),
        String::from_str("ogg"),
        String::from_str("flac"),
        String::from_str("mp4"),
        String::from_str("mkv"),
        String::from_str("avi"),
        String::from_str("mov"),
        String::from_str("wmv"),
        String::from_str("flv"),
        String::from_str("7zip"),
        String::from_str("rar"),
        String::from_str("gz"),
        String::from_str("tar"),
        String::from_str("tgz"),
        String::from_str("blend"),
        String::from_str("blend1"),
        String::from_str("img"),
    ];
    proof {
        assert(r.deep_view() =~= default_ignore_suffixes());
    }
    r
}

} // verus!
