//! Locating the configuration file: explicit paths and directory search.

use vstd::prelude::*;

use crate::format::{format_of_extension, ProcmanConfigFormat};
use crate::text::{copy_string, rsplit_dot, rsplit_once_dot, str_eq, texts};

verus! {

/// The last component of a path, as `std::path::Path::file_name` gives it.
pub uninterp spec fn file_name_of(path: Seq<char>) -> Option<Seq<char>>;

/// Relies on `std::path::Path::file_name`: the final normal component of the
/// path, or nothing where the path ends in `..` or is a root or empty. The
/// result depends on the path text alone.
#[verifier::external_body]
fn path_file_name(path: &str) -> (r: Option<String>)
    ensures
        match (r, file_name_of(path@)) {
            (None, None) => true,
            (Some(n), Some(m)) => n@ == m,
            _ => false,
        },
{
    match std::path::Path::new(path).file_name() {
        Some(n) => Some(n.to_string_lossy().into_owned()),
        None => None,
    }
}

/// The base name that configuration files carry.
pub open spec fn base_name() -> Seq<char> {
    seq!['p', 'r', 'o', 'c', 'm', 'a', 'n']
}

/// The format hinted by a file name: the one its final dot-suffix names, if any.
pub open spec fn hint_of_file_name(name: Seq<char>) -> Option<ProcmanConfigFormat> {
    match rsplit_dot(name) {
        Some((_, ext)) => format_of_extension(ext),
        None => None,
    }
}

/// Whether a directory entry's name marks a candidate configuration file, and
/// with which hint: exactly the base name gives no hint, the base name with a
/// recognized extension gives that extension's format.
pub open spec fn candidate_hint(name: Seq<char>) -> Option<Option<ProcmanConfigFormat>> {
    if name == base_name() {
        Some(None)
    } else {
        match rsplit_dot(name) {
            Some((stem, ext)) => if stem == base_name() && format_of_extension(ext) is Some {
                Some(format_of_extension(ext))
            } else {
                None
            },
            None => None,
        }
    }
}

/// One entry of a directory listing: its file name where that is valid
/// UTF-8, and its full path.
#[derive(Debug)]
pub struct ListedEntry {
    pub name: Option<String>,
    pub path: String,
}

/// The candidates among the entries of a listing, in listing order: each one's
/// path and format hint.
pub open spec fn candidates(entries: Seq<ListedEntry>) -> Seq<(Seq<char>, Option<ProcmanConfigFormat>)>
    decreases entries.len(),
{
    if entries.len() == 0 {
        Seq::empty()
    } else {
        let rest = candidates(entries.drop_last());
        let e = entries.last();
        match e.name {
            Some(n) => match candidate_hint(n@) {
                Some(h) => rest.push((e.path@, h)),
                None => rest,
            },
            None => rest,
        }
    }
}

/// The paths of a sequence of candidates.
pub open spec fn candidate_paths(c: Seq<(Seq<char>, Option<ProcmanConfigFormat>)>) -> Seq<Seq<char>> {
    c.map_values(|x: (Seq<char>, Option<ProcmanConfigFormat>)| x.0)
}

/// Why a path cannot name a configuration file.
#[derive(Debug, Clone, Copy, PartialEq, Eq, Structural)]
pub enum InvalidPathReason {
    NoBasename,
}

/// Failures while locating the configuration file.
#[derive(Debug)]
pub enum ProcmanConfigFileError {
    /// No per-user configuration directory could be determined.
    CouldNotDetermineDirectory,
    /// The working directory could not be determined; carries the cause.
    CouldNotDetermineCwd(String),
    /// A directory of the search could not be read; carries it and the cause.
    CouldNotReadDirectory(String, String),
    /// One directory holds several candidates; carries it and all of them.
    MultipleCandidates(String, Vec<String>),
    /// No searched directory holds a candidate; carries them in search order.
    NotFoundInSearch(Vec<String>),
    /// The path has no usable file name.
    InvalidPath(String, InvalidPathReason),
}

/// A located configuration file and the format its name hints at.
#[derive(Debug)]
pub struct ProcmanConfigFile {
    pub path: String,
    pub format: Option<ProcmanConfigFormat>,
}

impl ProcmanConfigFile {
    /// The file named by an explicit path, with the hint of its extension.
    pub fn try_from_path(path: &str) -> (r: Result<ProcmanConfigFile, ProcmanConfigFileError>)
        ensures
            file_name_of(path@) is None <==> r is Err,
            r matches Ok(f) ==> f.path@ == path@ && f.format == hint_of_file_name(
                file_name_of(path@)->Some_0,
            ),
            r matches Err(e) ==> e matches ProcmanConfigFileError::InvalidPath(p, reason) && p@
                == path@ && reason == InvalidPathReason::NoBasename,
    {
        match path_file_name(path) {
            None => Err(
                ProcmanConfigFileError::InvalidPath(
                    String::from_str(path),
                    InvalidPathReason::NoBasename,
                ),
            ),
            Some(name) => {
                let format = match rsplit_once_dot(name.as_str()) {
                    Some((_, ext)) => ProcmanConfigFormat::from_extension(ext.as_str()),
                    None => None,
                };
                Ok(ProcmanConfigFile { path: String::from_str(path), format })
            },
        }
    }

    /// Classifies a directory entry's name.
    pub fn candidate_hint_of(name: &str) -> (r: Option<Option<ProcmanConfigFormat>>)
        ensures
            r == candidate_hint(name@),
    {
        proof {
            reveal_strlit("procman");
            assert("procman"@ =~= base_name());
        }
        if str_eq(name, "procman") {
            return Some(None);
        }
        match rsplit_once_dot(name) {
            Some((stem, ext)) => {
                if str_eq(stem.as_str(), "procman") {
                    match ProcmanConfigFormat::from_extension(ext.as_str()) {
                        Some(f) => Some(Some(f)),
                        None => None,
                    }
                } else {
                    None
                }
            },
            None => None,
        }
    }

    /// Decides what one directory's listing yields: nothing, its single
    /// candidate, or an error naming every competing candidate.
    pub fn config_in_dir(dir: &str, entries: &Vec<ListedEntry>) -> (r: Result<
        Option<ProcmanConfigFile>,
        ProcmanConfigFileError,
    >)
        ensures
            candidates(entries@).len() == 0 <==> r matches Ok(None),
            candidates(entries@).len() == 1 <==> r matches Ok(Some(_)),
            r matches Ok(Some(f)) ==> f.path@ == candidates(entries@)[0].0 && f.format
                == candidates(entries@)[0].1,
            r matches Err(e) ==> (e matches ProcmanConfigFileError::MultipleCandidates(d, ps)
                && d@ == dir@ && texts(ps@) == candidate_paths(candidates(entries@))),
    {
        let mut found: Vec<ProcmanConfigFile> = Vec::new();
        let mut i: usize = 0;
        while i < entries.len()
            invariant
                i <= entries@.len(),
                found@.map_values(|f: ProcmanConfigFile| (f.path@, f.format)) == candidates(
                    entries@.subrange(0, i as int),
                ),
            decreases entries.len() - i,
        {
            let e = &entries[i];
            assert(entries@.subrange(0, i as int + 1).drop_last() =~= entries@.subrange(
                0,
                i as int,
            ));
            assert(entries@.subrange(0, i as int + 1).last() == entries@[i as int]);
            match &e.name {
                Some(n) => {
                    match Self::candidate_hint_of(n.as_str()) {
                        Some(h) => {
                            let f = ProcmanConfigFile { path: copy_string(&e.path), format: h };
                            found.push(f);
                            assert(found@.map_values(|f: ProcmanConfigFile| (f.path@, f.format))
                                =~= candidates(entries@.subrange(0, i as int + 1)));
                        },
                        None => {},
                    }
                },
                None => {},
            }
            i = i + 1;
        }
        assert(entries@.subrange(0, entries@.len() as int) =~= entries@);
        let ghost c = candidates(entries@);
        assert(found@.len() == c.len());
        if found.len() == 0 {
            Ok(None)
        } else if found.len() == 1 {
            assert(found@.map_values(|f: ProcmanConfigFile| (f.path@, f.format))[0] == c[0]);
            let f = found.pop().unwrap();
            Ok(Some(f))
        } else {
            let mut paths: Vec<String> = Vec::new();
            let mut j: usize = 0;
            while j < found.len()
                invariant
                    j <= found@.len(),
                    found@.len() == c.len(),
                    found@.map_values(|f: ProcmanConfigFile| (f.path@, f.format)) == c,
                    paths@.len() == j,
                    forall|k: int| 0 <= k < j ==> (#[trigger] paths@[k])@ == c[k].0,
                decreases found.len() - j,
            {
                assert(found@.map_values(|f: ProcmanConfigFile| (f.path@, f.format))[j as int]
                    == c[j as int]);
                let p = copy_string(&found[j].path);
                assert(p@ == c[j as int].0);
                paths.push(p);
                j = j + 1;
            }
            assert(texts(paths@) =~= candidate_paths(c));
            Err(ProcmanConfigFileError::MultipleCandidates(String::from_str(dir), paths))
        }
    }
}

} // verus!
