//! The load pipeline as a state machine.
//!
//! Each state names the one piece of outside work that the caller performs
//! next (look up a directory, list one, read a file, run one deserializer);
//! the caller hands back what came of it and the machine decides what follows.

use vstd::prelude::*;

use crate::config::{ProcmanConfig, ProcmanConfigError};
use crate::config_file::{
    candidate_paths,
    candidates,
    file_name_of,
    hint_of_file_name,
    InvalidPathReason,
    ListedEntry,
    ProcmanConfigFile,
    ProcmanConfigFileError,
};
use crate::format::{format_order, ProcmanConfigFormat};
use crate::parser::{
    formats_to_try,
    ProcmanConfigFileParser,
    ProcmanConfigParseError,
    ProcmanConfigParseErrorKind,
};
use crate::text::{copy_string, texts};

verus! {

/// Where a load stands.
#[derive(Debug)]
pub enum LoadStage {
    /// Waiting for the current working directory.
    AwaitCwd,
    /// Waiting for the per-user configuration directory.
    AwaitConfigDir { cwd: String },
    /// Waiting for the listing of `dirs[index]`.
    Searching { dirs: Vec<String>, index: usize },
    /// Waiting for the contents of the located file.
    Reading { file: ProcmanConfigFile },
    /// Waiting for the outcome of parsing with the `attempt`-th format to try.
    Parsing { parser: ProcmanConfigFileParser, attempt: usize },
    /// The load is over.
    Done { result: Result<ProcmanConfig, ProcmanConfigError> },
}

/// What came of the outside work that a stage asked for.
#[derive(Debug)]
pub enum LoadEvent {
    CurrentDir(Result<String, String>),
    ConfigDir(Option<String>),
    Listing(Result<Vec<ListedEntry>, String>),
    Contents(Result<Vec<u8>, String>),
    Parsed(Result<ProcmanConfig, ProcmanConfigParseErrorKind>),
}

/// The outside work that a stage asks for.
#[derive(Debug)]
pub enum LoadRequest {
    CurrentDir,
    ConfigDir,
    ListDirectory(String),
    ReadFile(String),
    Parse(ProcmanConfigFormat),
    Finished,
}

/// The indices that a stage holds are in range.
pub open spec fn stage_wf(s: LoadStage) -> bool {
    match s {
        LoadStage::Searching { dirs, index } => index < dirs@.len(),
        LoadStage::Parsing { parser, attempt } => attempt < formats_to_try(parser.format).len(),
        _ => true,
    }
}

/// The request that a stage makes.
pub open spec fn requests(s: LoadStage, r: LoadRequest) -> bool {
    match s {
        LoadStage::AwaitCwd => r is CurrentDir,
        LoadStage::AwaitConfigDir { .. } => r is ConfigDir,
        LoadStage::Searching { dirs, index } => r matches LoadRequest::ListDirectory(d) && d@
            == dirs@[index as int]@,
        LoadStage::Reading { file } => r matches LoadRequest::ReadFile(p) && p@ == file.path@,
        LoadStage::Parsing { parser, attempt } => r matches LoadRequest::Parse(f) && f
            == formats_to_try(parser.format)[attempt as int],
        LoadStage::Done { .. } => r is Finished,
    }
}

/// The stage after a listing of `dirs[index]` that holds `es`.
pub open spec fn listing_step(dirs: Vec<String>, index: usize, es: Seq<ListedEntry>, t: LoadStage) -> bool {
    let c = candidates(es);
    if c.len() == 0 {
        if index + 1 < dirs@.len() {
            t matches LoadStage::Searching { dirs: d2, index: i2 } && d2 == dirs && i2 == index + 1
        } else {
            t matches LoadStage::Done {
                result: Err(ProcmanConfigError::FindFile(ProcmanConfigFileError::NotFoundInSearch(ds))),
            } && texts(ds@) == texts(dirs@)
        }
    } else if c.len() == 1 {
        t matches LoadStage::Reading { file } && file.path@ == c[0].0 && file.format == c[0].1
    } else {
        t matches LoadStage::Done {
            result: Err(ProcmanConfigError::FindFile(ProcmanConfigFileError::MultipleCandidates(d, ps))),
        } && d@ == dirs@[index as int]@ && texts(ps@) == candidate_paths(c)
    }
}

/// The stage after the `attempt`-th format refused the contents with `k`.
pub open spec fn parse_failure_step(
    parser: ProcmanConfigFileParser,
    attempt: usize,
    k: ProcmanConfigParseErrorKind,
    t: LoadStage,
) -> bool {
    if parser.format is Some {
        t matches LoadStage::Done { result: Err(ProcmanConfigError::ParseFile(e)) } && e.path
            == parser.path && e.kind == k
    } else if attempt + 1 < format_order().len() {
        t matches LoadStage::Parsing { parser: p2, attempt: a2 } && p2 == parser && a2 == attempt
            + 1
    } else {
        t matches LoadStage::Done { result: Err(ProcmanConfigError::ParseFile(e)) } && e.path
            == parser.path && e.kind is CouldNotDetermineFormat
    }
}

/// One step of the machine: stage `s` takes event `ev` to stage `t`. An event
/// that the stage did not ask for changes nothing.
pub open spec fn step(s: LoadStage, ev: LoadEvent, t: LoadStage) -> bool {
    match (s, ev) {
        (LoadStage::AwaitCwd, LoadEvent::CurrentDir(Err(m))) => t matches LoadStage::Done {
            result: Err(ProcmanConfigError::FindFile(ProcmanConfigFileError::CouldNotDetermineCwd(m2))),
        } && m2 == m,
        (LoadStage::AwaitCwd, LoadEvent::CurrentDir(Ok(c))) => t matches LoadStage::AwaitConfigDir {
            cwd,
        } && cwd == c,
        (LoadStage::AwaitConfigDir { .. }, LoadEvent::ConfigDir(None)) => t matches LoadStage::Done {
            result: Err(ProcmanConfigError::FindFile(ProcmanConfigFileError::CouldNotDetermineDirectory)),
        },
        (LoadStage::AwaitConfigDir { cwd }, LoadEvent::ConfigDir(Some(d))) => t matches LoadStage::Searching {
            dirs,
            index,
        } && index == 0 && texts(dirs@) == seq![cwd@, d@],
        (LoadStage::Searching { dirs, index }, LoadEvent::Listing(Err(m))) => t matches LoadStage::Done {
            result: Err(ProcmanConfigError::FindFile(ProcmanConfigFileError::CouldNotReadDirectory(d, m2))),
        } && d@ == dirs@[index as int]@ && m2 == m,
        (LoadStage::Searching { dirs, index }, LoadEvent::Listing(Ok(es))) => listing_step(
            dirs,
            index,
            es@,
            t,
        ),
        (LoadStage::Reading { file }, LoadEvent::Contents(Err(m))) => t matches LoadStage::Done {
            result: Err(ProcmanConfigError::ParseFile(e)),
        } && e.path == file.path && (e.kind matches ProcmanConfigParseErrorKind::CouldNotReadFile(m2)
            && m2 == m),
        (LoadStage::Reading { file }, LoadEvent::Contents(Ok(b))) => t matches LoadStage::Parsing {
            parser,
            attempt,
        } && attempt == 0 && parser.path == file.path && parser.format == file.format
            && parser.contents == b,
        (LoadStage::Parsing { .. }, LoadEvent::Parsed(Ok(c))) => t matches LoadStage::Done {
            result: Ok(c2),
        } && c2 == c,
        (LoadStage::Parsing { parser, attempt }, LoadEvent::Parsed(Err(k))) => parse_failure_step(
            parser,
            attempt,
            k,
            t,
        ),
        _ => t == s,
    }
}

/// A load in progress.
#[derive(Debug)]
pub struct ProcmanConfigLoad {
    stage: LoadStage,
}

impl ProcmanConfigLoad {
    #[verifier::type_invariant]
    spec fn inv(&self) -> bool {
        stage_wf(self.stage)
    }

    /// Where the load stands.
    pub closed spec fn stage(&self) -> LoadStage {
        self.stage
    }

    /// The first stage of a load: the explicit file with its extension's
    /// hint, or the start of the directory search.
    pub open spec fn started_from(&self, path: Option<&str>) -> bool {
        match path {
            None => self.stage() is AwaitCwd,
            Some(p) => match file_name_of(p@) {
                None => self.stage() matches LoadStage::Done {
                    result: Err(ProcmanConfigError::FindFile(ProcmanConfigFileError::InvalidPath(q, reason))),
                } && q@ == p@ && reason == InvalidPathReason::NoBasename,
                Some(n) => self.stage() matches LoadStage::Reading { file } && file.path@ == p@
                    && file.format == hint_of_file_name(n),
            },
        }
    }

    /// Starts a load; see [`ProcmanConfig::load_from_file`].
    pub fn start(path: Option<&str>) -> (r: ProcmanConfigLoad)
        ensures
            r.started_from(path),
    {
        match path {
            None => ProcmanConfigLoad { stage: LoadStage::AwaitCwd },
            Some(p) => match ProcmanConfigFile::try_from_path(p) {
                Ok(file) => ProcmanConfigLoad { stage: LoadStage::Reading { file } },
                Err(e) => ProcmanConfigLoad {
                    stage: LoadStage::Done { result: Err(ProcmanConfigError::FindFile(e)) },
                },
            },
        }
    }

    /// The outside work to perform next.
    pub fn request(&self) -> (r: LoadRequest)
        ensures
            requests(self.stage(), r),
    {
        proof {
            use_type_invariant(self);
        }
        match &self.stage {
            LoadStage::AwaitCwd => LoadRequest::CurrentDir,
            LoadStage::AwaitConfigDir { .. } => LoadRequest::ConfigDir,
            LoadStage::Searching { dirs, index } => LoadRequest::ListDirectory(copy_string(&dirs[*index])),
            LoadStage::Reading { file } => LoadRequest::ReadFile(copy_string(&file.path)),
            LoadStage::Parsing { parser, attempt } => {
                let fs = parser.formats();
                LoadRequest::Parse(fs[*attempt])
            },
            LoadStage::Done { .. } => LoadRequest::Finished,
        }
    }

    /// The bytes to parse, while a parse is asked for.
    pub fn contents(&self) -> (r: Option<&Vec<u8>>)
        ensures
            self.stage() is Parsing <==> r is Some,
            r matches Some(b) ==> *b == self.stage()->parser.contents,
    {
        match &self.stage {
            LoadStage::Parsing { parser, .. } => Some(&parser.contents),
            _ => None,
        }
    }

    /// Whether the load is over.
    pub fn is_finished(&self) -> (r: bool)
        ensures
            r == self.stage() is Done,
    {
        match &self.stage {
            LoadStage::Done { .. } => true,
            _ => false,
        }
    }

    /// The outcome, once the load is over.
    pub fn finish(self) -> (r: Option<Result<ProcmanConfig, ProcmanConfigError>>)
        ensures
            self.stage() is Done <==> r is Some,
            r matches Some(x) ==> x == self.stage()->result,
    {
        match self.stage {
            LoadStage::Done { result } => Some(result),
            _ => None,
        }
    }

    /// Takes what came of the requested work and moves on.
    pub fn advance(self, ev: LoadEvent) -> (r: ProcmanConfigLoad)
        ensures
            step(self.stage(), ev, r.stage()),
    {
        proof {
            use_type_invariant(&self);
        }
        let stage = self.stage;
        let next = match (stage, ev) {
            (LoadStage::AwaitCwd, LoadEvent::CurrentDir(Err(m))) => LoadStage::Done {
                result: Err(ProcmanConfigError::FindFile(ProcmanConfigFileError::CouldNotDetermineCwd(m))),
            },
            (LoadStage::AwaitCwd, LoadEvent::CurrentDir(Ok(c))) => LoadStage::AwaitConfigDir { cwd: c },
            (LoadStage::AwaitConfigDir { .. }, LoadEvent::ConfigDir(None)) => LoadStage::Done {
                result: Err(ProcmanConfigError::FindFile(ProcmanConfigFileError::CouldNotDetermineDirectory)),
            },
            (LoadStage::AwaitConfigDir { cwd }, LoadEvent::ConfigDir(Some(d))) => {
                let dirs = vec![cwd, d];
                assert(texts(dirs@) =~= seq![dirs@[0]@, dirs@[1]@]);
                LoadStage::Searching { dirs, index: 0 }
            },
            (LoadStage::Searching { dirs, index }, LoadEvent::Listing(Err(m))) => {
                let d = copy_string(&dirs[index]);
                LoadStage::Done {
                    result: Err(ProcmanConfigError::FindFile(ProcmanConfigFileError::CouldNotReadDirectory(d, m))),
                }
            },
            (LoadStage::Searching { dirs, index }, LoadEvent::Listing(Ok(es))) => {
                match ProcmanConfigFile::config_in_dir(dirs[index].as_str(), &es) {
                    Ok(Some(file)) => LoadStage::Reading { file },
                    Ok(None) => {
                        if index < dirs.len() - 1 {
                            LoadStage::Searching { dirs, index: index + 1 }
                        } else {
                            LoadStage::Done {
                                result: Err(ProcmanConfigError::FindFile(ProcmanConfigFileError::NotFoundInSearch(dirs))),
                            }
                        }
                    },
                    Err(e) => LoadStage::Done { result: Err(ProcmanConfigError::FindFile(e)) },
                }
            },
            (LoadStage::Reading { file }, LoadEvent::Contents(read)) => {
                match ProcmanConfigFileParser::from_read(file, read) {
                    Ok(parser) => LoadStage::Parsing { parser, attempt: 0 },
                    Err(e) => LoadStage::Done { result: Err(ProcmanConfigError::ParseFile(e)) },
                }
            },
            (LoadStage::Parsing { .. }, LoadEvent::Parsed(Ok(c))) => LoadStage::Done { result: Ok(c) },
            (LoadStage::Parsing { parser, attempt }, LoadEvent::Parsed(Err(k))) => {
                if parser.format.is_some() {
                    LoadStage::Done {
                        result: Err(ProcmanConfigError::ParseFile(ProcmanConfigParseError { path: parser.path, kind: k })),
                    }
                } else if attempt + 1 < ProcmanConfigFormat::all().len() {
                    LoadStage::Parsing { parser, attempt: attempt + 1 }
                } else {
                    LoadStage::Done {
                        result: Err(
                            ProcmanConfigError::ParseFile(
                                ProcmanConfigParseError {
                                    path: parser.path,
                                    kind: ProcmanConfigParseErrorKind::CouldNotDetermineFormat,
                                },
                            ),
                        ),
                    }
                }
            },
            (stage, _) => stage,
        };
        ProcmanConfigLoad { stage: next }
    }
}

/// A directory that holds two or more candidates ends the load with an error
/// naming that directory and every candidate in it; the search does not go on
/// to another directory.
pub proof fn lemma_ambiguity_ends_search(s: LoadStage, es: Vec<ListedEntry>, t: LoadStage)
    requires
        s is Searching,
        candidates(es@).len() >= 2,
        step(s, LoadEvent::Listing(Ok(es)), t),
    ensures
        t matches LoadStage::Done {
            result: Err(ProcmanConfigError::FindFile(ProcmanConfigFileError::MultipleCandidates(d, ps))),
        } && d@ == s->dirs@[s->index as int]@ && texts(ps@) == candidate_paths(candidates(es@)),
{
}

/// A search in which no directory holds a candidate fails with an error that
/// names every searched directory in search order: the working directory,
/// then the per-user configuration directory.
pub proof fn lemma_search_without_candidates(
    cwd: String,
    config_dir: String,
    first: Vec<ListedEntry>,
    second: Vec<ListedEntry>,
    s1: LoadStage,
    s2: LoadStage,
    s3: LoadStage,
    s4: LoadStage,
)
    requires
        step(LoadStage::AwaitCwd, LoadEvent::CurrentDir(Ok(cwd)), s1),
        step(s1, LoadEvent::ConfigDir(Some(config_dir)), s2),
        step(s2, LoadEvent::Listing(Ok(first)), s3),
        step(s3, LoadEvent::Listing(Ok(second)), s4),
        candidates(first@).len() == 0,
        candidates(second@).len() == 0,
    ensures
        s4 matches LoadStage::Done {
            result: Err(ProcmanConfigError::FindFile(ProcmanConfigFileError::NotFoundInSearch(ds))),
        } && texts(ds@) == seq![cwd@, config_dir@],
{
    assert(s2 matches LoadStage::Searching { dirs, index } && index == 0 && texts(dirs@).len() == 2);
    assert(texts(s2->dirs@).len() == s2->dirs@.len());
}

/// When the file's name hints at a format, that format alone is tried, and its
/// failure is the final error: no other format is attempted.
pub proof fn lemma_hint_is_final(
    file: ProcmanConfigFile,
    bytes: Vec<u8>,
    k: ProcmanConfigParseErrorKind,
    s1: LoadStage,
    r: LoadRequest,
    s2: LoadStage,
)
    requires
        file.format is Some,
        step((LoadStage::Reading { file }), LoadEvent::Contents(Ok(bytes)), s1),
        requests(s1, r),
        step(s1, LoadEvent::Parsed(Err(k)), s2),
    ensures
        r matches LoadRequest::Parse(f) && f == file.format->Some_0,
        s2 matches LoadStage::Done { result: Err(ProcmanConfigError::ParseFile(e)) } && e.path
            == file.path && e.kind == k,
{
}

proof fn lemma_fallback_prefix(
    parser: ProcmanConfigFileParser,
    stages: Seq<LoadStage>,
    events: Seq<LoadEvent>,
    n: int,
    j: int,
)
    requires
        parser.format is None,
        0 <= j <= n < format_order().len(),
        stages.len() == n + 2,
        events.len() == n + 1,
        stages[0] == (LoadStage::Parsing { parser, attempt: 0 }),
        forall|i: int| 0 <= i <= n ==> step(#[trigger] stages[i], events[i], stages[i + 1]),
        forall|i: int| 0 <= i < n ==> #[trigger] events[i] matches LoadEvent::Parsed(Err(_)),
    ensures
        stages[j] == (LoadStage::Parsing { parser, attempt: j as usize }),
    decreases j,
{
    if j > 0 {
        lemma_fallback_prefix(parser, stages, events, n, j - 1);
        assert(step(stages[j - 1], events[j - 1], stages[j]));
        assert(events[j - 1] matches LoadEvent::Parsed(Err(_)));
    }
}

/// Without a hint, the formats are tried one by one in registry order, and the
/// first one that accepts the contents gives the configuration.
pub proof fn lemma_fallback_in_registry_order(
    parser: ProcmanConfigFileParser,
    stages: Seq<LoadStage>,
    events: Seq<LoadEvent>,
    c: ProcmanConfig,
    n: int,
)
    requires
        parser.format is None,
        0 <= n < format_order().len(),
        stages.len() == n + 2,
        events.len() == n + 1,
        stages[0] == (LoadStage::Parsing { parser, attempt: 0 }),
        forall|i: int| 0 <= i <= n ==> step(#[trigger] stages[i], events[i], stages[i + 1]),
        forall|i: int| 0 <= i < n ==> #[trigger] events[i] matches LoadEvent::Parsed(Err(_)),
        events[n] == LoadEvent::Parsed(Ok(c)),
    ensures
        forall|i: int| 0 <= i <= n ==> requests(#[trigger] stages[i], LoadRequest::Parse(format_order()[i])),
        stages[n + 1] matches LoadStage::Done { result: Ok(c2) } && c2 == c,
{
    assert forall|i: int| 0 <= i <= n implies requests(#[trigger] stages[i], LoadRequest::Parse(format_order()[i])) by {
        lemma_fallback_prefix(parser, stages, events, n, i);
    }
    lemma_fallback_prefix(parser, stages, events, n, n);
    assert(step(stages[n], events[n], stages[n + 1]));
}

} // verus!
