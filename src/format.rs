//! The registry of supported configuration formats.

use vstd::prelude::*;

use crate::text::str_eq;

verus! {

/// A serialization format that a configuration file may be written in.
#[derive(Debug, Clone, Copy, PartialEq, Eq, Structural)]
pub enum ProcmanConfigFormat {
    Toml,
    Json,
    Yaml,
}

/// The formats in the order in which they are tried when nothing hints at one.
pub open spec fn format_order() -> Seq<ProcmanConfigFormat> {
    seq![ProcmanConfigFormat::Toml, ProcmanConfigFormat::Json, ProcmanConfigFormat::Yaml]
}

/// The format that a file-name extension stands for: `toml`, `json`, `yaml` or `yml`.
pub open spec fn format_of_extension(ext: Seq<char>) -> Option<ProcmanConfigFormat> {
    if ext == seq!['t', 'o', 'm', 'l'] {
        Some(ProcmanConfigFormat::Toml)
    } else if ext == seq!['j', 's', 'o', 'n'] {
        Some(ProcmanConfigFormat::Json)
    } else if ext == seq!['y', 'a', 'm', 'l'] || ext == seq!['y', 'm', 'l'] {
        Some(ProcmanConfigFormat::Yaml)
    } else {
        None
    }
}

/// The canonical lowercase name of a format.
pub open spec fn format_name(f: ProcmanConfigFormat) -> Seq<char> {
    match f {
        ProcmanConfigFormat::Toml => seq!['t', 'o', 'm', 'l'],
        ProcmanConfigFormat::Json => seq!['j', 's', 'o', 'n'],
        ProcmanConfigFormat::Yaml => seq!['y', 'a', 'm', 'l'],
    }
}

impl ProcmanConfigFormat {
    /// Every format, in the order in which they are tried.
    pub fn all() -> (r: Vec<ProcmanConfigFormat>)
        ensures
            r@ == format_order(),
    {
        let r = vec![ProcmanConfigFormat::Toml, ProcmanConfigFormat::Json, ProcmanConfigFormat::Yaml];
        assert(r@ =~= format_order());
        r
    }

    /// The canonical lowercase name.
    pub fn name(&self) -> (r: &'static str)
        ensures
            r@ == format_name(*self),
    {
        proof {
            reveal_strlit("toml");
            reveal_strlit("json");
            reveal_strlit("yaml");
            assert("toml"@ =~= seq!['t', 'o', 'm', 'l']);
            assert("json"@ =~= seq!['j', 's', 'o', 'n']);
            assert("yaml"@ =~= seq!['y', 'a', 'm', 'l']);
        }
        match self {
            ProcmanConfigFormat::Toml => "toml",
            ProcmanConfigFormat::Json => "json",
            ProcmanConfigFormat::Yaml => "yaml",
        }
    }

    /// Looks an extension up among the recognized aliases; case-sensitive.
    pub fn from_extension(ext: &str) -> (r: Option<ProcmanConfigFormat>)
        ensures
            r == format_of_extension(ext@),
    {
        proof {
            reveal_strlit("toml");
            reveal_strlit("json");
            reveal_strlit("yaml");
            reveal_strlit("yml");
            assert("toml"@ =~= seq!['t', 'o', 'm', 'l']);
            assert("json"@ =~= seq!['j', 's', 'o', 'n']);
            assert("yaml"@ =~= seq!['y', 'a', 'm', 'l']);
            assert("yml"@ =~= seq!['y', 'm', 'l']);
        }
        if str_eq(ext, "toml") {
            Some(ProcmanConfigFormat::Toml)
        } else if str_eq(ext, "json") {
            Some(ProcmanConfigFormat::Json)
        } else if str_eq(ext, "yaml") || str_eq(ext, "yml") {
            Some(ProcmanConfigFormat::Yaml)
        } else {
            None
        }
    }
}

} // verus!
