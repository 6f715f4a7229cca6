//! Reading a located file and resolving its format.

use vstd::prelude::*;

use crate::config_file::ProcmanConfigFile;
use crate::format::{format_order, ProcmanConfigFormat};

verus! {

/// Why a located file could not be turned into a configuration.
#[derive(Debug)]
pub enum ProcmanConfigParseErrorKind {
    /// The file could not be read; carries the cause.
    CouldNotReadFile(String),
    /// The file is not UTF-8, which the format requires; carries the cause.
    InvalidUtf8(String),
    /// The TOML deserializer refused the file; carries its message.
    InvalidToml(String),
    /// The JSON deserializer refused the file; carries its message.
    InvalidJson(String),
    /// The YAML deserializer refused the file; carries its message.
    InvalidYaml(String),
    /// Nothing hinted at a format and every format refused the file.
    CouldNotDetermineFormat,
}

/// A failure to read or parse the file at `path`.
#[derive(Debug)]
pub struct ProcmanConfigParseError {
    pub path: String,
    pub kind: ProcmanConfigParseErrorKind,
}

/// The formats to try, in order: the hinted one alone, or every format.
pub open spec fn formats_to_try(hint: Option<ProcmanConfigFormat>) -> Seq<ProcmanConfigFormat> {
    match hint {
        Some(f) => seq![f],
        None => format_order(),
    }
}

/// The contents of a located file, ready to be parsed.
#[derive(Debug)]
pub struct ProcmanConfigFileParser {
    pub path: String,
    pub contents: Vec<u8>,
    pub format: Option<ProcmanConfigFormat>,
}

impl ProcmanConfigFileParser {
    /// Joins a located file with the outcome of reading it; a failed read is
    /// reported against the file's path.
    pub fn from_read(file: ProcmanConfigFile, read: Result<Vec<u8>, String>) -> (r: Result<
        ProcmanConfigFileParser,
        ProcmanConfigParseError,
    >)
        ensures
            read is Ok <==> r is Ok,
            r matches Ok(p) ==> p.path == file.path && p.format == file.format && p.contents
                == read->Ok_0,
            r matches Err(e) ==> e.path == file.path && (e.kind matches
                ProcmanConfigParseErrorKind::CouldNotReadFile(m) && m == read->Err_0),
    {
        match read {
            Ok(contents) => Ok(ProcmanConfigFileParser { path: file.path, contents, format: file.format }),
            Err(m) => Err(
                ProcmanConfigParseError {
                    path: file.path,
                    kind: ProcmanConfigParseErrorKind::CouldNotReadFile(m),
                },
            ),
        }
    }

    /// The formats to try on the contents, in order.
    pub fn formats(&self) -> (r: Vec<ProcmanConfigFormat>)
        ensures
            r@ == formats_to_try(self.format),
    {
        match self.format {
            Some(f) => {
                let r = vec![f];
                assert(r@ =~= seq![f]);
                r
            },
            None => ProcmanConfigFormat::all(),
        }
    }
}

} // verus!
