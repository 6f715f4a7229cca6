//! Discovery and loading of the process supervisor's configuration file.
//!
//! The library decides where the configuration lives, which serialization
//! format it is written in, and how the outcome of every step maps onto a
//! configuration value or a structured error. Filesystem access and the
//! format deserializers are driven by the caller through [`ProcmanConfigLoad`].

pub mod config;
pub mod config_file;
pub mod format;
pub mod loader;
pub mod parser;
pub mod program_name;
pub mod text;

pub use config::{ProcmanConfig, ProcmanConfigError, ProgramConfig};
pub use config_file::{InvalidPathReason, ListedEntry, ProcmanConfigFile, ProcmanConfigFileError};
pub use format::ProcmanConfigFormat;
pub use loader::{LoadEvent, LoadRequest, LoadStage, ProcmanConfigLoad};
pub use parser::{ProcmanConfigFileParser, ProcmanConfigParseError, ProcmanConfigParseErrorKind};
pub use program_name::{ProgramName, ProgramNameError, ProgramNameErrorKind};
