//! Error types of the telemetry blocks and of configuration loading.
//!
//! The payloads are plain strings: the kind tells the caller what failed
//! (I/O, parse, missing resource, malformed data, exhausted command chain),
//! the string carries the human-readable detail.

use vstd::prelude::*;

verus! {

/// A block's collection failure.
#[derive(Debug)]
pub enum BlockError {
    /// The pseudo-file could not be read, or its content was unusable.
    Io(String),
    /// A numeric field failed to parse.
    ParseInt(String),
    /// A named file or device was absent.
    MissingFile(String),
    /// Semantically malformed content, such as too few fields.
    InvalidData(String),
    /// An external utility chain produced no usable output.
    CommandFailed(String),
}

/// The display line that a `BlockError` carries.
pub open spec fn block_error_message(e: &BlockError) -> Seq<char> {
    match e {
        BlockError::Io(m) => "Block I/O error: "@ + m@,
        BlockError::ParseInt(m) => "Block parse error: "@ + m@,
        BlockError::MissingFile(p) => "Block missing file: "@ + p@,
        BlockError::InvalidData(m) => "Block invalid data: "@ + m@,
        BlockError::CommandFailed(m) => "Block command failed: "@ + m@,
    }
}

impl BlockError {
    /// Renders the error for display.
    pub fn message(&self) -> (r: String)
        ensures
            r@ == block_error_message(self),
    {
        let mut r = String::new();
        match self {
            BlockError::Io(m) => {
                r.append("Block I/O error: ");
                r.append(m.as_str());
            },
            BlockError::ParseInt(m) => {
                r.append("Block parse error: ");
                r.append(m.as_str());
            },
            BlockError::MissingFile(p) => {
                r.append("Block missing file: ");
                r.append(p.as_str());
            },
            BlockError::InvalidData(m) => {
                r.append("Block invalid data: ");
                r.append(m.as_str());
            },
            BlockError::CommandFailed(m) => {
                r.append("Block command failed: ");
                r.append(m.as_str());
            },
        }
        r
    }
}

/// A configuration-loading failure, surfaced to the embedding program.
#[derive(Debug)]
pub enum ConfigError {
    LuaError(String),
    InvalidModkey(String),
    UnknownKey(String),
    UnknownAction(String),
    UnknownBlockCommand(String),
    MissingCommandArg { command: String, field: String },
    ValidationError(String),
    NoConfigPathSet,
    NoConfigAtPath,
    CouldNotReadConfig(String),
}

/// The display line that a `ConfigError` carries.
pub open spec fn config_error_message(e: &ConfigError) -> Seq<char> {
    match e {
        ConfigError::LuaError(m) => m@,
        ConfigError::InvalidModkey(m) => m@,
        ConfigError::UnknownKey(m) => m@,
        ConfigError::UnknownAction(m) => m@,
        ConfigError::UnknownBlockCommand(m) => m@,
        ConfigError::MissingCommandArg { command, field } => command@ + " command requires "@
            + field@,
        ConfigError::ValidationError(m) => m@,
        ConfigError::NoConfigPathSet => "Could not find config file. Config path should've been set while loading"@,
        ConfigError::NoConfigAtPath => "Could not find config file, has it been moved?"@,
        ConfigError::CouldNotReadConfig(m) => "Could not read config: "@ + m@,
    }
}

impl ConfigError {
    /// Renders the error for display.
    pub fn message(&self) -> (r: String)
        ensures
            r@ == config_error_message(self),
    {
        let mut r = String::new();
        match self {
            ConfigError::LuaError(m) => {
                r.append(m.as_str());
            },
            ConfigError::InvalidModkey(m) => {
                r.append(m.as_str());
            },
            ConfigError::UnknownKey(m) => {
                r.append(m.as_str());
            },
            ConfigError::UnknownAction(m) => {
                r.append(m.as_str());
            },
            ConfigError::UnknownBlockCommand(m) => {
                r.append(m.as_str());
            },
            ConfigError::MissingCommandArg { command, field } => {
                r.append(command.as_str());
                r.append(" command requires ");
                r.append(field.as_str());
            },
            ConfigError::ValidationError(m) => {
                r.append(m.as_str());
            },
            ConfigError::NoConfigPathSet => {
                r.append("Could not find config file. Config path should've been set while loading");
            },
            ConfigError::NoConfigAtPath => {
                r.append("Could not find config file, has it been moved?");
            },
            ConfigError::CouldNotReadConfig(m) => {
                r.append("Could not read config: ");
                r.append(m.as_str());
            },
        }
        r
    }
}

} // verus!
