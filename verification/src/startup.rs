//! What a replica settles from its command line before it starts: how its
//! configuration file is encoded, how much it logs, and how long it sleeps
//! between attempts.

use vstd::prelude::*;
use vstd::string::*;

verus! {

/// The encodings in which a configuration file can be written.
#[derive(Debug, Clone, Copy, PartialEq, Eq, Structural)]
pub enum ConfigFormat {
    Json,
    Bin,
    Toml,
    Yaml,
}

/// How much a replica logs.
#[derive(Debug, Clone, Copy, PartialEq, Eq, Structural)]
pub enum LogLevel {
    Info,
    Debug,
    Trace,
}

impl ConfigFormat {
    /// The encoding that a file with the extension `ext` is taken to have.
    pub open spec fn of_extension(ext: Seq<char>) -> Option<ConfigFormat> {
        if ext == "json"@ {
            Some(ConfigFormat::Json)
        } else if ext == "dat"@ {
            Some(ConfigFormat::Bin)
        } else if ext == "toml"@ {
            Some(ConfigFormat::Toml)
        } else if ext == "yaml"@ {
            Some(ConfigFormat::Yaml)
        } else {
            None
        }
    }

    /// The encoding of a configuration file, by the extension of its name:
    /// `json`, `dat` for the binary encoding, `toml` or `yaml`. The content
    /// of the file plays no part, and no other extension is known.
    pub fn from_extension(ext: &str) -> (format: Option<ConfigFormat>)
        ensures
            format == Self::of_extension(ext@),
    {
        let ext = String::from_str(ext);
        if ext == String::from_str("json") {
            Some(ConfigFormat::Json)
        } else if ext == String::from_str("dat") {
            Some(ConfigFormat::Bin)
        } else if ext == String::from_str("toml") {
            Some(ConfigFormat::Toml)
        } else if ext == String::from_str("yaml") {
            Some(ConfigFormat::Yaml)
        } else {
            None
        }
    }
}

impl LogLevel {
    /// The level for a verbosity flag given `count` times.
    pub open spec fn of_verbosity(count: u64) -> LogLevel {
        if count == 0 {
            LogLevel::Info
        } else if count == 1 {
            LogLevel::Debug
        } else {
            LogLevel::Trace
        }
    }

    /// The level for a verbosity flag given `count` times: informational
    /// messages without it, debugging output with one, everything with more.
    pub fn from_verbosity(count: u64) -> (level: LogLevel)
        ensures
            level == Self::of_verbosity(count),
    {
        match count {
            0 => LogLevel::Info,
            1 => LogLevel::Debug,
            _ => LogLevel::Trace,
        }
    }
}

/// The pause between two attempts of a replica in a cluster of `num_nodes`:
/// ten units, and four more for each replica.
pub fn sleep_time(num_nodes: usize) -> (pause: u64)
    requires
        10 + 4 * num_nodes <= u64::MAX,
    ensures
        pause == 10 + 4 * num_nodes,
{
    10 + 4 * (num_nodes as u64)
}

} // verus!
