//! User settings and how a failure to read or write them reads.
use vstd::prelude::*;

use crate::text::{push_str, to_string};

verus! {

/// How results are printed.
#[derive(Clone, Copy, Debug, PartialEq, Eq, Structural)]
pub enum OutputFormat {
    Human,
    Json,
    Csv,
}

/// The user's settings.
#[derive(Clone, Debug)]
pub struct Config {
    pub default_target: String,
    pub show_notes: bool,
    pub confidence_threshold: u8,
    pub aggressive_mode: bool,
    pub output_format: OutputFormat,
}

impl Default for Config {
    /// The settings used when none are stored: 1080p, notes shown, confidence threshold 70,
    /// no aggressive mode, human output.
    fn default() -> (c: Self)
        ensures
            c.default_target@ == "1080p"@,
            c.show_notes,
            c.confidence_threshold == 70,
            !c.aggressive_mode,
            c.output_format == OutputFormat::Human,
    {
        Config {
            default_target: to_string("1080p"),
            show_notes: true,
            confidence_threshold: 70,
            aggressive_mode: false,
            output_format: OutputFormat::Human,
        }
    }
}

/// Why the settings could not be read or written.
#[derive(Debug)]
pub enum ConfigError {
    IoError(String),
    ParseError(String),
    NoConfigDir,
    FeatureNotEnabled,
}

/// The message of a settings error.
pub open spec fn config_error_text(e: ConfigError) -> Seq<char> {
    match e {
        ConfigError::IoError(m) => "IO error: "@ + m@,
        ConfigError::ParseError(m) => "Parse error: "@ + m@,
        ConfigError::NoConfigDir => "Could not find config directory"@,
        ConfigError::FeatureNotEnabled => "Config feature not enabled. Build with --features config"@,
    }
}

impl ConfigError {
    /// The message of the error.
    pub fn message(&self) -> (r: String)
        ensures
            r@ == config_error_text(*self),
    {
        match self {
            ConfigError::IoError(m) => {
                let mut r = to_string("IO error: ");
                push_str(&mut r, m.as_str());
                r
            },
            ConfigError::ParseError(m) => {
                let mut r = to_string("Parse error: ");
                push_str(&mut r, m.as_str());
                r
            },
            ConfigError::NoConfigDir => to_string("Could not find config directory"),
            ConfigError::FeatureNotEnabled => to_string(
                "Config feature not enabled. Build with --features config",
            ),
        }
    }
}

} // verus!
