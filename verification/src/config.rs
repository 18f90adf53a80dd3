//! The settings of the timeline viewer, and where they are read from.

use std::collections::HashMap;
use vstd::prelude::*;

verus! {

/// The formats that a settings file can have.
#[derive(Clone, Copy, Debug, PartialEq, Eq, Structural)]
pub enum ConfigFormat {
    Json5,
}

/// Where the settings are read from: the name of a file and its format.
#[derive(Clone, Copy, Debug)]
pub struct ConfigSource {
    pub name: &'static str,
    pub format: ConfigFormat,
}

/// The settings of the viewer.
#[derive(Debug)]
pub struct ViewerConfig {
    /// Names to show in place of tags.
    pub tag_names: Option<HashMap<u64, String>>,
    /// The four ranges to go by where the command line leaves them out: the
    /// start and stop of the span range, then those of the tag range.
    pub default_args: [String; 4],
    pub window_width: u32,
    pub window_height: u32,
    /// vertical pixels per span
    pub span_height: i32,
    /// vertical pixels between spans
    pub span_spacing: i32,
}

/// The source of the settings: the file `config.js` of the working directory, in
/// JSON5.
pub fn config_builder() -> (source: ConfigSource)
    ensures
        source.name@ == "config.js"@,
        source.format == ConfigFormat::Json5,
{
    ConfigSource { name: "config.js", format: ConfigFormat::Json5 }
}

} // verus!
