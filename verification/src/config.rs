//! Settings of the terminal interface: the stored configuration, its
//! defaults, and how command-line options override it. Reading and writing
//! the configuration file is left to the caller.
use vstd::prelude::*;
use crate::text::{copy_opt_string, copy_string, copy_strings};

verus! {

/// The stored settings of the terminal interface.
#[derive(Debug)]
pub struct TuiConfig {
    pub selected_stt_model: String,
    pub model_manifest: String,
    pub audio_directory: String,
    pub language: Option<String>,
    pub dictionary: Vec<String>,
    pub max_seconds: u32,
    pub metrics_enabled: bool,
    pub resource_sampling_enabled: bool,
}

/// Settings given on the command line, each overriding the stored one.
#[derive(Debug)]
pub struct TuiOptions {
    pub model_id: Option<String>,
    pub model_manifest: Option<String>,
    pub audio_directory: Option<String>,
    pub max_seconds: Option<u32>,
    pub language: Option<String>,
    pub dictionary: Option<Vec<String>>,
    pub reconfigure: bool,
}

/// The manifest path used when none is configured.
pub fn default_manifest_path() -> (r: String)
    ensures
        r@ == "models/manifest.toml"@,
{
    "models/manifest.toml".to_owned()
}

/// The audio directory used when none is configured: inside the checkout
/// when the program runs from its parent directory (where `pheme-va` is a
/// directory), else relative to the working directory.
pub fn default_audio_directory(checkout_present: bool) -> (r: String)
    ensures
        r@ == if checkout_present {
            "pheme-va/local/audio"@
        } else {
            "local/audio"@
        },
{
    if checkout_present {
        "pheme-va/local/audio".to_owned()
    } else {
        "local/audio".to_owned()
    }
}

/// The recording limit used when none is configured, in seconds.
pub fn default_max_seconds() -> (r: u32)
    ensures
        r == 120,
{
    120
}

/// The value of switches that are on unless configured off.
pub fn default_true() -> (r: bool)
    ensures
        r,
{
    true
}

impl TuiConfig {
    /// The settings used when nothing is stored: the Whisper large-v3-turbo
    /// model, the default manifest and audio directory, no language or
    /// dictionary, the default recording limit, and metrics and resource
    /// sampling on.
    pub fn default_for(checkout_present: bool) -> (c: Self)
        ensures
            c.selected_stt_model@ == "whisper-large-v3-turbo"@,
            c.model_manifest@ == "models/manifest.toml"@,
            c.audio_directory@ == if checkout_present {
                "pheme-va/local/audio"@
            } else {
                "local/audio"@
            },
            c.language is None,
            c.dictionary@.len() == 0,
            c.max_seconds == 120,
            c.metrics_enabled,
            c.resource_sampling_enabled,
    {
        TuiConfig {
            selected_stt_model: "whisper-large-v3-turbo".to_owned(),
            model_manifest: default_manifest_path(),
            audio_directory: default_audio_directory(checkout_present),
            language: None,
            dictionary: Vec::new(),
            max_seconds: default_max_seconds(),
            metrics_enabled: default_true(),
            resource_sampling_enabled: default_true(),
        }
    }
}

/// Overrides the stored settings by the options that were given; a
/// recording limit of 0 counts as 1.
pub fn apply_options(config: &mut TuiConfig, options: &TuiOptions)
    ensures
        final(config).selected_stt_model == match options.model_id {
            Some(m) => m,
            None => old(config).selected_stt_model,
        },
        final(config).model_manifest == match options.model_manifest {
            Some(m) => m,
            None => old(config).model_manifest,
        },
        final(config).audio_directory == match options.audio_directory {
            Some(d) => d,
            None => old(config).audio_directory,
        },
        final(config).max_seconds == match options.max_seconds {
            Some(s) => if s < 1 {
                1
            } else {
                s
            },
            None => old(config).max_seconds,
        },
        final(config).language == if options.language is Some {
            options.language
        } else {
            old(config).language
        },
        final(config).dictionary@ == match options.dictionary {
            Some(d) => d@,
            None => old(config).dictionary@,
        },
        final(config).metrics_enabled == old(config).metrics_enabled,
        final(config).resource_sampling_enabled == old(config).resource_sampling_enabled,
{
    if let Some(model_id) = &options.model_id {
        config.selected_stt_model = copy_string(model_id);
    }
    if let Some(manifest) = &options.model_manifest {
        config.model_manifest = copy_string(manifest);
    }
    if let Some(directory) = &options.audio_directory {
        config.audio_directory = copy_string(directory);
    }
    if let Some(max_seconds) = options.max_seconds {
        config.max_seconds = if max_seconds < 1 {
            1
        } else {
            max_seconds
        };
    }
    if options.language.is_some() {
        config.language = copy_opt_string(&options.language);
    }
    if let Some(dictionary) = &options.dictionary {
        config.dictionary = copy_strings(dictionary);
    }
}

} // verus!
