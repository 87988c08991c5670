//! Service settings.

use vstd::prelude::*;
use crate::text::{chars_of, decimal_up_to, parse_unsigned};

verus! {

pub const DEFAULT_PORT: u16 = 3030;

pub const DEFAULT_CACHE_SIZE: usize = 1000;

pub open spec fn default_beatmaps_path() -> Seq<char> {
    ".data/osu/"@
}

/// Where the service listens, where beatmap files live, and how many parsed
/// beatmaps are kept in memory.
#[derive(Debug, Clone, PartialEq, Eq)]
pub struct Config {
    pub port: u16,
    pub beatmaps_path: String,
    pub cache_size: usize,
}

/// A setting whose text is not a number of the expected range.
#[derive(Debug, Clone, Copy, PartialEq, Eq)]
pub enum ConfigError {
    InvalidPort,
    InvalidCacheSize,
}

impl Default for Config {
    fn default() -> (r: Self)
        ensures
            r.port == DEFAULT_PORT,
            r.beatmaps_path@ == default_beatmaps_path(),
            r.cache_size == DEFAULT_CACHE_SIZE,
    {
        proof {
            reveal_strlit(".data/osu/");
        }
        Config {
            port: DEFAULT_PORT,
            beatmaps_path: ".data/osu/".to_string(),
            cache_size: DEFAULT_CACHE_SIZE,
        }
    }
}

/// The value of an optional numeric setting: absent gives `default`.
pub open spec fn setting_value(text: Option<&str>, limit: nat, default: nat) -> Option<nat> {
    match text {
        Some(t) => decimal_up_to(t@, limit),
        None => Some(default),
    }
}

impl Config {
    /// The settings from their raw texts, each absent one taking its default.
    /// The port is read first.
    pub fn from_settings(port: Option<&str>, beatmaps_path: Option<String>, cache_size: Option<&str>) -> (r: Result<Config, ConfigError>)
        ensures
            ({
                let p = setting_value(port, u16::MAX as nat, DEFAULT_PORT as nat);
                let c = setting_value(cache_size, usize::MAX as nat, DEFAULT_CACHE_SIZE as nat);
                match r {
                    Err(ConfigError::InvalidPort) => p is None,
                    Err(ConfigError::InvalidCacheSize) => p is Some && c is None,
                    Ok(cfg) => p == Some(cfg.port as nat) && c == Some(cfg.cache_size as nat)
                        && cfg.beatmaps_path@ == match beatmaps_path {
                        Some(b) => b@,
                        None => default_beatmaps_path(),
                    },
                }
            }),
    {
        let mut config = Config::default();
        match port {
            Some(t) => match parse_unsigned(&chars_of(t), 65535) {
                Some(v) => {
                    config.port = v as u16;
                },
                None => {
                    return Err(ConfigError::InvalidPort);
                },
            },
            None => {},
        }
        match beatmaps_path {
            Some(b) => {
                config.beatmaps_path = b;
            },
            None => {},
        }
        match cache_size {
            Some(t) => match parse_unsigned(&chars_of(t), usize::MAX as u64) {
                Some(v) => {
                    config.cache_size = v as usize;
                },
                None => {
                    return Err(ConfigError::InvalidCacheSize);
                },
            },
            None => {},
        }
        Ok(config)
    }
}

} // verus!
