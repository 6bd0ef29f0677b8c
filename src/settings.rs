//! Service settings as read from the configuration file: each key keeps its
//! value when it holds a usable one, and takes its default otherwise, in which
//! case the file is rewritten with the default.

use vstd::prelude::*;

verus! {

pub const DEFAULT_DB_QUEUE_SIZE: u64 = 64;
pub const DEFAULT_ROLL_TIMEOUT_MS: u64 = 2000;
pub const DEFAULT_RNG_RESEED_S: u64 = 300;
pub const DEFAULT_RNG_WORKERS: u64 = 4;
pub const DEFAULT_QUEUE_SIZE: u64 = 64;
pub const DEFAULT_CACHE_SIZE: u64 = 1024;

/// One setting: its value, and whether the file needs the default written.
#[derive(Debug, Clone, Copy, PartialEq, Eq, Structural)]
pub struct Setting {
    pub value: u64,
    pub rewrite: bool,
}

/// The value found when it is an integer from 0 to `max`, else the default.
pub open spec fn setting_of(found: Option<i64>, default: u64, max: u64) -> Setting {
    match found {
        Some(v) => if 0 <= v <= max {
            Setting { value: v as u64, rewrite: false }
        } else {
            Setting { value: default, rewrite: true }
        },
        None => Setting { value: default, rewrite: true },
    }
}

pub fn read_setting(found: Option<i64>, default: u64, max: u64) -> (r: Setting)
    ensures
        r == setting_of(found, default, max),
{
    match found {
        Some(v) => {
            if 0 <= v && v as u64 <= max {
                Setting { value: v as u64, rewrite: false }
            } else {
                Setting { value: default, rewrite: true }
            }
        },
        None => Setting { value: default, rewrite: true },
    }
}

/// The global settings.
pub struct Settings {
    pub db_queue_size: Setting,
    pub roll_timeout_ms: Setting,
    pub rng_reseed_s: Setting,
    pub rng_workers: Setting,
}

impl Settings {
    /// Settings from the values under `db_queue_size`, `roll_timeout_ms`,
    /// `rng_reseed_s` and `rng_workers`.
    pub fn from_values(
        db_queue_size: Option<i64>,
        roll_timeout_ms: Option<i64>,
        rng_reseed_s: Option<i64>,
        rng_workers: Option<i64>,
    ) -> (r: Settings)
        ensures
            r.db_queue_size == setting_of(db_queue_size, 64, usize::MAX as u64),
            r.roll_timeout_ms == setting_of(roll_timeout_ms, 2000, u64::MAX),
            r.rng_reseed_s == setting_of(rng_reseed_s, 300, u64::MAX),
            r.rng_workers == setting_of(rng_workers, 4, u32::MAX as u64),
    {
        Settings {
            db_queue_size: read_setting(db_queue_size, DEFAULT_DB_QUEUE_SIZE, usize::MAX as u64),
            roll_timeout_ms: read_setting(roll_timeout_ms, DEFAULT_ROLL_TIMEOUT_MS, u64::MAX),
            rng_reseed_s: read_setting(rng_reseed_s, DEFAULT_RNG_RESEED_S, u64::MAX),
            rng_workers: read_setting(rng_workers, DEFAULT_RNG_WORKERS, u32::MAX as u64),
        }
    }
}

/// The settings of one client type.
pub struct ClientUtilsConfig {
    pub channel_size: usize,
    pub cache_size: usize,
    pub client_type: String,
}

impl ClientUtilsConfig {
    /// Settings of a client type from the values under its `queue_size` and
    /// `cache_size`; the flags tell which of the two take their default.
    pub fn from_values(client_type: String, queue_size: Option<i64>, cache_size: Option<i64>) -> (r: (
        ClientUtilsConfig,
        bool,
        bool,
    ))
        ensures
            r.0.client_type == client_type,
            setting_of(queue_size, 64, usize::MAX as u64) == (Setting {
                value: r.0.channel_size as u64,
                rewrite: r.1,
            }),
            setting_of(cache_size, 1024, usize::MAX as u64) == (Setting {
                value: r.0.cache_size as u64,
                rewrite: r.2,
            }),
    {
        let q = read_setting(queue_size, DEFAULT_QUEUE_SIZE, usize::MAX as u64);
        let c = read_setting(cache_size, DEFAULT_CACHE_SIZE, usize::MAX as u64);
        (
            ClientUtilsConfig {
                channel_size: q.value as usize,
                cache_size: c.value as usize,
                client_type,
            },
            q.rewrite,
            c.rewrite,
        )
    }
}

} // verus!
