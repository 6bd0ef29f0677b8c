//! Multi-tenant dice rolling.
//!
//! - [`dice_types`]: the syntax tree of roll expressions and its rendering;
//!   [`parser`] reads it back, and [`roundtrip`] proves that a parsed
//!   expression re-parses from its rendering.
//! - [`evaluate`]: what an expression rolls, against any [`evaluate::RollSource`];
//!   [`roller`] has the seeded source used for real rolls. [`limits`] gives
//!   the range of totals of some dice.
//! - [`codec`]: the stored form of expressions, proved to read back.
//! - [`config`], [`entry`], [`storage`]: per-tenant configuration, the
//!   operations on it, and the storage actor that caches it, queues operations
//!   during loads and writes changes back.
//! - [`commands`], [`dispatch`]: the commands of a chat message and what the
//!   service does with each. [`settings`] reads the service's settings.
//! - [`laws`]: properties that relate several of the above.

pub mod codec;
pub mod commands;
pub mod config;
pub mod dice_types;
pub mod dispatch;
pub mod entry;
pub mod evaluate;
pub mod laws;
pub mod limits;
pub mod parser;
pub mod roller;
pub mod roundtrip;
pub mod settings;
pub mod storage;
pub mod text;
