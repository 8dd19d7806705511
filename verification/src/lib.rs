//! A file-backed logging sink that rotates its file by size and by the
//! clock, compresses what it rolls aside, and prunes old rolled files by
//! count or by age.
//!
//! The library decides; it never touches the file system. `builder`
//! gathers a configuration, `Builder::finish` makes the sink, and the
//! sink says for every record whether it is written, as which line, and
//! what becomes of the file before.
use vstd::prelude::*;
use crate::builder::{Builder, NoFilePath, NoMaxSize, NoMinSize, RotationRemove, RotationTime};
use crate::level::Level;

pub mod builder;
pub mod clock;
pub mod error;
pub mod gzip;
pub mod level;
pub mod logger;
pub mod path;
pub mod record;
pub mod retention;
pub mod text;

verus! {

/// A builder with the defaults: every record passes, the sink never
/// rotates by the clock, rolls nothing aside and compresses nothing.
pub fn builder() -> (builder: Builder<NoFilePath, NoMaxSize, NoMinSize>)
    ensures
        builder.log_level == Level::Trace,
        builder.rotation_time == RotationTime::Never,
        !builder.compress,
        !builder.delay_compress,
        builder.rotation_remove == RotationRemove::ByCount(0),
{
    let file_path = NoFilePath;
    let max_size = NoMaxSize;
    let min_size = NoMinSize;
    let rotation_remove = RotationRemove::ByCount(0);
    let builder = Builder {
        log_level: Level::Trace,
        file_path,
        rotation_time: RotationTime::Never,
        max_size,
        min_size,
        compress: false,
        delay_compress: false,
        rotation_remove,
    };
    builder
}

} // verus!
