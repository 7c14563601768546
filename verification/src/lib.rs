//! Turns a video file into a standalone executable that replays it.
//!
//! The library holds the verified core of the converter: the incremental
//! generator for the embedded C translation unit (`codegen`), the decimal
//! lookup table backing it (`lut`), the command-line size parser (`options`),
//! the decision logic of the two media pipelines (`video`, `audio`), and the
//! small computations of the build orchestrator (`pipeline`). Everything that
//! talks to the media-codec library, the file system or the compiler lives in
//! the surrounding application, which drives these state machines.

pub mod audio;
pub mod codegen;
pub mod lut;
pub mod options;
pub mod pipeline;
pub mod video;
