//! The verified core of a live transcriber: audio of a stream is cut into
//! windows, a detector gathers the windows that hold speech into segments,
//! and the text recognised in a segment is cleaned and stamped with its
//! time in the stream.
//!
//! Everything here is decided on plain values. Reading the stream, decoding
//! it, and running the detector and recogniser models is left to the
//! program around this library, which hands in what those steps returned.

pub mod audio;
pub mod pipeline;
pub mod pipeline_laws;
pub mod ring;
pub mod speech;
pub mod speech_laws;
pub mod text;
pub mod util;
pub mod vad;
pub mod zh;
