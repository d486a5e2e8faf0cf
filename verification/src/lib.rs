//! Verified core of an ffmpeg process driver: a cursor-based command
//! argument builder, a named duplex pipe channel, and a parser for the
//! machine-readable progress stream.

pub mod builder;
pub mod ffmpeg;
pub mod pipe;
pub mod progress;
pub mod text;

pub use builder::FFmpegBuilder;
pub use builder::IO;
pub use builder::Mode;
pub use builder::Normal;
pub use builder::StdioKind;
pub use ffmpeg::FFmpeg;
pub use ffmpeg::FFmpegDownloadProgress;
pub use pipe::Pipe;
pub use pipe::PipeStream;
pub use pipe::Piped;
pub use progress::FFmpegProgress;
pub use progress::FFmpegProgressStatus;

use vstd::prelude::*;

verus! {

/// Errors of the library's resource layer.
#[derive(Debug, Clone, Copy, PartialEq, Eq, Structural)]
pub enum FFmpegError {
    /// A channel could not be created, opened, read or written; carries
    /// the OS error number, or `0` where the OS gave none.
    IoError(i32),
    /// The external process could not be started; carries the OS error
    /// number, or `0` where the OS gave none.
    SpawnFailed(i32),
}

} // verus!
