//! Options shared with the command-line shell.

use vstd::prelude::*;

verus! {

/// What the shell does with a parsed song.
#[derive(Debug, Copy, Clone, PartialEq, Eq, Structural)]
pub enum FileFormat {
    /// Write raw PCM samples.
    Raw,
    /// Write a WAV file.
    Wav,
    /// Play to the speakers.
    Play,
}

} // verus!
