use vstd::prelude::*;

verus! {

/// How many one-shot sounds may play at once.
pub const ONE_SHOT_POOL_SIZE: usize = 12;

/// Names a looping sound channel of the audio engine.
pub type LoopHandle = u64;

/// Why the audio engine could not do what it was asked.
#[derive(Debug, Clone, PartialEq, Eq)]
pub enum AudioError {
    /// The audio backend failed, with its message.
    Backend(String),
    /// A sound preset names a clip that the manifest does not have.
    UnknownClip,
    /// No sound preset has this index.
    UnknownPreset(u32),
    /// No loop channel has this handle.
    InvalidLoopHandle,
}

} // verus!
