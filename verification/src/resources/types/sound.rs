use vstd::prelude::*;

verus! {

/// A sound clip on disk, decoded by the audio engine when it starts.
#[derive(Debug, Clone)]
pub struct SoundAsset {
    pub path: String,
}

} // verus!
