use vstd::prelude::*;

verus! {

/// What the game window is opened with.
#[derive(Debug, Clone)]
pub struct EngineConfig {
    pub title: String,
    pub width: u32,
    pub height: u32,
}

impl Default for EngineConfig {
    /// A 1280 by 720 window titled `pseudo3d`.
    fn default() -> (config: Self)
        ensures
            config.title@ == "pseudo3d"@,
            config.width == 1280,
            config.height == 720,
    {
        EngineConfig { title: String::from_str("pseudo3d"), width: 1280, height: 720 }
    }
}

} // verus!
