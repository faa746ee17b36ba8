use vstd::prelude::*;

verus! {

/// The sources of one shader program.
#[derive(Debug, Clone)]
pub struct ShaderAsset {
    pub vertex: String,
    pub fragment: String,
}

} // verus!
