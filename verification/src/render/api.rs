use vstd::prelude::*;

verus! {

/// The size of the map texture, in cells.
#[derive(Debug, Clone, Copy)]
pub struct MapView {
    pub width: u32,
    pub height: u32,
}

} // verus!
