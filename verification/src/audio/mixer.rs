use vstd::prelude::*;

verus! {

/// Names a mixer snapshot (a stored set of mixer settings).
#[derive(Debug, Clone, Copy, PartialEq, Eq, Hash, Structural)]
pub struct MixerSnapshotId(pub u32);

/// The mixer's state: which snapshot is applied, if any.
#[derive(Debug)]
pub struct MixerState {
    pub active_snapshot: Option<MixerSnapshotId>,
}

impl Default for MixerState {
    fn default() -> (state: Self)
        ensures
            state.active_snapshot is None,
    {
        MixerState { active_snapshot: None }
    }
}

impl MixerState {
    /// Makes `id` the active snapshot, in place of any other.
    pub fn apply_snapshot(&mut self, id: MixerSnapshotId)
        ensures
            final(self).active_snapshot == Some(id),
    {
        self.active_snapshot = Some(id);
    }

    /// Leaves no snapshot active.
    pub fn clear_snapshot(&mut self)
        ensures
            final(self).active_snapshot is None,
    {
        self.active_snapshot = None;
    }
}

} // verus!
