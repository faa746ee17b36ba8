use vstd::prelude::*;

use crate::resources::uid::SoundUid;

verus! {

/// One of the two music buses that a crossfade alternates between.
#[derive(Debug, Clone, Copy, PartialEq, Eq, Structural)]
pub enum MusicSlot {
    A,
    B,
}

/// The slot that is not `slot`.
pub open spec fn other_slot(slot: MusicSlot) -> MusicSlot {
    match slot {
        MusicSlot::A => MusicSlot::B,
        MusicSlot::B => MusicSlot::A,
    }
}

impl MusicSlot {
    /// The other slot: where the next track fades in while this one fades out.
    pub fn other(self) -> (slot: Self)
        ensures
            slot == other_slot(self),
    {
        match self {
            Self::A => Self::B,
            Self::B => Self::A,
        }
    }
}

/// The two slots swap: the other of the other is the slot itself, and no slot
/// is its own other.
pub proof fn law_other_slot_swaps(slot: MusicSlot)
    ensures
        other_slot(other_slot(slot)) == slot,
        other_slot(slot) != slot,
{
}

/// Once a requested track has started, it is the current track and the
/// active bus plays it, alone; a crossfade moved the music to the other bus,
/// and a plain play left it on the same one.
pub proof fn law_play_then_started(state: DeckState, clip: SoundUid, looping: bool, crossfade: bool)
    ensures
        ({
            let after = after_play(state, clip, looping, crossfade);
            let playing = with_slot_clip(after, after.active, Some(clip));
            &&& playing.current_track == Some(clip)
            &&& playing.looping == looping
            &&& slot_clip(playing, playing.active) == Some(clip)
            &&& slot_clip(playing, other_slot(playing.active)) is None
            &&& playing.active == if crossfade {
                other_slot(state.active)
            } else {
                state.active
            }
        }),
{
}

/// What the audio engine must do to the music buses: stop both at once before
/// the new track starts, or fade `fade_out` out while it starts; the new track
/// starts on `start_on`.
#[derive(Debug, Clone, Copy, PartialEq, Eq, Structural)]
pub struct MusicPlan {
    pub stop_all: bool,
    pub fade_out: Option<MusicSlot>,
    pub start_on: MusicSlot,
}

/// The bookkeeping of the two music buses: which one is heard, which clip each
/// one plays, the track last asked for and whether it loops. The audio engine
/// holds the playing sounds; this decides what becomes of them.
#[derive(Debug)]
pub struct MusicDeck {
    active: MusicSlot,
    current_track: Option<SoundUid>,
    looping: bool,
    clip_a: Option<SoundUid>,
    clip_b: Option<SoundUid>,
}

/// The abstract state of a [`MusicDeck`].
pub struct DeckState {
    pub active: MusicSlot,
    pub current_track: Option<SoundUid>,
    pub looping: bool,
    pub clip_a: Option<SoundUid>,
    pub clip_b: Option<SoundUid>,
}

/// The clip that `slot` plays in `state`.
pub open spec fn slot_clip(state: DeckState, slot: MusicSlot) -> Option<SoundUid> {
    match slot {
        MusicSlot::A => state.clip_a,
        MusicSlot::B => state.clip_b,
    }
}

/// `state` with `slot` playing `clip`.
pub open spec fn with_slot_clip(state: DeckState, slot: MusicSlot, clip: Option<SoundUid>) -> DeckState {
    match slot {
        MusicSlot::A => DeckState { clip_a: clip, ..state },
        MusicSlot::B => DeckState { clip_b: clip, ..state },
    }
}

/// The state after a request to play `clip`: without a crossfade both buses
/// stop and the active one will play it; with one, the active bus fades out
/// and the other becomes active and will play it.
pub open spec fn after_play(state: DeckState, clip: SoundUid, looping: bool, crossfade: bool) -> DeckState {
    if crossfade {
        DeckState {
            active: other_slot(state.active),
            current_track: Some(clip),
            looping,
            clip_a: None,
            clip_b: None,
        }
    } else {
        DeckState {
            active: state.active,
            current_track: Some(clip),
            looping,
            clip_a: None,
            clip_b: None,
        }
    }
}

impl View for MusicDeck {
    type V = DeckState;

    closed spec fn view(&self) -> DeckState {
        DeckState {
            active: self.active,
            current_track: self.current_track,
            looping: self.looping,
            clip_a: self.clip_a,
            clip_b: self.clip_b,
        }
    }
}

impl MusicDeck {
    /// Nothing plays; bus A is active.
    pub fn new() -> (deck: Self)
        ensures
            deck@ == (DeckState {
                active: MusicSlot::A,
                current_track: None,
                looping: false,
                clip_a: None,
                clip_b: None,
            }),
    {
        MusicDeck {
            active: MusicSlot::A,
            current_track: None,
            looping: false,
            clip_a: None,
            clip_b: None,
        }
    }

    /// The bus that is heard.
    pub fn active(&self) -> (slot: MusicSlot)
        ensures
            slot == self@.active,
    {
        self.active
    }

    /// The track last asked for, while it has not been stopped.
    pub fn current_track(&self) -> (track: Option<SoundUid>)
        ensures
            track == self@.current_track,
    {
        self.current_track
    }

    /// Whether the current track loops.
    pub fn looping(&self) -> (looping: bool)
        ensures
            looping == self@.looping,
    {
        self.looping
    }

    /// The clip that `slot` plays.
    pub fn clip(&self, slot: MusicSlot) -> (clip: Option<SoundUid>)
        ensures
            clip == slot_clip(self@, slot),
    {
        match slot {
            MusicSlot::A => self.clip_a,
            MusicSlot::B => self.clip_b,
        }
    }

    /// Starts playing `clip`, with a crossfade or at once, and says what the
    /// engine must do. Once the engine has started the sound it reports it with
    /// [`MusicDeck::started`].
    pub fn play(&mut self, clip: SoundUid, looping: bool, crossfade: bool) -> (plan: MusicPlan)
        ensures
            final(self)@ == after_play(old(self)@, clip, looping, crossfade),
            plan == (if crossfade {
                MusicPlan {
                    stop_all: false,
                    fade_out: Some(old(self)@.active),
                    start_on: other_slot(old(self)@.active),
                }
            } else {
                MusicPlan { stop_all: true, fade_out: None, start_on: old(self)@.active }
            }),
            plan.start_on == final(self)@.active,
    {
        let plan = if crossfade {
            let target = self.active.other();
            let plan = MusicPlan { stop_all: false, fade_out: Some(self.active), start_on: target };
            self.active = target;
            plan
        } else {
            MusicPlan { stop_all: true, fade_out: None, start_on: self.active }
        };
        self.clip_a = None;
        self.clip_b = None;
        self.current_track = Some(clip);
        self.looping = looping;
        plan
    }

    /// Records that `slot` now plays `clip`.
    pub fn started(&mut self, slot: MusicSlot, clip: SoundUid)
        ensures
            final(self)@ == with_slot_clip(old(self)@, slot, Some(clip)),
    {
        match slot {
            MusicSlot::A => self.clip_a = Some(clip),
            MusicSlot::B => self.clip_b = Some(clip),
        }
    }

    /// Stops the music: both buses at once without a fade, else the active bus
    /// fades out. Returns the bus to fade out, if any.
    pub fn stop(&mut self, fade: bool) -> (fade_out: Option<MusicSlot>)
        ensures
            fade_out == (if fade {
                Some(old(self)@.active)
            } else {
                None
            }),
            final(self)@ == (if fade {
                with_slot_clip(
                    DeckState { current_track: None, ..old(self)@ },
                    old(self)@.active,
                    None,
                )
            } else {
                DeckState { current_track: None, clip_a: None, clip_b: None, ..old(self)@ }
            }),
    {
        self.current_track = None;
        if fade {
            let slot = self.active;
            match slot {
                MusicSlot::A => self.clip_a = None,
                MusicSlot::B => self.clip_b = None,
            }
            Some(slot)
        } else {
            self.clip_a = None;
            self.clip_b = None;
            None
        }
    }

    /// Turns looping on or off. Where the active bus plays a clip, that clip
    /// must be restarted on the same bus, and it is returned; the engine
    /// reports the restart with [`MusicDeck::started`].
    pub fn set_loop(&mut self, on: bool) -> (restart: Option<(MusicSlot, SoundUid)>)
        ensures
            restart == (match slot_clip(old(self)@, old(self)@.active) {
                Some(clip) => Some((old(self)@.active, clip)),
                None => None,
            }),
            final(self)@ == with_slot_clip(
                DeckState { looping: on, ..old(self)@ },
                old(self)@.active,
                None,
            ),
    {
        self.looping = on;
        let slot = self.active;
        let clip = self.clip(slot);
        match slot {
            MusicSlot::A => self.clip_a = None,
            MusicSlot::B => self.clip_b = None,
        }
        match clip {
            Some(clip) => Some((slot, clip)),
            None => None,
        }
    }
}

} // verus!
