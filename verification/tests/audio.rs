use pseudo3d::audio::api::AudioError;
use pseudo3d::audio::loops::{LoopAction, LoopTable};
use pseudo3d::audio::mixer::{MixerSnapshotId, MixerState};
use pseudo3d::audio::music::{MusicDeck, MusicPlan, MusicSlot};
use pseudo3d::resources::uid::SoundUid;

#[test]
fn mixer_snapshot_applies_and_clears() {
    let mut mixer = MixerState::default();
    assert_eq!(mixer.active_snapshot, None);
    mixer.apply_snapshot(MixerSnapshotId(3));
    assert_eq!(mixer.active_snapshot, Some(MixerSnapshotId(3)));
    mixer.apply_snapshot(MixerSnapshotId(4));
    assert_eq!(mixer.active_snapshot, Some(MixerSnapshotId(4)));
    mixer.clear_snapshot();
    assert_eq!(mixer.active_snapshot, None);
}

#[test]
fn music_slots_swap() {
    assert_eq!(MusicSlot::A.other(), MusicSlot::B);
    assert_eq!(MusicSlot::B.other(), MusicSlot::A);
    assert_eq!(MusicSlot::A.other().other(), MusicSlot::A);
}

#[test]
fn playing_without_crossfade_stops_both_and_reuses_the_active_bus() {
    let mut deck = MusicDeck::new();
    let plan = deck.play(SoundUid::new(2), true, false);
    assert_eq!(
        plan,
        MusicPlan {
            stop_all: true,
            fade_out: None,
            start_on: MusicSlot::A
        }
    );
    deck.started(plan.start_on, SoundUid::new(2));
    assert_eq!(deck.current_track(), Some(SoundUid::new(2)));
    assert!(deck.looping());
    assert_eq!(deck.clip(MusicSlot::A), Some(SoundUid::new(2)));
}

#[test]
fn crossfade_moves_the_music_to_the_other_bus() {
    let mut deck = MusicDeck::new();
    let first = deck.play(SoundUid::new(0), false, false);
    deck.started(first.start_on, SoundUid::new(0));
    let plan = deck.play(SoundUid::new(1), true, true);
    assert_eq!(
        plan,
        MusicPlan {
            stop_all: false,
            fade_out: Some(MusicSlot::A),
            start_on: MusicSlot::B
        }
    );
    deck.started(plan.start_on, SoundUid::new(1));
    assert_eq!(deck.active(), MusicSlot::B);
    assert_eq!(deck.clip(MusicSlot::A), None);
    assert_eq!(deck.clip(MusicSlot::B), Some(SoundUid::new(1)));
    assert_eq!(deck.current_track(), Some(SoundUid::new(1)));
}

#[test]
fn stopping_forgets_the_track() {
    let mut deck = MusicDeck::new();
    let plan = deck.play(SoundUid::new(5), true, false);
    deck.started(plan.start_on, SoundUid::new(5));
    assert_eq!(deck.stop(true), Some(MusicSlot::A));
    assert_eq!(deck.current_track(), None);
    assert_eq!(deck.clip(MusicSlot::A), None);

    let plan = deck.play(SoundUid::new(5), true, false);
    deck.started(plan.start_on, SoundUid::new(5));
    assert_eq!(deck.stop(false), None);
    assert_eq!(deck.clip(MusicSlot::A), None);
    assert_eq!(deck.clip(MusicSlot::B), None);
}

#[test]
fn changing_the_loop_restarts_the_active_clip() {
    let mut deck = MusicDeck::new();
    assert_eq!(deck.set_loop(true), None);
    assert!(deck.looping());
    let plan = deck.play(SoundUid::new(8), false, false);
    deck.started(plan.start_on, SoundUid::new(8));
    assert_eq!(deck.set_loop(true), Some((MusicSlot::A, SoundUid::new(8))));
    assert!(deck.looping());
    assert_eq!(deck.clip(MusicSlot::A), None);
}

#[test]
fn audio_errors_compare_by_value() {
    assert_eq!(AudioError::UnknownPreset(3), AudioError::UnknownPreset(3));
    assert_ne!(AudioError::UnknownClip, AudioError::InvalidLoopHandle);
    assert_eq!(
        AudioError::Backend("no device".to_string()),
        AudioError::Backend("no device".to_string())
    );
}

#[test]
fn loop_handles_count_up_from_one() {
    let mut table = LoopTable::new();
    assert_eq!(table.next_handle(), 1);
    assert_eq!(table.create(), 1);
    assert_eq!(table.create(), 2);
    assert!(table.contains(1) && table.contains(2) && !table.contains(3));
    assert_eq!(table.clip(1), None);
}

#[test]
fn playing_a_loop_restarts_then_updates() {
    let mut table = LoopTable::new();
    let handle = table.create();
    let steps = SoundUid::new(3);
    assert_eq!(table.play(handle, steps, false), LoopAction::Restart);
    assert_eq!(table.clip(handle), Some(steps));
    assert_eq!(table.play(handle, steps, true), LoopAction::Update);
    assert_eq!(table.play(handle, steps, false), LoopAction::Restart);
    assert_eq!(table.play(handle, SoundUid::new(4), true), LoopAction::Restart);
    assert_eq!(table.clip(handle), Some(SoundUid::new(4)));
}

#[test]
fn unknown_or_released_loop_handles_are_refused() {
    let mut table = LoopTable::new();
    assert_eq!(table.play(7, SoundUid::new(0), true), LoopAction::Invalid);
    let handle = table.create();
    assert!(table.release(handle));
    assert!(!table.release(handle));
    assert_eq!(table.play(handle, SoundUid::new(0), true), LoopAction::Invalid);
    assert_eq!(table.create(), handle + 1);
}

#[test]
fn a_stopped_loop_restarts_its_clip() {
    let mut table = LoopTable::new();
    let handle = table.create();
    assert_eq!(table.play(handle, SoundUid::new(2), false), LoopAction::Restart);
    assert!(table.stop(handle));
    assert_eq!(table.clip(handle), None);
    assert_eq!(table.play(handle, SoundUid::new(2), true), LoopAction::Restart);
    assert!(!table.stop(99));
}
