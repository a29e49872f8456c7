//! The pitch-controlled playback adapter.
//!
//! The adapter keeps a pitch factor within the allowed range and knows
//! whether the source is playing. It does not play anything itself: each
//! operation returns what the player has to do. Pitch is playback rate, so a
//! new pitch takes effect by stopping and starting the source again, from its
//! beginning, at the new rate.

use vstd::prelude::*;
use crate::commands::{command_of, KeyCommand};
use crate::config::{DEFAULT_PITCH, MAX_PITCH, MIN_PITCH};
use crate::units::{
    clamp, clamp_spec, distance_spec, farther_than, scale_spec, scale_within, ONE,
};

verus! {

/// A change of pitch of no more than this is no change.
pub const PITCH_TOLERANCE: i64 = 1_000;

/// What the player has to do after an operation.
#[derive(Debug, Clone, Copy, PartialEq, Eq, Structural)]
pub enum PlaybackAction {
    /// Leave playback as it is.
    Nothing,
    /// Start the source from its beginning at this pitch.
    Start(i64),
    /// Stop playback.
    Stop,
    /// Stop playback, then start the source from its beginning at this pitch.
    Restart(i64),
}

/// What the adapter holds.
pub struct PitchState {
    pub current_pitch: i64,
    pub is_playing: bool,
}

impl PitchState {
    /// The pitch lies within the allowed range.
    pub open spec fn valid(self) -> bool {
        MIN_PITCH <= self.current_pitch <= MAX_PITCH
    }
}

/// What follows a new pitch while the adapter is in `state`.
pub open spec fn action_on_pitch(state: PitchState, pitch: i64) -> PlaybackAction {
    if state.is_playing {
        PlaybackAction::Restart(pitch)
    } else {
        PlaybackAction::Nothing
    }
}

/// `pitch` limited to the allowed range.
pub open spec fn allowed(pitch: int) -> i64 {
    clamp_spec(pitch, MIN_PITCH as int, MAX_PITCH as int) as i64
}

/// The adapter after the pitch was set to `pitch`, and what the player does.
pub open spec fn set_pitch_spec(state: PitchState, pitch: int) -> (PitchState, PlaybackAction) {
    (
        PitchState { current_pitch: allowed(pitch), is_playing: state.is_playing },
        action_on_pitch(state, allowed(pitch)),
    )
}

/// The pitch that an adjustment by `factor` aims at.
pub open spec fn adjusted(state: PitchState, factor: int) -> i64 {
    allowed(scale_spec(state.current_pitch as int, factor))
}

/// The adapter after an adjustment by `factor`, and what the player does. An
/// adjustment that would move the pitch by no more than the tolerance does
/// nothing at all.
pub open spec fn adjust_pitch_spec(state: PitchState, factor: int) -> (PitchState, PlaybackAction) {
    if distance_spec(adjusted(state, factor) as int, state.current_pitch as int)
        <= PITCH_TOLERANCE {
        (state, PlaybackAction::Nothing)
    } else {
        set_pitch_spec(state, adjusted(state, factor) as int)
    }
}

/// The adapter after a toggle, and what the player does.
pub open spec fn toggle_spec(state: PitchState) -> (PitchState, PlaybackAction) {
    if state.is_playing {
        (PitchState { current_pitch: state.current_pitch, is_playing: false }, PlaybackAction::Stop)
    } else {
        (
            PitchState { current_pitch: state.current_pitch, is_playing: true },
            PlaybackAction::Start(state.current_pitch),
        )
    }
}

/// The adapter after a reset, and what the player does.
pub open spec fn reset_spec(state: PitchState) -> (PitchState, PlaybackAction) {
    set_pitch_spec(state, DEFAULT_PITCH as int)
}

/// The adapter after a key command, and what the player does.
pub open spec fn command_spec(state: PitchState, command: KeyCommand) -> (
    PitchState,
    PlaybackAction,
) {
    match command {
        KeyCommand::ToggleAudio => toggle_spec(state),
        KeyCommand::ResetPitch => reset_spec(state),
        KeyCommand::AdjustPitch(factor) => adjust_pitch_spec(state, factor as int),
        KeyCommand::Exit => (state, PlaybackAction::Nothing),
        KeyCommand::Unmapped => (state, PlaybackAction::Nothing),
    }
}

/// The adapter.
pub struct PitchControl {
    current_pitch: i64,
    is_playing: bool,
}

impl View for PitchControl {
    type V = PitchState;

    closed spec fn view(&self) -> PitchState {
        PitchState { current_pitch: self.current_pitch, is_playing: self.is_playing }
    }
}

impl PitchControl {
    #[verifier::type_invariant]
    closed spec fn wf(self) -> bool {
        self@.valid()
    }

    /// An adapter at the default pitch that is not playing.
    pub fn new() -> (control: Self)
        ensures
            control@ == (PitchState { current_pitch: DEFAULT_PITCH, is_playing: false }),
            control@.valid(),
    {
        PitchControl { current_pitch: DEFAULT_PITCH, is_playing: false }
    }

    /// The pitch factor in force.
    pub fn current_pitch(&self) -> (pitch: i64)
        ensures
            pitch == self@.current_pitch,
            self@.valid(),
    {
        proof {
            use_type_invariant(self);
        }
        self.current_pitch
    }

    /// Whether the source is playing.
    pub fn is_playing(&self) -> (playing: bool)
        ensures
            playing == self@.is_playing,
    {
        self.is_playing
    }

    /// Sets the pitch to `pitch`, limited to the allowed range. While playing
    /// this restarts the source at the new pitch.
    pub fn set_pitch(&mut self, pitch: i64) -> (action: PlaybackAction)
        ensures
            (final(self)@, action) == set_pitch_spec(old(self)@, pitch as int),
            final(self)@.valid(),
    {
        proof {
            use_type_invariant(&*self);
        }
        let limited: i64 = clamp(pitch, MIN_PITCH, MAX_PITCH);
        self.current_pitch = limited;
        if self.is_playing {
            PlaybackAction::Restart(limited)
        } else {
            PlaybackAction::Nothing
        }
    }

    /// Multiplies the pitch by `factor`, within the allowed range. Where that
    /// moves the pitch by no more than [`PITCH_TOLERANCE`], nothing changes
    /// and nothing is restarted.
    pub fn adjust_pitch(&mut self, factor: i64) -> (action: PlaybackAction)
        ensures
            (final(self)@, action) == adjust_pitch_spec(old(self)@, factor as int),
            final(self)@.valid(),
    {
        proof {
            use_type_invariant(&*self);
        }
        let target: i64 = scale_within(self.current_pitch, factor, MIN_PITCH, MAX_PITCH);
        if farther_than(target, self.current_pitch, PITCH_TOLERANCE) {
            self.set_pitch(target)
        } else {
            PlaybackAction::Nothing
        }
    }

    /// Starts playback if it is stopped and stops it if it is running.
    pub fn toggle(&mut self) -> (action: PlaybackAction)
        ensures
            (final(self)@, action) == toggle_spec(old(self)@),
            final(self)@.valid(),
    {
        proof {
            use_type_invariant(&*self);
        }
        if self.is_playing {
            self.is_playing = false;
            PlaybackAction::Stop
        } else {
            self.is_playing = true;
            PlaybackAction::Start(self.current_pitch)
        }
    }

    /// Sets the pitch back to the default. While playing this restarts the
    /// source at that pitch.
    pub fn reset(&mut self) -> (action: PlaybackAction)
        ensures
            (final(self)@, action) == reset_spec(old(self)@),
            final(self)@.valid(),
    {
        self.set_pitch(DEFAULT_PITCH)
    }

    /// Carries out a key command. Leaving and a key without a command change
    /// nothing here.
    pub fn apply_command(&mut self, command: KeyCommand) -> (action: PlaybackAction)
        ensures
            (final(self)@, action) == command_spec(old(self)@, command),
            final(self)@.valid(),
    {
        proof {
            use_type_invariant(&*self);
        }
        match command {
            KeyCommand::ToggleAudio => self.toggle(),
            KeyCommand::ResetPitch => self.reset(),
            KeyCommand::AdjustPitch(factor) => self.adjust_pitch(factor),
            KeyCommand::Exit => PlaybackAction::Nothing,
            KeyCommand::Unmapped => PlaybackAction::Nothing,
        }
    }
}

/// Every operation leaves the pitch within the allowed range.
pub proof fn pitch_stays_in_range(state: PitchState, command: KeyCommand, pitch: int)
    requires
        state.valid(),
    ensures
        command_spec(state, command).0.valid(),
        set_pitch_spec(state, pitch).0.valid(),
{
}

/// A pitch above the range is set to the highest pitch and one below it to
/// the lowest.
pub proof fn set_pitch_clamps(state: PitchState, pitch: int)
    ensures
        pitch >= MAX_PITCH ==> set_pitch_spec(state, pitch).0.current_pitch == MAX_PITCH,
        pitch <= MIN_PITCH ==> set_pitch_spec(state, pitch).0.current_pitch == MIN_PITCH,
        MIN_PITCH <= pitch <= MAX_PITCH ==> set_pitch_spec(state, pitch).0.current_pitch == pitch,
{
}

/// Only a toggle changes whether the source is playing.
pub proof fn only_toggle_changes_playing(state: PitchState, command: KeyCommand)
    requires
        command != KeyCommand::ToggleAudio,
    ensures
        command_spec(state, command).0.is_playing == state.is_playing,
{
}

/// A key without a command changes nothing and asks the player for nothing.
pub proof fn unmapped_key_is_idle(state: PitchState, key: int)
    requires
        key != 27,
        key != 32,
        key != 114,
        key != 43,
        key != 61,
        key != 45,
        key != 95,
    ensures
        command_of(key) == KeyCommand::Unmapped,
        command_spec(state, command_of(key)) == (state, PlaybackAction::Nothing),
{
}

/// An adjustment by a factor of one changes nothing and restarts nothing.
pub proof fn adjust_by_one_is_idle(state: PitchState)
    requires
        state.valid(),
    ensures
        adjust_pitch_spec(state, ONE as int) == (state, PlaybackAction::Nothing),
{
    assert(scale_spec(state.current_pitch as int, ONE as int) == state.current_pitch)
        by (nonlinear_arith);
}

/// An adjustment whose target lies within the tolerance of the pitch in
/// force changes nothing and restarts nothing, as at the ends of the range;
/// any other adjustment moves the pitch to its target.
pub proof fn adjust_within_tolerance_is_idle(state: PitchState, factor: int)
    ensures
        distance_spec(adjusted(state, factor) as int, state.current_pitch as int)
            <= PITCH_TOLERANCE ==> adjust_pitch_spec(state, factor) == (
            state,
            PlaybackAction::Nothing,
        ),
        distance_spec(adjusted(state, factor) as int, state.current_pitch as int)
            > PITCH_TOLERANCE ==> adjust_pitch_spec(state, factor).0.current_pitch == adjusted(
            state,
            factor,
        ),
{
}

/// Two toggles in a row leave the adapter as it was. They ask the player for
/// one start and one stop: stopped at first, the source is started and then
/// stopped, so nothing is left playing; playing at first, it is stopped and
/// then started.
pub proof fn toggle_twice_restores(state: PitchState)
    ensures
        toggle_spec(toggle_spec(state).0).0 == state,
        !state.is_playing ==> toggle_spec(state).1 == PlaybackAction::Start(state.current_pitch)
            && toggle_spec(toggle_spec(state).0).1 == PlaybackAction::Stop,
        state.is_playing ==> toggle_spec(state).1 == PlaybackAction::Stop && toggle_spec(
            toggle_spec(state).0,
        ).1 == PlaybackAction::Start(state.current_pitch),
{
}

} // verus!
