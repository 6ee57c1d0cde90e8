use vstd::prelude::*;

verus! {

/// The playback state of the looping background sound.
#[derive(Clone, Copy, Debug, PartialEq, Eq, Structural)]
pub enum Playback {
    Playing,
    Paused,
    /// Any other state (stopped, still queued, fading).
    Other,
}

/// What to do to the background sound this frame.
#[derive(Clone, Copy, Debug, PartialEq, Eq, Structural)]
pub enum SoundCommand {
    Resume,
    Pause,
    Keep,
}

/// The sound plays while an action is in progress and pauses otherwise.
pub fn control_flying_sound(state: Playback, performing: bool) -> (r: SoundCommand)
    ensures
        r == (if state == Playback::Paused && performing {
            SoundCommand::Resume
        } else if state == Playback::Playing && !performing {
            SoundCommand::Pause
        } else {
            SoundCommand::Keep
        }),
{
    match state {
        Playback::Paused => if performing {
            SoundCommand::Resume
        } else {
            SoundCommand::Keep
        },
        Playback::Playing => if !performing {
            SoundCommand::Pause
        } else {
            SoundCommand::Keep
        },
        Playback::Other => SoundCommand::Keep,
    }
}

} // verus!
