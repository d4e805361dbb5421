//! The sound-playback command: its sound sources, the shape of its
//! arguments, and how the number of players who heard the sound becomes the
//! command's feedback and result.

use vstd::prelude::*;

verus! {

/// The category a sound plays in.
#[derive(Clone, Copy, PartialEq, Eq, Structural, Debug)]
pub enum SoundSource {
    Master,
    Music,
    Records,
    Weather,
    Blocks,
    Hostile,
    Neutral,
    Players,
    Ambient,
    Voice,
    Ui,
}

/// The sound sources, in the order the command lists them.
pub const SOUND_SOURCES: [SoundSource; 11] = [
    SoundSource::Master,
    SoundSource::Music,
    SoundSource::Records,
    SoundSource::Weather,
    SoundSource::Blocks,
    SoundSource::Hostile,
    SoundSource::Neutral,
    SoundSource::Players,
    SoundSource::Ambient,
    SoundSource::Voice,
    SoundSource::Ui,
];

impl SoundSource {
    /// The literal that selects this source in the command.
    pub open spec fn spec_name(self) -> Seq<char> {
        match self {
            SoundSource::Master => "master"@,
            SoundSource::Music => "music"@,
            SoundSource::Records => "record"@,
            SoundSource::Weather => "weather"@,
            SoundSource::Blocks => "block"@,
            SoundSource::Hostile => "hostile"@,
            SoundSource::Neutral => "neutral"@,
            SoundSource::Players => "player"@,
            SoundSource::Ambient => "ambient"@,
            SoundSource::Voice => "voice"@,
            SoundSource::Ui => "ui"@,
        }
    }

    pub fn name(self) -> (r: &'static str)
        ensures
            r@ == self.spec_name(),
    {
        match self {
            SoundSource::Master => "master",
            SoundSource::Music => "music",
            SoundSource::Records => "record",
            SoundSource::Weather => "weather",
            SoundSource::Blocks => "block",
            SoundSource::Hostile => "hostile",
            SoundSource::Neutral => "neutral",
            SoundSource::Players => "player",
            SoundSource::Ambient => "ambient",
            SoundSource::Voice => "voice",
            SoundSource::Ui => "ui",
        }
    }
}

/// The arguments that follow a sound source, each optional from its
/// position on: targets, position, volume, pitch and minimum volume.
pub fn source_argument_names() -> (r: [&'static str; 5])
    ensures
        r@.len() == 5,
        r@[0]@ == "targets"@,
        r@[1]@ == "pos"@,
        r@[2]@ == "volume"@,
        r@[3]@ == "pitch"@,
        r@[4]@ == "minVolume"@,
{
    ["targets", "pos", "volume", "pitch", "minVolume"]
}

/// Which success message the command sends.
#[derive(Clone, Copy, PartialEq, Eq, Structural, Debug)]
pub enum PlaySoundFeedback {
    /// Names the one player who heard the sound.
    Single,
    /// Gives the number of players who heard it.
    Multiple,
}

impl PlaySoundFeedback {
    pub fn translation_key(self) -> (r: &'static str)
        ensures
            r@ == match self {
                PlaySoundFeedback::Single => "commands.playsound.success.single"@,
                PlaySoundFeedback::Multiple => "commands.playsound.success.multiple"@,
            },
    {
        match self {
            PlaySoundFeedback::Single => "commands.playsound.success.single",
            PlaySoundFeedback::Multiple => "commands.playsound.success.multiple",
        }
    }
}

/// Why the command failed.
#[derive(Clone, Copy, PartialEq, Eq, Structural, Debug)]
pub enum PlaySoundError {
    /// Nobody heard the sound (`commands.playsound.failed`).
    Failed,
    /// More players heard it than the command result can count.
    CountOutOfRange,
}

/// The feedback and result once the sound played for `played_for` players:
/// nobody is a failure with no feedback; one player gets the single message;
/// more get the multiple message. The result is the count, which must fit
/// the command result's range.
pub fn playsound_result(played_for: usize) -> (r: (Option<PlaySoundFeedback>, Result<i32, PlaySoundError>))
    ensures
        played_for == 0 ==> r == (None::<PlaySoundFeedback>, Err::<i32, PlaySoundError>(PlaySoundError::Failed)),
        played_for == 1 ==> r == (Some(PlaySoundFeedback::Single), Ok::<i32, PlaySoundError>(1)),
        played_for > 1 ==> r.0 == Some(PlaySoundFeedback::Multiple),
        played_for > 1 && played_for <= i32::MAX ==> r.1 == Ok::<i32, PlaySoundError>(played_for as i32),
        played_for > i32::MAX ==> r.1 == Err::<i32, PlaySoundError>(PlaySoundError::CountOutOfRange),
{
    if played_for == 0 {
        return (None, Err(PlaySoundError::Failed));
    }
    let feedback = if played_for == 1 { PlaySoundFeedback::Single } else { PlaySoundFeedback::Multiple };
    let max = i32::MAX as usize;
    if played_for <= max {
        (Some(feedback), Ok(played_for as i32))
    } else {
        (Some(feedback), Err(PlaySoundError::CountOutOfRange))
    }
}

} // verus!
