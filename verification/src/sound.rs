//! The sound events the game emits and the audio file each plays.
//! Playback itself is left to the audio layer around the library.

use vstd::prelude::*;

verus! {

/// The three sound cues of a session.
#[derive(Clone, Copy, Debug, PartialEq, Eq, Hash, Structural)]
pub enum Sound {
    Eat,
    Start,
    GameOver,
}

/// Path of the audio file played for a cue; every cue currently shares
/// the one file.
pub open spec fn spec_sound_file(s: Sound) -> Seq<char> {
    match s {
        Sound::Eat => "resources/eat.ogg"@,
        Sound::Start => "resources/eat.ogg"@,
        Sound::GameOver => "resources/eat.ogg"@,
    }
}

impl Sound {
    /// The audio file to play for this cue.
    pub fn file(&self) -> (r: String)
        ensures
            r@ == spec_sound_file(*self),
    {
        match self {
            Sound::Eat => "resources/eat.ogg".to_string(),
            Sound::Start => "resources/eat.ogg".to_string(),
            Sound::GameOver => "resources/eat.ogg".to_string(),
        }
    }
}

} // verus!
