use vstd::prelude::*;

verus! {

/// Why a refresh of the sound block failed.
#[derive(Debug, Clone, Copy, PartialEq, Eq, Structural)]
pub enum SoundError {
    /// The mixer query tool could not be run.
    MixerUnavailable,
    /// The mixer query printed nothing but whitespace.
    NoOutput,
    /// The last line of the mixer output holds no bracketed level token.
    NoVolume,
    /// The first bracketed level token is not an unsigned 32-bit number.
    BadVolume,
    /// The configured icon set has no icon for the muted state.
    MissingIcon,
}

/// A short description of the step that failed.
pub open spec fn error_message(e: SoundError) -> Seq<char> {
    match e {
        SoundError::MixerUnavailable => "could not run amixer to get sound info"@,
        SoundError::NoOutput => "could not get sound info"@,
        SoundError::NoVolume => "could not get volume"@,
        SoundError::BadVolume => "could not parse volume to u32"@,
        SoundError::MissingIcon => "cannot find icon"@,
    }
}

impl SoundError {
    /// A short description of the step that failed.
    pub fn message(&self) -> (r: &'static str)
        ensures
            r@ == error_message(*self),
    {
        proof {
            reveal_strlit("could not run amixer to get sound info");
            reveal_strlit("could not get sound info");
            reveal_strlit("could not get volume");
            reveal_strlit("could not parse volume to u32");
            reveal_strlit("cannot find icon");
        }
        match self {
            SoundError::MixerUnavailable => "could not run amixer to get sound info",
            SoundError::NoOutput => "could not get sound info",
            SoundError::NoVolume => "could not get volume",
            SoundError::BadVolume => "could not parse volume to u32",
            SoundError::MissingIcon => "cannot find icon",
        }
    }
}

} // verus!
