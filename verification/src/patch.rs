//! The enumerated settings of a preset patch: operator waveform and frequency
//! mode, voice filter, noise colour, chorus interval, and the vocal layer's
//! vowels and segment kinds.
use vstd::prelude::*;

verus! {

/// Operator waveform.
#[derive(Clone, Copy, Debug, PartialEq, Eq, Structural)]
pub enum Waveform {
    Sine,
    /// Positive half of a sine (TX81Z-ish). Adds DC; useful as a modulator.
    HalfSine,
    /// Full-wave rectified sine. Metallic / formant-ish.
    AbsSine,
    /// Soft square (sign of sine). Harsh, good for hits.
    Pulse,
    /// Band-limited single saw.
    Saw,
    /// About seven detuned saws summed inside one operator.
    SuperSaw,
}

impl Default for Waveform {
    fn default() -> (r: Self)
        ensures
            r == Waveform::Sine,
    {
        Waveform::Sine
    }
}

/// Whether an operator follows the note (`Ratio`) or keeps a fixed frequency.
#[derive(Clone, Copy, Debug, PartialEq, Eq, Structural)]
pub enum FreqMode {
    Ratio,
    Fixed,
}

impl Default for FreqMode {
    fn default() -> (r: Self)
        ensures
            r == FreqMode::Ratio,
    {
        FreqMode::Ratio
    }
}

/// Voice-level filter mode. One SVF, three taps (LP / BP / HP).
#[derive(Clone, Copy, Debug, PartialEq, Eq, Structural)]
pub enum FilterType {
    Lowpass,
    Bandpass,
    Highpass,
}

impl Default for FilterType {
    fn default() -> (r: Self)
        ensures
            r == FilterType::Lowpass,
    {
        FilterType::Lowpass
    }
}

/// Noise color. Not an operator waveform; a parallel source on the voice.
#[derive(Clone, Copy, Debug, PartialEq, Eq, Structural)]
pub enum NoiseColor {
    White,
    Pink,
    Brown,
}

impl Default for NoiseColor {
    fn default() -> (r: Self)
        ensures
            r == NoiseColor::White,
    {
        NoiseColor::White
    }
}

/// Pitch of the chorus voice against the dry signal.
#[derive(Clone, Copy, Debug, PartialEq, Eq, Structural)]
pub enum ChorusInterval {
    Unison,
    OctaveUp,
    OctaveDown,
    Fifth,
    Fourth,
}

impl Default for ChorusInterval {
    fn default() -> (r: Self)
        ensures
            r == ChorusInterval::Unison,
    {
        ChorusInterval::Unison
    }
}

/// Peterson-Barney female vowels. Absolute Hz; does not follow note pitch.
#[derive(Clone, Copy, Debug, PartialEq, Eq, Structural)]
pub enum Vowel {
    A,
    E,
    I,
    O,
    U,
}

impl Default for Vowel {
    fn default() -> (r: Self)
        ensures
            r == Vowel::A,
    {
        Vowel::A
    }
}

/// Kind of one segment of a vocal phrase.
#[derive(Clone, Copy, Debug, PartialEq, Eq, Structural)]
pub enum SegmentKind {
    Vowel,
    Plosive,
    Fricative,
    Breath,
    Nasal,
    /// Alveolar tap (Japanese ら). Voiced throughout; brief amplitude dip.
    Flap,
}

impl Default for SegmentKind {
    fn default() -> (r: Self)
        ensures
            r == SegmentKind::Vowel,
    {
        SegmentKind::Vowel
    }
}

} // verus!
