//! Waveform kinds: the periodic shapes the oscillator tables hold, and the
//! spellings the composition script accepts for them.

use crate::text::{chars_eq_str, chars_of, lower_seq, string_of, to_lower_chars};
use vstd::prelude::*;

verus! {

/// A waveform the oscillator can produce.
#[derive(Clone, Copy, Debug, PartialEq, Eq, Structural)]
pub enum Waveform {
    GaussianNoise,
    Saw,
    Sine,
    Square,
    Triangle,
    Noise,
}

/// The number under which a waveform is stored in the shared state's
/// word-sized cell.
pub open spec fn waveform_code_spec(w: Waveform) -> int {
    match w {
        Waveform::GaussianNoise => 0,
        Waveform::Saw => 1,
        Waveform::Sine => 2,
        Waveform::Square => 3,
        Waveform::Triangle => 4,
        Waveform::Noise => 5,
    }
}

/// The waveform a stored number names; unknown numbers read as a sine.
pub open spec fn waveform_from_code_spec(c: int) -> Waveform {
    if c == 0 {
        Waveform::GaussianNoise
    } else if c == 1 {
        Waveform::Saw
    } else if c == 2 {
        Waveform::Sine
    } else if c == 3 {
        Waveform::Square
    } else if c == 4 {
        Waveform::Triangle
    } else {
        Waveform::Sine
    }
}

/// The number under which the waveform travels through the shared state.
pub fn waveform_code(w: Waveform) -> (r: u32)
    ensures
        r == waveform_code_spec(w),
{
    match w {
        Waveform::GaussianNoise => 0,
        Waveform::Saw => 1,
        Waveform::Sine => 2,
        Waveform::Square => 3,
        Waveform::Triangle => 4,
        Waveform::Noise => 5,
    }
}

/// The waveform stored under a number; unknown numbers read as a sine.
pub fn waveform_from_code(c: u32) -> (r: Waveform)
    ensures
        r == waveform_from_code_spec(c as int),
{
    match c {
        0 => Waveform::GaussianNoise,
        1 => Waveform::Saw,
        2 => Waveform::Sine,
        3 => Waveform::Square,
        4 => Waveform::Triangle,
        _ => Waveform::Sine,
    }
}

/// A waveform spelling read from a composition script.
#[derive(Clone, Copy, Debug, PartialEq, Eq, Structural)]
pub enum WaveformType {
    Sine,
    Sin,
    Square,
    Sqr,
    Triangle,
    Tri,
    Sawtooth,
    Saw,
    GaussianNoise,
    Noise,
}

/// The waveform kind that a lowered spelling names, if any; the short and
/// long spellings name the same kind.
pub open spec fn waveform_type_of(ls: Seq<char>) -> Option<WaveformType> {
    if ls == "sine"@ || ls == "sin"@ {
        Some(WaveformType::Sine)
    } else if ls == "square"@ || ls == "sqr"@ {
        Some(WaveformType::Square)
    } else if ls == "triangle"@ || ls == "tri"@ {
        Some(WaveformType::Triangle)
    } else if ls == "sawtooth"@ || ls == "saw"@ {
        Some(WaveformType::Sawtooth)
    } else if ls == "gaussiannoise"@ || ls == "noise"@ {
        Some(WaveformType::GaussianNoise)
    } else {
        None
    }
}

/// The oscillator waveform for each accepted spelling.
pub open spec fn waveform_of_type(t: WaveformType) -> Waveform {
    match t {
        WaveformType::Sine => Waveform::Sine,
        WaveformType::Sin => Waveform::Sine,
        WaveformType::Square => Waveform::Square,
        WaveformType::Sqr => Waveform::Square,
        WaveformType::Triangle => Waveform::Triangle,
        WaveformType::Tri => Waveform::Triangle,
        WaveformType::Sawtooth => Waveform::Saw,
        WaveformType::Saw => Waveform::Saw,
        WaveformType::GaussianNoise => Waveform::GaussianNoise,
        WaveformType::Noise => Waveform::GaussianNoise,
    }
}

impl WaveformType {
    /// Reads a waveform name, ignoring letter case; rejects anything else
    /// with a message that names the offending word.
    pub fn from_str(s: &str) -> (r: Result<WaveformType, String>)
        ensures
            match r {
                Ok(w) => waveform_type_of(lower_seq(s@)) == Some(w),
                Err(m) => waveform_type_of(lower_seq(s@)) is None && m@ == "Unknown waveform: "@
                    + s@,
            },
    {
        let cs = chars_of(s);
        let low = to_lower_chars(&cs);
        if chars_eq_str(&low, "sine") || chars_eq_str(&low, "sin") {
            Ok(WaveformType::Sine)
        } else if chars_eq_str(&low, "square") || chars_eq_str(&low, "sqr") {
            Ok(WaveformType::Square)
        } else if chars_eq_str(&low, "triangle") || chars_eq_str(&low, "tri") {
            Ok(WaveformType::Triangle)
        } else if chars_eq_str(&low, "sawtooth") || chars_eq_str(&low, "saw") {
            Ok(WaveformType::Sawtooth)
        } else if chars_eq_str(&low, "gaussiannoise") || chars_eq_str(&low, "noise") {
            Ok(WaveformType::GaussianNoise)
        } else {
            let mut msg = chars_of("Unknown waveform: ");
            let orig = chars_of(s);
            crate::text::append_chars(&mut msg, &orig);
            Err(string_of(&msg))
        }
    }

    /// The oscillator waveform this spelling names.
    pub fn to_waveform(&self) -> (r: Waveform)
        ensures
            r == waveform_of_type(*self),
    {
        match self {
            WaveformType::Sine => Waveform::Sine,
            WaveformType::Sin => Waveform::Sine,
            WaveformType::Square => Waveform::Square,
            WaveformType::Sqr => Waveform::Square,
            WaveformType::Triangle => Waveform::Triangle,
            WaveformType::Tri => Waveform::Triangle,
            WaveformType::Sawtooth => Waveform::Saw,
            WaveformType::Saw => Waveform::Saw,
            WaveformType::GaussianNoise => Waveform::GaussianNoise,
            WaveformType::Noise => Waveform::GaussianNoise,
        }
    }
}

} // verus!
