//! Note duration kinds and the fraction of a beat each one lasts.

use crate::text::{chars_eq_str, chars_of, string_of};
use vstd::prelude::*;

verus! {

/// A note length relative to a quarter-note beat.
#[derive(Clone, Copy, Debug, PartialEq, Eq, Structural)]
pub enum DurationType {
    Whole,
    Half,
    Quarter,
    Eighth,
    Sixteenth,
    ThirtySecond,
    SixtyFourth,
}

/// The duration kind a spelling names, if any.
pub open spec fn duration_type_of(s: Seq<char>) -> Option<DurationType> {
    if s == "Whole"@ {
        Some(DurationType::Whole)
    } else if s == "Half"@ {
        Some(DurationType::Half)
    } else if s == "Quarter"@ {
        Some(DurationType::Quarter)
    } else if s == "Eighth"@ {
        Some(DurationType::Eighth)
    } else if s == "Sixteenth"@ {
        Some(DurationType::Sixteenth)
    } else if s == "ThirtySecond"@ {
        Some(DurationType::ThirtySecond)
    } else if s == "SixtyFourth"@ {
        Some(DurationType::SixtyFourth)
    } else {
        None
    }
}

/// How many beats the duration lasts, as a fraction: numerator, then
/// denominator.
pub open spec fn duration_factor(d: DurationType) -> (int, int) {
    match d {
        DurationType::Whole => (4, 1),
        DurationType::Half => (2, 1),
        DurationType::Quarter => (1, 1),
        DurationType::Eighth => (1, 2),
        DurationType::Sixteenth => (1, 4),
        DurationType::ThirtySecond => (1, 8),
        DurationType::SixtyFourth => (1, 16),
    }
}

impl DurationType {
    /// Reads a duration name; rejects anything else with a message that
    /// names the offending word.
    pub fn from_str(s: &str) -> (r: Result<DurationType, String>)
        ensures
            match r {
                Ok(d) => duration_type_of(s@) == Some(d),
                Err(m) => duration_type_of(s@) is None && m@ == "Unknown duration type: "@ + s@,
            },
    {
        let cs = chars_of(s);
        if chars_eq_str(&cs, "Whole") {
            Ok(DurationType::Whole)
        } else if chars_eq_str(&cs, "Half") {
            Ok(DurationType::Half)
        } else if chars_eq_str(&cs, "Quarter") {
            Ok(DurationType::Quarter)
        } else if chars_eq_str(&cs, "Eighth") {
            Ok(DurationType::Eighth)
        } else if chars_eq_str(&cs, "Sixteenth") {
            Ok(DurationType::Sixteenth)
        } else if chars_eq_str(&cs, "ThirtySecond") {
            Ok(DurationType::ThirtySecond)
        } else if chars_eq_str(&cs, "SixtyFourth") {
            Ok(DurationType::SixtyFourth)
        } else {
            let mut msg = chars_of("Unknown duration type: ");
            crate::text::append_chars(&mut msg, &cs);
            Err(string_of(&msg))
        }
    }

    /// The beats this duration lasts: numerator and denominator of the
    /// fraction.
    pub fn factor_parts(&self) -> (r: (u64, u64))
        ensures
            (r.0 as int, r.1 as int) == duration_factor(*self),
    {
        match self {
            DurationType::Whole => (4, 1),
            DurationType::Half => (2, 1),
            DurationType::Quarter => (1, 1),
            DurationType::Eighth => (1, 2),
            DurationType::Sixteenth => (1, 4),
            DurationType::ThirtySecond => (1, 8),
            DurationType::SixtyFourth => (1, 16),
        }
    }
}

} // verus!
