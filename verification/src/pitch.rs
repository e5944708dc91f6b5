//! Western pitch names and their equal-temperament frequencies.
//!
//! Frequencies are counted in centihertz (hundredths of a hertz), so that
//! the table of pitches is exact integer data; concert A at octave four is
//! 44000 centihertz.

use vstd::prelude::*;

verus! {

/// A pitch name of the Western chromatic scale.
#[derive(Clone, Copy, Debug, PartialEq, Eq, Structural)]
pub enum WesternPitch {
    C,
    CSharp,
    DFlat,
    D,
    DSharp,
    EFlat,
    E,
    F,
    FSharp,
    GFlat,
    G,
    GSharp,
    AFlat,
    A,
    ASharp,
    BFlat,
    B,
}

/// The semitone within the octave that a pitch names.
pub open spec fn pitch_index_spec(p: WesternPitch) -> int {
    match p {
        WesternPitch::C => 0,
        WesternPitch::CSharp => 1,
        WesternPitch::DFlat => 1,
        WesternPitch::D => 2,
        WesternPitch::DSharp => 3,
        WesternPitch::EFlat => 3,
        WesternPitch::E => 4,
        WesternPitch::F => 5,
        WesternPitch::FSharp => 6,
        WesternPitch::GFlat => 6,
        WesternPitch::G => 7,
        WesternPitch::GSharp => 8,
        WesternPitch::AFlat => 8,
        WesternPitch::A => 9,
        WesternPitch::ASharp => 10,
        WesternPitch::BFlat => 10,
        WesternPitch::B => 11,
    }
}

/// The centihertz of semitone `n`, counting from C at octave zero up to B
/// at octave eight; zero past the table.
pub open spec fn pitch_freq_centihz(n: int) -> int {
    if n == 0 {
        1635
    } else if n == 1 {
        1732
    } else if n == 2 {
        1835
    } else if n == 3 {
        1945
    } else if n == 4 {
        2060
    } else if n == 5 {
        2183
    } else if n == 6 {
        2312
    } else if n == 7 {
        2450
    } else if n == 8 {
        2596
    } else if n == 9 {
        2750
    } else if n == 10 {
        2914
    } else if n == 11 {
        3087
    } else if n == 12 {
        3270
    } else if n == 13 {
        3465
    } else if n == 14 {
        3671
    } else if n == 15 {
        3889
    } else if n == 16 {
        4120
    } else if n == 17 {
        4365
    } else if n == 18 {
        4625
    } else if n == 19 {
        4900
    } else if n == 20 {
        5191
    } else if n == 21 {
        5500
    } else if n == 22 {
        5827
    } else if n == 23 {
        6174
    } else if n == 24 {
        6541
    } else if n == 25 {
        6930
    } else if n == 26 {
        7342
    } else if n == 27 {
        7778
    } else if n == 28 {
        8241
    } else if n == 29 {
        8731
    } else if n == 30 {
        9250
    } else if n == 31 {
        9800
    } else if n == 32 {
        10383
    } else if n == 33 {
        11000
    } else if n == 34 {
        11654
    } else if n == 35 {
        12347
    } else if n == 36 {
        13081
    } else if n == 37 {
        13859
    } else if n == 38 {
        14683
    } else if n == 39 {
        15556
    } else if n == 40 {
        16481
    } else if n == 41 {
        17461
    } else if n == 42 {
        18500
    } else if n == 43 {
        19600
    } else if n == 44 {
        20765
    } else if n == 45 {
        22000
    } else if n == 46 {
        23308
    } else if n == 47 {
        24694
    } else if n == 48 {
        26163
    } else if n == 49 {
        27718
    } else if n == 50 {
        29366
    } else if n == 51 {
        31113
    } else if n == 52 {
        32963
    } else if n == 53 {
        34923
    } else if n == 54 {
        36999
    } else if n == 55 {
        39200
    } else if n == 56 {
        41530
    } else if n == 57 {
        44000
    } else if n == 58 {
        46616
    } else if n == 59 {
        49388
    } else if n == 60 {
        52325
    } else if n == 61 {
        55437
    } else if n == 62 {
        58733
    } else if n == 63 {
        62225
    } else if n == 64 {
        65926
    } else if n == 65 {
        69846
    } else if n == 66 {
        73999
    } else if n == 67 {
        78399
    } else if n == 68 {
        83061
    } else if n == 69 {
        88000
    } else if n == 70 {
        93233
    } else if n == 71 {
        98777
    } else if n == 72 {
        104650
    } else if n == 73 {
        110873
    } else if n == 74 {
        117466
    } else if n == 75 {
        124451
    } else if n == 76 {
        131851
    } else if n == 77 {
        139691
    } else if n == 78 {
        147998
    } else if n == 79 {
        156798
    } else if n == 80 {
        166122
    } else if n == 81 {
        176000
    } else if n == 82 {
        186466
    } else if n == 83 {
        197553
    } else if n == 84 {
        209300
    } else if n == 85 {
        221746
    } else if n == 86 {
        234932
    } else if n == 87 {
        248902
    } else if n == 88 {
        263702
    } else if n == 89 {
        279383
    } else if n == 90 {
        295996
    } else if n == 91 {
        313596
    } else if n == 92 {
        332244
    } else if n == 93 {
        352000
    } else if n == 94 {
        372931
    } else if n == 95 {
        395107
    } else if n == 96 {
        418601
    } else if n == 97 {
        443492
    } else if n == 98 {
        469864
    } else if n == 99 {
        497803
    } else if n == 100 {
        527404
    } else if n == 101 {
        558765
    } else if n == 102 {
        591991
    } else if n == 103 {
        627193
    } else if n == 104 {
        664488
    } else if n == 105 {
        704000
    } else if n == 106 {
        745862
    } else if n == 107 {
        790213
    } else {
        0
    }
}

fn freq_of_semitone(n: u32) -> (r: u32)
    requires
        n < 108,
    ensures
        r == pitch_freq_centihz(n as int),
{
    match n {
        0 => 1635,
        1 => 1732,
        2 => 1835,
        3 => 1945,
        4 => 2060,
        5 => 2183,
        6 => 2312,
        7 => 2450,
        8 => 2596,
        9 => 2750,
        10 => 2914,
        11 => 3087,
        12 => 3270,
        13 => 3465,
        14 => 3671,
        15 => 3889,
        16 => 4120,
        17 => 4365,
        18 => 4625,
        19 => 4900,
        20 => 5191,
        21 => 5500,
        22 => 5827,
        23 => 6174,
        24 => 6541,
        25 => 6930,
        26 => 7342,
        27 => 7778,
        28 => 8241,
        29 => 8731,
        30 => 9250,
        31 => 9800,
        32 => 10383,
        33 => 11000,
        34 => 11654,
        35 => 12347,
        36 => 13081,
        37 => 13859,
        38 => 14683,
        39 => 15556,
        40 => 16481,
        41 => 17461,
        42 => 18500,
        43 => 19600,
        44 => 20765,
        45 => 22000,
        46 => 23308,
        47 => 24694,
        48 => 26163,
        49 => 27718,
        50 => 29366,
        51 => 31113,
        52 => 32963,
        53 => 34923,
        54 => 36999,
        55 => 39200,
        56 => 41530,
        57 => 44000,
        58 => 46616,
        59 => 49388,
        60 => 52325,
        61 => 55437,
        62 => 58733,
        63 => 62225,
        64 => 65926,
        65 => 69846,
        66 => 73999,
        67 => 78399,
        68 => 83061,
        69 => 88000,
        70 => 93233,
        71 => 98777,
        72 => 104650,
        73 => 110873,
        74 => 117466,
        75 => 124451,
        76 => 131851,
        77 => 139691,
        78 => 147998,
        79 => 156798,
        80 => 166122,
        81 => 176000,
        82 => 186466,
        83 => 197553,
        84 => 209300,
        85 => 221746,
        86 => 234932,
        87 => 248902,
        88 => 263702,
        89 => 279383,
        90 => 295996,
        91 => 313596,
        92 => 332244,
        93 => 352000,
        94 => 372931,
        95 => 395107,
        96 => 418601,
        97 => 443492,
        98 => 469864,
        99 => 497803,
        100 => 527404,
        101 => 558765,
        102 => 591991,
        103 => 627193,
        104 => 664488,
        105 => 704000,
        106 => 745862,
        _ => 790213,
    }
}

/// The twelve pitches offered by the sequencer, in ascending order.
pub open spec fn sharp_pitches() -> Seq<WesternPitch> {
    seq![
        WesternPitch::C,
        WesternPitch::CSharp,
        WesternPitch::D,
        WesternPitch::DSharp,
        WesternPitch::E,
        WesternPitch::F,
        WesternPitch::FSharp,
        WesternPitch::G,
        WesternPitch::GSharp,
        WesternPitch::A,
        WesternPitch::ASharp,
        WesternPitch::B,
    ]
}

/// Where the cycling operations find a pitch: flat spellings are not in
/// the cycle and count as its start.
pub open spec fn scan_index(p: WesternPitch) -> int {
    match p {
        WesternPitch::C => 0,
        WesternPitch::CSharp => 1,
        WesternPitch::D => 2,
        WesternPitch::DSharp => 3,
        WesternPitch::E => 4,
        WesternPitch::F => 5,
        WesternPitch::FSharp => 6,
        WesternPitch::G => 7,
        WesternPitch::GSharp => 8,
        WesternPitch::A => 9,
        WesternPitch::ASharp => 10,
        WesternPitch::B => 11,
        _ => 0,
    }
}

impl WesternPitch {
    /// The semitone within the octave.
    pub fn get_pitch_index(&self) -> (r: u8)
        ensures
            r == pitch_index_spec(*self),
    {
        match self {
            WesternPitch::C => 0,
            WesternPitch::CSharp => 1,
            WesternPitch::DFlat => 1,
            WesternPitch::D => 2,
            WesternPitch::DSharp => 3,
            WesternPitch::EFlat => 3,
            WesternPitch::E => 4,
            WesternPitch::F => 5,
            WesternPitch::FSharp => 6,
            WesternPitch::GFlat => 6,
            WesternPitch::G => 7,
            WesternPitch::GSharp => 8,
            WesternPitch::AFlat => 8,
            WesternPitch::A => 9,
            WesternPitch::ASharp => 10,
            WesternPitch::BFlat => 10,
            WesternPitch::B => 11,
        }
    }

    /// The pitch's frequency at the given octave, in centihertz.
    pub fn get_frequency(&self, octave: u8) -> (r: u32)
        requires
            octave <= 8,
        ensures
            r == pitch_freq_centihz(octave * 12 + pitch_index_spec(*self)),
    {
        let idx = self.get_pitch_index();
        freq_of_semitone(octave as u32 * 12 + idx as u32)
    }

    /// The twelve pitches offered by the sequencer, ascending.
    pub fn all_pitches() -> (r: [WesternPitch; 12])
        ensures
            r@ == sharp_pitches(),
    {
        let a: [WesternPitch; 12] = [
            WesternPitch::C,
            WesternPitch::CSharp,
            WesternPitch::D,
            WesternPitch::DSharp,
            WesternPitch::E,
            WesternPitch::F,
            WesternPitch::FSharp,
            WesternPitch::G,
            WesternPitch::GSharp,
            WesternPitch::A,
            WesternPitch::ASharp,
            WesternPitch::B,
        ];
        proof {
            assert(a@ =~= sharp_pitches());
        }
        a
    }

    /// The next pitch in the cycle of twelve; a flat spelling continues
    /// from the cycle's start.
    pub fn next(&self) -> (r: WesternPitch)
        ensures
            r == sharp_pitches()[(scan_index(*self) + 1) % 12],
    {
        match self {
            WesternPitch::C => WesternPitch::CSharp,
            WesternPitch::CSharp => WesternPitch::D,
            WesternPitch::D => WesternPitch::DSharp,
            WesternPitch::DSharp => WesternPitch::E,
            WesternPitch::E => WesternPitch::F,
            WesternPitch::F => WesternPitch::FSharp,
            WesternPitch::FSharp => WesternPitch::G,
            WesternPitch::G => WesternPitch::GSharp,
            WesternPitch::GSharp => WesternPitch::A,
            WesternPitch::A => WesternPitch::ASharp,
            WesternPitch::ASharp => WesternPitch::B,
            WesternPitch::B => WesternPitch::C,
            _ => WesternPitch::CSharp,
        }
    }

    /// The previous pitch in the cycle of twelve; a flat spelling steps
    /// back from the cycle's start.
    pub fn previous(&self) -> (r: WesternPitch)
        ensures
            r == sharp_pitches()[(scan_index(*self) + 11) % 12],
    {
        match self {
            WesternPitch::C => WesternPitch::B,
            WesternPitch::CSharp => WesternPitch::C,
            WesternPitch::D => WesternPitch::CSharp,
            WesternPitch::DSharp => WesternPitch::D,
            WesternPitch::E => WesternPitch::DSharp,
            WesternPitch::F => WesternPitch::E,
            WesternPitch::FSharp => WesternPitch::F,
            WesternPitch::G => WesternPitch::FSharp,
            WesternPitch::GSharp => WesternPitch::G,
            WesternPitch::A => WesternPitch::GSharp,
            WesternPitch::ASharp => WesternPitch::A,
            WesternPitch::B => WesternPitch::ASharp,
            _ => WesternPitch::B,
        }
    }

    /// The short display name of the pitch.
    pub fn display_name(&self) -> (r: &'static str)
        ensures
            r@ == pitch_name_spec(*self),
    {
        match self {
            WesternPitch::C => "C",
            WesternPitch::CSharp => "C#",
            WesternPitch::DFlat => "Db",
            WesternPitch::D => "D",
            WesternPitch::DSharp => "D#",
            WesternPitch::EFlat => "Eb",
            WesternPitch::E => "E",
            WesternPitch::F => "F",
            WesternPitch::FSharp => "F#",
            WesternPitch::GFlat => "Gb",
            WesternPitch::G => "G",
            WesternPitch::GSharp => "G#",
            WesternPitch::AFlat => "Ab",
            WesternPitch::A => "A",
            WesternPitch::ASharp => "A#",
            WesternPitch::BFlat => "Bb",
            WesternPitch::B => "B",
        }
    }
}

/// The short spelling of each pitch, sharps as `#` and flats as `b`.
pub open spec fn pitch_name_spec(p: WesternPitch) -> Seq<char> {
    match p {
        WesternPitch::C => "C"@,
        WesternPitch::CSharp => "C#"@,
        WesternPitch::DFlat => "Db"@,
        WesternPitch::D => "D"@,
        WesternPitch::DSharp => "D#"@,
        WesternPitch::EFlat => "Eb"@,
        WesternPitch::E => "E"@,
        WesternPitch::F => "F"@,
        WesternPitch::FSharp => "F#"@,
        WesternPitch::GFlat => "Gb"@,
        WesternPitch::G => "G"@,
        WesternPitch::GSharp => "G#"@,
        WesternPitch::AFlat => "Ab"@,
        WesternPitch::A => "A"@,
        WesternPitch::ASharp => "A#"@,
        WesternPitch::BFlat => "Bb"@,
        WesternPitch::B => "B"@,
    }
}

} // verus!
