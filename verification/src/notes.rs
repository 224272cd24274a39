//! The equal-tempered note table of the tracker: three octaves, each note
//! naming its period (an inverse-pitch unit; lower period = higher pitch).

use vstd::prelude::*;

verus! {

/// A note of the three-octave tracker scale.
#[derive(Copy, Clone, PartialEq, Eq, Structural, Debug)]
pub enum Note {
    C1,
    CS1,
    D1,
    DS1,
    E1,
    F1,
    FS1,
    G1,
    GS1,
    A1,
    AS1,
    B1,
    C2,
    CS2,
    D2,
    DS2,
    E2,
    F2,
    FS2,
    G2,
    GS2,
    A2,
    AS2,
    B2,
    C3,
    CS3,
    D3,
    DS3,
    E3,
    F3,
    FS3,
    G3,
    GS3,
    A3,
    AS3,
    B3,
}

impl Note {
    /// The tracker period of this note.
    pub open spec fn period_spec(self) -> u16 {
        match self {
            Note::C1 => 856,
            Note::CS1 => 808,
            Note::D1 => 762,
            Note::DS1 => 720,
            Note::E1 => 678,
            Note::F1 => 640,
            Note::FS1 => 604,
            Note::G1 => 570,
            Note::GS1 => 538,
            Note::A1 => 508,
            Note::AS1 => 480,
            Note::B1 => 453,
            Note::C2 => 428,
            Note::CS2 => 404,
            Note::D2 => 381,
            Note::DS2 => 360,
            Note::E2 => 339,
            Note::F2 => 320,
            Note::FS2 => 302,
            Note::G2 => 285,
            Note::GS2 => 269,
            Note::A2 => 254,
            Note::AS2 => 240,
            Note::B2 => 226,
            Note::C3 => 214,
            Note::CS3 => 202,
            Note::D3 => 190,
            Note::DS3 => 180,
            Note::E3 => 170,
            Note::F3 => 160,
            Note::FS3 => 151,
            Note::G3 => 143,
            Note::GS3 => 135,
            Note::A3 => 127,
            Note::AS3 => 120,
            Note::B3 => 113,
        }
    }

    /// Returns the tracker period of this note; every note's period is positive.
    pub fn period(self) -> (p: u16)
        ensures
            p == self.period_spec(),
            p > 0,
    {
        match self {
            Note::C1 => 856,
            Note::CS1 => 808,
            Note::D1 => 762,
            Note::DS1 => 720,
            Note::E1 => 678,
            Note::F1 => 640,
            Note::FS1 => 604,
            Note::G1 => 570,
            Note::GS1 => 538,
            Note::A1 => 508,
            Note::AS1 => 480,
            Note::B1 => 453,
            Note::C2 => 428,
            Note::CS2 => 404,
            Note::D2 => 381,
            Note::DS2 => 360,
            Note::E2 => 339,
            Note::F2 => 320,
            Note::FS2 => 302,
            Note::G2 => 285,
            Note::GS2 => 269,
            Note::A2 => 254,
            Note::AS2 => 240,
            Note::B2 => 226,
            Note::C3 => 214,
            Note::CS3 => 202,
            Note::D3 => 190,
            Note::DS3 => 180,
            Note::E3 => 170,
            Note::F3 => 160,
            Note::FS3 => 151,
            Note::G3 => 143,
            Note::GS3 => 135,
            Note::A3 => 127,
            Note::AS3 => 120,
            Note::B3 => 113,
        }
    }
}

} // verus!
