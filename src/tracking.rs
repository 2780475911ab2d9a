//! Tracking modes of a mount: their names and the codes the hand controller uses.
use vstd::prelude::*;
use crate::text::same_text;

verus! {

/// How the mount follows the sky.
#[derive(Clone, Copy, Debug, PartialEq, Eq, Structural)]
pub enum TrackingMode {
    Off,
    AltAz,
    Eq,
    Pec,
}

pub open spec fn mode_name(m: TrackingMode) -> Seq<char> {
    match m {
        TrackingMode::Off => seq!['O', 'f', 'f'],
        TrackingMode::AltAz => seq!['A', 'l', 't', 'A', 'z'],
        TrackingMode::Eq => seq!['E', 'q', 'u', 'a', 't', 'o', 'r', 'i', 'a', 'l'],
        TrackingMode::Pec => seq!['P', 'E', 'C'],
    }
}

pub open spec fn mode_code(m: TrackingMode) -> u8 {
    match m {
        TrackingMode::Off => 0,
        TrackingMode::AltAz => 1,
        TrackingMode::Eq => 2,
        TrackingMode::Pec => 3,
    }
}

/// The mode whose name is `s`, if any.
pub open spec fn mode_named(s: Seq<char>) -> Option<TrackingMode> {
    if s == mode_name(TrackingMode::Off) {
        Some(TrackingMode::Off)
    } else if s == mode_name(TrackingMode::AltAz) {
        Some(TrackingMode::AltAz)
    } else if s == mode_name(TrackingMode::Eq) {
        Some(TrackingMode::Eq)
    } else if s == mode_name(TrackingMode::Pec) {
        Some(TrackingMode::Pec)
    } else {
        None
    }
}

/// The mode that a hand-controller answer reports: one character whose code is the mode's.
pub open spec fn mode_of_answer(s: Seq<char>) -> Option<TrackingMode> {
    if s.len() == 1 && s[0] == '\0' {
        Some(TrackingMode::Off)
    } else if s.len() == 1 && s[0] == '\u{1}' {
        Some(TrackingMode::AltAz)
    } else if s.len() == 1 && s[0] == '\u{2}' {
        Some(TrackingMode::Eq)
    } else if s.len() == 1 && s[0] == '\u{3}' {
        Some(TrackingMode::Pec)
    } else {
        None
    }
}

impl TrackingMode {
    /// The name under which the mode is shown and set.
    pub fn name(&self) -> (r: &'static str)
        ensures
            r@ == mode_name(*self),
    {
        match self {
            TrackingMode::Off => {
                proof { reveal_strlit("Off"); }
                "Off"
            },
            TrackingMode::AltAz => {
                proof { reveal_strlit("AltAz"); }
                "AltAz"
            },
            TrackingMode::Eq => {
                proof { reveal_strlit("Equatorial"); }
                "Equatorial"
            },
            TrackingMode::Pec => {
                proof { reveal_strlit("PEC"); }
                "PEC"
            },
        }
    }

    /// The code that the hand controller uses for the mode.
    pub fn code(&self) -> (r: u8)
        ensures
            r == mode_code(*self),
    {
        match self {
            TrackingMode::Off => 0,
            TrackingMode::AltAz => 1,
            TrackingMode::Eq => 2,
            TrackingMode::Pec => 3,
        }
    }

    /// The mode called `name`.
    pub fn from_name(name: &str) -> (r: Option<TrackingMode>)
        ensures
            r == mode_named(name@),
    {
        if same_text(name, TrackingMode::Off.name()) {
            Some(TrackingMode::Off)
        } else if same_text(name, TrackingMode::AltAz.name()) {
            Some(TrackingMode::AltAz)
        } else if same_text(name, TrackingMode::Eq.name()) {
            Some(TrackingMode::Eq)
        } else if same_text(name, TrackingMode::Pec.name()) {
            Some(TrackingMode::Pec)
        } else {
            None
        }
    }

    /// The mode that a hand-controller answer reports, if it reports one.
    pub fn from_answer(answer: &str) -> (r: Option<TrackingMode>)
        ensures
            r == mode_of_answer(answer@),
    {
        proof {
            reveal_strlit("\0");
            reveal_strlit("\u{1}");
            reveal_strlit("\u{2}");
            reveal_strlit("\u{3}");
            assert("\0"@ =~= seq!['\0']);
            assert("\u{1}"@ =~= seq!['\u{1}']);
            assert("\u{2}"@ =~= seq!['\u{2}']);
            assert("\u{3}"@ =~= seq!['\u{3}']);
            if answer@.len() == 1 {
                assert(answer@ =~= seq![answer@[0]]);
            }
        }
        if same_text(answer, "\0") {
            Some(TrackingMode::Off)
        } else if same_text(answer, "\u{1}") {
            Some(TrackingMode::AltAz)
        } else if same_text(answer, "\u{2}") {
            Some(TrackingMode::Eq)
        } else if same_text(answer, "\u{3}") {
            Some(TrackingMode::Pec)
        } else {
            None
        }
    }
}

} // verus!
