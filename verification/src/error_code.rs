//! The error codes carried by an ERROR frame.

use vstd::prelude::*;

verus! {

/// Why the server refused an action. The wire form is one byte.
#[derive(Clone, Copy, Debug, PartialEq, Eq, Structural)]
pub enum ErrorCode {
    Other,
    BadRoom,
    PlayerExists,
    BadMonster,
    StatError,
    NotReady,
    NoTarget,
    NoFight,
    NoPlayerCombat,
}

impl ErrorCode {
    /// The byte that stands for this code on the wire.
    pub open spec fn spec_code(self) -> u8 {
        match self {
            ErrorCode::Other => 0,
            ErrorCode::BadRoom => 1,
            ErrorCode::PlayerExists => 2,
            ErrorCode::BadMonster => 3,
            ErrorCode::StatError => 4,
            ErrorCode::NotReady => 5,
            ErrorCode::NoTarget => 6,
            ErrorCode::NoFight => 7,
            ErrorCode::NoPlayerCombat => 8,
        }
    }

    /// The code a wire byte stands for; bytes above 8 name no code and read as `Other`.
    pub open spec fn spec_from_code(code: u8) -> ErrorCode {
        if code == 1 {
            ErrorCode::BadRoom
        } else if code == 2 {
            ErrorCode::PlayerExists
        } else if code == 3 {
            ErrorCode::BadMonster
        } else if code == 4 {
            ErrorCode::StatError
        } else if code == 5 {
            ErrorCode::NotReady
        } else if code == 6 {
            ErrorCode::NoTarget
        } else if code == 7 {
            ErrorCode::NoFight
        } else if code == 8 {
            ErrorCode::NoPlayerCombat
        } else {
            ErrorCode::Other
        }
    }

    #[verifier::when_used_as_spec(spec_code)]
    pub fn code(self) -> (b: u8)
        ensures
            b == self.spec_code(),
            b <= 8,
    {
        match self {
            ErrorCode::Other => 0,
            ErrorCode::BadRoom => 1,
            ErrorCode::PlayerExists => 2,
            ErrorCode::BadMonster => 3,
            ErrorCode::StatError => 4,
            ErrorCode::NotReady => 5,
            ErrorCode::NoTarget => 6,
            ErrorCode::NoFight => 7,
            ErrorCode::NoPlayerCombat => 8,
        }
    }

    pub fn from_code(code: u8) -> (e: ErrorCode)
        ensures
            e == Self::spec_from_code(code),
            code <= 8 ==> e.spec_code() == code,
    {
        match code {
            1 => ErrorCode::BadRoom,
            2 => ErrorCode::PlayerExists,
            3 => ErrorCode::BadMonster,
            4 => ErrorCode::StatError,
            5 => ErrorCode::NotReady,
            6 => ErrorCode::NoTarget,
            7 => ErrorCode::NoFight,
            8 => ErrorCode::NoPlayerCombat,
            _ => ErrorCode::Other,
        }
    }

    /// The code's name, as it is shown to a player.
    pub fn name(self) -> (s: &'static str)
        ensures
            s@ == self.spec_name(),
    {
        match self {
            ErrorCode::Other => "Other",
            ErrorCode::BadRoom => "BadRoom",
            ErrorCode::PlayerExists => "PlayerExists",
            ErrorCode::BadMonster => "BadMonster",
            ErrorCode::StatError => "StatError",
            ErrorCode::NotReady => "NotReady",
            ErrorCode::NoTarget => "NoTarget",
            ErrorCode::NoFight => "NoFight",
            ErrorCode::NoPlayerCombat => "NoPlayerCombat",
        }
    }

    pub open spec fn spec_name(self) -> Seq<char> {
        match self {
            ErrorCode::Other => "Other"@,
            ErrorCode::BadRoom => "BadRoom"@,
            ErrorCode::PlayerExists => "PlayerExists"@,
            ErrorCode::BadMonster => "BadMonster"@,
            ErrorCode::StatError => "StatError"@,
            ErrorCode::NotReady => "NotReady"@,
            ErrorCode::NoTarget => "NoTarget"@,
            ErrorCode::NoFight => "NoFight"@,
            ErrorCode::NoPlayerCombat => "NoPlayerCombat"@,
        }
    }
}

/// Every code survives the trip through its wire byte.
pub proof fn lemma_code_round_trip(e: ErrorCode)
    ensures
        ErrorCode::spec_from_code(e.spec_code()) == e,
{
}

} // verus!
