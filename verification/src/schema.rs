//! The catalogue's record types: users, sessions, graffiti records and
//! authors. The asset subsystem references graffiti and authors only by their
//! numeric id (the owner of an attachment list); the fields here are plain
//! data that the surrounding application reads and writes.

use vstd::prelude::*;

verus! {

/// An account that may log in.
#[derive(Debug)]
pub struct User {
    pub id: u32,
    pub login: String,
    pub password: String,
}

/// A login session.
#[derive(Debug)]
pub struct Session {
    pub id: String,
    pub uid: u32,
    pub expires: u64,
}

/// The shift of day a graffiti was spotted in.
#[derive(Debug, Copy, Clone, PartialEq, Eq, Structural)]
pub enum ShiftTime {
    Morning,
    Afternoon,
    Night,
}

impl ShiftTime {
    /// The stable wire code of each shift.
    pub open spec fn code_spec(self) -> u8 {
        match self {
            ShiftTime::Morning => 0,
            ShiftTime::Afternoon => 1,
            ShiftTime::Night => 2,
        }
    }

    /// The stable wire code of each shift.
    pub fn code(&self) -> (r: u8)
        ensures
            r == self.code_spec(),
    {
        match self {
            ShiftTime::Morning => 0,
            ShiftTime::Afternoon => 1,
            ShiftTime::Night => 2,
        }
    }

    /// The shift a wire code stands for, if any.
    pub fn from_code(code: u8) -> (r: Option<ShiftTime>)
        ensures
            r is Some <==> code < 3,
            r is Some ==> r->0.code_spec() == code,
    {
        match code {
            0 => Some(ShiftTime::Morning),
            1 => Some(ShiftTime::Afternoon),
            2 => Some(ShiftTime::Night),
            _ => None,
        }
    }
}

/// One catalogued graffiti record.
#[derive(Debug)]
pub struct Graffiti {
    pub id: u32,
    pub complaint_id: String,
    pub datetime: Option<i64>,
    pub shift_time: Option<ShiftTime>,
    pub intervening: String,
    pub companions: u32,
    pub notes: String,
    pub views: u32,
}

/// Which hand an author paints with.
#[derive(Debug, Copy, Clone, PartialEq, Eq, Structural)]
pub enum Handedness {
    RightHanded,
    LeftHanded,
    Ambidextrous,
}

impl Handedness {
    /// The stable wire code of each handedness.
    pub open spec fn code_spec(self) -> u8 {
        match self {
            Handedness::RightHanded => 0,
            Handedness::LeftHanded => 1,
            Handedness::Ambidextrous => 2,
        }
    }

    /// The stable wire code of each handedness.
    pub fn code(&self) -> (r: u8)
        ensures
            r == self.code_spec(),
    {
        match self {
            Handedness::RightHanded => 0,
            Handedness::LeftHanded => 1,
            Handedness::Ambidextrous => 2,
        }
    }

    /// The handedness a wire code stands for, if any.
    pub fn from_code(code: u8) -> (r: Option<Handedness>)
        ensures
            r is Some <==> code < 3,
            r is Some ==> r->0.code_spec() == code,
    {
        match code {
            0 => Some(Handedness::RightHanded),
            1 => Some(Handedness::LeftHanded),
            2 => Some(Handedness::Ambidextrous),
            _ => None,
        }
    }
}

/// One catalogued author.
#[derive(Debug)]
pub struct Author {
    pub id: u32,
    pub name: String,
    pub age: Option<u32>,
    pub height: Option<u32>,
    pub handedness: Option<Handedness>,
    pub home_city: String,
    pub social_networks: String,
    pub notes: String,
    pub views: u32,
}

} // verus!
