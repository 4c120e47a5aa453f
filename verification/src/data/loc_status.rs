//! The localization status of a mission task, as the database keeps it: a
//! number from 0 to 2.

use vstd::prelude::*;

verus! {

/// How far a mission task is localized.
#[derive(Debug, Clone, Copy, PartialEq, Eq, Structural)]
pub enum LocStatus {
    Missing,
    InProgress,
    Complete,
}

/// A number that is no localization status.
#[derive(Debug, Clone, Copy, PartialEq, Eq, Structural)]
pub struct InvalidValueError;

/// The status a number stands for: 0 missing, 1 in progress, 2 complete.
pub open spec fn status_of(v: u8) -> Option<LocStatus> {
    if v == 0 {
        Some(LocStatus::Missing)
    } else if v == 1 {
        Some(LocStatus::InProgress)
    } else if v == 2 {
        Some(LocStatus::Complete)
    } else {
        None
    }
}

/// The number of a status.
pub open spec fn number_of(l: LocStatus) -> u8 {
    match l {
        LocStatus::Missing => 0,
        LocStatus::InProgress => 1,
        LocStatus::Complete => 2,
    }
}

impl TryFrom<u8> for LocStatus {
    type Error = InvalidValueError;

    /// The status that `v` stands for, or an error where it stands for none.
    fn try_from(v: u8) -> (r: Result<LocStatus, InvalidValueError>)
        ensures
            match status_of(v) {
                Some(l) => r == Ok::<LocStatus, InvalidValueError>(l),
                None => r == Err::<LocStatus, InvalidValueError>(InvalidValueError),
            },
    {
        match v {
            0 => Ok(LocStatus::Missing),
            1 => Ok(LocStatus::InProgress),
            2 => Ok(LocStatus::Complete),
            _ => Err(InvalidValueError),
        }
    }
}

impl vstd::std_specs::convert::TryFromSpecImpl<u8> for LocStatus {
    open spec fn obeys_try_from_spec() -> bool {
        true
    }

    open spec fn try_from_spec(v: u8) -> Result<LocStatus, InvalidValueError> {
        match status_of(v) {
            Some(l) => Ok(l),
            None => Err(InvalidValueError),
        }
    }
}

impl From<LocStatus> for u8 {
    /// The number of a status.
    fn from(l: LocStatus) -> (r: u8) {
        match l {
            LocStatus::Missing => 0,
            LocStatus::InProgress => 1,
            LocStatus::Complete => 2,
        }
    }
}

impl vstd::std_specs::convert::FromSpecImpl<LocStatus> for u8 {
    open spec fn obeys_from_spec() -> bool {
        true
    }

    open spec fn from_spec(l: LocStatus) -> u8 {
        number_of(l)
    }
}

/// A status written as its number reads back as the same status, and each
/// number that reads as a status is that status's number.
pub proof fn lemma_status_number(l: LocStatus, v: u8)
    ensures
        status_of(number_of(l)) == Some(l),
        status_of(v) matches Some(k) ==> number_of(k) == v,
{
}

} // verus!
