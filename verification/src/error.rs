//! The errors that the sequencing core reports.

use vstd::prelude::*;

verus! {

/// Why a transaction or a bundle was not admitted. Every one of these can be
/// corrected by the publisher; none leaves a trace in the queue.
#[derive(Debug, Clone, Copy, PartialEq, Eq, Structural)]
pub enum AdmissionError {
    /// The queue already holds as many entries as its capacity allows.
    QueueFull,
    /// A member of the entry is already staged, or is part of a block that has
    /// been drained and is not yet final.
    DuplicateMember,
    /// The bundle has no members.
    EmptyBundle,
    /// Two members of the bundle have the same identity.
    InternalDuplicate,
}

/// What the block log reports.
#[derive(Debug, Clone, Copy, PartialEq, Eq, Structural)]
pub enum LogError {
    /// The block's height is neither the next one nor that of an identical
    /// block already in the log.
    HeightConflict,
    /// No block has that height yet.
    NotFound,
    /// The log holds no block yet.
    Empty,
}

impl AdmissionError {
    /// The error's name.
    pub fn name(&self) -> (name: &'static str)
        ensures
            name@ == (match *self {
                AdmissionError::QueueFull => "QueueFull"@,
                AdmissionError::DuplicateMember => "DuplicateMember"@,
                AdmissionError::EmptyBundle => "EmptyBundle"@,
                AdmissionError::InternalDuplicate => "InternalDuplicate"@,
            }),
    {
        match self {
            AdmissionError::QueueFull => "QueueFull",
            AdmissionError::DuplicateMember => "DuplicateMember",
            AdmissionError::EmptyBundle => "EmptyBundle",
            AdmissionError::InternalDuplicate => "InternalDuplicate",
        }
    }
}

impl LogError {
    /// The error's name.
    pub fn name(&self) -> (name: &'static str)
        ensures
            name@ == (match *self {
                LogError::HeightConflict => "HeightConflict"@,
                LogError::NotFound => "NotFound"@,
                LogError::Empty => "Empty"@,
            }),
    {
        match self {
            LogError::HeightConflict => "HeightConflict",
            LogError::NotFound => "NotFound",
            LogError::Empty => "Empty",
        }
    }
}

} // verus!
