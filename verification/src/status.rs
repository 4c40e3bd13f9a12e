//! Progress messages a running job emits, one tagged value per phase,
//! a completion notice carrying the new catalog identifier, and an
//! explicit failure notice naming the phase that broke.

use vstd::prelude::*;
use crate::id::Id;

verus! {

/// Which phase of a job went wrong.
#[derive(Clone, Copy, Debug, PartialEq, Eq, Structural)]
pub enum PhaseError {
    Clip,
    Transcribe,
    Finalize,
}

#[derive(Clone, Copy, Debug, PartialEq, Eq, Structural)]
pub enum Status {
    /// Clipping progress, 0 to 100.
    First(u16),
    /// Transcription progress, 0 to 100.
    Second(u16),
    /// Finalization progress, 0 to 100.
    Third(u16),
    /// The job finished and the catalog holds the item under this
    /// identifier.
    Complete(Id),
    /// The job stopped in the named phase; no further messages follow.
    Failed(PhaseError),
}

impl Status {
    /// Every emitted percentage stays within 0 to 100.
    pub open spec fn wf(self) -> bool {
        match self {
            Status::First(p) => p <= 100,
            Status::Second(p) => p <= 100,
            Status::Third(p) => p <= 100,
            Status::Complete(_) => true,
            Status::Failed(_) => true,
        }
    }

    pub fn get_first(&self) -> (r: u16)
        ensures
            self is First ==> r == self->First_0,
            !(self is First) ==> r == 0,
    {
        match self {
            Status::First(i) => *i,
            _ => 0,
        }
    }

    pub fn get_second(&self) -> (r: u16)
        ensures
            self is Second ==> r == self->Second_0,
            !(self is Second) ==> r == 0,
    {
        match self {
            Status::Second(i) => *i,
            _ => 0,
        }
    }

    pub fn get_third(&self) -> (r: u16)
        ensures
            self is Third ==> r == self->Third_0,
            !(self is Third) ==> r == 0,
    {
        match self {
            Status::Third(i) => *i,
            _ => 0,
        }
    }
}

impl Default for Status {
    /// A job starts with no clipping progress.
    fn default() -> (r: Self)
        ensures
            r == Status::First(0u16),
    {
        Status::First(0)
    }
}

} // verus!
