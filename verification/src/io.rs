//! Outcomes of jobs handed to a pool of worker threads.
use vstd::prelude::*;

verus! {

/// Why a job handed to the worker pool gave no value.
#[derive(Debug, Clone, Copy, PartialEq, Eq, Structural)]
pub enum RayErr {
    /// The job panicked.
    Panicked,
    /// The job was dropped before it reported.
    Canceled,
}

/// What a worker reports of a job it ran: the value, or `Panicked` when the
/// job panicked (`Err` from catching the unwind).
pub fn caught_job_result<T>(caught: Result<T, ()>) -> (r: Result<T, RayErr>)
    ensures
        r == (match caught {
            Ok(v) => Ok::<T, RayErr>(v),
            Err(_) => Err(RayErr::Panicked),
        }),
{
    match caught {
        Ok(v) => Ok(v),
        Err(_) => Err(RayErr::Panicked),
    }
}

/// What the waiting side makes of a job: the report it received, or
/// `Canceled` when the reporting side went away without a report.
pub fn received_job_result<T>(received: Option<Result<T, RayErr>>) -> (r: Result<T, RayErr>)
    ensures
        r == (match received {
            Some(report) => report,
            None => Err(RayErr::Canceled),
        }),
{
    match received {
        Some(report) => report,
        None => Err(RayErr::Canceled),
    }
}

} // verus!
