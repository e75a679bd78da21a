//! Choosing the core that a thread is pinned to.

use vstd::prelude::*;
use vstd::string::StringExecFns;
use crate::text::{decimal_digits, push_decimal};

verus! {

/// Why a thread could not be pinned.
#[derive(Debug, PartialEq, Eq, Structural)]
pub enum ThreadError {
    /// The cores of the machine could not be listed.
    UnableToGetCoreIds,
    /// The machine has no core of this number.
    InvalidCoreId(usize),
}

/// Why a worker could not be started.
#[derive(Debug, PartialEq, Eq, Structural)]
pub enum WorkerError {
    /// The cores of the machine could not be listed.
    UnableToGetCoreIds,
    /// The worker cannot be pinned to the core of this number.
    PinThreadToCore(usize),
}

impl ThreadError {
    /// The message of this error.
    pub open spec fn text(self) -> Seq<char> {
        match self {
            ThreadError::UnableToGetCoreIds => "Unable to get core IDs"@,
            ThreadError::InvalidCoreId(core_id) => "Invalid core ID: "@ + decimal_digits(
                core_id as nat,
            ),
        }
    }

    /// The message of this error.
    pub fn message(&self) -> (text: String)
        ensures
            text@ == self.text(),
    {
        match self {
            ThreadError::UnableToGetCoreIds => String::from_str("Unable to get core IDs"),
            ThreadError::InvalidCoreId(core_id) => {
                let mut text = String::from_str("Invalid core ID: ");
                push_decimal(&mut text, *core_id as u64);
                text
            },
        }
    }
}

impl WorkerError {
    /// The message of this error.
    pub open spec fn text(self) -> Seq<char> {
        match self {
            WorkerError::UnableToGetCoreIds => "Unable to get core"@,
            WorkerError::PinThreadToCore(core_id) => "Unable to pin thread to the core (ID = "@
                + decimal_digits(core_id as nat) + ")"@,
        }
    }

    /// The message of this error.
    pub fn message(&self) -> (text: String)
        ensures
            text@ == self.text(),
    {
        match self {
            WorkerError::UnableToGetCoreIds => String::from_str("Unable to get core"),
            WorkerError::PinThreadToCore(core_id) => {
                let mut text = String::from_str("Unable to pin thread to the core (ID = ");
                push_decimal(&mut text, *core_id as u64);
                text.append(")");
                text
            },
        }
    }
}

/// The number of cores, given the list of the machine's cores if it could
/// be had.
pub fn available_cores(core_ids: Option<&Vec<usize>>) -> (r: Result<usize, ThreadError>)
    ensures
        match core_ids {
            Some(ids) => r == Ok::<usize, ThreadError>(ids@.len() as usize),
            None => r == Err::<usize, ThreadError>(ThreadError::UnableToGetCoreIds),
        },
{
    match core_ids {
        Some(ids) => Ok(ids.len()),
        None => Err(ThreadError::UnableToGetCoreIds),
    }
}

/// Whether `ids[at]` is the first core numbered `core_id`.
pub open spec fn is_first_core(ids: Seq<usize>, core_id: usize, at: int) -> bool {
    &&& 0 <= at < ids.len()
    &&& ids[at] == core_id
    &&& forall|i: int| 0 <= i < at ==> ids[i] != core_id
}

/// Looks the core numbered `core_id` up in the list of the machine's cores,
/// if the list could be had.  Returns the place of the core in the list.
pub fn get_core_id(core_ids: Option<&Vec<usize>>, core_id: usize) -> (r: Result<usize, ThreadError>)
    ensures
        match core_ids {
            None => r == Err::<usize, ThreadError>(ThreadError::UnableToGetCoreIds),
            Some(ids) => match r {
                Ok(at) => is_first_core(ids@, core_id, at as int),
                Err(error) => error == ThreadError::InvalidCoreId(core_id) && !ids@.contains(
                    core_id,
                ),
            },
        },
{
    let ids = match core_ids {
        Some(ids) => ids,
        None => {
            return Err(ThreadError::UnableToGetCoreIds);
        },
    };
    let mut at: usize = 0;
    while at < ids.len()
        invariant
            core_ids == Some(ids),
            at <= ids@.len(),
            forall|i: int| 0 <= i < at ==> ids@[i] != core_id,
        decreases ids@.len() - at,
    {
        if ids[at] == core_id {
            return Ok(at);
        }
        at = at + 1;
    }
    Err(ThreadError::InvalidCoreId(core_id))
}

/// Checks that a worker can be pinned to the core numbered `core_id`: the
/// list of the machine's cores could be had, and the core is in it.
pub fn check_worker_core(core_ids: Option<&Vec<usize>>, core_id: usize) -> (r: Result<
    (),
    WorkerError,
>)
    ensures
        match core_ids {
            None => r == Err::<(), WorkerError>(WorkerError::UnableToGetCoreIds),
            Some(ids) => if ids@.contains(core_id) {
                r is Ok
            } else {
                r == Err::<(), WorkerError>(WorkerError::PinThreadToCore(core_id))
            },
        },
{
    match get_core_id(core_ids, core_id) {
        Ok(at) => {
            assert(core_ids->Some_0@[at as int] == core_id);
            Ok(())
        },
        Err(ThreadError::UnableToGetCoreIds) => Err(WorkerError::UnableToGetCoreIds),
        Err(ThreadError::InvalidCoreId(id)) => Err(WorkerError::PinThreadToCore(id)),
    }
}

} // verus!
