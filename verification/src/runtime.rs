//! What a data-plane program is started with and stopped by.

use vstd::prelude::*;
use std::sync::atomic::AtomicBool;
use std::sync::Arc;
use crate::interface::{get_network_interface, is_first_named, InterfaceState, NetworkInterfaceError};
use crate::text::{decimal_digits, push_decimal, push_signed, signed_digits};
use crate::thread::ThreadError;
use vstd::string::StringExecFns;

verus! {

/// What a data-plane program is configured with.
#[derive(Clone, Debug)]
pub struct Config {
    /// The name of the network interface to attach to.
    pub nic: String,
    /// The number of worker threads.
    pub worker_count: usize,
}

/// The data-plane runtime.
#[derive(Default)]
pub struct Runtime;

impl Runtime {
    /// Starts the runtime on the interface named `nic`, one of
    /// `interfaces`: picks the first of that name and checks that it is up.
    /// Returns its place among `interfaces`, and the flag that stops the
    /// program when it is taken down.
    pub fn run(self, interfaces: &Vec<InterfaceState>, nic: &str, worker_count: usize) -> (r:
        Result<(usize, Flag), RuntimeError>)
        ensures
            match r {
                Ok((at, _)) => is_first_named(interfaces@, nic@, at as int)
                    && interfaces@[at as int].is_up,
                Err(RuntimeError::InterfaceError(NetworkInterfaceError::InterfaceDown(text))) =>
                    text@ == nic@ && exists|at: int|
                        is_first_named(interfaces@, nic@, at) && !interfaces@[at].is_up,
                Err(RuntimeError::InterfaceError(NetworkInterfaceError::NotFound(text))) => text@
                    == nic@ && forall|i: int|
                    0 <= i < interfaces@.len() ==> interfaces@[i].name@ != nic@,
                Err(_) => false,
            },
    {
        let at = match get_network_interface(interfaces, nic) {
            Ok(at) => at,
            Err(error) => {
                return Err(RuntimeError::from(error));
            },
        };
        let flag = Flag::default();
        Ok((at, flag))
    }
}

/// Why the runtime stopped.
#[derive(Debug)]
pub enum RuntimeError {
    /// The cores of the machine could not be counted; the operating
    /// system's error code.
    AvailableCore(i32),
    /// There are fewer cores than are needed: how many there are, and how
    /// many are needed.
    NotEnoughCores(usize, usize),
    /// The network interface cannot be used.
    InterfaceError(NetworkInterfaceError),
    /// A thread could not be started.
    ThreadError(ThreadError),
    /// A worker's sender went away.
    SenderDropped,
}

impl RuntimeError {
    /// The message of this error.
    pub open spec fn text(self) -> Seq<char> {
        match self {
            RuntimeError::AvailableCore(code) => "Failed to get available cores: os error "@
                + signed_digits(code as int),
            RuntimeError::NotEnoughCores(available, required) => "Not enough cores available: "@
                + decimal_digits(available as nat) + " available, "@ + decimal_digits(
                required as nat,
            ) + " required"@,
            RuntimeError::InterfaceError(error) => "Network interface error: "@ + error.text(),
            RuntimeError::ThreadError(error) => "Thread error: "@ + error.text(),
            RuntimeError::SenderDropped => "Sender dropped"@,
        }
    }

    /// The message of this error.
    pub fn message(&self) -> (text: String)
        ensures
            text@ == self.text(),
    {
        match self {
            RuntimeError::AvailableCore(code) => {
                let mut text = String::from_str("Failed to get available cores: os error ");
                push_signed(&mut text, *code);
                text
            },
            RuntimeError::NotEnoughCores(available, required) => {
                let mut text = String::from_str("Not enough cores available: ");
                push_decimal(&mut text, *available as u64);
                text.append(" available, ");
                push_decimal(&mut text, *required as u64);
                text.append(" required");
                text
            },
            RuntimeError::InterfaceError(error) => {
                let mut text = String::from_str("Network interface error: ");
                text.append(error.message().as_str());
                text
            },
            RuntimeError::ThreadError(error) => {
                let mut text = String::from_str("Thread error: ");
                text.append(error.message().as_str());
                text
            },
            RuntimeError::SenderDropped => String::from_str("Sender dropped"),
        }
    }
}

impl From<NetworkInterfaceError> for RuntimeError {
    fn from(value: NetworkInterfaceError) -> (error: Self) {
        RuntimeError::InterfaceError(value)
    }
}

impl vstd::std_specs::convert::FromSpecImpl<NetworkInterfaceError> for RuntimeError {
    open spec fn obeys_from_spec() -> bool {
        true
    }

    open spec fn from_spec(value: NetworkInterfaceError) -> Self {
        RuntimeError::InterfaceError(value)
    }
}

impl From<ThreadError> for RuntimeError {
    fn from(value: ThreadError) -> (error: Self) {
        RuntimeError::ThreadError(value)
    }
}

impl vstd::std_specs::convert::FromSpecImpl<ThreadError> for RuntimeError {
    open spec fn obeys_from_spec() -> bool {
        true
    }

    open spec fn from_spec(value: ThreadError) -> Self {
        RuntimeError::ThreadError(value)
    }
}

/// A flag shared by the threads of a program: up while the program is to
/// run.  Whoever holds a copy can take it down; nobody can put it up again.
pub struct Flag(Arc<AtomicBool>);

impl Clone for Flag {
    fn clone(&self) -> (copy: Self) {
        Flag(self.0.clone())
    }
}

impl Default for Flag {
    fn default() -> (flag: Self) {
        Flag(Arc::new(AtomicBool::new(true)))
    }
}

impl Flag {
    /// Whether the flag is still up.  Another thread may take it down at
    /// any time, so nothing is known of the answer.
    pub fn is_running(&self) -> (running: bool) {
        self.0.load(std::sync::atomic::Ordering::Relaxed)
    }

    /// Takes the flag down.
    pub fn stop(&self) {
        self.0.store(false, std::sync::atomic::Ordering::Relaxed);
    }
}

} // verus!
