//! Choosing the network interface to attach to.

use vstd::prelude::*;
use vstd::string::StringExecFns;

verus! {

/// Why an interface cannot be used.
#[derive(Debug)]
pub enum NetworkInterfaceError {
    /// There is no interface of this name.
    NotFound(String),
    /// The interface of this name is down.
    InterfaceDown(String),
}

impl NetworkInterfaceError {
    /// The message of this error.
    pub open spec fn text(self) -> Seq<char> {
        match self {
            NetworkInterfaceError::NotFound(name) => "Network interface '"@ + name@
                + "' not found"@,
            NetworkInterfaceError::InterfaceDown(name) => "Network interface '"@ + name@
                + "' is down"@,
        }
    }

    /// The message of this error.
    pub fn message(&self) -> (text: String)
        ensures
            text@ == self.text(),
    {
        match self {
            NetworkInterfaceError::NotFound(name) => {
                let mut text = String::from_str("Network interface '");
                text.append(name.as_str());
                text.append("' not found");
                text
            },
            NetworkInterfaceError::InterfaceDown(name) => {
                let mut text = String::from_str("Network interface '");
                text.append(name.as_str());
                text.append("' is down");
                text
            },
        }
    }
}

/// What is read of a network interface: its name, and whether it is up.
#[derive(Debug)]
pub struct InterfaceState {
    pub name: String,
    pub is_up: bool,
}

/// Whether `interfaces[at]` is the first interface named `name`.
pub open spec fn is_first_named(interfaces: Seq<InterfaceState>, name: Seq<char>, at: int) -> bool {
    &&& 0 <= at < interfaces.len()
    &&& interfaces[at].name@ == name
    &&& forall|i: int| 0 <= i < at ==> interfaces[i].name@ != name
}

/// Picks the first of `interfaces` that is named `name`, by its place, and
/// checks that it is up.
pub fn get_network_interface(interfaces: &Vec<InterfaceState>, name: &str) -> (r: Result<
    usize,
    NetworkInterfaceError,
>)
    ensures
        match r {
            Ok(at) => is_first_named(interfaces@, name@, at as int) && interfaces@[at as int].is_up,
            Err(NetworkInterfaceError::InterfaceDown(text)) => text@ == name@ && exists|at: int|
                is_first_named(interfaces@, name@, at) && !interfaces@[at].is_up,
            Err(NetworkInterfaceError::NotFound(text)) => text@ == name@ && forall|i: int|
                0 <= i < interfaces@.len() ==> interfaces@[i].name@ != name@,
        },
{
    let wanted = name.to_owned();
    let mut at: usize = 0;
    while at < interfaces.len()
        invariant
            at <= interfaces@.len(),
            wanted@ == name@,
            forall|i: int| 0 <= i < at ==> interfaces@[i].name@ != name@,
        decreases interfaces@.len() - at,
    {
        if interfaces[at].name == wanted {
            assert(is_first_named(interfaces@, name@, at as int));
            if !interfaces[at].is_up {
                return Err(NetworkInterfaceError::InterfaceDown(wanted));
            }
            return Ok(at);
        }
        at = at + 1;
    }
    Err(NetworkInterfaceError::NotFound(wanted))
}

} // verus!
