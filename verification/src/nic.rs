//! Network interfaces and their hardware queues.

use vstd::prelude::*;
use vstd::string::{StringExecFns, StringSliceAdditionalSpecFns};
use crate::text::{
    contains_word, find_byte, has_word, lemma_position_bounds, number, parse_number, position_of,
    trim, trimmed_end,
    trimmed_start, ParseFailure, COLON, NEWLINE,
};

verus! {

/// Why an operation on a network interface failed.
#[derive(Debug)]
pub enum Error {
    /// The default interface could not be found.
    DefaultInterface(String),
    /// `ethtool` failed, or its output could not be understood.
    Ethtool(String),
    /// The queue count that `ethtool` printed is not a number.
    ParseError(ParseFailure),
}

impl ParseFailure {
    /// The message of this failure.
    pub open spec fn text(self) -> Seq<char> {
        match self {
            ParseFailure::Empty => "cannot parse integer from empty string"@,
            ParseFailure::InvalidDigit => "invalid digit found in string"@,
            ParseFailure::Overflow => "number too large to fit in target type"@,
        }
    }

    /// The message of this failure.
    pub fn message(&self) -> (text: String)
        ensures
            text@ == self.text(),
    {
        match self {
            ParseFailure::Empty => String::from_str("cannot parse integer from empty string"),
            ParseFailure::InvalidDigit => String::from_str("invalid digit found in string"),
            ParseFailure::Overflow => String::from_str("number too large to fit in target type"),
        }
    }
}

impl Error {
    /// The message of this error.
    pub open spec fn text(self) -> Seq<char> {
        match self {
            Error::DefaultInterface(reason) => "Failed to get default network interface: "@
                + reason@,
            Error::Ethtool(reason) => "Ethtool error: "@ + reason@,
            Error::ParseError(failure) => "Failed to parse value: "@ + failure.text(),
        }
    }

    /// The message of this error.
    pub fn message(&self) -> (text: String)
        ensures
            text@ == self.text(),
    {
        match self {
            Error::DefaultInterface(reason) => {
                let mut text = String::from_str("Failed to get default network interface: ");
                text.append(reason.as_str());
                text
            },
            Error::Ethtool(reason) => {
                let mut text = String::from_str("Ethtool error: ");
                text.append(reason.as_str());
                text
            },
            Error::ParseError(failure) => {
                let mut text = String::from_str("Failed to parse value: ");
                text.append(failure.message().as_str());
                text
            },
        }
    }
}

/// A network interface, as plain values.
#[derive(Clone, Debug)]
pub struct NetworkInterface {
    name: String,
    index: u32,
    mac: [u8; 6],
    ipv4: Vec<[u8; 4]>,
    ipv6: Vec<[u8; 16]>,
}

impl NetworkInterface {
    /// The interface's name.
    pub closed spec fn spec_name(&self) -> Seq<char> {
        self.name@
    }

    /// The interface's index.
    pub closed spec fn spec_index(&self) -> u32 {
        self.index
    }

    /// The interface's hardware address.
    pub closed spec fn spec_mac(&self) -> [u8; 6] {
        self.mac
    }

    /// The interface's IPv4 addresses.
    pub closed spec fn spec_ipv4(&self) -> Seq<[u8; 4]> {
        self.ipv4@
    }

    /// The interface's IPv6 addresses.
    pub closed spec fn spec_ipv6(&self) -> Seq<[u8; 16]> {
        self.ipv6@
    }

    /// An interface from what was read of it.  One without a hardware
    /// address is of no use.
    pub fn get_default(
        name: String,
        index: u32,
        mac: Option<[u8; 6]>,
        ipv4: Vec<[u8; 4]>,
        ipv6: Vec<[u8; 16]>,
    ) -> (r: Result<Self, Error>)
        ensures
            match mac {
                Some(address) => r is Ok && r->Ok_0.spec_name() == name@ && r->Ok_0.spec_index()
                    == index && r->Ok_0.spec_mac() == address && r->Ok_0.spec_ipv4() == ipv4@
                    && r->Ok_0.spec_ipv6() == ipv6@,
                None => r matches Err(Error::DefaultInterface(reason)) && reason@
                    == "No MAC address"@,
            },
    {
        match mac {
            Some(mac) => Ok(NetworkInterface { name, index, mac, ipv4, ipv6 }),
            None => Err(Error::DefaultInterface("No MAC address".to_owned())),
        }
    }

    pub fn name(&self) -> (name: &str)
        ensures
            name@ == self.spec_name(),
    {
        self.name.as_str()
    }

    pub fn index(&self) -> (index: u32)
        ensures
            index == self.spec_index(),
    {
        self.index
    }

    pub fn mac(&self) -> (mac: [u8; 6])
        ensures
            mac == self.spec_mac(),
    {
        self.mac
    }

    pub fn ipv4(&self) -> (addresses: &Vec<[u8; 4]>)
        ensures
            addresses@ == self.spec_ipv4(),
    {
        &self.ipv4
    }

    pub fn ipv6(&self) -> (addresses: &Vec<[u8; 16]>)
        ensures
            addresses@ == self.spec_ipv6(),
    {
        &self.ipv6
    }

    /// The number of combined queues of this interface, from what `ethtool
    /// -l` did: whether it succeeded, what it printed, and what it said of
    /// its failure.
    pub fn get_queue_count(&self, success: bool, stdout: &str, stderr: &str) -> (r: Result<
        u32,
        Error,
    >)
        ensures
            queue_count_is(success, stdout.spec_bytes(), stderr@, r),
    {
        if !success {
            return Err(Error::Ethtool(stderr.to_owned()));
        }
        parse_queue_count(stdout.as_bytes())
    }

    /// Whether the number of combined queues of this interface was set, from
    /// what `ethtool -L` did: whether it succeeded, and what it said of its
    /// failure.
    pub fn set_queue_count(&self, success: bool, stderr: &str) -> (r: Result<(), Error>)
        ensures
            success ==> r is Ok,
            !success ==> (r matches Err(Error::Ethtool(reason)) && reason@ == stderr@),
    {
        if !success {
            return Err(Error::Ethtool(stderr.to_owned()));
        }
        Ok(())
    }
}

/// The words that begin the part of the output that tells the current
/// settings.
pub open spec fn current_settings() -> Seq<u8> {
    "Current hardware settings:".spec_bytes()
}

/// The word in front of the number of combined queues.
pub open spec fn combined() -> Seq<u8> {
    "Combined:".spec_bytes()
}

/// The number that stands on the line of `output` from `start` up to `end`
/// between the first colon and the second, or the end of the line, without
/// the white space around it.
pub open spec fn count_on_line(output: Seq<u8>, start: int, end: int) -> Result<u32, ParseFailure> {
    let colon = position_of(output, COLON, start, end);
    let part_end = position_of(output, COLON, colon + 1, end);
    let from = trimmed_start(output, colon + 1, part_end);
    let to = trimmed_end(output, from, part_end);
    number(output.subrange(from, to))
}

/// What is read of the number of combined queues in `output` from the line
/// that begins at `start` on, `in_section` telling whether the current
/// settings have begun.  A line that holds the words "Current hardware
/// settings:" begins them.  The first line after that which holds the word
/// "Combined:" and a colon gives the answer: the number that stands behind
/// its first colon, or the failure to read one.
pub open spec fn queue_count_from(output: Seq<u8>, start: int, in_section: bool) -> Option<
    Result<u32, ParseFailure>,
>
    decreases output.len() + 1 - start,
    via queue_count_decreases
{
    if start < 0 || start >= output.len() {
        None
    } else {
        let end = position_of(output, NEWLINE, start, output.len() as int);
        let line = output.subrange(start, end);
        if contains_word(line, current_settings()) {
            queue_count_from(output, end + 1, true)
        } else if in_section && contains_word(line, combined()) && position_of(
            output,
            COLON,
            start,
            end,
        ) < end {
            Some(count_on_line(output, start, end))
        } else {
            queue_count_from(output, end + 1, in_section)
        }
    }
}

#[via_fn]
proof fn queue_count_decreases(output: Seq<u8>, start: int, in_section: bool) {
    if 0 <= start < output.len() {
        lemma_position_bounds(output, NEWLINE, start, output.len() as int);
    }
}

/// What `get_queue_count` answers.
pub open spec fn queue_count_is(
    success: bool,
    stdout: Seq<u8>,
    stderr: Seq<char>,
    r: Result<u32, Error>,
) -> bool {
    if !success {
        r matches Err(Error::Ethtool(reason)) && reason@ == stderr
    } else {
        match queue_count_from(stdout, 0, false) {
            Some(Ok(count)) => r matches Ok(found) && found == count,
            Some(Err(failure)) => r matches Err(Error::ParseError(kind)) && kind == failure,
            None => r matches Err(Error::Ethtool(reason)) && reason@
                == "Could not find Combined queue count in ethtool output"@,
        }
    }
}

/// Reads the number of combined queues off the output of `ethtool -l`.
pub fn parse_queue_count(output: &[u8]) -> (r: Result<u32, Error>)
    ensures
        queue_count_is(true, output@, Seq::<char>::empty(), r),
{
    let current = "Current hardware settings:".as_bytes();
    let word = "Combined:".as_bytes();
    let mut in_current_section = false;
    let mut start: usize = 0;
    loop
        invariant
            start <= output@.len(),
            current@ == current_settings(),
            word@ == combined(),
            queue_count_from(output@, start as int, in_current_section) == queue_count_from(
                output@,
                0,
                false,
            ),
        ensures
            queue_count_from(output@, 0, false) is None,
        decreases output@.len() - start,
    {
        if start >= output.len() {
            break ;
        }
        let end = find_byte(output, NEWLINE, start, output.len());
        if has_word(output, current, start, end) {
            in_current_section = true;
        } else if in_current_section && has_word(output, word, start, end) {
            let colon = find_byte(output, COLON, start, end);
            if colon < end {
                let part_end = find_byte(output, COLON, colon + 1, end);
                let (from, to) = trim(output, colon + 1, part_end);
                return match parse_number(output, from, to) {
                    Ok(count) => Ok(count),
                    Err(failure) => Err(Error::ParseError(failure)),
                };
            }
        }
        if end >= output.len() {
            assert(queue_count_from(output@, end + 1, in_current_section) is None);
            break ;
        }
        start = end + 1;
    }
    Err(Error::Ethtool("Could not find Combined queue count in ethtool output".to_owned()))
}

} // verus!
