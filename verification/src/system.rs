//! What the engine asks of the system it runs on: Linux, with a kernel of
//! version 5.10 or newer.

use vstd::prelude::*;
use vstd::string::{StringExecFns, StringSliceAdditionalSpecFns};
use vstd::utf8::valid_utf8;
use crate::text::{
    decimal_digits, find_byte, has_word, number, parse_number, position_of, push_decimal,
    trim, trimmed_end, trimmed_start, DOT,
};

verus! {

/// The oldest kernel that is supported: its major version.
pub const MINIMUM_MAJOR: u32 = 5;

/// The oldest kernel that is supported: its minor version.
pub const MINIMUM_MINOR: u32 = 10;

/// Why the system does not do.
#[derive(Debug, PartialEq, Eq, Structural)]
pub enum SystemInfoError {
    /// The operating system is not Linux.
    UnsupportedOs,
    /// The kernel did not tell its release.
    KernelVersionNotFound,
    /// The kernel's release is not of the form `major.minor`, with anything
    /// after a second dot.
    ParseKernelVersion,
    /// The kernel is older than 5.10.
    UnsupportedKernelVersion { major: u32, minor: u32 },
    /// A pattern of library paths could not be expanded.
    GlobExpansionFailed,
}

/// The major and minor version that a kernel release spells: its first two
/// fields, where fields are parted by dots and the third field is all that
/// follows the second dot.
pub open spec fn kernel_version(release: Seq<u8>) -> Option<(u32, u32)> {
    let major_end = position_of(release, DOT, 0, release.len() as int);
    let minor_end = position_of(release, DOT, major_end + 1, release.len() as int);
    if major_end >= release.len() {
        None
    } else {
        match (
            number(release.subrange(0, major_end)),
            number(release.subrange(major_end + 1, minor_end)),
        ) {
            (Ok(major), Ok(minor)) => Some((major, minor)),
            _ => None,
        }
    }
}

/// Whether version `major.minor` is older than 5.10.
pub open spec fn too_old(major: u32, minor: u32) -> bool {
    major < MINIMUM_MAJOR || (major == MINIMUM_MAJOR && minor < MINIMUM_MINOR)
}

/// What `check_system_info` answers.
pub open spec fn system_verdict(is_linux: bool, release: Option<Seq<u8>>) -> Result<
    (),
    SystemInfoError,
> {
    if !is_linux {
        Err(SystemInfoError::UnsupportedOs)
    } else {
        match release {
            None => Err(SystemInfoError::KernelVersionNotFound),
            Some(bytes) => if !valid_utf8(bytes) {
                Err(SystemInfoError::ParseKernelVersion)
            } else {
                match kernel_version(bytes) {
                    None => Err(SystemInfoError::ParseKernelVersion),
                    Some((major, minor)) => if too_old(major, minor) {
                        Err(SystemInfoError::UnsupportedKernelVersion { major, minor })
                    } else {
                        Ok(())
                    },
                }
            },
        }
    }
}

/// Whether `bytes` is UTF-8, as `core::str::from_utf8` tells: it returns
/// `Ok` for a slice that is valid UTF-8 and `Err` for any other.
#[verifier::external_body]
fn is_utf8(bytes: &[u8]) -> (valid: bool)
    ensures
        valid == valid_utf8(bytes@),
{
    core::str::from_utf8(bytes).is_ok()
}

/// Reads the major and minor version off a kernel release.
pub fn parse_kernel_release(release: &[u8]) -> (version: Option<(u32, u32)>)
    ensures
        version == kernel_version(release@),
{
    let major_end = find_byte(release, DOT, 0, release.len());
    if major_end >= release.len() {
        return None;
    }
    let minor_end = find_byte(release, DOT, major_end + 1, release.len());
    let major = parse_number(release, 0, major_end);
    let minor = parse_number(release, major_end + 1, minor_end);
    match (major, minor) {
        (Ok(major), Ok(minor)) => Some((major, minor)),
        _ => None,
    }
}

/// Checks that the system does: `is_linux` tells whether the operating
/// system is Linux, and `release` is the release that the kernel told, if
/// it told one, as bytes.
pub fn check_system_info(is_linux: bool, release: Option<&[u8]>) -> (r: Result<
    (),
    SystemInfoError,
>)
    ensures
        r == system_verdict(
            is_linux,
            match release {
                Some(bytes) => Some(bytes@),
                None => None,
            },
        ),
{
    if !is_linux {
        return Err(SystemInfoError::UnsupportedOs);
    }
    let bytes = match release {
        Some(bytes) => bytes,
        None => {
            return Err(SystemInfoError::KernelVersionNotFound);
        },
    };
    if !is_utf8(bytes) {
        return Err(SystemInfoError::ParseKernelVersion);
    }
    let (major, minor) = match parse_kernel_release(bytes) {
        Some(version) => version,
        None => {
            return Err(SystemInfoError::ParseKernelVersion);
        },
    };
    if major < MINIMUM_MAJOR || (major == MINIMUM_MAJOR && minor < MINIMUM_MINOR) {
        return Err(SystemInfoError::UnsupportedKernelVersion { major, minor });
    }
    Ok(())
}

/// The byte with which a comment begins.
pub const HASH: u8 = 35;

/// What one line of a library search configuration asks for.
#[derive(Clone, Copy, Debug, PartialEq, Eq, Structural)]
pub enum LdSoLine {
    /// Nothing: the line is blank or a comment.
    Skip,
    /// To read the files that match the pattern that stands in the line
    /// from the first place up to the second.
    Include(usize, usize),
    /// To search the directory whose path stands in the line from the first
    /// place up to the second.
    Path(usize, usize),
}

/// The word with which a line that names further files begins.
pub open spec fn include_word() -> Seq<u8> {
    "include".spec_bytes()
}

/// What `line` asks for.  White space around the line does not count.  A
/// line that is empty or begins with `#` asks for nothing.  A line that
/// begins with `include` names a pattern: what follows that word, without
/// the white space around it.  Any other line is a path.
pub open spec fn ld_so_line(line: Seq<u8>) -> LdSoLine {
    let from = trimmed_start(line, 0, line.len() as int);
    let to = trimmed_end(line, from, line.len() as int);
    let word = include_word();
    if from >= to || line[from] == HASH {
        LdSoLine::Skip
    } else if to - from >= word.len() && line.subrange(from, from + word.len()) == word {
        let pattern = trimmed_start(line, from + word.len(), to);
        LdSoLine::Include(pattern as usize, trimmed_end(line, pattern, to) as usize)
    } else {
        LdSoLine::Path(from as usize, to as usize)
    }
}

/// Reads one line of a library search configuration.
pub fn parse_ld_so_line(line: &[u8]) -> (asked: LdSoLine)
    ensures
        asked == ld_so_line(line@),
        match asked {
            LdSoLine::Skip => true,
            LdSoLine::Include(from, to) => from <= to <= line@.len(),
            LdSoLine::Path(from, to) => from < to <= line@.len(),
        },
{
    let (from, to) = trim(line, 0, line.len());
    if from >= to || line[from] == HASH {
        return LdSoLine::Skip;
    }
    let word = "include".as_bytes();
    if to - from >= word.len() {
        let mut same: usize = 0;
        while same < word.len() && line[from + same] == word[same]
            invariant
                same <= word@.len(),
                from + word@.len() <= to <= line@.len(),
                forall|i: int| 0 <= i < same ==> line@[from + i] == word@[i],
            decreases word@.len() - same,
        {
            same = same + 1;
        }
        if same == word.len() {
            assert(line@.subrange(from as int, from + word@.len()) =~= word@);
            let (pattern_from, pattern_to) = trim(line, from + word.len(), to);
            return LdSoLine::Include(pattern_from, pattern_to);
        }
        assert(line@.subrange(from as int, from + word@.len())[same as int] != word@[same as int]);
    }
    LdSoLine::Path(from, to)
}

/// The multiarch library directory of a machine: `/usr/lib/`, the name of
/// the machine, and `-linux-gnu`.
pub fn multiarch_path(machine: &str) -> (path: String)
    ensures
        path@ == "/usr/lib/"@ + machine@ + "-linux-gnu"@,
{
    let mut path = String::from_str("/usr/lib/");
    path.append(machine);
    path.append("-linux-gnu");
    path
}

/// Adds `path` to `paths` if it names a directory and is not among them.
/// Returns whether it was added.
pub fn add_library_path(paths: &mut Vec<String>, path: String, is_dir: bool) -> (added: bool)
    ensures
        added == (is_dir && forall|i: int| 0 <= i < old(paths)@.len() ==> old(paths)@[i]@ != path@),
        added ==> final(paths)@ == old(paths)@.push(path),
        !added ==> final(paths)@ == old(paths)@,
{
    if !is_dir {
        return false;
    }
    let mut at: usize = 0;
    while at < paths.len()
        invariant
            at <= paths@.len(),
            paths@ == old(paths)@,
            forall|i: int| 0 <= i < at ==> paths@[i]@ != path@,
        decreases paths@.len() - at,
    {
        if paths[at] == path {
            return false;
        }
        at = at + 1;
    }
    paths.push(path);
    true
}

impl SystemInfoError {
    /// The message of this error.
    pub open spec fn text(self) -> Seq<char> {
        match self {
            SystemInfoError::UnsupportedOs => "Unsupported OS. Currently supports Linux only"@,
            SystemInfoError::KernelVersionNotFound => "Kernel version not found"@,
            SystemInfoError::ParseKernelVersion => "Failed to parse kernel version"@,
            SystemInfoError::UnsupportedKernelVersion { major, minor } =>
                "Unsupported kernel version "@ + decimal_digits(major as nat) + "."@
                    + decimal_digits(minor as nat) + ". Requires 5.10 or newer"@,
            SystemInfoError::GlobExpansionFailed => "Failed to expand glob pattern"@,
        }
    }

    /// The message of this error.
    pub fn message(&self) -> (text: String)
        ensures
            text@ == self.text(),
    {
        match self {
            SystemInfoError::UnsupportedOs => String::from_str(
                "Unsupported OS. Currently supports Linux only",
            ),
            SystemInfoError::KernelVersionNotFound => String::from_str("Kernel version not found"),
            SystemInfoError::ParseKernelVersion => String::from_str(
                "Failed to parse kernel version",
            ),
            SystemInfoError::UnsupportedKernelVersion { major, minor } => {
                let mut text = String::from_str("Unsupported kernel version ");
                push_decimal(&mut text, *major as u64);
                text.append(".");
                push_decimal(&mut text, *minor as u64);
                text.append(". Requires 5.10 or newer");
                text
            },
            SystemInfoError::GlobExpansionFailed => String::from_str(
                "Failed to expand glob pattern",
            ),
        }
    }
}

} // verus!
