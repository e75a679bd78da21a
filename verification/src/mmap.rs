//! The frame region: one contiguous run of bytes that holds every frame.

use vstd::prelude::*;
use vstd::string::StringExecFns;
use crate::text::{decimal_digits, push_decimal, push_signed, signed_digits};

verus! {

/// The error code with which the operating system refuses an empty mapping.
pub const EINVAL: i32 = 22;

/// Why a frame region could not be set up or released.
#[derive(Debug, PartialEq, Eq, Structural)]
pub enum MmapError {
    /// Frame size plus headroom does not fit in 32 bits.
    InvalidFrameSize(u32, u32),
    /// Frame stride times frame count does not fit in 32 bits.
    InvalidLength(u32, u32),
    /// The operating system refused the mapping, with this error code.
    Initialize(i32),
    /// The mapping came back as a null address.
    MmapIsNull,
    /// The operating system refused to release the mapping, with this error
    /// code.
    Free(i32),
}

impl MmapError {
    /// The message of this error.  A failure to release has none.
    pub open spec fn text(self) -> Seq<char> {
        match self {
            MmapError::InvalidFrameSize(frame_size, headroom_size) => "frame size ("@
                + decimal_digits(frame_size as nat) + ") + headroom size ("@ + decimal_digits(
                headroom_size as nat,
            ) + ") exceeds u32::MAX."@,
            MmapError::InvalidLength(frame_size, descriptor_count) => "frame size ("@
                + decimal_digits(frame_size as nat) + ") * descriptor count ("@ + decimal_digits(
                descriptor_count as nat,
            ) + ") exceeds u32::MAX."@,
            MmapError::Initialize(code) => "Failed to initialize `Mmap`: os error "@
                + signed_digits(code as int),
            MmapError::MmapIsNull => "Mmap address is null"@,
            MmapError::Free(_) => Seq::<char>::empty(),
        }
    }

    /// The message of this error.
    pub fn message(&self) -> (text: String)
        ensures
            text@ == self.text(),
    {
        match self {
            MmapError::InvalidFrameSize(frame_size, headroom_size) => {
                let mut text = String::from_str("frame size (");
                push_decimal(&mut text, *frame_size as u64);
                text.append(") + headroom size (");
                push_decimal(&mut text, *headroom_size as u64);
                text.append(") exceeds u32::MAX.");
                text
            },
            MmapError::InvalidLength(frame_size, descriptor_count) => {
                let mut text = String::from_str("frame size (");
                push_decimal(&mut text, *frame_size as u64);
                text.append(") * descriptor count (");
                push_decimal(&mut text, *descriptor_count as u64);
                text.append(") exceeds u32::MAX.");
                text
            },
            MmapError::Initialize(code) => {
                let mut text = String::from_str("Failed to initialize `Mmap`: os error ");
                push_signed(&mut text, *code);
                text
            },
            MmapError::MmapIsNull => String::from_str("Mmap address is null"),
            MmapError::Free(_) => String::new(),
        }
    }
}

/// A zero-initialised, fixed-length region of bytes.
#[derive(Debug)]
pub struct Mmap {
    bytes: Vec<u8>,
    hugetlb: bool,
}

/// The length in bytes of a region of `descriptor_count` frames, each of
/// `frame_size` payload bytes behind `headroom_size` reserved bytes.
pub open spec fn region_length(frame_size: u32, headroom_size: u32, descriptor_count: u32) -> int {
    (frame_size + headroom_size) * descriptor_count
}

/// What `Mmap::new` returns for the given sizes: the error, if any, in the
/// order in which the sizes are checked.
pub open spec fn region_error(frame_size: u32, headroom_size: u32, descriptor_count: u32) -> Option<
    MmapError,
> {
    if frame_size + headroom_size > u32::MAX {
        Some(MmapError::InvalidFrameSize(frame_size, headroom_size))
    } else if region_length(frame_size, headroom_size, descriptor_count) > u32::MAX {
        Some(MmapError::InvalidLength((frame_size + headroom_size) as u32, descriptor_count))
    } else if region_length(frame_size, headroom_size, descriptor_count) == 0 {
        Some(MmapError::Initialize(EINVAL))
    } else {
        None
    }
}

impl View for Mmap {
    type V = Seq<u8>;

    closed spec fn view(&self) -> Seq<u8> {
        self.bytes@
    }
}

impl Mmap {
    /// Whether huge pages were asked for.
    pub closed spec fn hugetlb(&self) -> bool {
        self.hugetlb
    }

    /// Sets up a region for `descriptor_count` frames of `frame_size` payload
    /// bytes and `headroom_size` reserved bytes each.  Both the stride and
    /// the whole length must fit in 32 bits, and the region must not be
    /// empty.
    pub fn new(frame_size: u32, headroom_size: u32, descriptor_count: u32, hugetlb: bool) -> (r:
        Result<Self, MmapError>)
        ensures
            match region_error(frame_size, headroom_size, descriptor_count) {
                Some(error) => r == Err::<Mmap, MmapError>(error),
                None => r is Ok && r->Ok_0@ == Seq::new(
                    region_length(frame_size, headroom_size, descriptor_count) as nat,
                    |i: int| 0u8,
                ) && r->Ok_0.hugetlb() == hugetlb,
            },
    {
        let stride = match frame_size.checked_add(headroom_size) {
            Some(stride) => stride,
            None => {
                return Err(MmapError::InvalidFrameSize(frame_size, headroom_size));
            },
        };
        let length = match stride.checked_mul(descriptor_count) {
            Some(length) => length,
            None => {
                return Err(MmapError::InvalidLength(stride, descriptor_count));
            },
        };
        if length == 0 {
            return Err(MmapError::Initialize(EINVAL));
        }
        let bytes = vec![0u8; length as usize];
        assert(bytes@ =~= Seq::new(length as nat, |i: int| 0u8));
        Ok(Mmap { bytes, hugetlb })
    }

    /// The number of bytes in the region.
    #[inline(always)]
    pub fn length(&self) -> (n: usize)
        ensures
            n == self@.len(),
    {
        self.bytes.len()
    }

    /// Whether huge pages were asked for.
    pub fn uses_hugetlb(&self) -> (b: bool)
        ensures
            b == self.hugetlb(),
    {
        self.hugetlb
    }

    /// The bytes of the region from `start` up to `end`.
    pub fn bytes(&self, start: usize, end: usize) -> (part: &[u8])
        requires
            start <= end <= self@.len(),
        ensures
            part@ == self@.subrange(start as int, end as int),
    {
        vstd::slice::slice_subrange(self.bytes.as_slice(), start, end)
    }

    /// The bytes of the region from `start` up to `end`, to be written.
    pub fn bytes_mut(&mut self, start: usize, end: usize) -> (part: &mut [u8])
        requires
            start <= end <= old(self)@.len(),
        ensures
            part@ == old(self)@.subrange(start as int, end as int),
            final(part)@.len() == end - start,
            final(self)@ == old(self)@.subrange(0, start as int) + final(part)@ + old(self)@.subrange(end as int, old(self)@.len() as int),
            final(self).hugetlb() == old(self).hugetlb(),
    {
        range_mut(&mut self.bytes, start, end)
    }
}

/// Indexing a `Vec<u8>` mutably by a range (`IndexMut<Range<usize>>` of
/// std): the result is the part of `bytes` from `start` up to `end`, of that
/// length for as long as it lives, and what is written through it is what
/// `bytes` holds there afterwards; the bytes outside the range stay.
#[verifier::external_body]
fn range_mut(bytes: &mut Vec<u8>, start: usize, end: usize) -> (part: &mut [u8])
    requires
        start <= end <= old(bytes)@.len(),
    ensures
        part@ == old(bytes)@.subrange(start as int, end as int),
        final(part)@.len() == end - start,
        final(bytes)@ == old(bytes)@.subrange(0, start as int) + final(part)@ + old(bytes)@.subrange(end as int, old(bytes)@.len() as int),
{
    &mut bytes[start..end]
}

} // verus!
