//! The UMEM: the frame region together with the layout of its frames and the
//! two rings that are registered with it.

use vstd::prelude::*;
use vstd::arithmetic::div_mod::{lemma_fundamental_div_mod, lemma_mod_multiples_basic};
use vstd::arithmetic::div_mod::lemma_div_multiples_vanish;
use vstd::arithmetic::mul::lemma_mul_inequality;
use crate::descriptor::Descriptor;
use crate::mmap::Mmap;
use crate::ring::{ring_buffer, Consumer, Producer, RingError};
use crate::text::{push_signed, signed_digits};
use vstd::string::StringExecFns;

verus! {

/// How a UMEM is laid out and how large its two rings are.
#[derive(Clone, Copy, Debug, PartialEq, Eq, Structural)]
pub struct UmemConfig {
    /// Number of slots of the FILL ring.
    pub fill_size: u32,
    /// Number of slots of the COMPLETION ring.
    pub comp_size: u32,
    /// Payload bytes per frame.
    pub frame_size: u32,
    /// Bytes reserved in front of each frame's payload.
    pub frame_headroom: u32,
    /// Kept for zero-copy and alignment hints; always zero here.
    pub flags: u32,
}

/// Why a UMEM could not be set up or released.
#[derive(Debug, PartialEq, Eq, Structural)]
pub enum UmemError {
    /// One of the two rings could not be built.
    RingSize(RingError),
    /// The driver refused the registration, with this error code.
    Initialize(i32),
    /// The driver refused to release the registration, with this error code.
    CleanUp(i32),
}

impl UmemError {
    /// The message of this error.
    pub open spec fn text(self) -> Seq<char> {
        match self {
            UmemError::RingSize(error) => error.text(),
            UmemError::Initialize(code) => "Failed to initialize UMEM: os error "@ + signed_digits(
                code as int,
            ),
            UmemError::CleanUp(code) => "Failed to clean up UMEM: os error "@ + signed_digits(
                code as int,
            ),
        }
    }

    /// The message of this error.
    pub fn message(&self) -> (text: String)
        ensures
            text@ == self.text(),
    {
        match self {
            UmemError::RingSize(error) => error.message(),
            UmemError::Initialize(code) => {
                let mut text = String::from_str("Failed to initialize UMEM: os error ");
                push_signed(&mut text, *code);
                text
            },
            UmemError::CleanUp(code) => {
                let mut text = String::from_str("Failed to clean up UMEM: os error ");
                push_signed(&mut text, *code);
                text
            },
        }
    }
}

/// The address of the first payload byte of frame number `index`.
pub open spec fn frame_address(frame_size: u32, headroom: u32, index: int) -> int {
    index * (frame_size + headroom) + headroom
}

/// The addresses of the first `count` frames, in increasing order.
pub open spec fn seed_addresses(frame_size: u32, headroom: u32, count: u32) -> Seq<u64> {
    Seq::new(count as nat, |index: int| frame_address(frame_size, headroom, index) as u64)
}

/// One frame of a region: the address at which its payload begins, and its
/// bytes from the start of its headroom up to the end of its payload.
pub struct Frame<'a> {
    pub address: u64,
    pub data: &'a mut [u8],
}

/// A frame region with its layout.
#[derive(Debug)]
pub struct Umem {
    mmap: Mmap,
    config: UmemConfig,
}

impl View for Umem {
    type V = Seq<u8>;

    closed spec fn view(&self) -> Seq<u8> {
        self.mmap@
    }
}

impl Umem {
    /// The layout this UMEM was set up with.
    pub closed spec fn layout(&self) -> UmemConfig {
        self.config
    }

    /// Whether the region was set up with huge pages asked for.
    pub closed spec fn hugetlb(&self) -> bool {
        self.mmap.hugetlb()
    }

    /// The distance in bytes from one frame to the next.
    pub open spec fn stride(&self) -> int {
        self.layout().frame_size + self.layout().frame_headroom
    }

    /// The number of whole frames that the region holds.
    pub open spec fn frame_count(&self) -> int {
        if self.stride() > 0 {
            self@.len() as int / self.stride()
        } else {
            0
        }
    }

    /// Whether `address` is where the payload of one of the region's frames
    /// begins.
    pub open spec fn is_frame_address(&self, address: u64) -> bool {
        &&& self.stride() > 0
        &&& address >= self.layout().frame_headroom
        &&& (address - self.layout().frame_headroom) % self.stride() == 0
        &&& (address - self.layout().frame_headroom) + self.stride() <= self@.len()
    }

    /// Whether `descriptor` names a frame of this region and no more bytes
    /// than a frame's payload.
    pub open spec fn holds(&self, descriptor: Descriptor) -> bool {
        self.is_frame_address(descriptor.address) && descriptor.length
            <= self.layout().frame_size
    }

    /// Registers `mmap` as a UMEM of frames of `frame_size` payload bytes
    /// behind `frame_headroom` reserved bytes, and builds its FILL and
    /// COMPLETION rings.  The COMPLETION ring's size is checked first.
    pub fn initialize(
        mmap: Mmap,
        completion_ring_size: u32,
        fill_ring_size: u32,
        frame_size: u32,
        frame_headroom: u32,
    ) -> (r: Result<(Umem, Producer, Consumer), UmemError>)
        ensures
            !vstd::arithmetic::power2::is_pow2(completion_ring_size as int) ==> r == Err::<
                (Umem, Producer, Consumer),
                UmemError,
            >(UmemError::RingSize(RingError::IsNotPowerOfTwo(completion_ring_size))),
            vstd::arithmetic::power2::is_pow2(completion_ring_size as int)
                && !vstd::arithmetic::power2::is_pow2(fill_ring_size as int) ==> r == Err::<
                (Umem, Producer, Consumer),
                UmemError,
            >(UmemError::RingSize(RingError::IsNotPowerOfTwo(fill_ring_size))),
            vstd::arithmetic::power2::is_pow2(completion_ring_size as int)
                && vstd::arithmetic::power2::is_pow2(fill_ring_size as int) ==> r is Ok && ({
                let (umem, fill, completion) = r->Ok_0;
                &&& umem@ == mmap@
                &&& umem.hugetlb() == mmap.hugetlb()
                &&& umem.layout() == (UmemConfig {
                    fill_size: fill_ring_size,
                    comp_size: completion_ring_size,
                    frame_size,
                    frame_headroom,
                    flags: 0,
                })
                &&& fill.wf()
                &&& fill.capacity() == fill_ring_size
                &&& fill.pending() == Seq::<Descriptor>::empty()
                &&& fill.reserved() == 0
                &&& fill.producer_index() == 0
                &&& fill.consumer_index() == 0
                &&& completion.wf()
                &&& completion.capacity() == completion_ring_size
                &&& completion.pending() == Seq::<Descriptor>::empty()
                &&& completion.peeked() == 0
                &&& completion.producer_index() == 0
                &&& completion.consumer_index() == 0
            }),
    {
        let completion = match ring_buffer(completion_ring_size) {
            Ok((_, consumer)) => consumer,
            Err(error) => {
                return Err(UmemError::RingSize(error));
            },
        };
        let fill = match ring_buffer(fill_ring_size) {
            Ok((producer, _)) => producer,
            Err(error) => {
                return Err(UmemError::RingSize(error));
            },
        };
        let config = UmemConfig {
            fill_size: fill_ring_size,
            comp_size: completion_ring_size,
            frame_size,
            frame_headroom,
            flags: 0,
        };
        Ok((Umem { mmap, config }, fill, completion))
    }

    /// The frame region.
    pub fn mmap(&self) -> (mmap: &Mmap)
        ensures
            mmap@ == self@,
            mmap.hugetlb() == self.hugetlb(),
    {
        &self.mmap
    }

    /// The layout this UMEM was set up with.
    pub fn config(&self) -> (config: UmemConfig)
        ensures
            config == self.layout(),
    {
        self.config
    }

    /// Whether `descriptor` names a frame of this region and no more bytes
    /// than a frame's payload.
    pub fn contains(&self, descriptor: &Descriptor) -> (r: bool)
        ensures
            r == self.holds(*descriptor),
    {
        let headroom = self.config.frame_headroom as u64;
        let stride = self.config.frame_size as u64 + headroom;
        if stride == 0 || descriptor.address < headroom {
            return false;
        }
        let offset = descriptor.address - headroom;
        let length = self.mmap.length() as u64;
        offset % stride == 0 && offset <= length && stride <= length - offset && descriptor.length
            <= self.config.frame_size
    }

    /// The bytes of `descriptor`'s frame from the start of its headroom up to
    /// the end of its payload.
    pub fn frame(&self, descriptor: &Descriptor) -> (bytes: &[u8])
        requires
            self.holds(*descriptor),
        ensures
            bytes@ == self@.subrange(
                descriptor.address - self.layout().frame_headroom,
                descriptor.address + descriptor.length,
            ),
    {
        let total = self.mmap.length();
        let start = descriptor.address - self.config.frame_headroom as u64;
        let end = descriptor.address + descriptor.length as u64;
        self.mmap.bytes(start as usize, end as usize)
    }

    /// Frame number `index` of the region, to be written, if the region
    /// holds that many whole frames.  Nothing else in the region changes.
    pub fn frame_at(&mut self, index: u32) -> (frame: Option<Frame<'_>>)
        ensures
            final(self).layout() == old(self).layout(),
            final(self).hugetlb() == old(self).hugetlb(),
            frame is Some == (index < old(self).frame_count()),
            frame is None ==> final(self)@ == old(self)@,
            frame matches Some(found) ==> {
                &&& found.address == frame_address(
                    old(self).layout().frame_size,
                    old(self).layout().frame_headroom,
                    index as int,
                )
                &&& old(self).is_frame_address(found.address)
                &&& found.data@ == old(self)@.subrange(
                    index * old(self).stride(),
                    (index + 1) * old(self).stride(),
                )
                &&& final(found.data)@.len() == old(self).stride()
                &&& final(self)@ == old(self)@.subrange(0, index * old(self).stride()) + final(found.data)@ + old(self)@.subrange(
                    (index + 1) * old(self).stride(),
                    old(self)@.len() as int,
                )
            },
    {
        let stride = self.config.frame_size as u64 + self.config.frame_headroom as u64;
        let length = self.mmap.length() as u64;
        if stride == 0 {
            return None;
        }
        let count = length / stride;
        proof {
            assert(count == self.frame_count());
        }
        if index as u64 >= count {
            return None;
        }
        proof {
            lemma_fundamental_div_mod(length as int, stride as int);
            lemma_mul_inequality(index + 1, count as int, stride as int);
            assert((index + 1) * stride == index * stride + stride) by (nonlinear_arith);
            assert(count * stride == stride * count) by (nonlinear_arith);
            assert(index * stride >= 0) by (nonlinear_arith)
                requires
                    index >= 0,
                    stride >= 0,
            ;
        }
        let start = index as u64 * stride;
        let address = start + self.config.frame_headroom as u64;
        proof {
            lemma_frame_address_is_valid(*self, index as int, address);
        }
        let data = self.mmap.bytes_mut(start as usize, (start + stride) as usize);
        Some(Frame { address, data })
    }

    /// The bytes of `descriptor`'s frame from the start of its headroom up to
    /// the end of its payload, to be written.  Nothing else in the region
    /// changes.
    pub fn frame_mut(&mut self, descriptor: &Descriptor) -> (bytes: &mut [u8])
        requires
            old(self).holds(*descriptor),
        ensures
            bytes@ == old(self)@.subrange(
                descriptor.address - old(self).layout().frame_headroom,
                descriptor.address + descriptor.length,
            ),
            final(bytes)@.len() == old(self).layout().frame_headroom + descriptor.length,
            final(self)@ == old(self)@.subrange(
                0,
                descriptor.address - old(self).layout().frame_headroom,
            ) + final(bytes)@ + old(self)@.subrange(
                descriptor.address + descriptor.length,
                old(self)@.len() as int,
            ),
            final(self).layout() == old(self).layout(),
            final(self).hugetlb() == old(self).hugetlb(),
    {
        let total = self.mmap.length();
        let start = descriptor.address - self.config.frame_headroom as u64;
        let end = descriptor.address + descriptor.length as u64;
        self.mmap.bytes_mut(start as usize, end as usize)
    }
}

/// Frame number `index` of a region that holds more than `index` whole frames
/// begins at a frame address, and `index` is recovered from that address by
/// division.
pub proof fn lemma_frame_address_is_valid(umem: Umem, index: int, address: u64)
    requires
        0 <= index < umem.frame_count(),
        address == frame_address(umem.layout().frame_size, umem.layout().frame_headroom, index),
    ensures
        umem.is_frame_address(address),
        (address - umem.layout().frame_headroom) / umem.stride() == index,
{
    let stride = umem.stride();
    let length = umem@.len() as int;
    let count = umem.frame_count();
    lemma_fundamental_div_mod(length, stride);
    assert(stride * count <= length);
    lemma_mul_inequality(index + 1, count, stride);
    assert((index + 1) * stride == index * stride + stride) by (nonlinear_arith);
    assert(count * stride == stride * count) by (nonlinear_arith);
    lemma_mod_multiples_basic(index, stride);
    lemma_div_multiples_vanish(index, stride);
}

/// Every frame address of a region is the address of one of its whole
/// frames.
pub proof fn lemma_frame_address_has_index(umem: Umem, address: u64)
    requires
        umem.is_frame_address(address),
    ensures
        0 <= (address - umem.layout().frame_headroom) / umem.stride() < umem.frame_count(),
        address == frame_address(
            umem.layout().frame_size,
            umem.layout().frame_headroom,
            (address - umem.layout().frame_headroom) / umem.stride(),
        ),
{
    let stride = umem.stride();
    let length = umem@.len() as int;
    let offset = address - umem.layout().frame_headroom;
    let index = offset / stride;
    lemma_fundamental_div_mod(offset, stride);
    lemma_fundamental_div_mod(length, stride);
    assert(stride * index == index * stride) by (nonlinear_arith);
    assert(index >= 0 && index < umem.frame_count()) by (nonlinear_arith)
        requires
            stride > 0,
            offset >= 0,
            offset == stride * index,
            offset + stride <= length,
            length == stride * umem.frame_count() + length % stride,
            0 <= length % stride < stride,
    ;
}

} // verus!
