//! Packet descriptors: the `(address, length)` records that travel through
//! the RX and TX rings.

use vstd::prelude::*;
use crate::socket::Socket;
use crate::umem::Umem;

verus! {

/// One packet inside the frame region: the offset of its first payload byte
/// and the number of payload bytes.
#[derive(Clone, Copy, Debug, PartialEq, Eq, Structural)]
pub struct Descriptor {
    pub address: u64,
    pub length: u32,
}

impl Default for Descriptor {
    fn default() -> (d: Self)
        ensures
            d == (Descriptor { address: 0, length: 0 }),
    {
        Descriptor { address: 0, length: 0 }
    }
}

impl Descriptor {
    pub fn new(address: u64, length: u32) -> (d: Self)
        ensures
            d == (Descriptor { address, length }),
    {
        Descriptor { address, length }
    }

    #[inline(always)]
    pub fn address(&self) -> (a: u64)
        ensures
            a == self.address,
    {
        self.address
    }

    #[inline(always)]
    pub fn length(&self) -> (l: u32)
        ensures
            l == self.length,
    {
        self.length
    }

    /// The bytes of this packet's frame, headroom included: the region's
    /// bytes from `address - headroom` up to `address + length`.  So the
    /// slice is `headroom + length` bytes long, and what follows its first
    /// `headroom` bytes begins at offset `address` of the region.
    #[inline(always)]
    pub fn as_slice<'a>(&self, umem: &'a Umem) -> (bytes: &'a [u8])
        requires
            umem.holds(*self),
        ensures
            bytes@ == umem@.subrange(
                self.address - umem.layout().frame_headroom,
                self.address + self.length,
            ),
            bytes@.len() == umem.layout().frame_headroom + self.length,
            bytes@.skip(umem.layout().frame_headroom as int) == umem@.subrange(
                self.address as int,
                self.address + self.length,
            ),
    {
        let bytes = umem.frame(self);
        assert(bytes@.skip(umem.layout().frame_headroom as int) =~= umem@.subrange(
            self.address as int,
            self.address + self.length,
        ));
        bytes
    }

    /// The same bytes as [`Descriptor::as_slice`], to be written.  What is
    /// written through the slice is what the region holds there afterwards;
    /// the rest of the region stays.
    #[inline(always)]
    pub fn as_slice_mut<'a>(&mut self, umem: &'a mut Umem) -> (bytes: &'a mut [u8])
        requires
            old(umem).holds(*old(self)),
        ensures
            *final(self) == *old(self),
            bytes@ == old(umem)@.subrange(
                old(self).address - old(umem).layout().frame_headroom,
                old(self).address + old(self).length,
            ),
            final(bytes)@.len() == old(umem).layout().frame_headroom + old(self).length,
            final(umem)@ == old(umem)@.subrange(
                0,
                old(self).address - old(umem).layout().frame_headroom,
            ) + final(bytes)@ + old(umem)@.subrange(
                old(self).address + old(self).length,
                old(umem)@.len() as int,
            ),
            final(umem).layout() == old(umem).layout(),
            final(umem).hugetlb() == old(umem).hugetlb(),
    {
        umem.frame_mut(self)
    }

    /// The same bytes as [`Descriptor::as_slice`], of the region of
    /// `socket`, to be written.  The free pool and the binding of `socket`
    /// stay.
    #[inline(always)]
    pub fn get_data<'a>(&mut self, socket: &'a mut Socket) -> (bytes: &'a mut [u8])
        requires
            old(socket).region().holds(*old(self)),
        ensures
            *final(self) == *old(self),
            bytes@ == old(socket).region()@.subrange(
                old(self).address - old(socket).region().layout().frame_headroom,
                old(self).address + old(self).length,
            ),
            final(bytes)@.len() == old(socket).region().layout().frame_headroom + old(self).length,
            final(socket).region()@ == old(socket).region()@.subrange(
                0,
                old(self).address - old(socket).region().layout().frame_headroom,
            ) + final(bytes)@ + old(socket).region()@.subrange(
                old(self).address + old(self).length,
                old(socket).region()@.len() as int,
            ),
            final(socket).region().layout() == old(socket).region().layout(),
            final(socket).pool() == old(socket).pool(),
            final(socket).interface() == old(socket).interface(),
            final(socket).queue() == old(socket).queue(),
            final(socket).zero_copy() == old(socket).zero_copy(),
    {
        let umem = socket.umem_mut();
        umem.frame_mut(self)
    }
}

/// The frame addresses of a run of descriptors, in order.
pub open spec fn addresses(entries: Seq<Descriptor>) -> Seq<u64> {
    entries.map_values(|d: Descriptor| d.address)
}

} // verus!
