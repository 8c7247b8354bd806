//! Image of the device's writable memory: a byte array with a base address.
//! The dispatcher owns a value of this type and mutates it only through
//! validated writes.

use vstd::prelude::*;
use vstd::pervasive::VecAdditionalExecFns;

verus! {

/// Contents of `mem` after copying `data` in at offset `off`; bytes outside
/// the written window keep their old values.
pub open spec fn write_seq(mem: Seq<u8>, off: int, data: Seq<u8>) -> Seq<u8> {
    Seq::new(
        mem.len(),
        |i: int|
            if off <= i && i < off + data.len() {
                data[i - off]
            } else {
                mem[i]
            },
    )
}

/// Writing the same data at the same offset twice changes nothing more than
/// writing it once.
pub proof fn lemma_write_seq_idempotent(mem: Seq<u8>, off: int, data: Seq<u8>)
    ensures
        write_seq(write_seq(mem, off, data), off, data) == write_seq(mem, off, data),
{
    assert(write_seq(write_seq(mem, off, data), off, data) =~= write_seq(mem, off, data));
}

/// A write leaves every byte outside its window unchanged.
pub proof fn lemma_write_seq_frame(mem: Seq<u8>, off: int, data: Seq<u8>, i: int)
    requires
        0 <= i < mem.len(),
        i < off || off + data.len() <= i,
    ensures
        write_seq(mem, off, data)[i] == mem[i],
{
}

/// Directly writable device memory starting at a fixed base address.
pub struct Memory {
    base: u32,
    bytes: Vec<u8>,
}

impl View for Memory {
    type V = Seq<u8>;

    closed spec fn view(&self) -> Seq<u8> {
        self.bytes@
    }
}

impl Memory {
    /// First address the image covers.
    pub closed spec fn base_spec(&self) -> u32 {
        self.base
    }

    /// The covered range stays inside the 32-bit address space.
    pub open spec fn wf(self) -> bool {
        self.base_spec() + self@.len() <= 0x1_0000_0000
    }

    /// A zero-filled image of `size` bytes starting at `base`.
    pub fn new(base: u32, size: u32) -> (r: Memory)
        requires
            base + size <= 0x1_0000_0000,
        ensures
            r.wf(),
            r.base_spec() == base,
            r@ == Seq::new(size as nat, |i: int| 0u8),
    {
        let mut bytes: Vec<u8> = Vec::new();
        let mut i: u32 = 0;
        while i < size
            invariant
                i <= size,
                bytes@ =~= Seq::new(i as nat, |j: int| 0u8),
            decreases size - i,
        {
            bytes.push(0);
            assert(bytes@ =~= Seq::new((i + 1) as nat, |j: int| 0u8));
            i = i + 1;
        }
        Memory { base, bytes }
    }

    pub fn base(&self) -> (r: u32)
        ensures
            r == self.base_spec(),
    {
        self.base
    }

    /// Number of bytes the image covers.
    pub fn size(&self) -> (r: usize)
        ensures
            r == self@.len(),
    {
        self.bytes.len()
    }

    /// The byte at an absolute address inside the image.
    pub fn read_byte(&self, address: u32) -> (r: u8)
        requires
            self.base_spec() <= address,
            address - self.base_spec() < self@.len(),
        ensures
            r == self@[address - self.base_spec()],
    {
        self.bytes[(address - self.base) as usize]
    }

    /// Copy `data` into the image starting at the absolute address
    /// `address`; the caller has already validated the range.
    pub fn write(&mut self, address: u32, data: &[u8])
        requires
            old(self).base_spec() <= address,
            address - old(self).base_spec() + data@.len() <= old(self)@.len(),
        ensures
            final(self).base_spec() == old(self).base_spec(),
            final(self)@ == write_seq(old(self)@, address - old(self).base_spec(), data@),
    {
        let off: usize = (address - self.base) as usize;
        let n = data.len();
        let cap = self.bytes.len();
        assert(off + n <= cap);
        let mut j: usize = 0;
        while j < n
            invariant
                j <= n,
                off + n <= usize::MAX,
                n == data@.len(),
                self.base == old(self).base_spec(),
                off == address - old(self).base_spec(),
                off + n <= self.bytes@.len(),
                self.bytes@.len() == old(self)@.len(),
                self.bytes@ =~= write_seq(old(self)@, off as int, data@.subrange(0, j as int)),
            decreases n - j,
        {
            self.bytes.set(off + j, data[j]);
            assert(self.bytes@ =~= write_seq(
                old(self)@,
                off as int,
                data@.subrange(0, j + 1),
            ));
            j = j + 1;
        }
        assert(data@.subrange(0, n as int) =~= data@);
    }
}

} // verus!
