//! The slot accessor: a fixed-capacity, host-owned byte buffer through which
//! records are read and overwritten in place.
//!
//! A slot's capacity is fixed when the host hands it over and never changes.
//! A write either replaces the whole buffer (the new bytes followed by zero
//! padding up to the capacity) or fails and leaves the buffer byte-for-byte
//! unchanged; there is no partial overwrite.

use crate::errors::HorseError;
use vstd::prelude::*;

verus! {

/// A fixed-capacity mutable byte buffer supplied by the host, annotated with
/// its write permission.
pub struct Slot {
    data: Vec<u8>,
    writable: bool,
}

/// The mathematical model of a [`Slot`]: its full contents (whose length is
/// the capacity) and its write permission.
#[verifier::ext_equal]
pub ghost struct SlotView {
    pub bytes: Seq<u8>,
    pub writable: bool,
}

impl View for Slot {
    type V = SlotView;

    closed spec fn view(&self) -> SlotView {
        SlotView { bytes: self.data@, writable: self.writable }
    }
}

/// `b` followed by as many zero bytes as it takes to reach `cap`.
pub open spec fn zero_pad(b: Seq<u8>, cap: nat) -> Seq<u8>
    recommends
        b.len() <= cap,
{
    b + Seq::new((cap - b.len()) as nat, |i: int| 0u8)
}

/// What a write does to a slot: on a writable slot with enough capacity the
/// buffer becomes the new bytes zero-padded to the capacity; otherwise the
/// slot is unchanged and the error names the first failed check.
pub open spec fn spec_write(s: SlotView, b: Seq<u8>) -> (SlotView, Result<(), HorseError>) {
    if !s.writable {
        (s, Err(HorseError::WriteDenied))
    } else if b.len() > s.bytes.len() {
        (s, Err(HorseError::CapacityExceeded))
    } else {
        (SlotView { bytes: zero_pad(b, s.bytes.len()), writable: s.writable }, Ok(()))
    }
}

impl Slot {
    /// A fresh zeroed slot of the given capacity.
    pub fn new(capacity: usize, writable: bool) -> (s: Slot)
        ensures
            s@.bytes =~= zero_pad(Seq::empty(), capacity as nat),
            s@.bytes.len() == capacity,
            s@.writable == writable,
    {
        let mut data: Vec<u8> = Vec::new();
        while data.len() < capacity
            invariant
                data@.len() <= capacity,
                forall|i: int| 0 <= i < data@.len() ==> data@[i] == 0u8,
            decreases capacity - data@.len(),
        {
            data.push(0u8);
        }
        let s = Slot { data, writable };
        proof {
            assert(s@.bytes =~= zero_pad(Seq::empty(), capacity as nat));
        }
        s
    }

    /// A slot holding the given bytes; its capacity is their length.
    pub fn from_bytes(data: Vec<u8>, writable: bool) -> (s: Slot)
        ensures
            s@ == (SlotView { bytes: data@, writable }),
    {
        Slot { data, writable }
    }

    /// The slot's fixed capacity in bytes.
    pub fn capacity(&self) -> (n: usize)
        ensures
            n == self@.bytes.len(),
    {
        self.data.len()
    }

    /// Whether the host handed this slot over with write permission.
    pub fn is_writable(&self) -> (w: bool)
        ensures
            w == self@.writable,
    {
        self.writable
    }

    /// The full contents of the slot's buffer: always the whole capacity,
    /// never a partial read.
    pub fn read(&self) -> (r: Vec<u8>)
        ensures
            r@ == self@.bytes,
    {
        let mut out: Vec<u8> = Vec::new();
        let mut i: usize = 0;
        while i < self.data.len()
            invariant
                i <= self.data@.len(),
                out@ =~= self.data@.subrange(0, i as int),
            decreases self.data@.len() - i,
        {
            out.push(self.data[i]);
            i = i + 1;
        }
        proof {
            assert(out@ =~= self@.bytes);
        }
        out
    }

    /// Overwrites the buffer starting at offset zero and zero-pads the rest,
    /// after checking the write permission and the capacity.  On failure the
    /// buffer is left exactly as it was.
    pub fn write(&mut self, bytes: &[u8]) -> (r: Result<(), HorseError>)
        ensures
            (final(self)@, r) == spec_write(old(self)@, bytes@),
    {
        if !self.writable {
            return Err(HorseError::WriteDenied);
        }
        if bytes.len() > self.data.len() {
            return Err(HorseError::CapacityExceeded);
        }
        let cap = self.data.len();
        let n = bytes.len();
        let mut fresh: Vec<u8> = Vec::new();
        let mut i: usize = 0;
        while i < n
            invariant
                i <= n,
                n == bytes@.len(),
                fresh@ =~= bytes@.subrange(0, i as int),
            decreases n - i,
        {
            fresh.push(bytes[i]);
            i = i + 1;
        }
        while fresh.len() < cap
            invariant
                n == bytes@.len(),
                n <= fresh@.len() <= cap,
                fresh@.subrange(0, n as int) =~= bytes@,
                forall|j: int| n <= j < fresh@.len() ==> fresh@[j] == 0u8,
            decreases cap - fresh@.len(),
        {
            fresh.push(0u8);
        }
        self.data = fresh;
        proof {
            assert(self@.bytes =~= zero_pad(bytes@, cap as nat));
            assert(self@ =~= spec_write(old(self)@, bytes@).0);
        }
        Ok(())
    }
}

} // verus!
