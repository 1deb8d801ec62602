//! Machine addresses.

use vstd::prelude::*;

verus! {

/// An address in the host process: an opaque 64-bit value. The only
/// arithmetic it offers is a checked offset.
#[derive(Clone, Copy, Debug, PartialEq, Eq, Hash, Structural)]
pub struct Address {
    raw: u64,
}

impl View for Address {
    type V = int;

    closed spec fn view(&self) -> int {
        self.raw as int
    }
}

impl Address {
    /// Two addresses with the same value are the same address.
    pub broadcast proof fn lemma_view_injective(a: Address, b: Address)
        requires
            #[trigger] a@ == #[trigger] b@,
        ensures
            a == b,
    {
    }

    /// Every address fits in 64 bits.
    pub broadcast proof fn lemma_view_range(a: Address)
        ensures
            0 <= #[trigger] a@ <= u64::MAX,
    {
    }

    /// The address with the given value; meaningful for values that fit
    /// in 64 bits.
    pub closed spec fn from_int(value: int) -> Address {
        Address { raw: value as u64 }
    }

    /// The address made from a value that fits in 64 bits has that value.
    pub broadcast proof fn lemma_from_int(value: int)
        requires
            0 <= value <= u64::MAX,
        ensures
            (#[trigger] Address::from_int(value))@ == value,
    {
    }

    /// The address with the value `raw`.
    pub fn new(raw: u64) -> (a: Address)
        ensures
            a@ == raw,
            a == Address::from_int(raw as int),
    {
        Address { raw }
    }

    /// The value of the address.
    pub fn value(self) -> (raw: u64)
        ensures
            raw == self@,
    {
        self.raw
    }

    /// The address `delta` bytes above this one, unless that lies beyond
    /// the end of the address space.
    pub fn offset(self, delta: u64) -> (r: Option<Address>)
        ensures
            match r {
                Some(a) => a@ == self@ + delta && a == Address::from_int(self@ + delta),
                None => self@ + delta > u64::MAX,
            },
    {
        match self.raw.checked_add(delta) {
            Some(raw) => Some(Address { raw }),
            None => None,
        }
    }
}

} // verus!
