//! A snapshot of a range of host memory, and the search for a signature in it.

use crate::address::Address;
use crate::pattern::{
    first_match, first_match_from, lemma_first_match_from, lemma_first_match_is_earliest,
    lemma_first_match_none, matches_at, Pattern,
};
use vstd::prelude::*;
use vstd::slice::slice_subrange;

verus! {

/// The bytes that were read from the host at `base` and above. Nothing in
/// the library reads host memory itself: every read goes through a region,
/// and stays inside it.
pub struct MemoryRegion {
    base: Address,
    bytes: Vec<u8>,
}

impl View for MemoryRegion {
    type V = Seq<u8>;

    closed spec fn view(&self) -> Seq<u8> {
        self.bytes@
    }
}

impl MemoryRegion {
    /// The address of the region's first byte.
    pub closed spec fn spec_base(&self) -> Address {
        self.base
    }

    /// The region does not reach beyond the end of the address space.
    #[verifier::type_invariant]
    pub closed spec fn wf(&self) -> bool {
        self.base@ + self.bytes@.len() <= u64::MAX + 1
    }

    /// The address of the first match of `pattern` in the region.
    pub open spec fn spec_scan(&self, pattern: Seq<Option<u8>>) -> Option<Address> {
        match first_match(self@, pattern) {
            Some(k) => Some(Address::from_int(self.spec_base()@ + k)),
            None => None,
        }
    }

    /// The region that holds `bytes` at `base`; none where the bytes would
    /// not fit below the end of the address space.
    pub fn new(base: Address, bytes: Vec<u8>) -> (r: Option<MemoryRegion>)
        ensures
            r is Some <==> base@ + bytes@.len() <= u64::MAX + 1,
            r matches Some(m) ==> m.spec_base() == base && m@ == bytes@ && m.wf(),
    {
        let room: u64 = u64::MAX - base.value();
        if bytes.len() == 0 || (bytes.len() - 1) as u64 <= room {
            Some(MemoryRegion { base, bytes })
        } else {
            None
        }
    }

    #[verifier::when_used_as_spec(spec_base)]
    pub fn base(&self) -> (a: Address)
        ensures
            a == self.spec_base(),
    {
        self.base
    }

    pub fn len(&self) -> (n: usize)
        ensures
            n == self@.len(),
    {
        self.bytes.len()
    }

    /// The byte at address `at`; none where `at` lies outside the region.
    pub fn read(&self, at: Address) -> (r: Option<u8>)
        ensures
            r == if self.spec_base()@ <= at@ < self.spec_base()@ + self@.len() {
                Some(self@[at@ - self.spec_base()@])
            } else {
                None
            },
    {
        proof {
            use_type_invariant(self);
        }
        let a: u64 = at.value();
        let b: u64 = self.base.value();
        if a < b {
            return None;
        }
        let k: u64 = a - b;
        if k < self.bytes.len() as u64 {
            Some(self.bytes[k as usize])
        } else {
            None
        }
    }

    /// Whether the `len` bytes at `at` lie inside the region.
    pub open spec fn spec_holds(&self, at: Address, len: int) -> bool {
        self.spec_base()@ <= at@ && 0 <= len && at@ + len <= self.spec_base()@ + self@.len()
    }

    /// The region's bytes with `bytes` written at address `at`.
    pub open spec fn spec_written(&self, at: Address, bytes: Seq<u8>) -> Seq<u8> {
        let k = at@ - self.spec_base()@;
        self@.take(k) + bytes + self@.skip(k + bytes.len())
    }

    /// The offset of `at` in the region, where the `len` bytes at `at` lie
    /// inside it.
    fn offset_of(&self, at: Address, len: usize) -> (r: Option<usize>)
        ensures
            r is Some <==> self.spec_holds(at, len as int),
            r matches Some(k) ==> k == at@ - self.spec_base()@ && k + len <= self@.len()
                <= usize::MAX,
    {
        let a: u64 = at.value();
        let b: u64 = self.base.value();
        if a < b {
            return None;
        }
        let k: u64 = a - b;
        let n: usize = self.bytes.len();
        if k <= n as u64 && len <= n - k as usize {
            Some(k as usize)
        } else {
            None
        }
    }

    /// The `len` bytes at address `at`; none where they do not all lie
    /// inside the region.
    pub fn window(&self, at: Address, len: usize) -> (r: Option<&[u8]>)
        ensures
            r is Some <==> self.spec_holds(at, len as int),
            r matches Some(bytes) ==> bytes@ == self@.subrange(
                at@ - self.spec_base()@,
                at@ - self.spec_base()@ + len,
            ),
    {
        match self.offset_of(at, len) {
            Some(k) => Some(slice_subrange(self.bytes.as_slice(), k, k + len)),
            None => None,
        }
    }

    /// Writes `bytes` at address `at`, where they all lie inside the
    /// region; otherwise nothing is written.
    pub fn write(&mut self, at: Address, bytes: &[u8]) -> (done: bool)
        ensures
            done == old(self).spec_holds(at, bytes@.len() as int),
            final(self).spec_base() == old(self).spec_base(),
            final(self)@ == if done {
                old(self).spec_written(at, bytes@)
            } else {
                old(self)@
            },
            final(self).wf(),
    {
        proof {
            use_type_invariant(&*self);
        }
        let k: usize = match self.offset_of(at, bytes.len()) {
            Some(k) => k,
            None => {
                return false;
            },
        };
        let mut patched: Vec<u8> = Vec::new();
        core::mem::swap(&mut self.bytes, &mut patched);
        let mut i: usize = 0;
        while i < bytes.len()
            invariant
                i <= bytes@.len(),
                k + bytes@.len() <= patched@.len() <= usize::MAX,
                patched@.len() == old(self).bytes@.len(),
                patched@ == old(self).bytes@.take(k as int) + bytes@.take(i as int) + old(
                    self,
                ).bytes@.skip(k + i),
            decreases bytes@.len() - i,
        {
            patched.set(k + i, bytes[i]);
            i += 1;
        }
        self.bytes = patched;
        true
    }

    /// Whether `pattern` matches at offset `k`, which leaves room for it.
    fn matches_here(&self, pattern: &Pattern, k: usize) -> (r: bool)
        requires
            k + pattern@.len() <= self@.len(),
        ensures
            r == matches_at(self@, pattern@, k as int),
    {
        let n: usize = pattern.len();
        assert(self@.len() == self.bytes.len());
        let mut i: usize = 0;
        while i < n
            invariant
                i <= n,
                n == pattern@.len(),
                k + n <= self@.len() <= usize::MAX,
                forall|j: int|
                    0 <= j < i ==> (#[trigger] pattern@[j] matches Some(b) ==> self@[k + j] == b),
            decreases n - i,
        {
            match pattern.cell(i) {
                Some(Some(b)) => {
                    if self.bytes[k + i] != b {
                        return false;
                    }
                },
                _ => {},
            }
            i += 1;
        }
        true
    }

    /// Searches the region, offset by offset, for the first place where every
    /// byte that `pattern` names is found; wildcards match anything. Returns
    /// that place's address, or nothing where the pattern matches nowhere.
    /// No offset is tried at which the pattern would reach beyond the region.
    pub fn scan(&self, pattern: &Pattern) -> (r: Option<Address>)
        ensures
            r == self.spec_scan(pattern@),
            r matches Some(a) ==> self.spec_base()@ <= a@ && a@ + pattern@.len()
                <= self.spec_base()@ + self@.len() && matches_at(
                self@,
                pattern@,
                a@ - self.spec_base()@,
            ) && forall|j: int| 0 <= j < a@ - self.spec_base()@ ==> !matches_at(self@, pattern@, j),
            r is None ==> forall|k: int| !matches_at(self@, pattern@, k),
    {
        proof {
            use_type_invariant(self);
            lemma_first_match_from(self@, pattern@, 0);
            Address::lemma_view_range(self.base);
        }
        let n: usize = pattern.len();
        let m: usize = self.bytes.len();
        if n > m {
            return None;
        }
        let last: usize = m - n;
        let mut k: usize = 0;
        while k <= last
            invariant
                k <= last + 1,
                last == m - n,
                n == pattern@.len(),
                m == self@.len(),
                0 < n <= m,
                0 <= self.base@,
                self.wf(),
                first_match(self@, pattern@) == first_match_from(self@, pattern@, k as int),
            decreases last + 1 - k,
        {
            if self.matches_here(pattern, k) {
                let found = self.base.offset(k as u64);
                proof {
                    Address::lemma_from_int(self.base@ + k);
                    lemma_first_match_from(self@, pattern@, 0);
                }
                return found;
            }
            k += 1;
        }
        None
    }
}

/// Where `pattern` matches at offset `k` of the region and at no earlier
/// offset, the scan returns the address `k` bytes above the region's base.
pub proof fn lemma_scan_finds_earliest(region: MemoryRegion, pattern: Pattern, k: int)
    requires
        region.wf(),
        pattern.wf(),
        matches_at(region@, pattern@, k),
        forall|j: int| 0 <= j < k ==> !matches_at(region@, pattern@, j),
    ensures
        region.spec_scan(pattern@) matches Some(a) && a@ == region.spec_base()@ + k,
{
    lemma_first_match_is_earliest(region@, pattern@, k);
    Address::lemma_view_range(region.spec_base());
    Address::lemma_from_int(region.spec_base()@ + k);
}

/// Where `pattern` matches at no offset of the region, the scan returns
/// nothing. Whatever it returns is a place where the pattern matches and
/// lies wholly inside the region.
pub proof fn lemma_scan_no_false_positive(region: MemoryRegion, pattern: Pattern)
    requires
        region.wf(),
        pattern.wf(),
    ensures
        (forall|k: int| !matches_at(region@, pattern@, k)) ==> region.spec_scan(pattern@) is None,
        region.spec_scan(pattern@) matches Some(a) ==> region.spec_base()@ <= a@ && a@
            + pattern@.len() <= region.spec_base()@ + region@.len() && matches_at(
            region@,
            pattern@,
            a@ - region.spec_base()@,
        ),
{
    lemma_first_match_none(region@, pattern@);
    Address::lemma_view_range(region.spec_base());
    if let Some(k) = first_match(region@, pattern@) {
        Address::lemma_from_int(region.spec_base()@ + k);
    }
}

} // verus!
