//! The resolution table: addresses found once and kept.
//!
//! An entry is resolved either by asking the host for a name or by
//! scanning the host's code for a signature. A resolved entry stays as it
//! is; a failed lookup leaves no trace, so that it can be tried again.

use crate::address::Address;
use crate::error::Error;
use crate::pattern::Pattern;
use crate::region::MemoryRegion;
use std::collections::HashMap;
use vstd::prelude::*;

verus! {

broadcast use vstd::std_specs::hash::group_hash_axioms;

/// What an entry is found by.
pub enum SymbolKey {
    /// A name that the host's symbol provider is asked for.
    Name(String),
    /// A signature that the host's code is scanned for.
    Pattern(Pattern),
}

/// The table of resolved entries, each under the number of its entry.
pub struct Resolver {
    table: HashMap<u64, Address>,
}

impl View for Resolver {
    type V = Map<u64, Address>;

    closed spec fn view(&self) -> Map<u64, Address> {
        self.table@
    }
}

/// What the strategy of `key` finds: for a name, the host's answer; for a
/// signature, the first match in `text`.
pub open spec fn spec_found(key: SymbolKey, text: MemoryRegion, answer: Option<Address>) -> Option<
    Address,
> {
    match key {
        SymbolKey::Name(_) => answer,
        SymbolKey::Pattern(pattern) => text.spec_scan(pattern@),
    }
}

/// The error of a strategy that found nothing.
pub open spec fn spec_missing(key: SymbolKey) -> Error {
    match key {
        SymbolKey::Name(_) => Error::SymbolNotFound,
        SymbolKey::Pattern(_) => Error::PatternNotFound,
    }
}

/// The table after entry `id` was asked for, and what the caller gets,
/// where the strategy finds `found` and fails with `missing`: an entry that
/// is there is returned as it is, one that is found is added, and a failure
/// changes nothing.
pub open spec fn spec_settle(
    table: Map<u64, Address>,
    id: u64,
    found: Option<Address>,
    missing: Error,
) -> (Map<u64, Address>, Result<Address, Error>) {
    if table.contains_key(id) {
        (table, Ok(table[id]))
    } else {
        match found {
            Some(address) => (table.insert(id, address), Ok(address)),
            None => (table, Err(missing)),
        }
    }
}

/// The table after entry `id` was asked for by `key`, and what the caller
/// gets.
pub open spec fn spec_resolve(
    table: Map<u64, Address>,
    id: u64,
    key: SymbolKey,
    text: MemoryRegion,
    answer: Option<Address>,
) -> (Map<u64, Address>, Result<Address, Error>) {
    spec_settle(table, id, spec_found(key, text, answer), spec_missing(key))
}

impl Resolver {
    /// An empty table.
    pub fn new() -> (r: Resolver)
        ensures
            r@ == Map::<u64, Address>::empty(),
    {
        Resolver { table: HashMap::new() }
    }

    /// The address of entry `id`, where it has been resolved.
    pub fn cached(&self, id: u64) -> (r: Option<Address>)
        ensures
            r == if self@.contains_key(id) {
                Some(self@[id])
            } else {
                None::<Address>
            },
    {
        match self.table.get(&id) {
            Some(address) => Some(*address),
            None => None,
        }
    }

    /// Whether the host's symbol provider has to be asked before entry `id`
    /// can be resolved by `key`: only for a name, and only while the entry
    /// is not in the table.
    pub fn needs_host(&self, id: u64, key: &SymbolKey) -> (r: bool)
        ensures
            r == (!self@.contains_key(id) && *key is Name),
    {
        match key {
            SymbolKey::Name(_) => self.cached(id).is_none(),
            SymbolKey::Pattern(_) => false,
        }
    }

    /// Resolves entry `id`. An entry that is in the table is returned from
    /// it, and neither `text` nor `answer` is looked at. Otherwise a name is
    /// resolved to `answer`, which is what the host said of it, and a
    /// signature to its first match in `text`; what is found is kept, and
    /// what is not found is an error that leaves the table as it was.
    pub fn resolve(
        &mut self,
        id: u64,
        key: &SymbolKey,
        text: &MemoryRegion,
        answer: Option<Address>,
    ) -> (r: Result<Address, Error>)
        ensures
            (final(self)@, r) == spec_resolve(old(self)@, id, *key, *text, answer),
    {
        if let Some(address) = self.cached(id) {
            return Ok(address);
        }
        let found = match key {
            SymbolKey::Name(_) => answer,
            SymbolKey::Pattern(pattern) => text.scan(pattern),
        };
        match found {
            Some(address) => {
                self.table.insert(id, address);
                Ok(address)
            },
            None => match key {
                SymbolKey::Name(_) => Err(Error::SymbolNotFound),
                SymbolKey::Pattern(_) => Err(Error::PatternNotFound),
            },
        }
    }
}

/// Once an entry has been resolved, asking for it again gives the same
/// address and leaves the table as it is, whatever key, text and answer
/// come with the second call: the strategy is not consulted again, and the
/// host need not be asked.
pub proof fn lemma_resolve_idempotent(
    table: Map<u64, Address>,
    id: u64,
    key: SymbolKey,
    text: MemoryRegion,
    answer: Option<Address>,
    again_key: SymbolKey,
    again_text: MemoryRegion,
    again_answer: Option<Address>,
)
    requires
        spec_resolve(table, id, key, text, answer).1 is Ok,
    ensures
        ({
            let first = spec_resolve(table, id, key, text, answer);
            let second = spec_resolve(first.0, id, again_key, again_text, again_answer);
            &&& second.1 == first.1
            &&& second.0 == first.0
            &&& first.0.contains_key(id)
        }),
{
}

/// A lookup that fails leaves the table unchanged, so the same call fails
/// in the same way until the strategy finds something; and resolving one
/// entry never changes another.
pub proof fn lemma_resolve_failure_and_frame(
    table: Map<u64, Address>,
    id: u64,
    key: SymbolKey,
    text: MemoryRegion,
    answer: Option<Address>,
    other: u64,
)
    ensures
        ({
            let first = spec_resolve(table, id, key, text, answer);
            &&& first.1 is Err ==> first.0 == table && spec_resolve(first.0, id, key, text, answer)
                == first
            &&& first.1 matches Err(e) ==> e == spec_missing(key) && !table.contains_key(id)
            &&& other != id ==> first.0.contains_key(other) == table.contains_key(other)
                && first.0[other] == table[other]
        }),
{
}

} // verus!
