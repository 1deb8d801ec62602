//! The client of the host's pool of names: the table of the four host
//! functions it calls, and the texts that go to them and come from them.
//!
//! The calls themselves are made by whoever holds the library; what is
//! decided here is which addresses are called, what is handed over, and how
//! a reply is read.

use crate::address::Address;
use crate::error::Error;
use crate::pattern::Pattern;
use crate::region::MemoryRegion;
use crate::resolver::{spec_settle, Resolver, SymbolKey};
use crate::text::{
    before_zero, decode_narrow, decode_wide, encode_wide, end_from, is_utf16, lemma_end_from,
    lemma_utf16_text, lemma_utf16_zero, utf16, utf16_text, wide_len,
};
use vstd::prelude::*;
use vstd::utf8::{decode_utf8, valid_utf8};

verus! {

/// The entry of the function that returns the pool.
pub const GET: u64 = 0;

/// The entry of the function that adds a name.
pub const ADD_ENTRY: u64 = 1;

/// The entry of the function that finds a name's text.
pub const FIND_TEXT: u64 = 2;

/// The entry of the function that finds a name's text in bytes.
pub const FIND_TEXT_ANSI: u64 = 3;

/// The name the host has for the function that adds a name.
pub const ADD_ENTRY_NAME: &'static str = "CNamesPool::AddEntry";

/// The name the host has for the function that finds a name's text.
pub const FIND_TEXT_NAME: &'static str = "CNamesPool::FindText";

/// The name the host has for the function that finds a name's text in
/// bytes.
pub const FIND_TEXT_ANSI_NAME: &'static str = "CNamesPool::FindTextAnsi";

/// The signature of the function that returns the pool: it makes room on
/// the stack and loads the pool from its fixed place.
pub open spec fn get_signature() -> Seq<Option<u8>> {
    seq![
        Some(0x48u8),
        Some(0x83u8),
        Some(0xECu8),
        Some(0x28u8),
        Some(0x48u8),
        Some(0x8Bu8),
        Some(0x05u8),
        Some(0x7Du8),
        Some(0x10u8),
        Some(0x55u8),
        Some(0x05u8),
    ]
}

/// The addresses of the four host functions.
#[derive(Clone, Copy, Debug, PartialEq, Eq)]
pub struct NamesPoolTable {
    pub get: Address,
    pub add_entry: Address,
    pub find_text: Address,
    pub find_text_ansi: Address,
}

/// The resolution table after the four entries were asked for in turn, and
/// the table of the four functions or the first failure. The pool's getter
/// is found by its signature in `text`; the other three are what the host
/// answered for their names.
pub open spec fn spec_init(
    table: Map<u64, Address>,
    text: MemoryRegion,
    add_entry: Option<Address>,
    find_text: Option<Address>,
    find_text_ansi: Option<Address>,
) -> (Map<u64, Address>, Result<NamesPoolTable, Error>) {
    let first = spec_settle(table, GET, text.spec_scan(get_signature()), Error::PatternNotFound);
    match first.1 {
        Err(e) => (first.0, Err(e)),
        Ok(get) => {
            let second = spec_settle(first.0, ADD_ENTRY, add_entry, Error::SymbolNotFound);
            match second.1 {
                Err(e) => (second.0, Err(e)),
                Ok(add) => {
                    let third = spec_settle(second.0, FIND_TEXT, find_text, Error::SymbolNotFound);
                    match third.1 {
                        Err(e) => (third.0, Err(e)),
                        Ok(find) => {
                            let fourth = spec_settle(
                                third.0,
                                FIND_TEXT_ANSI,
                                find_text_ansi,
                                Error::SymbolNotFound,
                            );
                            match fourth.1 {
                                Err(e) => (fourth.0, Err(e)),
                                Ok(ansi) => (
                                    fourth.0,
                                    Ok(
                                        NamesPoolTable {
                                            get,
                                            add_entry: add,
                                            find_text: find,
                                            find_text_ansi: ansi,
                                        },
                                    ),
                                ),
                            }
                        },
                    }
                },
            }
        },
    }
}

impl NamesPoolTable {
    /// Resolves the four entries through `resolver`, in the order getter,
    /// adder, finder, finder in bytes, and stops at the first that cannot
    /// be resolved. What was resolved stays in `resolver`, so that a later
    /// call need not find it again.
    pub fn init(
        resolver: &mut Resolver,
        text: &MemoryRegion,
        add_entry: Option<Address>,
        find_text: Option<Address>,
        find_text_ansi: Option<Address>,
    ) -> (r: Result<NamesPoolTable, Error>)
        ensures
            (final(resolver)@, r) == spec_init(
                old(resolver)@,
                *text,
                add_entry,
                find_text,
                find_text_ansi,
            ),
    {
        let signature: [u8; 11] = [0x48, 0x83, 0xEC, 0x28, 0x48, 0x8B, 0x05, 0x7D, 0x10, 0x55, 0x05];
        let pattern = match Pattern::exact(signature.as_slice()) {
            Some(pattern) => pattern,
            None => {
                return Err(Error::PatternNotFound);
            },
        };
        assert(pattern@ =~= get_signature());
        let get = match resolver.resolve(GET, &SymbolKey::Pattern(pattern), text, None) {
            Ok(address) => address,
            Err(e) => {
                return Err(e);
            },
        };
        let key = SymbolKey::Name(ADD_ENTRY_NAME.to_owned());
        let add = match resolver.resolve(ADD_ENTRY, &key, text, add_entry) {
            Ok(address) => address,
            Err(e) => {
                return Err(e);
            },
        };
        let key = SymbolKey::Name(FIND_TEXT_NAME.to_owned());
        let find = match resolver.resolve(FIND_TEXT, &key, text, find_text) {
            Ok(address) => address,
            Err(e) => {
                return Err(e);
            },
        };
        let key = SymbolKey::Name(FIND_TEXT_ANSI_NAME.to_owned());
        let ansi = match resolver.resolve(FIND_TEXT_ANSI, &key, text, find_text_ansi) {
            Ok(address) => address,
            Err(e) => {
                return Err(e);
            },
        };
        Ok(NamesPoolTable { get, add_entry: add, find_text: find, find_text_ansi: ansi })
    }
}

/// Once the table of the four functions has been made, making it again
/// gives the same table and leaves the resolution table as it is, whatever
/// text and answers come with the later call.
pub proof fn lemma_init_idempotent(
    table: Map<u64, Address>,
    text: MemoryRegion,
    add_entry: Option<Address>,
    find_text: Option<Address>,
    find_text_ansi: Option<Address>,
    again_text: MemoryRegion,
    again_add_entry: Option<Address>,
    again_find_text: Option<Address>,
    again_find_text_ansi: Option<Address>,
)
    requires
        spec_init(table, text, add_entry, find_text, find_text_ansi).1 is Ok,
    ensures
        ({
            let first = spec_init(table, text, add_entry, find_text, find_text_ansi);
            spec_init(
                first.0,
                again_text,
                again_add_entry,
                again_find_text,
                again_find_text_ansi,
            ) == first
        }),
{
}

/// A name without the character zero, handed to the host as its units and
/// a zero, is read back from there as the name it was.
pub proof fn lemma_name_round_trip(name: Seq<char>)
    requires
        !name.contains('\0'),
    ensures
        before_zero(utf16(name).push(0u16), 0u16) == utf16(name),
        is_utf16(utf16(name)),
        utf16_text(utf16(name)) == name,
{
    let wide = utf16(name).push(0u16);
    lemma_utf16_zero(name);
    lemma_utf16_text(name);
    lemma_end_from(wide, 0u16, 0);
    let end = end_from(wide, 0u16, 0);
    if end < utf16(name).len() {
        assert(utf16(name)[end] == 0u16);
    }
    if end > utf16(name).len() {
        assert(wide[utf16(name).len() as int] == 0u16);
    }
    assert(wide.take(end) =~= utf16(name));
}

/// The host's pool of names, seen from outside.
pub struct NamesPool;

impl NamesPool {
    /// What is handed to the host to add `name`: the sixteen-bit units of
    /// the name and a zero after them. A name that holds the character zero
    /// cannot be handed over, since the host would read it only up to there.
    pub fn add_entry(name: &str) -> (r: Result<Vec<u16>, Error>)
        ensures
            r is Err <==> name@.contains('\0'),
            r matches Err(e) ==> e == Error::EncodingError,
            r matches Ok(wide) ==> wide@ == utf16(name@).push(0u16) && before_zero(wide@, 0u16)
                == utf16(name@),
    {
        let mut wide = encode_wide(name);
        let n: usize = wide_len(wide.as_slice());
        proof {
            lemma_utf16_zero(name@);
            lemma_end_from(wide@, 0u16, 0);
        }
        if n < wide.len() {
            return Err(Error::EncodingError);
        }
        wide.push(0);
        proof {
            lemma_name_round_trip(name@);
        }
        Ok(wide)
    }

    /// Reads the host's reply to a request for a name's text. No reply
    /// means that the host has no such name. A reply is read up to its
    /// first zero, and must be the units of a text.
    pub fn find_text(reply: Option<&[u16]>) -> (r: Result<Option<String>, Error>)
        ensures
            reply is None ==> r == Ok::<Option<String>, Error>(None),
            reply matches Some(units) ==> {
                &&& r is Ok <==> is_utf16(before_zero(units@, 0u16))
                &&& r matches Ok(found) ==> found matches Some(s) && s@ == utf16_text(
                    before_zero(units@, 0u16),
                )
                &&& r matches Err(e) ==> e == Error::EncodingError
            },
    {
        match reply {
            None => Ok(None),
            Some(units) => match decode_wide(units) {
                Some(text) => Ok(Some(text)),
                None => Err(Error::EncodingError),
            },
        }
    }

    /// Reads the host's reply to a request for a name's text in bytes. No
    /// reply means that the host has no such name. A reply is read up to
    /// its first zero, and must be well-formed UTF-8.
    pub fn find_text_ansi(reply: Option<&[u8]>) -> (r: Result<Option<String>, Error>)
        ensures
            reply is None ==> r == Ok::<Option<String>, Error>(None),
            reply matches Some(bytes) ==> {
                &&& r is Ok <==> valid_utf8(before_zero(bytes@, 0u8))
                &&& r matches Ok(found) ==> found matches Some(s) && s@ == decode_utf8(
                    before_zero(bytes@, 0u8),
                )
                &&& r matches Err(e) ==> e == Error::EncodingError
            },
    {
        match reply {
            None => Ok(None),
            Some(bytes) => match decode_narrow(bytes) {
                Some(text) => Ok(Some(text)),
                None => Err(Error::EncodingError),
            },
        }
    }
}

} // verus!
