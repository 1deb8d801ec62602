use igni::address::Address;
use igni::error::Error;
use igni::names_pool::{
    NamesPool, NamesPoolTable, ADD_ENTRY, ADD_ENTRY_NAME, FIND_TEXT, FIND_TEXT_ANSI,
    FIND_TEXT_ANSI_NAME, FIND_TEXT_NAME, GET,
};
use igni::region::MemoryRegion;
use igni::resolver::Resolver;
use igni::text::{decode_narrow, decode_wide, encode_wide, narrow_len, wide_len};

const GETTER: [u8; 11] = [0x48, 0x83, 0xEC, 0x28, 0x48, 0x8B, 0x05, 0x7D, 0x10, 0x55, 0x05];

fn text_with_getter_at(offset: usize) -> MemoryRegion {
    let mut bytes = vec![0xCC; offset];
    bytes.extend_from_slice(&GETTER);
    bytes.extend_from_slice(&[0xC3, 0xCC]);
    MemoryRegion::new(Address::new(0x1_4000_1000), bytes).unwrap()
}

fn text_without_getter() -> MemoryRegion {
    let mut bytes = GETTER.to_vec();
    bytes[10] = 0x06;
    MemoryRegion::new(Address::new(0x1_4000_1000), bytes).unwrap()
}

#[test]
fn table_holds_the_four_functions() {
    let mut resolver = Resolver::new();
    let table = NamesPoolTable::init(
        &mut resolver,
        &text_with_getter_at(0x30),
        Some(Address::new(0x1_4100_0000)),
        Some(Address::new(0x1_4200_0000)),
        Some(Address::new(0x1_4300_0000)),
    );
    assert_eq!(
        table,
        Ok(NamesPoolTable {
            get: Address::new(0x1_4000_1030),
            add_entry: Address::new(0x1_4100_0000),
            find_text: Address::new(0x1_4200_0000),
            find_text_ansi: Address::new(0x1_4300_0000),
        })
    );
    assert_eq!(resolver.cached(GET), Some(Address::new(0x1_4000_1030)));
    assert_eq!(resolver.cached(ADD_ENTRY), Some(Address::new(0x1_4100_0000)));
    assert_eq!(resolver.cached(FIND_TEXT), Some(Address::new(0x1_4200_0000)));
    assert_eq!(resolver.cached(FIND_TEXT_ANSI), Some(Address::new(0x1_4300_0000)));
}

#[test]
fn table_needs_the_getter_signature() {
    let mut resolver = Resolver::new();
    let a = Some(Address::new(1));
    let table = NamesPoolTable::init(&mut resolver, &text_without_getter(), a, a, a);
    assert_eq!(table, Err(Error::PatternNotFound));
    assert_eq!(resolver.cached(GET), None);
    assert_eq!(resolver.cached(ADD_ENTRY), None);
}

#[test]
fn table_needs_every_symbol() {
    let a = Some(Address::new(0x10));
    let text = text_with_getter_at(0);
    let mut resolver = Resolver::new();
    assert_eq!(
        NamesPoolTable::init(&mut resolver, &text, None, a, a),
        Err(Error::SymbolNotFound)
    );
    assert_eq!(resolver.cached(GET), Some(Address::new(0x1_4000_1000)));
    assert_eq!(resolver.cached(FIND_TEXT), None);
    let mut resolver = Resolver::new();
    assert_eq!(
        NamesPoolTable::init(&mut resolver, &text, a, None, a),
        Err(Error::SymbolNotFound)
    );
    assert_eq!(resolver.cached(ADD_ENTRY), a);
    let mut resolver = Resolver::new();
    assert_eq!(
        NamesPoolTable::init(&mut resolver, &text, a, a, None),
        Err(Error::SymbolNotFound)
    );
    assert_eq!(resolver.cached(FIND_TEXT), a);
    assert_eq!(resolver.cached(FIND_TEXT_ANSI), None);
}

#[test]
fn table_is_the_same_on_every_later_call() {
    let mut resolver = Resolver::new();
    let text = text_with_getter_at(4);
    let first = NamesPoolTable::init(
        &mut resolver,
        &text,
        Some(Address::new(0x11)),
        Some(Address::new(0x22)),
        Some(Address::new(0x33)),
    );
    assert!(first.is_ok());
    let again = NamesPoolTable::init(&mut resolver, &text_without_getter(), None, None, None);
    assert_eq!(again, first);
    let other = NamesPoolTable::init(
        &mut resolver,
        &text_with_getter_at(9),
        Some(Address::new(0x44)),
        Some(Address::new(0x55)),
        Some(Address::new(0x66)),
    );
    assert_eq!(other, first);
}

#[test]
fn table_can_be_completed_after_a_failure() {
    let mut resolver = Resolver::new();
    let text = text_with_getter_at(4);
    let a = Some(Address::new(0x11));
    assert_eq!(
        NamesPoolTable::init(&mut resolver, &text, a, None, None),
        Err(Error::SymbolNotFound)
    );
    let table = NamesPoolTable::init(
        &mut resolver,
        &text_without_getter(),
        Some(Address::new(0x99)),
        Some(Address::new(0x22)),
        Some(Address::new(0x33)),
    )
    .unwrap();
    assert_eq!(table.get, Address::new(0x1_4000_1004));
    assert_eq!(table.add_entry, Address::new(0x11));
    assert_eq!(table.find_text, Address::new(0x22));
    assert_eq!(table.find_text_ansi, Address::new(0x33));
}

#[test]
fn host_names_of_the_three_functions() {
    assert_eq!(ADD_ENTRY_NAME, "CNamesPool::AddEntry");
    assert_eq!(FIND_TEXT_NAME, "CNamesPool::FindText");
    assert_eq!(FIND_TEXT_ANSI_NAME, "CNamesPool::FindTextAnsi");
    assert_eq!((GET, ADD_ENTRY, FIND_TEXT, FIND_TEXT_ANSI), (0, 1, 2, 3));
}

#[test]
fn added_name_is_its_units_and_a_zero() {
    assert_eq!(NamesPool::add_entry("abc"), Ok(vec![0x61, 0x62, 0x63, 0]));
    assert_eq!(NamesPool::add_entry(""), Ok(vec![0]));
    assert_eq!(NamesPool::add_entry("\u{E9}\u{20AC}"), Ok(vec![0x00E9, 0x20AC, 0]));
}

#[test]
fn added_name_above_the_basic_plane_takes_two_units() {
    assert_eq!(NamesPool::add_entry("\u{1F600}"), Ok(vec![0xD83D, 0xDE00, 0]));
    assert_eq!(NamesPool::add_entry("\u{10000}"), Ok(vec![0xD800, 0xDC00, 0]));
    assert_eq!(NamesPool::add_entry("\u{10FFFF}"), Ok(vec![0xDBFF, 0xDFFF, 0]));
    assert_eq!(NamesPool::add_entry("\u{FFFF}"), Ok(vec![0xFFFF, 0]));
    assert_eq!(NamesPool::add_entry("\u{D7FF}\u{E000}"), Ok(vec![0xD7FF, 0xE000, 0]));
}

#[test]
fn added_name_agrees_with_the_standard_encoding() {
    let names = ["CNamesPool", "gro\u{DF}e \u{1F980} na\u{EF}ve", "\u{10FFFF}x\u{1}", "\u{7FF}\u{800}"];
    for name in names {
        let mut expected: Vec<u16> = name.encode_utf16().collect();
        assert_eq!(encode_wide(name), expected);
        expected.push(0);
        assert_eq!(NamesPool::add_entry(name), Ok(expected));
    }
}

#[test]
fn name_with_a_zero_inside_cannot_be_added() {
    assert_eq!(NamesPool::add_entry("ab\0cd"), Err(Error::EncodingError));
    assert_eq!(NamesPool::add_entry("\0"), Err(Error::EncodingError));
    assert_eq!(NamesPool::add_entry("abc\0"), Err(Error::EncodingError));
}

#[test]
fn no_reply_means_no_such_name() {
    assert_eq!(NamesPool::find_text(None), Ok(None));
    assert_eq!(NamesPool::find_text_ansi(None), Ok(None));
}

#[test]
fn wide_reply_is_read_up_to_its_zero() {
    let reply: [u16; 6] = [0x48, 0x69, 0, 0x21, 0x21, 0];
    assert_eq!(NamesPool::find_text(Some(&reply)), Ok(Some("Hi".to_string())));
    assert_eq!(NamesPool::find_text(Some(&[0])), Ok(Some(String::new())));
    assert_eq!(NamesPool::find_text(Some(&[])), Ok(Some(String::new())));
    assert_eq!(NamesPool::find_text(Some(&[0x4F, 0x4B])), Ok(Some("OK".to_string())));
    assert_eq!(
        NamesPool::find_text(Some(&[0xD83D, 0xDE00, 0x20AC, 0])),
        Ok(Some("\u{1F600}\u{20AC}".to_string()))
    );
}

#[test]
fn wide_reply_with_a_lone_surrogate_is_refused() {
    assert_eq!(NamesPool::find_text(Some(&[0x41, 0xD800, 0x42, 0])), Err(Error::EncodingError));
    assert_eq!(NamesPool::find_text(Some(&[0xDC00, 0])), Err(Error::EncodingError));
    assert_eq!(NamesPool::find_text(Some(&[0xD83D, 0])), Err(Error::EncodingError));
    assert_eq!(NamesPool::find_text(Some(&[0x41, 0, 0xD800])), Ok(Some("A".to_string())));
}

#[test]
fn byte_reply_is_read_up_to_its_zero() {
    assert_eq!(NamesPool::find_text_ansi(Some(b"name\0rest")), Ok(Some("name".to_string())));
    assert_eq!(NamesPool::find_text_ansi(Some(b"\0")), Ok(Some(String::new())));
    assert_eq!(NamesPool::find_text_ansi(Some(b"open")), Ok(Some("open".to_string())));
    assert_eq!(
        NamesPool::find_text_ansi(Some(&[0xE2, 0x82, 0xAC, 0x00])),
        Ok(Some("\u{20AC}".to_string()))
    );
}

#[test]
fn byte_reply_that_is_not_well_formed_is_refused() {
    assert_eq!(NamesPool::find_text_ansi(Some(&[0x61, 0xFF, 0x00])), Err(Error::EncodingError));
    assert_eq!(NamesPool::find_text_ansi(Some(&[0xE2, 0x82, 0x00])), Err(Error::EncodingError));
    assert_eq!(
        NamesPool::find_text_ansi(Some(&[0x61, 0x00, 0xFF])),
        Ok(Some("a".to_string()))
    );
}

#[test]
fn what_was_added_is_what_the_host_reads() {
    let names = ["CNamesPool::AddEntry", "\u{1F600} smile", "x"];
    for name in names {
        let wide = NamesPool::add_entry(name).unwrap();
        assert_eq!(wide_len(&wide), wide.len() - 1);
        assert_eq!(NamesPool::find_text(Some(&wide)), Ok(Some(name.to_string())));
    }
}

#[test]
fn length_before_the_first_zero() {
    assert_eq!(wide_len(&[]), 0);
    assert_eq!(wide_len(&[0]), 0);
    assert_eq!(wide_len(&[7, 8, 0, 9, 0]), 2);
    assert_eq!(wide_len(&[7, 8, 9]), 3);
    assert_eq!(narrow_len(b""), 0);
    assert_eq!(narrow_len(b"\0abc"), 0);
    assert_eq!(narrow_len(b"abc\0def\0"), 3);
    assert_eq!(narrow_len(b"abc"), 3);
}

#[test]
fn decoding_stops_at_the_first_zero() {
    assert_eq!(decode_wide(&[0x61, 0, 0x62]), Some("a".to_string()));
    assert_eq!(decode_wide(&[0xDFFF]), None);
    assert_eq!(decode_narrow(b"a\0b"), Some("a".to_string()));
    assert_eq!(decode_narrow(&[0xC0, 0x80]), None);
}
