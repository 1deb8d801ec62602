//! The jump that redirects a function's entry to an adapter.
//!
//! The stub is an indirect jump through the eight bytes that follow it:
//! the two opcode bytes, a zero displacement of four bytes, and the absolute
//! address of the adapter, low byte first.

use crate::address::Address;
use vstd::prelude::*;

verus! {

/// The length of a jump stub, in bytes.
pub const STUB_LEN: usize = 14;

/// The opcode bytes of the indirect jump and its zero displacement.
pub open spec fn stub_head() -> Seq<u8> {
    seq![0xFFu8, 0x25u8, 0u8, 0u8, 0u8, 0u8]
}

/// The integer that eight bytes spell, low byte first.
pub open spec fn le_value(bytes: Seq<u8>) -> int {
    bytes[0] + bytes[1] * 0x100 + bytes[2] * 0x1_0000 + bytes[3] * 0x100_0000 + bytes[4]
        * 0x1_0000_0000 + bytes[5] * 0x100_0000_0000 + bytes[6] * 0x1_0000_0000_0000 + bytes[7]
        * 0x100_0000_0000_0000
}

/// The eight bytes that spell `value`, low byte first.
pub open spec fn le_bytes(value: u64) -> Seq<u8> {
    seq![
        (value % 0x100) as u8,
        (value / 0x100 % 0x100) as u8,
        (value / 0x1_0000 % 0x100) as u8,
        (value / 0x100_0000 % 0x100) as u8,
        (value / 0x1_0000_0000 % 0x100) as u8,
        (value / 0x100_0000_0000 % 0x100) as u8,
        (value / 0x1_0000_0000_0000 % 0x100) as u8,
        (value / 0x100_0000_0000_0000 % 0x100) as u8,
    ]
}

/// The stub that jumps to `target`.
pub open spec fn stub_bytes(target: Address) -> Seq<u8> {
    stub_head() + le_bytes(target@ as u64)
}

/// The address that `code` jumps to, where `code` begins with a jump stub.
pub open spec fn stub_target(code: Seq<u8>) -> Option<Address> {
    if code.len() >= STUB_LEN && code.take(6) == stub_head() {
        Some(Address::from_int(le_value(code.subrange(6, 14))))
    } else {
        None
    }
}

/// The eight bytes of `value` spell `value`.
pub proof fn lemma_le_bytes(value: u64)
    ensures
        le_bytes(value).len() == 8,
        le_value(le_bytes(value)) == value,
{
    let v = value;
    assert(v == (v % 0x100) + (v / 0x100 % 0x100) * 0x100 + (v / 0x1_0000 % 0x100) * 0x1_0000 + (v
        / 0x100_0000 % 0x100) * 0x100_0000 + (v / 0x1_0000_0000 % 0x100) * 0x1_0000_0000 + (v
        / 0x100_0000_0000 % 0x100) * 0x100_0000_0000 + (v / 0x1_0000_0000_0000 % 0x100)
        * 0x1_0000_0000_0000 + (v / 0x100_0000_0000_0000 % 0x100) * 0x100_0000_0000_0000)
        by (bit_vector);
}

/// Shifting and masking picks the same bytes as dividing and taking the
/// remainder.
proof fn lemma_shifted_bytes(v: u64)
    ensures
        v & 0xff == v % 0x100,
        (v >> 8) & 0xff == v / 0x100 % 0x100,
        (v >> 16) & 0xff == v / 0x1_0000 % 0x100,
        (v >> 24) & 0xff == v / 0x100_0000 % 0x100,
        (v >> 32) & 0xff == v / 0x1_0000_0000 % 0x100,
        (v >> 40) & 0xff == v / 0x100_0000_0000 % 0x100,
        (v >> 48) & 0xff == v / 0x1_0000_0000_0000 % 0x100,
        (v >> 56) & 0xff == v / 0x100_0000_0000_0000 % 0x100,
{
    assert(v & 0xff == v % 0x100) by (bit_vector);
    assert((v >> 8) & 0xff == v / 0x100 % 0x100) by (bit_vector);
    assert((v >> 16) & 0xff == v / 0x1_0000 % 0x100) by (bit_vector);
    assert((v >> 24) & 0xff == v / 0x100_0000 % 0x100) by (bit_vector);
    assert((v >> 32) & 0xff == v / 0x1_0000_0000 % 0x100) by (bit_vector);
    assert((v >> 40) & 0xff == v / 0x100_0000_0000 % 0x100) by (bit_vector);
    assert((v >> 48) & 0xff == v / 0x1_0000_0000_0000 % 0x100) by (bit_vector);
    assert((v >> 56) & 0xff == v / 0x100_0000_0000_0000 % 0x100) by (bit_vector);
}

/// Decoding the last eight bytes of the stub for `target`, low byte first,
/// gives `target` back; and the stub is read back as a jump to `target`.
pub proof fn lemma_stub_round_trip(target: Address)
    ensures
        stub_bytes(target).len() == STUB_LEN,
        le_value(stub_bytes(target).subrange(6, 14)) == target@,
        stub_target(stub_bytes(target)) == Some(target),
{
    Address::lemma_view_range(target);
    lemma_le_bytes(target@ as u64);
    assert(stub_bytes(target).take(6) =~= stub_head());
    Address::lemma_from_int(target@);
    Address::lemma_view_injective(Address::from_int(target@), target);
}

/// Builds the fourteen bytes that, written over a function's entry, send
/// every call of it to `target`.
pub fn jump_stub(target: Address) -> (stub: [u8; 14])
    ensures
        stub@ == stub_bytes(target),
{
    let v: u64 = target.value();
    proof {
        lemma_shifted_bytes(v);
    }
    let stub: [u8; 14] = [
        0xFF,
        0x25,
        0,
        0,
        0,
        0,
        (v & 0xff) as u8,
        ((v >> 8) & 0xff) as u8,
        ((v >> 16) & 0xff) as u8,
        ((v >> 24) & 0xff) as u8,
        ((v >> 32) & 0xff) as u8,
        ((v >> 40) & 0xff) as u8,
        ((v >> 48) & 0xff) as u8,
        ((v >> 56) & 0xff) as u8,
    ];
    stub
}

/// Reads `code` as a jump stub: where it begins with the opcode bytes and
/// the zero displacement and holds the eight bytes after them, the address
/// they spell; otherwise nothing.
pub fn decode_stub(code: &[u8]) -> (r: Option<Address>)
    ensures
        r == stub_target(code@),
{
    if code.len() < STUB_LEN {
        return None;
    }
    if code[0] != 0xFF || code[1] != 0x25 || code[2] != 0 || code[3] != 0 || code[4] != 0
        || code[5] != 0 {
        assert(code@.take(6)[0] == code@[0] && code@.take(6)[1] == code@[1] && code@.take(6)[2]
            == code@[2] && code@.take(6)[3] == code@[3] && code@.take(6)[4] == code@[4]
            && code@.take(6)[5] == code@[5]);
        return None;
    }
    assert(code@.take(6) =~= stub_head());
    let ghost tail = code@.subrange(6, 14);
    let value: u64 = code[6] as u64 + code[7] as u64 * 0x100 + code[8] as u64 * 0x1_0000 + code[9] as u64
        * 0x100_0000 + code[10] as u64 * 0x1_0000_0000 + code[11] as u64 * 0x100_0000_0000
        + code[12] as u64 * 0x1_0000_0000_0000 + code[13] as u64 * 0x100_0000_0000_0000;
    Some(Address::new(value))
}

} // verus!
