//! Ready-made field descriptors: the unsigned integer fields of each
//! machine width at a const-generic offset, and the one-byte field that
//! stores a buffer's byte-order indicator.

use vstd::prelude::*;
use core::ops::Range;
use crate::access::{Encode, Field, Mutable};
use crate::codec::{
    be_decode, be_encode, be_read, be_write, le_decode, le_encode, le_read, le_write,
    lemma_be_decode_bound, lemma_be_encode_len, lemma_be_round_trip, lemma_le_decode_bound,
    lemma_le_encode_len, lemma_le_round_trip, lemma_pow256_values,
    lemma_single_byte_order_independent,
};

verus! {

/// An unsigned 8-bit field occupying byte `[START, START + 1)`.
pub struct U8Field<const START: usize>(pub u8);

/// An unsigned 16-bit field occupying bytes `[START, START + 2)`.
pub struct U16Field<const START: usize>(pub u16);

/// An unsigned 32-bit field occupying bytes `[START, START + 4)`.
pub struct U32Field<const START: usize>(pub u32);

/// An unsigned 64-bit field occupying bytes `[START, START + 8)`.
pub struct U64Field<const START: usize>(pub u64);

impl<const START: usize> Field for U8Field<START> {
    type FieldType = u8;

    open spec fn spec_start() -> int {
        START as int
    }

    open spec fn spec_end() -> int {
        START + 1
    }

    open spec fn spec_value(&self) -> u8 {
        self.0
    }

    open spec fn spec_from_le(bytes: Seq<u8>) -> u8 {
        (le_decode(bytes) % 0x100) as u8
    }

    open spec fn spec_from_be(bytes: Seq<u8>) -> u8 {
        (be_decode(bytes) % 0x100) as u8
    }

    open spec fn spec_to_le(v: u8) -> Seq<u8> {
        le_encode(v as nat, 1)
    }

    open spec fn spec_to_be(v: u8) -> Seq<u8> {
        be_encode(v as nat, 1)
    }

    proof fn lemma_range_well_formed() {
    }

    proof fn lemma_encode_width(v: u8) {
        lemma_le_encode_len(v as nat, 1);
        lemma_be_encode_len(v as nat, 1);
    }

    proof fn lemma_round_trip(v: u8) {
        lemma_pow256_values();
        lemma_le_round_trip(v as nat, 1);
        lemma_be_round_trip(v as nat, 1);
    }

    fn range() -> (r: Range<usize>) {
        START..START + 1
    }

    fn from_le_bytes(val: &[u8]) -> (r: u8) {
        proof {
            lemma_single_byte_order_independent(val@);
        }
        val[0]
    }

    fn from_be_bytes(val: &[u8]) -> (r: u8) {
        proof {
            lemma_single_byte_order_independent(val@);
        }
        val[0]
    }

    fn to_le_bytes(self) -> (r: Vec<u8>) {
        le_write(self.0 as u64, 1)
    }

    fn to_be_bytes(self) -> (r: Vec<u8>) {
        be_write(self.0 as u64, 1)
    }
}

impl<const START: usize> Mutable for U8Field<START> {}

impl<const START: usize> Field for U16Field<START> {
    type FieldType = u16;

    open spec fn spec_start() -> int {
        START as int
    }

    open spec fn spec_end() -> int {
        START + 2
    }

    open spec fn spec_value(&self) -> u16 {
        self.0
    }

    open spec fn spec_from_le(bytes: Seq<u8>) -> u16 {
        (le_decode(bytes) % 0x1_0000) as u16
    }

    open spec fn spec_from_be(bytes: Seq<u8>) -> u16 {
        (be_decode(bytes) % 0x1_0000) as u16
    }

    open spec fn spec_to_le(v: u16) -> Seq<u8> {
        le_encode(v as nat, 2)
    }

    open spec fn spec_to_be(v: u16) -> Seq<u8> {
        be_encode(v as nat, 2)
    }

    proof fn lemma_range_well_formed() {
    }

    proof fn lemma_encode_width(v: u16) {
        lemma_le_encode_len(v as nat, 2);
        lemma_be_encode_len(v as nat, 2);
    }

    proof fn lemma_round_trip(v: u16) {
        lemma_pow256_values();
        lemma_le_round_trip(v as nat, 2);
        lemma_be_round_trip(v as nat, 2);
    }

    fn range() -> (r: Range<usize>) {
        START..START + 2
    }

    fn from_le_bytes(val: &[u8]) -> (r: u16) {
        proof {
            lemma_le_decode_bound(val@);
            lemma_pow256_values();
        }
        le_read(val) as u16
    }

    fn from_be_bytes(val: &[u8]) -> (r: u16) {
        proof {
            lemma_be_decode_bound(val@);
            lemma_pow256_values();
        }
        be_read(val) as u16
    }

    fn to_le_bytes(self) -> (r: Vec<u8>) {
        le_write(self.0 as u64, 2)
    }

    fn to_be_bytes(self) -> (r: Vec<u8>) {
        be_write(self.0 as u64, 2)
    }
}

impl<const START: usize> Mutable for U16Field<START> {}

impl<const START: usize> Field for U32Field<START> {
    type FieldType = u32;

    open spec fn spec_start() -> int {
        START as int
    }

    open spec fn spec_end() -> int {
        START + 4
    }

    open spec fn spec_value(&self) -> u32 {
        self.0
    }

    open spec fn spec_from_le(bytes: Seq<u8>) -> u32 {
        (le_decode(bytes) % 0x1_0000_0000) as u32
    }

    open spec fn spec_from_be(bytes: Seq<u8>) -> u32 {
        (be_decode(bytes) % 0x1_0000_0000) as u32
    }

    open spec fn spec_to_le(v: u32) -> Seq<u8> {
        le_encode(v as nat, 4)
    }

    open spec fn spec_to_be(v: u32) -> Seq<u8> {
        be_encode(v as nat, 4)
    }

    proof fn lemma_range_well_formed() {
    }

    proof fn lemma_encode_width(v: u32) {
        lemma_le_encode_len(v as nat, 4);
        lemma_be_encode_len(v as nat, 4);
    }

    proof fn lemma_round_trip(v: u32) {
        lemma_pow256_values();
        lemma_le_round_trip(v as nat, 4);
        lemma_be_round_trip(v as nat, 4);
    }

    fn range() -> (r: Range<usize>) {
        START..START + 4
    }

    fn from_le_bytes(val: &[u8]) -> (r: u32) {
        proof {
            lemma_le_decode_bound(val@);
            lemma_pow256_values();
        }
        le_read(val) as u32
    }

    fn from_be_bytes(val: &[u8]) -> (r: u32) {
        proof {
            lemma_be_decode_bound(val@);
            lemma_pow256_values();
        }
        be_read(val) as u32
    }

    fn to_le_bytes(self) -> (r: Vec<u8>) {
        le_write(self.0 as u64, 4)
    }

    fn to_be_bytes(self) -> (r: Vec<u8>) {
        be_write(self.0 as u64, 4)
    }
}

impl<const START: usize> Mutable for U32Field<START> {}

impl<const START: usize> Field for U64Field<START> {
    type FieldType = u64;

    open spec fn spec_start() -> int {
        START as int
    }

    open spec fn spec_end() -> int {
        START + 8
    }

    open spec fn spec_value(&self) -> u64 {
        self.0
    }

    open spec fn spec_from_le(bytes: Seq<u8>) -> u64 {
        (le_decode(bytes) % 0x1_0000_0000_0000_0000) as u64
    }

    open spec fn spec_from_be(bytes: Seq<u8>) -> u64 {
        (be_decode(bytes) % 0x1_0000_0000_0000_0000) as u64
    }

    open spec fn spec_to_le(v: u64) -> Seq<u8> {
        le_encode(v as nat, 8)
    }

    open spec fn spec_to_be(v: u64) -> Seq<u8> {
        be_encode(v as nat, 8)
    }

    proof fn lemma_range_well_formed() {
    }

    proof fn lemma_encode_width(v: u64) {
        lemma_le_encode_len(v as nat, 8);
        lemma_be_encode_len(v as nat, 8);
    }

    proof fn lemma_round_trip(v: u64) {
        lemma_pow256_values();
        lemma_le_round_trip(v as nat, 8);
        lemma_be_round_trip(v as nat, 8);
    }

    fn range() -> (r: Range<usize>) {
        START..START + 8
    }

    fn from_le_bytes(val: &[u8]) -> (r: u64) {
        proof {
            lemma_le_decode_bound(val@);
            lemma_pow256_values();
        }
        le_read(val)
    }

    fn from_be_bytes(val: &[u8]) -> (r: u64) {
        proof {
            lemma_be_decode_bound(val@);
            lemma_pow256_values();
        }
        be_read(val)
    }

    fn to_le_bytes(self) -> (r: Vec<u8>) {
        le_write(self.0, 8)
    }

    fn to_be_bytes(self) -> (r: Vec<u8>) {
        be_write(self.0, 8)
    }
}

impl<const START: usize> Mutable for U64Field<START> {}

/// The byte-order indicator as stored in a one-byte field: `1` means
/// little-endian and `2` means big-endian. Any other byte is read as
/// little-endian here; [`read_order_indicator`] is the checked reading
/// that rejects an unrecognized indicator instead.
pub open spec fn spec_order_from_byte(bytes: Seq<u8>) -> Encode {
    if bytes.len() == 1 && bytes[0] == 2 {
        Encode::Be
    } else {
        Encode::Le
    }
}

/// The stored byte for a byte-order indicator value.
pub open spec fn spec_order_to_byte(v: Encode) -> Seq<u8> {
    match v {
        Encode::Le => seq![1u8],
        Encode::Be => seq![2u8],
    }
}

/// The one-byte field holding a buffer's byte-order indicator. Its width
/// is exactly one byte, so the two readings agree and the indicator can be
/// recovered before any order has been chosen.
pub struct OrderField<const START: usize>(pub Encode);

impl<const START: usize> Field for OrderField<START> {
    type FieldType = Encode;

    open spec fn spec_start() -> int {
        START as int
    }

    open spec fn spec_end() -> int {
        START + 1
    }

    open spec fn spec_value(&self) -> Encode {
        self.0
    }

    open spec fn spec_from_le(bytes: Seq<u8>) -> Encode {
        spec_order_from_byte(bytes)
    }

    open spec fn spec_from_be(bytes: Seq<u8>) -> Encode {
        spec_order_from_byte(bytes)
    }

    open spec fn spec_to_le(v: Encode) -> Seq<u8> {
        spec_order_to_byte(v)
    }

    open spec fn spec_to_be(v: Encode) -> Seq<u8> {
        spec_order_to_byte(v)
    }

    proof fn lemma_range_well_formed() {
    }

    proof fn lemma_encode_width(v: Encode) {
    }

    proof fn lemma_round_trip(v: Encode) {
    }

    fn range() -> (r: Range<usize>) {
        START..START + 1
    }

    fn from_le_bytes(val: &[u8]) -> (r: Encode) {
        if val[0] == 2 {
            Encode::Be
        } else {
            Encode::Le
        }
    }

    fn from_be_bytes(val: &[u8]) -> (r: Encode) {
        if val[0] == 2 {
            Encode::Be
        } else {
            Encode::Le
        }
    }

    fn to_le_bytes(self) -> (r: Vec<u8>) {
        let mut r: Vec<u8> = Vec::new();
        match self.0 {
            Encode::Le => r.push(1),
            Encode::Be => r.push(2),
        }
        proof {
            assert(r@ =~= spec_order_to_byte(self.0));
        }
        r
    }

    fn to_be_bytes(self) -> (r: Vec<u8>) {
        let mut r: Vec<u8> = Vec::new();
        match self.0 {
            Encode::Le => r.push(1),
            Encode::Be => r.push(2),
        }
        proof {
            assert(r@ =~= spec_order_to_byte(self.0));
        }
        r
    }
}

impl<const START: usize> Mutable for OrderField<START> {}

/// Recovers the byte order recorded at offset `at` of a buffer: `1` is
/// little-endian, `2` is big-endian, and any other stored byte is an
/// unrecognized format, reported as `None`. Because the indicator is a
/// single byte, no byte order is needed to read it.
pub fn read_order_indicator(buf: &Vec<u8>, at: usize) -> (r: Option<Encode>)
    requires
        at < buf@.len(),
    ensures
        buf@[at as int] == 1 ==> r == Some(Encode::Le),
        buf@[at as int] == 2 ==> r == Some(Encode::Be),
        buf@[at as int] != 1 && buf@[at as int] != 2 ==> r is None,
{
    let b = buf[at];
    if b == 1 {
        Some(Encode::Le)
    } else if b == 2 {
        Some(Encode::Be)
    } else {
        None
    }
}

} // verus!
