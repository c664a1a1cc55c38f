//! Endianness-aware access to fixed-width fields at known byte offsets
//! inside a shared binary buffer.
//!
//! A [`Field`] describes one logical value: a byte range within the buffer
//! and the little- and big-endian codecs for its type. A [`BufferView`]
//! carries a chosen byte order and reads ([`Getter::get`]) or writes
//! ([`Setter::with`]) any field of a buffer under that order, chainably.
//! The [`Mutable`] marker restricts writes to fields that are legally
//! writable, and the laws of the protocol — round trip, write visibility,
//! last write wins, isolation of disjoint fields — are stated and proved
//! in [`laws`].

pub mod access;
pub mod codec;
pub mod elf;
pub mod fields;
pub mod laws;

pub use elf::{
    Ehdr, ElfObject, Ident, Phdr, PhdrTab, Section, Segmemt, Shdr, ShdrTab, Strtab,
    lemma_indicator_read_is_order_free,
};

pub use laws::{
    lemma_cross_order_read, lemma_disjoint_fields_isolated, lemma_field_round_trip,
    lemma_last_write_wins, lemma_store_frame, lemma_write_then_read,
};

pub use access::{
    ByteOrdered, Encode, Field, Getter, Mutable, Setter, BufferView, spec_decode, spec_encode,
    spec_field_at, spec_store,
};

pub use fields::{
    OrderField, U16Field, U32Field, U64Field, U8Field, read_order_indicator,
    spec_order_from_byte, spec_order_to_byte,
};

pub use codec::{
    be_read, be_write, le_read, le_write, lemma_pow256_values, lemma_be_is_le_reversed,
    be_decode, be_encode, le_decode, le_encode, pow256, lemma_le_encode_len,
    lemma_be_encode_len, lemma_le_decode_bound, lemma_be_decode_bound,
    lemma_le_round_trip, lemma_be_round_trip, lemma_single_byte_order_independent,
};
