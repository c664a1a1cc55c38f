//! The field-accessor protocol: field descriptors, the byte-order flag,
//! the mutability capability, and the `Getter`/`Setter` view traits with
//! their one concrete implementation, [`BufferView`].

use vstd::prelude::*;
use vstd::slice::slice_subrange;
use core::ops::Range;

verus! {

/// The two supported interpretations of a fixed-width byte sequence:
/// little-endian and big-endian.
#[derive(Clone, Copy, PartialEq, Eq, Structural, Debug)]
pub enum Encode {
    Le,
    Be,
}

/// A field descriptor: a fixed byte range within a buffer, a logical value
/// type, and the two byte-order codecs for that type.
///
/// A value of an implementing type wraps one value of [`Field::FieldType`],
/// so that it can be handed to [`Setter::with`]. The spec functions model
/// the range and the codecs; the proof functions are the laws every
/// descriptor must obey: a well-formed range, encodings exactly as wide as
/// the range, and the round trip `decode(encode(v)) == v` under both
/// orders.
pub trait Field: Sized {
    /// The logical type of the field's value.
    type FieldType;

    /// The first byte offset the descriptor addresses.
    spec fn spec_start() -> int;

    /// One past the last byte offset the descriptor addresses.
    spec fn spec_end() -> int;

    /// The value this descriptor instance wraps.
    spec fn spec_value(&self) -> Self::FieldType;

    /// The little-endian reading of a byte sequence as a field value.
    spec fn spec_from_le(bytes: Seq<u8>) -> Self::FieldType;

    /// The big-endian reading of a byte sequence as a field value.
    spec fn spec_from_be(bytes: Seq<u8>) -> Self::FieldType;

    /// The little-endian bytes of a field value.
    spec fn spec_to_le(v: Self::FieldType) -> Seq<u8>;

    /// The big-endian bytes of a field value.
    spec fn spec_to_be(v: Self::FieldType) -> Seq<u8>;

    /// The descriptor's range is a well-formed interval.
    proof fn lemma_range_well_formed()
        ensures
            0 <= Self::spec_start() <= Self::spec_end(),
    ;

    /// An encoded value is exactly as wide as the descriptor's range.
    proof fn lemma_encode_width(v: Self::FieldType)
        ensures
            Self::spec_to_le(v).len() == Self::spec_end() - Self::spec_start(),
            Self::spec_to_be(v).len() == Self::spec_end() - Self::spec_start(),
    ;

    /// Round trip: decoding the encoding of a value returns the value,
    /// under either order.
    proof fn lemma_round_trip(v: Self::FieldType)
        ensures
            Self::spec_from_le(Self::spec_to_le(v)) == v,
            Self::spec_from_be(Self::spec_to_be(v)) == v,
    ;

    /// The fixed byte interval this descriptor addresses; it never varies
    /// across calls for a given descriptor type.
    fn range() -> (r: Range<usize>)
        requires
            Self::spec_end() <= usize::MAX as int,
        ensures
            r.start as int == Self::spec_start(),
            r.end as int == Self::spec_end(),
    ;

    /// Decodes a slice exactly as long as the descriptor's range under
    /// little-endian order.
    fn from_le_bytes(val: &[u8]) -> (r: Self::FieldType)
        requires
            val@.len() == Self::spec_end() - Self::spec_start(),
        ensures
            r == Self::spec_from_le(val@),
    ;

    /// Decodes a slice exactly as long as the descriptor's range under
    /// big-endian order.
    fn from_be_bytes(val: &[u8]) -> (r: Self::FieldType)
        requires
            val@.len() == Self::spec_end() - Self::spec_start(),
        ensures
            r == Self::spec_from_be(val@),
    ;

    /// Encodes the wrapped value as its little-endian bytes.
    fn to_le_bytes(self) -> (r: Vec<u8>)
        ensures
            r@ == Self::spec_to_le(self.spec_value()),
    ;

    /// Encodes the wrapped value as its big-endian bytes.
    fn to_be_bytes(self) -> (r: Vec<u8>)
        ensures
            r@ == Self::spec_to_be(self.spec_value()),
    ;
}

/// The mutability capability: only descriptors carrying this marker may be
/// handed to [`Setter::with`]. Derived, read-only fields do not implement
/// it, so writes to them are rejected at the type level.
pub trait Mutable {}

/// Carries the byte order a view applies to every multi-byte field.
pub trait ByteOrdered {
    /// The byte order in force.
    spec fn spec_order(&self) -> Encode;
}

/// The reading of field `T` from `bytes` under order `e`.
pub open spec fn spec_decode<T: Field>(e: Encode, bytes: Seq<u8>) -> T::FieldType {
    match e {
        Encode::Le => T::spec_from_le(bytes),
        Encode::Be => T::spec_from_be(bytes),
    }
}

/// The bytes of value `v` of field `T` under order `e`.
pub open spec fn spec_encode<T: Field>(e: Encode, v: T::FieldType) -> Seq<u8> {
    match e {
        Encode::Le => T::spec_to_le(v),
        Encode::Be => T::spec_to_be(v),
    }
}

/// The value field `T` holds in buffer `buf` under order `e`.
pub open spec fn spec_field_at<T: Field>(e: Encode, buf: Seq<u8>) -> T::FieldType {
    spec_decode::<T>(e, buf.subrange(T::spec_start(), T::spec_end()))
}

/// The buffer `buf` after value `v` is written into field `T`'s range
/// under order `e`; every byte outside the range is kept.
pub open spec fn spec_store<T: Field>(e: Encode, buf: Seq<u8>, v: T::FieldType) -> Seq<u8> {
    buf.take(T::spec_start()) + spec_encode::<T>(e, v) + buf.skip(T::spec_end())
}

/// Decodes fields of a buffer under the view's byte order.
pub trait Getter: ByteOrdered + Sized {
    /// Reads field `T` of `buf`: decodes `buf[T::range()]` under the
    /// view's order. The range must lie within the buffer; a violation is
    /// a descriptor/buffer mismatch and is ruled out by contract.
    fn get<T: Field>(&self, buf: &Vec<u8>) -> (r: T::FieldType)
        requires
            T::spec_end() <= buf@.len(),
        ensures
            r == spec_field_at::<T>(self.spec_order(), buf@),
    ;

    /// A new view over the same buffers under the requested order; the
    /// receiver is not changed.
    fn getter(&self, encode: Encode) -> (r: Self)
        ensures
            r.spec_order() == encode,
    ;

    /// Reads field `T` of `buf` into `dest` and returns the view itself,
    /// so several `out` calls can populate several destinations in one
    /// chained expression.
    fn out<T: Field>(&self, buf: &Vec<u8>, dest: &mut T::FieldType) -> (r: &Self)
        requires
            T::spec_end() <= buf@.len(),
        ensures
            *final(dest) == spec_field_at::<T>(self.spec_order(), buf@),
            r == self,
    {
        *dest = self.get::<T>(buf);
        self
    }
}

/// Encodes values into fields of a buffer under the view's byte order.
pub trait Setter: ByteOrdered + Sized {
    /// Writes the value wrapped in `value` into field `T`'s range of
    /// `buf`, encoded under the view's order, and returns the view itself
    /// so further `with` calls can be chained. Each call commits
    /// immediately; on overlapping ranges the later call's bytes win.
    /// Only descriptors carrying [`Mutable`] are accepted.
    fn with<T: Field + Mutable>(&self, buf: &mut Vec<u8>, value: T) -> (r: &Self)
        requires
            T::spec_end() <= old(buf)@.len(),
        ensures
            final(buf)@ == spec_store::<T>(self.spec_order(), old(buf)@, value.spec_value()),
            r == self,
    ;

    /// A new view over the same buffers under the requested order; the
    /// receiver is not changed (mirrors [`Getter::getter`]).
    fn setter(&self, encode: Encode) -> (r: Self)
        ensures
            r.spec_order() == encode,
    ;
}

/// A view: the byte order under which fields of a buffer are decoded and
/// encoded. It holds no buffer of its own; each call names the buffer it
/// acts on, so arbitrarily many views may read and write the same buffer
/// in turn, and a write through one is immediately visible through every
/// other.
#[derive(Clone, Copy, PartialEq, Eq, Structural, Debug)]
pub struct BufferView {
    /// The byte order applied to every multi-byte field.
    pub order: Encode,
}

impl BufferView {
    /// Binds the requested byte order into a fresh view.
    pub fn new(order: Encode) -> (r: BufferView)
        ensures
            r.order == order,
    {
        BufferView { order }
    }
}

impl ByteOrdered for BufferView {
    open spec fn spec_order(&self) -> Encode {
        self.order
    }
}

impl Getter for BufferView {
    fn get<T: Field>(&self, buf: &Vec<u8>) -> (r: T::FieldType) {
        proof {
            T::lemma_range_well_formed();
        }
        // The call gives the solver buf@.len() <= usize::MAX, which bounds
        // the field's range as T::range() demands.
        let _buf_len = buf.len();
        let range = T::range();
        let bytes = slice_subrange(buf.as_slice(), range.start, range.end);
        match self.order {
            Encode::Le => T::from_le_bytes(bytes),
            Encode::Be => T::from_be_bytes(bytes),
        }
    }

    fn getter(&self, encode: Encode) -> (r: Self) {
        BufferView { order: encode }
    }
}

impl Setter for BufferView {
    fn with<T: Field + Mutable>(&self, buf: &mut Vec<u8>, value: T) -> (r: &Self) {
        proof {
            T::lemma_range_well_formed();
            T::lemma_encode_width(value.spec_value());
        }
        let ghost v = value.spec_value();
        // The call gives the solver buf@.len() <= usize::MAX, which bounds
        // the field's range as T::range() demands.
        let _buf_len = buf.len();
        let range = T::range();
        let enc: Vec<u8> = match self.order {
            Encode::Le => value.to_le_bytes(),
            Encode::Be => value.to_be_bytes(),
        };
        let ghost buf0 = buf@;
        let width = range.end - range.start;
        let mut k: usize = 0;
        while k < width
            invariant
                k <= width,
                width == T::spec_end() - T::spec_start(),
                range.start as int == T::spec_start(),
                range.start + width <= usize::MAX,
                T::spec_end() <= buf0.len(),
                enc@ == spec_encode::<T>(self.spec_order(), v),
                enc@.len() == width,
                buf@.len() == buf0.len(),
                forall|i: int|
                    0 <= i < buf0.len() && !(range.start <= i < range.start + k)
                        ==> buf@[i] == buf0[i],
                forall|i: int| 0 <= i < k ==> buf@[range.start + i] == enc@[i],
            decreases width - k,
        {
            let b = enc[k];
            buf.set(range.start + k, b);
            k = k + 1;
        }
        proof {
            assert(buf@ =~= spec_store::<T>(self.spec_order(), buf0, v));
        }
        self
    }

    fn setter(&self, encode: Encode) -> (r: Self) {
        BufferView { order: encode }
    }
}

} // verus!
