//! The laws of the accessor protocol, stated once over the spec model
//! (`spec_field_at`, `spec_store`) that every contract of [`Getter::get`]
//! and [`Setter::with`] speaks of.

use vstd::prelude::*;
use crate::access::{
    Encode, Field, Mutable, spec_decode, spec_encode, spec_field_at, spec_store,
};

verus! {

/// Round trip: for every field descriptor and either byte order, decoding
/// the encoding of a value returns that value.
pub proof fn lemma_field_round_trip<T: Field>(e: Encode, v: T::FieldType)
    ensures
        spec_decode::<T>(e, spec_encode::<T>(e, v)) == v,
{
    T::lemma_round_trip(v);
}

/// A store writes exactly the field's range: the buffer keeps its length,
/// every byte outside the range is unchanged, and the range holds the
/// value's encoding byte for byte.
pub proof fn lemma_store_frame<T: Field>(e: Encode, buf: Seq<u8>, v: T::FieldType)
    requires
        T::spec_end() <= buf.len(),
    ensures
        spec_store::<T>(e, buf, v).len() == buf.len(),
        forall|i: int|
            0 <= i < buf.len() && !(T::spec_start() <= i < T::spec_end())
                ==> #[trigger] spec_store::<T>(e, buf, v)[i] == buf[i],
        forall|i: int|
            T::spec_start() <= i < T::spec_end() ==> #[trigger] spec_store::<T>(e, buf, v)[i]
                == spec_encode::<T>(e, v)[i - T::spec_start()],
{
    T::lemma_range_well_formed();
    T::lemma_encode_width(v);
}

/// Write visibility: after a value is stored into a field under an order,
/// reading that field under the same order returns the value — through
/// whichever view of the buffer the read is made, since a read depends on
/// the buffer's bytes and the reading view's order alone.
pub proof fn lemma_write_then_read<T: Field + Mutable>(e: Encode, buf: Seq<u8>, v: T::FieldType)
    requires
        T::spec_end() <= buf.len(),
    ensures
        spec_field_at::<T>(e, spec_store::<T>(e, buf, v)) == v,
{
    T::lemma_range_well_formed();
    T::lemma_encode_width(v);
    lemma_store_frame::<T>(e, buf, v);
    assert(spec_store::<T>(e, buf, v).subrange(T::spec_start(), T::spec_end()) =~= spec_encode::<
        T,
    >(e, v));
    lemma_field_round_trip::<T>(e, v);
}

/// Order is a view property, not a value property: after a store under
/// the order `ew`, a read of the same field under any order `er` returns
/// the decoding under `er` of the bytes encoded under `ew` — the written
/// value itself exactly when the two orders agree.
pub proof fn lemma_cross_order_read<T: Field + Mutable>(
    ew: Encode,
    er: Encode,
    buf: Seq<u8>,
    v: T::FieldType,
)
    requires
        T::spec_end() <= buf.len(),
    ensures
        spec_field_at::<T>(er, spec_store::<T>(ew, buf, v)) == spec_decode::<T>(
            er,
            spec_encode::<T>(ew, v),
        ),
        er == ew ==> spec_field_at::<T>(er, spec_store::<T>(ew, buf, v)) == v,
{
    T::lemma_range_well_formed();
    T::lemma_encode_width(v);
    lemma_store_frame::<T>(ew, buf, v);
    assert(spec_store::<T>(ew, buf, v).subrange(T::spec_start(), T::spec_end()) =~= spec_encode::<
        T,
    >(ew, v));
    lemma_field_round_trip::<T>(ew, v);
}

/// Chaining commit order: each write commits immediately and the later
/// write's bytes win, so two stores to one field leave the buffer exactly
/// as a single store of the later value would.
pub proof fn lemma_last_write_wins<T: Field + Mutable>(
    e: Encode,
    buf: Seq<u8>,
    a: T::FieldType,
    b: T::FieldType,
)
    requires
        T::spec_end() <= buf.len(),
    ensures
        spec_store::<T>(e, spec_store::<T>(e, buf, a), b) == spec_store::<T>(e, buf, b),
{
    T::lemma_range_well_formed();
    T::lemma_encode_width(a);
    T::lemma_encode_width(b);
    lemma_store_frame::<T>(e, buf, a);
    lemma_store_frame::<T>(e, spec_store::<T>(e, buf, a), b);
    lemma_store_frame::<T>(e, buf, b);
    assert(spec_store::<T>(e, spec_store::<T>(e, buf, a), b) =~= spec_store::<T>(e, buf, b));
}

/// Independent field isolation: storing into one field never alters the
/// bytes of a disjoint field's range, so the other field reads unchanged
/// under either order.
pub proof fn lemma_disjoint_fields_isolated<A: Field + Mutable, B: Field>(
    ea: Encode,
    eb: Encode,
    buf: Seq<u8>,
    v: A::FieldType,
)
    requires
        A::spec_end() <= buf.len(),
        B::spec_end() <= buf.len(),
        B::spec_end() <= A::spec_start() || A::spec_end() <= B::spec_start(),
    ensures
        spec_field_at::<B>(eb, spec_store::<A>(ea, buf, v)) == spec_field_at::<B>(eb, buf),
{
    A::lemma_range_well_formed();
    B::lemma_range_well_formed();
    lemma_store_frame::<A>(ea, buf, v);
    assert(spec_store::<A>(ea, buf, v).subrange(B::spec_start(), B::spec_end()) =~= buf.subrange(
        B::spec_start(),
        B::spec_end(),
    ));
}

} // verus!
