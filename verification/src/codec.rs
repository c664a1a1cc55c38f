//! Byte-order codecs: the two interpretations of a fixed-width byte
//! sequence as a non-negative integer, their inverse encodings, and the
//! laws relating them.

use vstd::prelude::*;
use vstd::arithmetic::div_mod::lemma_fundamental_div_mod;

verus! {

/// `256^w`, the number of values a `w`-byte field can hold.
pub open spec fn pow256(w: nat) -> nat
    decreases w,
{
    if w == 0 {
        1
    } else {
        256 * pow256((w - 1) as nat)
    }
}

/// The little-endian reading of a byte sequence: the first byte is the
/// least significant.
pub open spec fn le_decode(s: Seq<u8>) -> nat
    decreases s.len(),
{
    if s.len() == 0 {
        0
    } else {
        s[0] as nat + 256 * le_decode(s.subrange(1, s.len() as int))
    }
}

/// The big-endian reading of a byte sequence: the last byte is the least
/// significant.
pub open spec fn be_decode(s: Seq<u8>) -> nat
    decreases s.len(),
{
    if s.len() == 0 {
        0
    } else {
        256 * be_decode(s.drop_last()) + s.last() as nat
    }
}

/// The `w` little-endian bytes of `v` (low bytes of `v` if `v >= 256^w`).
pub open spec fn le_encode(v: nat, w: nat) -> Seq<u8>
    decreases w,
{
    if w == 0 {
        Seq::empty()
    } else {
        seq![(v % 256) as u8] + le_encode(v / 256, (w - 1) as nat)
    }
}

/// The `w` big-endian bytes of `v` (low bytes of `v` if `v >= 256^w`).
pub open spec fn be_encode(v: nat, w: nat) -> Seq<u8>
    decreases w,
{
    if w == 0 {
        Seq::empty()
    } else {
        be_encode(v / 256, (w - 1) as nat).push((v % 256) as u8)
    }
}

/// A little-endian encoding is exactly `w` bytes.
pub proof fn lemma_le_encode_len(v: nat, w: nat)
    ensures
        le_encode(v, w).len() == w,
    decreases w,
{
    if w > 0 {
        lemma_le_encode_len(v / 256, (w - 1) as nat);
    }
}

/// A big-endian encoding is exactly `w` bytes.
pub proof fn lemma_be_encode_len(v: nat, w: nat)
    ensures
        be_encode(v, w).len() == w,
    decreases w,
{
    if w > 0 {
        lemma_be_encode_len(v / 256, (w - 1) as nat);
    }
}

/// The little-endian reading of a sequence is below `256^len`.
pub proof fn lemma_le_decode_bound(s: Seq<u8>)
    ensures
        le_decode(s) < pow256(s.len()),
    decreases s.len(),
{
    if s.len() > 0 {
        lemma_le_decode_bound(s.subrange(1, s.len() as int));
    }
}

/// The big-endian reading of a sequence is below `256^len`.
pub proof fn lemma_be_decode_bound(s: Seq<u8>)
    ensures
        be_decode(s) < pow256(s.len()),
    decreases s.len(),
{
    if s.len() > 0 {
        lemma_be_decode_bound(s.drop_last());
    }
}

/// Round trip, little-endian: decoding the encoding of any representable
/// value returns that value.
pub proof fn lemma_le_round_trip(v: nat, w: nat)
    requires
        v < pow256(w),
    ensures
        le_decode(le_encode(v, w)) == v,
    decreases w,
{
    if w > 0 {
        let s = le_encode(v, w);
        let tail = le_encode(v / 256, (w - 1) as nat);
        assert(s.subrange(1, s.len() as int) =~= tail);
        lemma_div_bound(v, (w - 1) as nat);
        lemma_le_round_trip(v / 256, (w - 1) as nat);
        lemma_fundamental_div_mod(v as int, 256);
    }
}

/// Round trip, big-endian: decoding the encoding of any representable
/// value returns that value.
pub proof fn lemma_be_round_trip(v: nat, w: nat)
    requires
        v < pow256(w),
    ensures
        be_decode(be_encode(v, w)) == v,
    decreases w,
{
    if w > 0 {
        let s = be_encode(v, w);
        let head = be_encode(v / 256, (w - 1) as nat);
        assert(s.drop_last() =~= head);
        lemma_div_bound(v, (w - 1) as nat);
        lemma_be_round_trip(v / 256, (w - 1) as nat);
        lemma_fundamental_div_mod(v as int, 256);
    }
}

/// `v < 256^(w+1)` puts `v / 256` below `256^w`.
proof fn lemma_div_bound(v: nat, w: nat)
    requires
        v < 256 * pow256(w),
    ensures
        v / 256 < pow256(w),
{
    lemma_fundamental_div_mod(v as int, 256);
}

/// The values of `pow256` at the widths of the machine integer types.
pub proof fn lemma_pow256_values()
    ensures
        pow256(1) == 0x100,
        pow256(2) == 0x1_0000,
        pow256(4) == 0x1_0000_0000,
        pow256(8) == 0x1_0000_0000_0000_0000,
{
    assert(pow256(8) == 0x1_0000_0000_0000_0000 && pow256(4) == 0x1_0000_0000
        && pow256(2) == 0x1_0000 && pow256(1) == 0x100) by {
        reveal_with_fuel(pow256, 9);
    }
}

/// The big-endian bytes of a value are its little-endian bytes reversed.
pub proof fn lemma_be_is_le_reversed(v: nat, w: nat)
    ensures
        forall|i: int|
            0 <= i < w ==> #[trigger] be_encode(v, w)[i] == le_encode(v, w)[w - 1 - i],
    decreases w,
{
    lemma_le_encode_len(v, w);
    lemma_be_encode_len(v, w);
    if w > 0 {
        let wl: nat = (w - 1) as nat;
        lemma_le_encode_len(v / 256, wl);
        lemma_be_encode_len(v / 256, wl);
        lemma_be_is_le_reversed(v / 256, wl);
        assert forall|i: int| 0 <= i < w implies #[trigger] be_encode(v, w)[i] == le_encode(
            v,
            w,
        )[w - 1 - i] by {
            if i < w - 1 {
                assert(be_encode(v, w)[i] == be_encode(v / 256, wl)[i]);
                assert(le_encode(v, w)[w - 1 - i] == le_encode(v / 256, wl)[w - 2 - i]);
            } else {
                assert(be_encode(v, w)[i] == (v % 256) as u8);
                assert(le_encode(v, w)[0] == (v % 256) as u8);
            }
        }
    }
}

/// Reads up to eight bytes as a little-endian value.
pub fn le_read(bytes: &[u8]) -> (r: u64)
    requires
        bytes@.len() <= 8,
    ensures
        r as nat == le_decode(bytes@),
{
    let n = bytes.len();
    let mut r: u64 = 0;
    let mut i: usize = n;
    proof {
        assert(bytes@.subrange(n as int, n as int) =~= Seq::<u8>::empty());
    }
    while i > 0
        invariant
            i <= n,
            n == bytes@.len() <= 8,
            r as nat == le_decode(bytes@.subrange(i as int, n as int)),
            r < pow256((n - i) as nat),
        decreases i,
    {
        i = i - 1;
        let b = bytes[i];
        proof {
            let tail = bytes@.subrange(i + 1, n as int);
            assert(bytes@.subrange(i as int, n as int).subrange(
                1,
                bytes@.subrange(i as int, n as int).len() as int,
            ) =~= tail);
            lemma_pow256_values();
            assert(pow256((n - i) as nat) == 256 * pow256((n - i - 1) as nat));
            lemma_pow256_monotonic((n - i) as nat, 8);
        }
        r = r * 256 + b as u64;
    }
    proof {
        assert(bytes@.subrange(0, n as int) =~= bytes@);
    }
    r
}

/// Reads up to eight bytes as a big-endian value.
pub fn be_read(bytes: &[u8]) -> (r: u64)
    requires
        bytes@.len() <= 8,
    ensures
        r as nat == be_decode(bytes@),
{
    let n = bytes.len();
    let mut r: u64 = 0;
    let mut i: usize = 0;
    proof {
        assert(bytes@.subrange(0, 0) =~= Seq::<u8>::empty());
    }
    while i < n
        invariant
            i <= n,
            n == bytes@.len() <= 8,
            r as nat == be_decode(bytes@.subrange(0, i as int)),
            r < pow256(i as nat),
        decreases n - i,
    {
        let b = bytes[i];
        proof {
            assert(bytes@.subrange(0, i + 1).drop_last() =~= bytes@.subrange(0, i as int));
            assert(bytes@.subrange(0, i + 1).last() == bytes@[i as int]);
            lemma_pow256_values();
            assert(pow256((i + 1) as nat) == 256 * pow256(i as nat));
            lemma_pow256_monotonic((i + 1) as nat, 8);
        }
        r = r * 256 + b as u64;
        i = i + 1;
    }
    proof {
        assert(bytes@.subrange(0, n as int) =~= bytes@);
    }
    r
}

/// `pow256` is monotonic in the width.
proof fn lemma_pow256_monotonic(a: nat, b: nat)
    requires
        a <= b,
    ensures
        pow256(a) <= pow256(b),
    decreases b,
{
    if a < b {
        lemma_pow256_monotonic(a, (b - 1) as nat);
        assert(pow256(b) == 256 * pow256((b - 1) as nat));
    }
}

/// Writes the `width` little-endian bytes of a value.
pub fn le_write(v: u64, width: usize) -> (r: Vec<u8>)
    ensures
        r@ == le_encode(v as nat, width as nat),
{
    let ghost v0: nat = v as nat;
    let mut rest = v;
    let mut r: Vec<u8> = Vec::new();
    let mut k: usize = 0;
    while k < width
        invariant
            k <= width,
            r@.len() == k,
            le_encode(v0, width as nat) == r@ + le_encode(rest as nat, (width - k) as nat),
        decreases width - k,
    {
        let b = (rest % 256) as u8;
        proof {
            let rem: nat = (width - k) as nat;
            assert(le_encode(rest as nat, rem) == seq![b] + le_encode(
                rest as nat / 256,
                (rem - 1) as nat,
            ));
            assert(r@ + le_encode(rest as nat, rem) =~= r@.push(b) + le_encode(
                rest as nat / 256,
                (rem - 1) as nat,
            ));
        }
        r.push(b);
        rest = rest / 256;
        k = k + 1;
    }
    proof {
        assert(r@ + le_encode(rest as nat, 0) =~= r@);
    }
    r
}

/// Writes the `width` big-endian bytes of a value.
pub fn be_write(v: u64, width: usize) -> (r: Vec<u8>)
    ensures
        r@ == be_encode(v as nat, width as nat),
{
    let le = le_write(v, width);
    proof {
        lemma_le_encode_len(v as nat, width as nat);
    }
    let mut r: Vec<u8> = Vec::new();
    let mut k: usize = 0;
    while k < width
        invariant
            k <= width,
            r@.len() == k,
            le@ == le_encode(v as nat, width as nat),
            le@.len() == width,
            forall|j: int| 0 <= j < k ==> r@[j] == le@[width - 1 - j],
        decreases width - k,
    {
        let b = le[width - 1 - k];
        r.push(b);
        k = k + 1;
    }
    proof {
        lemma_le_encode_len(v as nat, width as nat);
        lemma_be_encode_len(v as nat, width as nat);
        lemma_be_is_le_reversed(v as nat, width as nat);
        assert(r@ =~= be_encode(v as nat, width as nat));
    }
    r
}

/// The two readings of a single byte agree: endianness of a one-byte
/// field is moot.
pub proof fn lemma_single_byte_order_independent(s: Seq<u8>)
    requires
        s.len() == 1,
    ensures
        le_decode(s) == be_decode(s),
        le_decode(s) == s[0] as nat,
{
    assert(s.subrange(1, 1) =~= Seq::<u8>::empty());
    assert(s.drop_last() =~= Seq::<u8>::empty());
    assert(le_decode(Seq::<u8>::empty()) == 0);
    assert(be_decode(Seq::<u8>::empty()) == 0);
    assert(le_decode(s) == s[0] as nat + 256 * le_decode(s.subrange(1, 1)));
    assert(be_decode(s) == 256 * be_decode(s.drop_last()) + s.last() as nat);
    assert(s.last() == s[0]);
}

} // verus!
