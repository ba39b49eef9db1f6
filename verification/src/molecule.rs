//! The molecule layouts that the fiber messages use: 4-byte numbers, and
//! the header-plus-offsets layout shared by tables and dynamic vectors.
use vstd::prelude::*;

use vstd::slice::{slice_subrange, slice_to_vec};

use crate::bytes::{
    decode_le, encode_le, le_bytes, le_value, lemma_le_value_bound, lemma_le_bytes_len, lemma_le_bytes_of_value, lemma_le_value_of_bytes,
    lemma_pow256_values, pow256,
};

verus! {

/// Why a byte string is not a well-formed molecule value, with the sizes
/// and counts that molecule reports.
#[derive(Clone, Copy, Debug, PartialEq, Eq, Structural)]
pub enum VerificationError {
    /// The size is not the one that the value calls for: that size, then
    /// the size there is.
    TotalSizeNotMatch(usize, usize),
    /// The value is too short for its header: the size that the header
    /// needs, then the size there is.
    HeaderIsBroken(usize, usize),
    /// A union item id names no item: the number of items, then the id.
    UnknownItem(usize, u32),
    /// The offsets of the header are out of order or misplaced.
    OffsetsNotMatch,
    /// A table has another number of fields: the number it has, then the
    /// number that the header gives.
    FieldCountNotMatch(usize, usize),
}

/// A molecule number: 4 bytes, least significant first (cut to 32 bits).
pub open spec fn number(v: nat) -> Seq<u8> {
    le_bytes(v, 4)
}

/// The molecule number stored at `at`.
pub open spec fn read_number(s: Seq<u8>, at: int) -> nat {
    le_value(s.subrange(at, at + 4))
}

/// The byte strings of `fs`, one after the other.
pub open spec fn concat(fs: Seq<Seq<u8>>) -> Seq<u8>
    decreases fs.len(),
{
    if fs.len() == 0 {
        Seq::empty()
    } else {
        concat(fs.drop_last()) + fs.last()
    }
}

/// The size of the header of a table or dynamic vector of `n` items.
pub open spec fn header_size(n: nat) -> nat {
    4 * (n + 1)
}

/// Where item `i` of `fs` starts in their encoding.
pub open spec fn offset_of(fs: Seq<Seq<u8>>, i: int) -> nat {
    header_size(fs.len()) + concat(fs.take(i)).len()
}

/// The offsets of all items of `fs`.
pub open spec fn offsets_of(fs: Seq<Seq<u8>>) -> Seq<nat> {
    Seq::new(fs.len(), |i: int| offset_of(fs, i))
}

/// Each of `xs` as a molecule number.
pub open spec fn numbers(xs: Seq<nat>) -> Seq<Seq<u8>> {
    Seq::new(xs.len(), |i: int| number(xs[i]))
}

/// The encoding of a table (or dynamic vector) whose items are encoded as
/// `fs`: the total size, the offset of each item, then the items.
pub open spec fn dyn_encode(fs: Seq<Seq<u8>>) -> Seq<u8> {
    number(header_size(fs.len()) + concat(fs).len()) + concat(numbers(offsets_of(fs))) + concat(fs)
}

/// Offset `i` of a header with `n` offsets; offset `n` is the end of `s`.
pub open spec fn offset(s: Seq<u8>, n: nat, i: int) -> nat {
    if i < n {
        read_number(s, 4 + 4 * i)
    } else {
        s.len()
    }
}

pub open spec fn offsets_monotone(s: Seq<u8>, n: nat) -> bool {
    forall|i: int| 0 <= i < n ==> #[trigger] offset(s, n, i) <= offset(s, n, i + 1)
}

/// The items of `s` according to its `n` offsets.
pub open spec fn split_fields(s: Seq<u8>, n: nat) -> Seq<Seq<u8>> {
    Seq::new(n, |i: int| s.subrange(offset(s, n, i) as int, offset(s, n, i + 1) as int))
}

/// The items of a table of `k` fields (`expected` is `Some(k)`, `k >= 1`) or of a
/// dynamic vector (`expected` is `None`), checked in the order that molecule
/// checks them.
#[verifier::opaque]
pub open spec fn split_dyn(s: Seq<u8>, expected: Option<nat>) -> Result<
    Seq<Seq<u8>>,
    VerificationError,
> {
    if s.len() < 4 {
        Err(VerificationError::HeaderIsBroken(4, s.len() as usize))
    } else if read_number(s, 0) != s.len() {
        Err(VerificationError::TotalSizeNotMatch(read_number(s, 0) as usize, s.len() as usize))
    } else if expected is None && s.len() == 4 {
        Ok(Seq::empty())
    } else if s.len() < 8 {
        if expected is None {
            Err(VerificationError::TotalSizeNotMatch(8, s.len() as usize))
        } else {
            Err(VerificationError::HeaderIsBroken(8, s.len() as usize))
        }
    } else {
        let first = read_number(s, 4);
        if first % 4 != 0 || first < 8 {
            Err(VerificationError::OffsetsNotMatch)
        } else if s.len() < first {
            Err(VerificationError::HeaderIsBroken(first as usize, s.len() as usize))
        } else {
            let n = (first / 4 - 1) as nat;
            if expected matches Some(k) && n != k {
                Err(VerificationError::FieldCountNotMatch(expected->Some_0 as usize, n as usize))
            } else if !offsets_monotone(s, n) {
                Err(VerificationError::OffsetsNotMatch)
            } else {
                Ok(split_fields(s, n))
            }
        }
    }
}

/// An optional count as a natural number.
pub open spec fn opt_nat(o: Option<usize>) -> Option<nat> {
    match o {
        Some(k) => Some(k as nat),
        None => None,
    }
}

/// The views of a vector of byte vectors.
pub open spec fn views(fs: Seq<Vec<u8>>) -> Seq<Seq<u8>> {
    Seq::new(fs.len(), |i: int| fs[i]@)
}

// ------------------------------------------------------------------------
// Lemmas on `concat`.
pub proof fn lemma_concat_push(fs: Seq<Seq<u8>>, f: Seq<u8>)
    ensures
        concat(fs.push(f)) == concat(fs) + f,
{
    assert(fs.push(f).drop_last() =~= fs);
}

pub proof fn lemma_concat_take_step(fs: Seq<Seq<u8>>, i: int)
    requires
        0 <= i < fs.len(),
    ensures
        concat(fs.take(i + 1)) == concat(fs.take(i)) + fs[i],
{
    assert(fs.take(i + 1).drop_last() =~= fs.take(i));
}

pub proof fn lemma_concat_take_all(fs: Seq<Seq<u8>>)
    ensures
        concat(fs.take(fs.len() as int)) == concat(fs),
{
    assert(fs.take(fs.len() as int) =~= fs);
}

/// `concat(fs.take(j))` is a prefix of `concat(fs)`.
pub proof fn lemma_concat_prefix(fs: Seq<Seq<u8>>, j: int)
    requires
        0 <= j <= fs.len(),
    ensures
        concat(fs.take(j)).len() <= concat(fs).len(),
        concat(fs).subrange(0, concat(fs.take(j)).len() as int) == concat(fs.take(j)),
    decreases fs.len() - j,
{
    if j == fs.len() {
        lemma_concat_take_all(fs);
        assert(concat(fs).subrange(0, concat(fs).len() as int) =~= concat(fs));
    } else {
        lemma_concat_prefix(fs, j + 1);
        lemma_concat_take_step(fs, j);
        let a = concat(fs.take(j));
        let b = concat(fs.take(j + 1));
        assert(b.subrange(0, a.len() as int) =~= a);
        assert(concat(fs).subrange(0, a.len() as int) =~= concat(fs).subrange(
            0,
            b.len() as int,
        ).subrange(0, a.len() as int));
    }
}

/// Item `i` of `fs` stands in `concat(fs)` between its two offsets.
pub proof fn lemma_concat_item(fs: Seq<Seq<u8>>, i: int)
    requires
        0 <= i < fs.len(),
    ensures
        concat(fs.take(i + 1)).len() == concat(fs.take(i)).len() + fs[i].len(),
        concat(fs.take(i + 1)).len() <= concat(fs).len(),
        concat(fs).subrange(
            concat(fs.take(i)).len() as int,
            concat(fs.take(i + 1)).len() as int,
        ) == fs[i],
{
    lemma_concat_take_step(fs, i);
    lemma_concat_prefix(fs, i + 1);
    let a = concat(fs.take(i));
    let b = concat(fs.take(i + 1));
    assert(b.subrange(a.len() as int, b.len() as int) =~= fs[i]);
    assert(concat(fs).subrange(a.len() as int, b.len() as int) =~= concat(fs).subrange(
        0,
        b.len() as int,
    ).subrange(a.len() as int, b.len() as int));
}

/// The offsets of `fs` grow by the size of each item.
pub proof fn lemma_concat_take_len_monotone(fs: Seq<Seq<u8>>, i: int, j: int)
    requires
        0 <= i <= j <= fs.len(),
    ensures
        concat(fs.take(i)).len() <= concat(fs.take(j)).len(),
    decreases j - i,
{
    if i < j {
        lemma_concat_take_len_monotone(fs, i, j - 1);
        lemma_concat_take_step(fs, j - 1);
    }
}

/// Consecutive subranges of `s` put together give the range that they cover.
pub proof fn lemma_concat_subranges(s: Seq<u8>, o: spec_fn(int) -> int, n: nat)
    requires
        forall|i: int| 0 <= i < n ==> #[trigger] o(i) <= o(i + 1),
        0 <= o(0),
        o(n as int) <= s.len(),
    ensures
        concat(Seq::new(n, |i: int| s.subrange(o(i), o(i + 1)))) == s.subrange(o(0), o(n as int)),
    decreases n,
{
    let parts = Seq::new(n, |i: int| s.subrange(o(i), o(i + 1)));
    if n == 0 {
        assert(s.subrange(o(0), o(0)) =~= Seq::<u8>::empty());
    } else {
        let m = (n - 1) as nat;
        assert forall|i: int| 0 <= i < m implies #[trigger] o(i) <= o(i + 1) by {
            assert(o(i) <= o(i + 1));
        }
        lemma_monotone_chain(o, m, n);
        assert(o(m as int) <= o(n as int));
        lemma_concat_subranges(s, o, m);
        assert(parts.drop_last() =~= Seq::new(m, |i: int| s.subrange(o(i), o(i + 1))));
        assert(s.subrange(o(0), o(n as int)) =~= s.subrange(o(0), o(m as int)) + s.subrange(
            o(m as int),
            o(n as int),
        ));
    }
}

pub proof fn lemma_monotone_chain(o: spec_fn(int) -> int, i: nat, n: nat)
    requires
        forall|k: int| 0 <= k < n ==> #[trigger] o(k) <= o(k + 1),
        i <= n,
    ensures
        o(0) <= o(i as int) <= o(n as int),
    decreases n,
{
    if i < n {
        lemma_monotone_chain(o, i, (n - 1) as nat);
        assert(o(n - 1) <= o(n as int));
    } else if n > 0 {
        lemma_monotone_chain(o, (n - 1) as nat, (n - 1) as nat);
        assert(o(n - 1) <= o(n as int));
    }
}

/// A sequence of `n` molecule numbers takes `4n` bytes, number `i` at `4i`.
pub proof fn lemma_numbers(xs: Seq<nat>)
    ensures
        concat(numbers(xs)).len() == 4 * xs.len(),
        forall|i: int|
            0 <= i < xs.len() ==> #[trigger] concat(numbers(xs)).subrange(4 * i, 4 * i + 4)
                == number(xs[i]),
    decreases xs.len(),
{
    let f = numbers(xs);
    if xs.len() > 0 {
        let ys = xs.drop_last();
        lemma_numbers(ys);
        let g = numbers(ys);
        assert(f.drop_last() =~= g);
        lemma_le_bytes_len(xs.last(), 4);
        assert forall|i: int| 0 <= i < xs.len() implies #[trigger] concat(f).subrange(
            4 * i,
            4 * i + 4,
        ) == number(xs[i]) by {
            if i < ys.len() {
                assert(concat(f).subrange(4 * i, 4 * i + 4) =~= concat(g).subrange(
                    4 * i,
                    4 * i + 4,
                ));
            } else {
                assert(concat(f).subrange(4 * i, 4 * i + 4) =~= number(xs.last()));
            }
        }
    }
}

// ------------------------------------------------------------------------
// The two directions of the layout.
/// The items delimited by a header whose offsets are in order, and where
/// each of them starts.
proof fn lemma_split_body(s: Seq<u8>, n: nat)
    requires
        offsets_monotone(s, n),
        offset(s, n, 0) == header_size(n),
        header_size(n) <= s.len(),
    ensures
        concat(split_fields(s, n)) == s.subrange(header_size(n) as int, s.len() as int),
        forall|i: int| 0 <= i < n ==> #[trigger] offset_of(split_fields(s, n), i) == offset(s, n, i),
{
    let fs = split_fields(s, n);
    let o = |i: int| offset(s, n, i) as int;
    assert forall|i: int| 0 <= i < n implies #[trigger] o(i) <= o(i + 1) by {
        assert(offset(s, n, i) <= offset(s, n, i + 1));
    }
    assert(fs =~= Seq::new(n, |i: int| s.subrange(o(i), o(i + 1))));
    lemma_concat_subranges(s, o, n);
    assert forall|i: int| 0 <= i < n implies #[trigger] offset_of(fs, i) == offset(s, n, i) by {
        assert(fs.take(i) =~= Seq::new(i as nat, |k: int| s.subrange(o(k), o(k + 1))));
        assert forall|k: int| 0 <= k < i implies #[trigger] o(k) <= o(k + 1) by {
            assert(o(k) <= o(k + 1));
        }
        lemma_monotone_chain(o, i as nat, n);
        lemma_concat_subranges(s, o, i as nat);
    }
}

/// The first `n` numbers of a header, put back together.
proof fn lemma_split_header(s: Seq<u8>, n: nat)
    requires
        4 + 4 * n <= s.len(),
    ensures
        concat(numbers(Seq::new(n, |i: int| offset(s, n, i)))) == s.subrange(4, (4 + 4 * n) as int),
{
    let hs = numbers(Seq::new(n, |i: int| offset(s, n, i)));
    let h = |i: int| 4 + 4 * i;
    assert forall|i: int| 0 <= i < n implies #[trigger] h(i) <= h(i + 1) by {}
    lemma_concat_subranges(s, h, n);
    assert(Seq::new(n, |i: int| s.subrange(h(i), h(i + 1))) =~= hs) by {
        assert forall|i: int| 0 <= i < n implies s.subrange(h(i), h(i + 1)) == #[trigger] hs[i] by {
            lemma_le_bytes_of_value(s.subrange(4 + 4 * i, 8 + 4 * i));
        }
    }
}

/// A header whose offsets are in order describes the encoding of the items
/// that it delimits.
#[verifier::rlimit(40)]
pub proof fn lemma_split_then_encode(s: Seq<u8>, expected: Option<nat>)
    requires
        split_dyn(s, expected) is Ok,
    ensures
        dyn_encode(split_dyn(s, expected)->Ok_0) == s,
{
    lemma_split_dyn_ok_shape(s, expected);
    let fs = split_dyn(s, expected)->Ok_0;
    lemma_le_bytes_of_value(s.subrange(0, 4));
    if expected is None && s.len() == 4 {
        assert(fs =~= Seq::<Seq<u8>>::empty());
        assert(concat(fs) =~= Seq::<u8>::empty());
        assert(numbers(offsets_of(fs)) =~= Seq::<Seq<u8>>::empty());
        assert(s =~= s.subrange(0, 4));
        assert(dyn_encode(fs) =~= s);
    } else {
        let first = read_number(s, 4);
        let n = (first / 4 - 1) as nat;
        assert(fs == split_fields(s, n));
        assert(header_size(n) == first);
        assert(offset(s, n, 0) == first);
        lemma_split_body(s, n);
        lemma_split_header(s, n);
        assert(offsets_of(fs) =~= Seq::new(n, |i: int| offset(s, n, i)));
        assert(s =~= s.subrange(0, 4) + s.subrange(4, first as int) + s.subrange(
            first as int,
            s.len() as int,
        ));
    }
}

/// What an accepted header is: an empty dynamic vector, or a total size
/// that matches, a first offset that is a multiple of 4 inside the value,
/// and offsets in order, which delimit the items.
proof fn lemma_split_dyn_ok_shape(s: Seq<u8>, expected: Option<nat>)
    requires
        split_dyn(s, expected) is Ok,
    ensures
        s.len() >= 4,
        read_number(s, 0) == s.len(),
        expected is None && s.len() == 4 ==> split_dyn(s, expected)->Ok_0 == Seq::<Seq<u8>>::empty(),
        !(expected is None && s.len() == 4) ==> {
            let first = read_number(s, 4);
            &&& s.len() >= 8
            &&& first % 4 == 0
            &&& first >= 8
            &&& first <= s.len()
            &&& offsets_monotone(s, (first / 4 - 1) as nat)
            &&& split_dyn(s, expected)->Ok_0 == split_fields(s, (first / 4 - 1) as nat)
        },
{
    reveal(split_dyn);
}

/// The parts of an encoding.
proof fn lemma_dyn_encode_parts(fs: Seq<Seq<u8>>)
    ensures
        dyn_encode(fs).len() == header_size(fs.len()) + concat(fs).len(),
        dyn_encode(fs).subrange(0, 4) == number(header_size(fs.len()) + concat(fs).len()),
        forall|i: int|
            0 <= i < fs.len() ==> #[trigger] dyn_encode(fs).subrange(4 + 4 * i, 8 + 4 * i)
                == number(offset_of(fs, i)),
        dyn_encode(fs).subrange(header_size(fs.len()) as int, dyn_encode(fs).len() as int)
            == concat(fs),
{
    let n = fs.len();
    let s = dyn_encode(fs);
    let total = header_size(n) + concat(fs).len();
    let hs = numbers(offsets_of(fs));
    lemma_numbers(offsets_of(fs));
    lemma_le_bytes_len(total, 4);
    assert(s.subrange(0, 4) =~= number(total));
    assert forall|i: int| 0 <= i < n implies #[trigger] s.subrange(4 + 4 * i, 8 + 4 * i)
        == number(offset_of(fs, i)) by {
        assert(s.subrange(4 + 4 * i, 8 + 4 * i) =~= concat(hs).subrange(4 * i, 4 * i + 4));
    }
    assert(s.subrange(header_size(n) as int, s.len() as int) =~= concat(fs));
}

/// Items of at most `b` bytes each take at most `b` bytes apiece.
proof fn lemma_concat_bounded(fs: Seq<Seq<u8>>, b: nat)
    requires
        forall|i: int| 0 <= i < fs.len() ==> #[trigger] fs[i].len() <= b,
    ensures
        concat(fs).len() <= b * fs.len(),
    decreases fs.len(),
{
    if fs.len() > 0 {
        let rest = fs.drop_last();
        assert forall|i: int| 0 <= i < rest.len() implies #[trigger] rest[i].len() <= b by {
            assert(rest[i] == fs[i]);
        }
        lemma_concat_bounded(rest, b);
        assert(fs.last().len() <= b);
        assert(b * rest.len() + b == b * fs.len()) by (nonlinear_arith)
            requires
                rest.len() + 1 == fs.len(),
        ;
    }
}

/// A table of `n` items of at most `b` bytes each takes at most
/// `4 * (n + 1) + b * n` bytes.
pub proof fn lemma_dyn_encode_bounded(fs: Seq<Seq<u8>>, b: nat)
    requires
        forall|i: int| 0 <= i < fs.len() ==> #[trigger] fs[i].len() <= b,
    ensures
        dyn_encode(fs).len() <= 4 * (fs.len() + 1) + b * fs.len(),
{
    lemma_dyn_encode_parts(fs);
    lemma_concat_bounded(fs, b);
}

/// The offsets of encoded items grow by the size of each item, and the last
/// item ends at the end of the encoding.
proof fn lemma_encoded_items(fs: Seq<Seq<u8>>)
    ensures
        offset_of(fs, fs.len() as int) == header_size(fs.len()) + concat(fs).len(),
        forall|i: int|
            0 <= i < fs.len() ==> #[trigger] offset_of(fs, i) <= offset_of(fs, i + 1) && offset_of(
                fs,
                i + 1,
            ) <= header_size(fs.len()) + concat(fs).len() && dyn_encode(fs).subrange(
                offset_of(fs, i) as int,
                offset_of(fs, i + 1) as int,
            ) == fs[i],
{
    let n = fs.len();
    let hdr = header_size(n);
    lemma_concat_take_all(fs);
    lemma_dyn_encode_parts(fs);
    let s = dyn_encode(fs);
    let body = concat(fs);
    assert forall|i: int| 0 <= i < n implies #[trigger] offset_of(fs, i) <= offset_of(fs, i + 1)
        && offset_of(fs, i + 1) <= hdr + body.len() && s.subrange(
        offset_of(fs, i) as int,
        offset_of(fs, i + 1) as int,
    ) == fs[i] by {
        lemma_concat_item(fs, i);
        let a = concat(fs.take(i)).len();
        let b = concat(fs.take(i + 1)).len();
        assert(s.subrange((hdr + a) as int, (hdr + b) as int) =~= body.subrange(a as int, b as int));
    }
}

/// Encoding items and reading the header back gives the same items, when the
/// total size fits in a molecule number.
#[verifier::rlimit(80)]
pub proof fn lemma_encode_then_split(fs: Seq<Seq<u8>>, expected: Option<nat>)
    requires
        dyn_encode(fs).len() < 0x1_0000_0000,
        expected matches Some(k) ==> k == fs.len() && k >= 1,
    ensures
        split_dyn(dyn_encode(fs), expected) == Ok::<Seq<Seq<u8>>, VerificationError>(fs),
{
    let n = fs.len();
    let s = dyn_encode(fs);
    let hdr = header_size(n);
    let total = hdr + concat(fs).len();
    lemma_dyn_encode_parts(fs);
    lemma_encoded_items(fs);
    lemma_pow256_values();
    lemma_le_value_of_bytes(total, 4);
    vstd::arithmetic::div_mod::lemma_small_mod(total, pow256(4));
    assert(read_number(s, 0) == s.len());
    if n == 0 {
        assert(fs =~= Seq::<Seq<u8>>::empty());
        reveal(split_dyn);
    } else {
        assert forall|i: int| 0 <= i < n implies #[trigger] offset(s, n, i) == offset_of(fs, i) by {
            assert(s.subrange(4 + 4 * i, 8 + 4 * i) == number(offset_of(fs, i)));
            assert(s.subrange(4 + 4 * i, 8 + 4 * i) =~= s.subrange(4 + 4 * i, 4 + 4 * i + 4));
            lemma_le_value_of_bytes(offset_of(fs, i), 4);
            vstd::arithmetic::div_mod::lemma_small_mod(offset_of(fs, i), pow256(4));
        }
        assert(offset(s, n, n as int) == offset_of(fs, n as int));
        assert(offset_of(fs, 0) == hdr) by {
            assert(fs.take(0) =~= Seq::<Seq<u8>>::empty());
        }
        assert(offset(s, n, 0) == hdr);
        assert forall|i: int| 0 <= i < n implies #[trigger] offset(s, n, i) <= offset(s, n, i + 1) by {
            assert(offset_of(fs, i) <= offset_of(fs, i + 1));
        }
        assert(split_fields(s, n) =~= fs) by {
            assert forall|i: int| 0 <= i < n implies #[trigger] split_fields(s, n)[i] == fs[i] by {
                assert(offset_of(fs, i) <= offset_of(fs, i + 1));
            }
        }
        lemma_split_dyn_ok(s, n, expected);
    }
}

/// When the header is sound, `split_dyn` gives the items that it delimits.
proof fn lemma_split_dyn_ok(s: Seq<u8>, n: nat, expected: Option<nat>)
    requires
        n >= 1,
        read_number(s, 0) == s.len(),
        offset(s, n, 0) == header_size(n),
        header_size(n) <= s.len(),
        offsets_monotone(s, n),
        expected matches Some(k) ==> k == n,
    ensures
        split_dyn(s, expected) == Ok::<Seq<Seq<u8>>, VerificationError>(split_fields(s, n)),
{
    reveal(split_dyn);
    assert((4 * (n + 1)) / 4 - 1 == n);
}

/// A table check that passes gives as many fields as expected.
pub proof fn lemma_split_dyn_len(s: Seq<u8>, expected: Option<nat>)
    requires
        split_dyn(s, expected) is Ok,
    ensures
        expected matches Some(k) ==> split_dyn(s, expected)->Ok_0.len() == k,
{
    reveal(split_dyn);
}

/// The refusals of `split_dyn` before the order of the offsets.
proof fn lemma_split_dyn_early(s: Seq<u8>, e: Option<nat>)
    ensures
        s.len() < 4 ==> split_dyn(s, e) == Err::<Seq<Seq<u8>>, VerificationError>(
            VerificationError::HeaderIsBroken(4, s.len() as usize),
        ),
        s.len() >= 4 && read_number(s, 0) != s.len() ==> split_dyn(s, e) == Err::<
            Seq<Seq<u8>>,
            VerificationError,
        >(VerificationError::TotalSizeNotMatch(read_number(s, 0) as usize, s.len() as usize)),
        s.len() == 4 && read_number(s, 0) == s.len() && e is None ==> split_dyn(s, e) == Ok::<
            Seq<Seq<u8>>,
            VerificationError,
        >(Seq::empty()),
        4 <= s.len() < 8 && read_number(s, 0) == s.len() && !(e is None && s.len() == 4) ==> split_dyn(
            s,
            e,
        ) == (if e is None {
            Err::<Seq<Seq<u8>>, VerificationError>(
                VerificationError::TotalSizeNotMatch(8, s.len() as usize),
            )
        } else {
            Err::<Seq<Seq<u8>>, VerificationError>(
                VerificationError::HeaderIsBroken(8, s.len() as usize),
            )
        }),
        s.len() >= 8 && read_number(s, 0) == s.len() && (read_number(s, 4) % 4 != 0 || read_number(
            s,
            4,
        ) < 8) ==> split_dyn(s, e) == Err::<Seq<Seq<u8>>, VerificationError>(
            VerificationError::OffsetsNotMatch,
        ),
        s.len() >= 8 && read_number(s, 0) == s.len() && read_number(s, 4) % 4 == 0 && read_number(
            s,
            4,
        ) >= 8 && s.len() < read_number(s, 4) ==> split_dyn(s, e) == Err::<
            Seq<Seq<u8>>,
            VerificationError,
        >(VerificationError::HeaderIsBroken(read_number(s, 4) as usize, s.len() as usize)),
        s.len() >= 8 && read_number(s, 0) == s.len() && read_number(s, 4) % 4 == 0 && read_number(
            s,
            4,
        ) >= 8 && s.len() >= read_number(s, 4) && (e matches Some(k) && k != read_number(s, 4) / 4
            - 1) ==> split_dyn(s, e) == Err::<Seq<Seq<u8>>, VerificationError>(
            VerificationError::FieldCountNotMatch(
                e->Some_0 as usize,
                (read_number(s, 4) / 4 - 1) as usize,
            ),
        ),
{
    reveal(split_dyn);
}

/// Once the size and the first offset are sound, only the order of the
/// offsets is left to check.
proof fn lemma_split_dyn_after_header(s: Seq<u8>, expected: Option<nat>, n: nat)
    requires
        s.len() >= 8,
        read_number(s, 0) == s.len(),
        read_number(s, 4) % 4 == 0,
        read_number(s, 4) >= 8,
        s.len() >= read_number(s, 4),
        n == read_number(s, 4) / 4 - 1,
        expected matches Some(k) ==> k == n,
    ensures
        split_dyn(s, expected) == (if offsets_monotone(s, n) {
            Ok::<Seq<Seq<u8>>, VerificationError>(split_fields(s, n))
        } else {
            Err::<Seq<Seq<u8>>, VerificationError>(VerificationError::OffsetsNotMatch)
        }),
{
    reveal(split_dyn);
}

// ------------------------------------------------------------------------
// Executable encoding and decoding.
/// The table (or dynamic vector) of the encoded items `fs`.
pub fn encode_dyn(fs: &Vec<Vec<u8>>) -> (r: Vec<u8>)
    ensures
        r@ == dyn_encode(views(fs@)),
{
    let ghost vs = views(fs@);
    let n = fs.len();
    let header: u128 = 4 * (n as u128 + 1);
    let mut offs: Vec<u8> = Vec::new();
    let mut body: Vec<u8> = Vec::new();
    let mut i: usize = 0;
    while i < n
        invariant
            n == fs@.len(),
            vs == views(fs@),
            header == header_size(n as nat),
            i <= n,
            body@ == concat(vs.take(i as int)),
            offs@ == concat(numbers(offsets_of(vs).take(i as int))),
        decreases n - i,
    {
        let off = header + body.len() as u128;
        assert(off == offset_of(vs, i as int));
        let num = encode_le(off, 4);
        let ghost old_offs = offs@;
        offs.extend_from_slice(num.as_slice());
        proof {
            assert(numbers(offsets_of(vs).take(i + 1)) =~= numbers(offsets_of(vs).take(i as int)).push(
                number(off as nat),
            ));
            lemma_concat_push(numbers(offsets_of(vs).take(i as int)), number(off as nat));
            lemma_concat_take_step(vs, i as int);
        }
        body.extend_from_slice(fs[i].as_slice());
        i = i + 1;
    }
    proof {
        lemma_concat_take_all(vs);
        assert(offsets_of(vs).take(n as int) =~= offsets_of(vs));
    }
    let total = header + body.len() as u128;
    let mut r = encode_le(total, 4);
    r.append(&mut offs);
    r.append(&mut body);
    r
}

/// The items of a table of `k` fields (`expected` is `Some(k)`, `k >= 1`) or
/// of a dynamic vector (`expected` is `None`).
#[verifier::rlimit(80)]
pub fn split_dyn_exec(s: &[u8], expected: Option<usize>) -> (r: Result<
    Vec<Vec<u8>>,
    VerificationError,
>)
    ensures
        match r {
            Ok(fs) => split_dyn(s@, opt_nat(expected)) == Ok::<Seq<Seq<u8>>, VerificationError>(
                views(fs@),
            ),
            Err(e) => split_dyn(s@, opt_nat(expected)) == Err::<Seq<Seq<u8>>, VerificationError>(e),
        },
{
    proof {
        lemma_split_dyn_early(s@, opt_nat(expected));
    }
    let len = s.len();
    if len < 4 {
        return Err(VerificationError::HeaderIsBroken(4, len));
    }
    let total = decode_le(slice_subrange(s, 0, 4));
    proof {
        lemma_le_value_bound(s@.subrange(0, 4));
        lemma_pow256_values();
    }
    if total != len as u128 {
        return Err(VerificationError::TotalSizeNotMatch(total as usize, len));
    }
    if expected.is_none() && len == 4 {
        let r: Vec<Vec<u8>> = Vec::new();
        assert(views(r@) =~= Seq::<Seq<u8>>::empty());
        return Ok(r);
    }
    if len < 8 {
        if expected.is_none() {
            return Err(VerificationError::TotalSizeNotMatch(8, len));
        } else {
            return Err(VerificationError::HeaderIsBroken(8, len));
        }
    }
    let first_wide = decode_le(slice_subrange(s, 4, 8));
    proof {
        lemma_le_value_bound(s@.subrange(4, 8));
    }
    if first_wide % 4 != 0 || first_wide < 8 {
        return Err(VerificationError::OffsetsNotMatch);
    }
    if (len as u128) < first_wide {
        return Err(VerificationError::HeaderIsBroken(first_wide as usize, len));
    }
    let first = first_wide as usize;
    let n = first / 4 - 1;
    match expected {
        Some(k) => {
            if n != k {
                return Err(VerificationError::FieldCountNotMatch(k, n));
            }
        },
        None => {},
    }
    proof {
        lemma_split_dyn_after_header(s@, opt_nat(expected), n as nat);
    }
    // The offsets, the end of `s` last.
    let mut offsets: Vec<usize> = Vec::new();
    let mut i: usize = 0;
    while i < n
        invariant
            first == 4 * (n + 1),
            first <= len,
            len == s@.len(),
            i <= n,
            offsets@.len() == i,
            forall|j: int| 0 <= j < i ==> #[trigger] offsets@[j] == offset(s@, n as nat, j),
        decreases n - i,
    {
        let o = decode_le(slice_subrange(s, 4 + 4 * i, 8 + 4 * i));
        proof {
            lemma_le_value_bound(s@.subrange(4 + 4 * i, 8 + 4 * i));
            lemma_pow256_values();
        }
        offsets.push(o as usize);
        i = i + 1;
    }
    offsets.push(len);
    assert(forall|j: int| 0 <= j <= n ==> #[trigger] offsets@[j] == offset(s@, n as nat, j));
    // They must not go down.
    let mut i: usize = 0;
    while i < n
        invariant
            i <= n,
            split_dyn(s@, opt_nat(expected)) == (if offsets_monotone(s@, n as nat) {
                Ok::<Seq<Seq<u8>>, VerificationError>(split_fields(s@, n as nat))
            } else {
                Err::<Seq<Seq<u8>>, VerificationError>(VerificationError::OffsetsNotMatch)
            }),
            offsets@.len() == n + 1,
            forall|j: int| 0 <= j <= n ==> #[trigger] offsets@[j] == offset(s@, n as nat, j),
            forall|j: int| 0 <= j < i ==> #[trigger] offset(s@, n as nat, j) <= offset(
                s@,
                n as nat,
                j + 1,
            ),
        decreases n - i,
    {
        if offsets[i] > offsets[i + 1] {
            assert(offset(s@, n as nat, i as int) > offset(s@, n as nat, i + 1));
            assert(!offsets_monotone(s@, n as nat));
            return Err(VerificationError::OffsetsNotMatch);
        }
        i = i + 1;
    }
    assert(offsets_monotone(s@, n as nat));
    let ghost o = |j: int| offset(s@, n as nat, j) as int;
    // The items.
    let mut fields: Vec<Vec<u8>> = Vec::new();
    let mut i: usize = 0;
    while i < n
        invariant
            i <= n,
            len == s@.len(),
            split_dyn(s@, opt_nat(expected)) == Ok::<Seq<Seq<u8>>, VerificationError>(
                split_fields(s@, n as nat),
            ),
            offsets@.len() == n + 1,
            forall|j: int| 0 <= j <= n ==> #[trigger] offsets@[j] == offset(s@, n as nat, j),
            offsets_monotone(s@, n as nat),
            o == (|j: int| offset(s@, n as nat, j) as int),
            fields@.len() == i,
            forall|j: int| 0 <= j < i ==> (#[trigger] fields@[j])@ == split_fields(s@, n as nat)[j],
        decreases n - i,
    {
        proof {
            assert forall|k: int| 0 <= k < n implies #[trigger] o(k) <= o(k + 1) by {
                assert(offset(s@, n as nat, k) <= offset(s@, n as nat, k + 1));
            }
            lemma_monotone_chain(o, (i + 1) as nat, n as nat);
            assert(o(i as int) <= o(i + 1));
        }
        let f = slice_to_vec(slice_subrange(s, offsets[i], offsets[i + 1]));
        fields.push(f);
        i = i + 1;
    }
    assert(views(fields@) =~= split_fields(s@, n as nat));
    Ok(fields)
}

} // verus!
