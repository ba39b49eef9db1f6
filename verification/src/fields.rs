//! Encoding and decoding of single fields: numbers, byte vectors, vectors
//! of byte vectors, optional scripts.
use vstd::prelude::*;

use vstd::slice::{slice_subrange, slice_to_vec};

use crate::bytes::{
    decode_le, encode_le, le_bytes, le_value, lemma_le_bytes_injective, lemma_le_bytes_len,
    lemma_le_bytes_of_value, lemma_le_value_bound, lemma_le_value_of_bytes, lemma_pow256_values,
    pow256,
};
use crate::ckb::{spec_script_check, Script};
use crate::molecule::{
    concat, dyn_encode, encode_dyn, lemma_concat_item, lemma_concat_take_all,
    lemma_encode_then_split, lemma_split_dyn_len, lemma_split_then_encode, number, read_number,
    split_dyn, split_dyn_exec, views, VerificationError,
};
use crate::schema::{
    bytes_encode, spec_all_bytes_check, spec_bytes_check, spec_kind_check, FieldKind,
};

verus! {

/// The encoding of a vector of byte vectors.
pub open spec fn bytes_vec_encode(vs: Seq<Seq<u8>>) -> Seq<u8> {
    dyn_encode(Seq::new(vs.len(), |i: int| bytes_encode(vs[i])))
}

/// The encoding of an optional script: nothing, or the script.
pub open spec fn script_opt_encode(o: Option<Script>) -> Seq<u8> {
    match o {
        Some(s) => s.0@,
        None => Seq::empty(),
    }
}

/// Whether an optional script is absent or well formed.
pub open spec fn script_opt_wf(o: Option<Script>) -> bool {
    match o {
        Some(s) => s.wf(),
        None => true,
    }
}

/// Two optional scripts with the same bytes.
pub open spec fn script_opt_same(a: Option<Script>, b: Option<Script>) -> bool {
    match (a, b) {
        (Some(x), Some(y)) => x.0@ == y.0@,
        (None, None) => true,
        _ => false,
    }
}

// ------------------------------------------------------------------------
// Numbers.
pub fn encode_u8(v: u8) -> (r: Vec<u8>)
    ensures
        r@ == seq![v],
{
    let mut r = Vec::new();
    r.push(v);
    assert(r@ =~= seq![v]);
    r
}

pub fn encode_u32(v: u32) -> (r: Vec<u8>)
    ensures
        r@ == le_bytes(v as nat, 4),
{
    encode_le(v as u128, 4)
}

pub fn encode_u64(v: u64) -> (r: Vec<u8>)
    ensures
        r@ == le_bytes(v as nat, 8),
{
    encode_le(v as u128, 8)
}

pub fn encode_u128(v: u128) -> (r: Vec<u8>)
    ensures
        r@ == le_bytes(v as nat, 16),
{
    encode_le(v, 16)
}

pub fn decode_u32(f: &[u8]) -> (r: u32)
    requires
        f@.len() == 4,
    ensures
        le_bytes(r as nat, 4) == f@,
{
    proof {
        lemma_le_value_bound(f@);
        lemma_pow256_values();
        lemma_le_bytes_of_value(f@);
    }
    decode_le(f) as u32
}

pub fn decode_u64(f: &[u8]) -> (r: u64)
    requires
        f@.len() == 8,
    ensures
        le_bytes(r as nat, 8) == f@,
{
    proof {
        lemma_le_value_bound(f@);
        lemma_pow256_values();
        lemma_le_bytes_of_value(f@);
    }
    decode_le(f) as u64
}

pub fn decode_u128(f: &[u8]) -> (r: u128)
    requires
        f@.len() == 16,
    ensures
        le_bytes(r as nat, 16) == f@,
{
    proof {
        lemma_le_bytes_of_value(f@);
    }
    decode_le(f)
}

pub proof fn lemma_u32_injective(a: u32, b: u32)
    requires
        le_bytes(a as nat, 4) == le_bytes(b as nat, 4),
    ensures
        a == b,
{
    lemma_pow256_values();
    lemma_le_bytes_injective(a as nat, b as nat, 4);
}

pub proof fn lemma_u64_injective(a: u64, b: u64)
    requires
        le_bytes(a as nat, 8) == le_bytes(b as nat, 8),
    ensures
        a == b,
{
    lemma_pow256_values();
    lemma_le_bytes_injective(a as nat, b as nat, 8);
}

pub proof fn lemma_u128_injective(a: u128, b: u128)
    requires
        le_bytes(a as nat, 16) == le_bytes(b as nat, 16),
    ensures
        a == b,
{
    lemma_pow256_values();
    lemma_le_bytes_injective(a as nat, b as nat, 16);
}

// ------------------------------------------------------------------------
// Byte vectors.
pub fn encode_bytes(v: &[u8]) -> (r: Vec<u8>)
    ensures
        r@ == bytes_encode(v@),
{
    let mut r = encode_le(v.len() as u128, 4);
    r.extend_from_slice(v);
    r
}

pub fn decode_bytes(f: &[u8]) -> (r: Vec<u8>)
    requires
        spec_bytes_check(f@) is Ok,
    ensures
        bytes_encode(r@) == f@,
        r@ == f@.skip(4),
{
    let r = slice_to_vec(slice_subrange(f, 4, f.len()));
    proof {
        let c = f@.subrange(0, 4);
        lemma_le_bytes_of_value(c);
        assert(le_value(c) == read_number(f@, 0));
        assert(r@.len() == le_value(c));
        assert(f@ =~= c + r@);
    }
    r
}

/// The encoding of a byte vector passes the `Bytes` check, when its length
/// fits in a molecule number.
pub proof fn lemma_bytes_encode_checks(v: Seq<u8>)
    requires
        v.len() < 0x1_0000_0000,
    ensures
        spec_bytes_check(bytes_encode(v)) is Ok,
        bytes_encode(v).len() == 4 + v.len(),
{
    let e = bytes_encode(v);
    lemma_le_bytes_len(v.len(), 4);
    assert(e.subrange(0, 4) =~= number(v.len()));
    lemma_le_value_of_bytes(v.len(), 4);
    lemma_pow256_values();
    vstd::arithmetic::div_mod::lemma_small_mod(v.len(), pow256(4));
}

pub proof fn lemma_bytes_encode_injective(a: Seq<u8>, b: Seq<u8>)
    requires
        bytes_encode(a) == bytes_encode(b),
    ensures
        a == b,
{
    lemma_le_bytes_len(a.len(), 4);
    lemma_le_bytes_len(b.len(), 4);
    assert(a =~= bytes_encode(a).skip(4));
    assert(b =~= bytes_encode(b).skip(4));
}

// ------------------------------------------------------------------------
// Vectors of byte vectors.
pub fn encode_bytes_vec(vs: &Vec<Vec<u8>>) -> (r: Vec<u8>)
    ensures
        r@ == bytes_vec_encode(views(vs@)),
{
    let n = vs.len();
    let mut items: Vec<Vec<u8>> = Vec::new();
    let mut i: usize = 0;
    while i < n
        invariant
            n == vs@.len(),
            i <= n,
            items@.len() == i,
            forall|j: int| 0 <= j < i ==> (#[trigger] items@[j])@ == bytes_encode(vs@[j]@),
        decreases n - i,
    {
        items.push(encode_bytes(vs[i].as_slice()));
        i = i + 1;
    }
    let r = encode_dyn(&items);
    assert(views(items@) =~= Seq::new(views(vs@).len(), |k: int| bytes_encode(views(vs@)[k])));
    r
}

/// The items of a checked vector of byte vectors.
pub fn decode_bytes_vec(f: &[u8]) -> (r: Vec<Vec<u8>>)
    requires
        spec_kind_check(FieldKind::BytesVec, f@) is Ok,
    ensures
        bytes_vec_encode(views(r@)) == f@,
{
    let items = match split_dyn_exec(f, None) {
        Ok(items) => items,
        Err(_) => {
            assert(false);
            Vec::new()
        },
    };
    let ghost iv = views(items@);
    proof {
        lemma_split_then_encode(f@, None);
        lemma_all_bytes_check_each(iv);
    }
    let n = items.len();
    let mut r: Vec<Vec<u8>> = Vec::new();
    let mut i: usize = 0;
    while i < n
        invariant
            n == items@.len(),
            iv == views(items@),
            forall|j: int| 0 <= j < n ==> #[trigger] spec_bytes_check(iv[j]) is Ok,
            i <= n,
            r@.len() == i,
            forall|j: int| 0 <= j < i ==> bytes_encode((#[trigger] r@[j])@) == iv[j],
        decreases n - i,
    {
        assert(spec_bytes_check(iv[i as int]) is Ok);
        let b = decode_bytes(items[i].as_slice());
        r.push(b);
        i = i + 1;
    }
    assert(Seq::new(views(r@).len(), |k: int| bytes_encode(views(r@)[k])) =~= iv);
    r
}

pub proof fn lemma_all_bytes_check_each(items: Seq<Seq<u8>>)
    requires
        spec_all_bytes_check(items) is Ok,
    ensures
        forall|j: int| 0 <= j < items.len() ==> #[trigger] spec_bytes_check(items[j]) is Ok,
    decreases items.len(),
{
    if items.len() > 0 {
        lemma_all_bytes_check_each(items.drop_first());
        assert forall|j: int| 0 <= j < items.len() implies #[trigger] spec_bytes_check(items[j]) is Ok by {
            if j > 0 {
                assert(spec_bytes_check(items.drop_first()[j - 1]) is Ok);
            }
        }
    }
}

pub proof fn lemma_all_bytes_check_ok(items: Seq<Seq<u8>>)
    requires
        forall|j: int| 0 <= j < items.len() ==> #[trigger] spec_bytes_check(items[j]) is Ok,
    ensures
        spec_all_bytes_check(items) is Ok,
    decreases items.len(),
{
    if items.len() > 0 {
        assert(spec_bytes_check(items[0]) is Ok);
        assert forall|j: int| 0 <= j < items.drop_first().len() implies #[trigger] spec_bytes_check(
            items.drop_first()[j],
        ) is Ok by {
            assert(spec_bytes_check(items[j + 1]) is Ok);
        }
        lemma_all_bytes_check_ok(items.drop_first());
    }
}

/// An item of a table or vector is no longer than the items put together.
pub proof fn lemma_item_len(fs: Seq<Seq<u8>>, i: int)
    requires
        0 <= i < fs.len(),
    ensures
        fs[i].len() <= concat(fs).len(),
        fs[i].len() < dyn_encode(fs).len(),
{
    lemma_concat_item(fs, i);
    lemma_le_bytes_len(crate::molecule::header_size(fs.len()) + concat(fs).len(), 4);
}

/// The encoding of a vector of byte vectors passes its check, when it fits
/// in a molecule number.
pub proof fn lemma_bytes_vec_encode_checks(vs: Seq<Seq<u8>>)
    requires
        bytes_vec_encode(vs).len() < 0x1_0000_0000,
    ensures
        spec_kind_check(FieldKind::BytesVec, bytes_vec_encode(vs)) is Ok,
{
    let items = Seq::new(vs.len(), |i: int| bytes_encode(vs[i]));
    lemma_encode_then_split(items, None);
    assert forall|j: int| 0 <= j < items.len() implies #[trigger] spec_bytes_check(items[j]) is Ok by {
        lemma_item_len(items, j);
        lemma_le_bytes_len(vs[j].len(), 4);
        lemma_bytes_encode_checks(vs[j]);
    }
    lemma_all_bytes_check_ok(items);
}

pub proof fn lemma_bytes_vec_encode_injective(a: Seq<Seq<u8>>, b: Seq<Seq<u8>>)
    requires
        bytes_vec_encode(a) == bytes_vec_encode(b),
        bytes_vec_encode(a).len() < 0x1_0000_0000,
    ensures
        a == b,
{
    let ia = Seq::new(a.len(), |i: int| bytes_encode(a[i]));
    let ib = Seq::new(b.len(), |i: int| bytes_encode(b[i]));
    lemma_encode_then_split(ia, None);
    lemma_encode_then_split(ib, None);
    assert(ia == ib);
    assert forall|j: int| 0 <= j < a.len() implies a[j] == b[j] by {
        assert(ia[j] == ib[j]);
        lemma_bytes_encode_injective(a[j], b[j]);
    }
    assert(a =~= b);
}

// ------------------------------------------------------------------------
// Optional scripts.
pub fn encode_script_opt(o: &Option<Script>) -> (r: Vec<u8>)
    ensures
        r@ == script_opt_encode(*o),
{
    match o {
        Some(s) => slice_to_vec(s.as_slice()),
        None => Vec::new(),
    }
}

pub fn decode_script_opt(f: &[u8]) -> (r: Option<Script>)
    requires
        spec_kind_check(FieldKind::ScriptOpt, f@) is Ok,
    ensures
        script_opt_encode(r) == f@,
        script_opt_wf(r),
{
    if f.len() == 0 {
        assert(f@ =~= Seq::<u8>::empty());
        None
    } else {
        Some(Script(slice_to_vec(f)))
    }
}

pub proof fn lemma_script_opt_checks(o: Option<Script>)
    requires
        script_opt_wf(o),
    ensures
        spec_kind_check(FieldKind::ScriptOpt, script_opt_encode(o)) is Ok,
{
}

pub proof fn lemma_script_opt_injective(a: Option<Script>, b: Option<Script>)
    requires
        script_opt_wf(a),
        script_opt_wf(b),
        script_opt_encode(a) == script_opt_encode(b),
    ensures
        script_opt_same(a, b),
{
}

} // verus!
