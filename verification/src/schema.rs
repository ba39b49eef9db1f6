//! The field types of the fiber schema: how each is checked, in the order
//! in which molecule checks a message and then converts its fields.
use vstd::prelude::*;

use crate::bytes::{be_value, le_bytes, le_value};
use crate::ckb::{check_script, check_transaction, spec_script_check, spec_transaction_check};
use crate::error::{Error, Reason};
use crate::keys::{
    check_partial_signature, check_pub_nonce, check_pubkey, curve_order, is_valid_pub_nonce,
    is_valid_pubkey,
};
use crate::molecule::{number, read_number, split_dyn, split_dyn_exec, views, VerificationError};
use crate::bytes::decode_le;

verus! {

/// The molecule type of a field.
#[derive(Clone, Copy, Debug, PartialEq, Eq, Structural)]
pub enum FieldKind {
    /// An array of this many bytes (`byte`, `Uint32`, `Uint64`, `Uint128`,
    /// `Byte32`, `Pubkey`, `PubNonce`, `Signature`).
    Fixed(usize),
    /// `Bytes`: a vector of bytes.
    Bytes,
    /// `BytesVec`: a vector of `Bytes`.
    BytesVec,
    /// A CKB `Script`.
    Script,
    /// An optional CKB `Script`.
    ScriptOpt,
    /// A CKB `Transaction`.
    Transaction,
    /// The union `RemoveTlcReason`.
    RemoveTlcReason,
}

/// What converting a field may refuse, after its layout is checked.
#[derive(Clone, Copy, Debug, PartialEq, Eq, Structural)]
pub enum FieldCheck {
    Plain,
    Pubkey,
    /// A public nonce, refused as a musig2 error.
    NonceMusig2,
    /// A public nonce, refused as any other error.
    NonceOther,
    PartialSignature,
    HashAlgorithm,
}

/// The check of `Bytes`: a 4-byte count, then that many bytes.
pub open spec fn spec_bytes_check(b: Seq<u8>) -> Result<(), VerificationError> {
    if b.len() < 4 {
        Err(VerificationError::HeaderIsBroken(4, b.len() as usize))
    } else if b.len() != 4 + read_number(b, 0) {
        Err(VerificationError::TotalSizeNotMatch((4 + read_number(b, 0)) as usize, b.len() as usize))
    } else {
        Ok(())
    }
}

/// The first failed `Bytes` check among `items`.
pub open spec fn spec_all_bytes_check(items: Seq<Seq<u8>>) -> Result<(), VerificationError>
    decreases items.len(),
{
    if items.len() == 0 {
        Ok(())
    } else {
        match spec_bytes_check(items[0]) {
            Err(e) => Err(e),
            Ok(_) => spec_all_bytes_check(items.drop_first()),
        }
    }
}

/// The check of a table of one field of `n` bytes.
pub open spec fn spec_single_fixed_table_check(s: Seq<u8>, n: nat) -> Result<(), VerificationError> {
    match split_dyn(s, Some(1nat)) {
        Err(e) => Err(e),
        Ok(fs) => if fs[0].len() == n {
            Ok(())
        } else {
            Err(VerificationError::TotalSizeNotMatch(n as usize, fs[0].len() as usize))
        },
    }
}

/// The check of the union `RemoveTlcReason`: item 0 is `RemoveTlcFulfill`
/// (a table of one `Byte32`), item 1 is `RemoveTlcFail` (a table of one
/// `Uint32`).
pub open spec fn spec_reason_check(s: Seq<u8>) -> Result<(), VerificationError> {
    if s.len() < 4 {
        Err(VerificationError::HeaderIsBroken(4, s.len() as usize))
    } else {
        let id = read_number(s, 0);
        if id == 0 {
            spec_single_fixed_table_check(s.skip(4), 32)
        } else if id == 1 {
            spec_single_fixed_table_check(s.skip(4), 4)
        } else {
            Err(VerificationError::UnknownItem(2, id as u32))
        }
    }
}

/// The molecule check of a field of kind `k`.
pub open spec fn spec_kind_check(k: FieldKind, f: Seq<u8>) -> Result<(), VerificationError> {
    match k {
        FieldKind::Fixed(n) => if f.len() == n {
            Ok(())
        } else {
            Err(VerificationError::TotalSizeNotMatch(n, f.len() as usize))
        },
        FieldKind::Bytes => spec_bytes_check(f),
        FieldKind::BytesVec => match split_dyn(f, None) {
            Err(e) => Err(e),
            Ok(items) => spec_all_bytes_check(items),
        },
        FieldKind::Script => spec_script_check(f),
        FieldKind::ScriptOpt => if f.len() == 0 {
            Ok(())
        } else {
            spec_script_check(f)
        },
        FieldKind::Transaction => spec_transaction_check(f),
        FieldKind::RemoveTlcReason => spec_reason_check(f),
    }
}

/// The conversion check of a field whose layout is sound.
pub open spec fn spec_field_check(c: FieldCheck, f: Seq<u8>) -> Result<(), Error> {
    match c {
        FieldCheck::Plain => Ok(()),
        FieldCheck::Pubkey => if is_valid_pubkey(f) {
            Ok(())
        } else {
            Err(Error::Secp(crate::error::SecpError::InvalidPublicKey))
        },
        FieldCheck::NonceMusig2 => if is_valid_pub_nonce(f) {
            Ok(())
        } else {
            Err(Error::Musig2(crate::error::Musig2Error::InvalidPubNonce))
        },
        FieldCheck::NonceOther => if is_valid_pub_nonce(f) {
            Ok(())
        } else {
            Err(Error::AnyHow(Reason::InvalidPubNonce))
        },
        FieldCheck::PartialSignature => if be_value(f) < curve_order() {
            Ok(())
        } else {
            Err(Error::AnyHow(Reason::InvalidPartialSignature))
        },
        FieldCheck::HashAlgorithm => if f[0] < 2 {
            Ok(())
        } else {
            Err(Error::AnyHow(Reason::UnknownHashAlgorithm))
        },
    }
}

/// The first failed molecule check among the fields.
pub open spec fn spec_kinds_check(fs: Seq<Seq<u8>>, ks: Seq<FieldKind>) -> Result<
    (),
    VerificationError,
>
    decreases fs.len(),
{
    if fs.len() == 0 {
        Ok(())
    } else {
        match spec_kind_check(ks[0], fs[0]) {
            Err(e) => Err(e),
            Ok(_) => spec_kinds_check(fs.drop_first(), ks.drop_first()),
        }
    }
}

/// The first failed conversion check among the fields.
pub open spec fn spec_fields_check(fs: Seq<Seq<u8>>, cs: Seq<FieldCheck>) -> Result<(), Error>
    decreases fs.len(),
{
    if fs.len() == 0 {
        Ok(())
    } else {
        match spec_field_check(cs[0], fs[0]) {
            Err(e) => Err(e),
            Ok(_) => spec_fields_check(fs.drop_first(), cs.drop_first()),
        }
    }
}

/// Decoding a table of `ks.len()` fields: its layout, then the layout of
/// every field, then the conversion of every field, each in order; the
/// fields when all pass.
pub open spec fn spec_table_check(s: Seq<u8>, ks: Seq<FieldKind>, cs: Seq<FieldCheck>) -> Result<
    Seq<Seq<u8>>,
    Error,
> {
    match split_dyn(s, Some(ks.len())) {
        Err(e) => Err(Error::Molecule(e)),
        Ok(fs) => match spec_kinds_check(fs, ks) {
            Err(e) => Err(Error::Molecule(e)),
            Ok(_) => match spec_fields_check(fs, cs) {
                Err(e) => Err(e),
                Ok(_) => Ok(fs),
            },
        },
    }
}

/// The molecule encoding of a byte vector.
pub open spec fn bytes_encode(v: Seq<u8>) -> Seq<u8> {
    number(v.len()) + v
}

/// The encoding of a union item: its id, then the item.
pub open spec fn union_encode(id: nat, item: Seq<u8>) -> Seq<u8> {
    number(id) + item
}

// ------------------------------------------------------------------------
// Lemmas on the checks.
/// When every field passes its molecule check, the first failure is none.
pub proof fn lemma_kinds_check_ok(fs: Seq<Seq<u8>>, ks: Seq<FieldKind>)
    requires
        fs.len() == ks.len(),
        forall|i: int| 0 <= i < fs.len() ==> #[trigger] spec_kind_check(ks[i], fs[i]) is Ok,
    ensures
        spec_kinds_check(fs, ks) is Ok,
    decreases fs.len(),
{
    if fs.len() > 0 {
        assert(spec_kind_check(ks[0], fs[0]) is Ok);
        assert forall|i: int| 0 <= i < fs.drop_first().len() implies #[trigger] spec_kind_check(
            ks.drop_first()[i],
            fs.drop_first()[i],
        ) is Ok by {
            assert(spec_kind_check(ks[i + 1], fs[i + 1]) is Ok);
        }
        lemma_kinds_check_ok(fs.drop_first(), ks.drop_first());
    }
}

/// When every field passes its conversion check, the first failure is none.
pub proof fn lemma_fields_check_ok(fs: Seq<Seq<u8>>, cs: Seq<FieldCheck>)
    requires
        fs.len() == cs.len(),
        forall|i: int| 0 <= i < fs.len() ==> #[trigger] spec_field_check(cs[i], fs[i]) is Ok,
    ensures
        spec_fields_check(fs, cs) is Ok,
    decreases fs.len(),
{
    if fs.len() > 0 {
        assert(spec_field_check(cs[0], fs[0]) is Ok);
        assert forall|i: int| 0 <= i < fs.drop_first().len() implies #[trigger] spec_field_check(
            cs.drop_first()[i],
            fs.drop_first()[i],
        ) is Ok by {
            assert(spec_field_check(cs[i + 1], fs[i + 1]) is Ok);
        }
        lemma_fields_check_ok(fs.drop_first(), cs.drop_first());
    }
}

/// A passed molecule check means that every field passed.
pub proof fn lemma_kinds_check_each(fs: Seq<Seq<u8>>, ks: Seq<FieldKind>)
    requires
        fs.len() == ks.len(),
        spec_kinds_check(fs, ks) is Ok,
    ensures
        forall|i: int| 0 <= i < fs.len() ==> #[trigger] spec_kind_check(ks[i], fs[i]) is Ok,
    decreases fs.len(),
{
    if fs.len() > 0 {
        lemma_kinds_check_each(fs.drop_first(), ks.drop_first());
        assert forall|i: int| 0 <= i < fs.len() implies #[trigger] spec_kind_check(ks[i], fs[i]) is Ok by {
            if i > 0 {
                assert(spec_kind_check(ks.drop_first()[i - 1], fs.drop_first()[i - 1]) is Ok);
            }
        }
    }
}

/// A passed conversion check means that every field passed.
pub proof fn lemma_fields_check_each(fs: Seq<Seq<u8>>, cs: Seq<FieldCheck>)
    requires
        fs.len() == cs.len(),
        spec_fields_check(fs, cs) is Ok,
    ensures
        forall|i: int| 0 <= i < fs.len() ==> #[trigger] spec_field_check(cs[i], fs[i]) is Ok,
    decreases fs.len(),
{
    if fs.len() > 0 {
        lemma_fields_check_each(fs.drop_first(), cs.drop_first());
        assert forall|i: int| 0 <= i < fs.len() implies #[trigger] spec_field_check(cs[i], fs[i]) is Ok by {
            if i > 0 {
                assert(spec_field_check(cs.drop_first()[i - 1], fs.drop_first()[i - 1]) is Ok);
            }
        }
    }
}

/// A table check that passes gives fields that pass every check.
pub proof fn lemma_table_check_fields(s: Seq<u8>, ks: Seq<FieldKind>, cs: Seq<FieldCheck>)
    requires
        ks.len() == cs.len(),
        ks.len() >= 1,
        spec_table_check(s, ks, cs) is Ok,
    ensures
        split_dyn(s, Some(ks.len())) is Ok,
        spec_table_check(s, ks, cs) == Ok::<Seq<Seq<u8>>, Error>(
            split_dyn(s, Some(ks.len()))->Ok_0,
        ),
        split_dyn(s, Some(ks.len()))->Ok_0.len() == ks.len(),
        forall|i: int|
            0 <= i < ks.len() ==> #[trigger] spec_kind_check(
                ks[i],
                split_dyn(s, Some(ks.len()))->Ok_0[i],
            ) is Ok,
        forall|i: int|
            0 <= i < ks.len() ==> #[trigger] spec_field_check(
                cs[i],
                split_dyn(s, Some(ks.len()))->Ok_0[i],
            ) is Ok,
{
    let fs = split_dyn(s, Some(ks.len()))->Ok_0;
    crate::molecule::lemma_split_dyn_len(s, Some(ks.len()));
    assert(spec_kinds_check(fs, ks) is Ok);
    assert(spec_fields_check(fs, cs) is Ok);
    lemma_kinds_check_each(fs, ks);
    lemma_fields_check_each(fs, cs);
}

/// The encoding of fields that pass every check decodes to those fields,
/// when it fits in a molecule number.
pub proof fn lemma_table_check_encode(fs: Seq<Seq<u8>>, ks: Seq<FieldKind>, cs: Seq<FieldCheck>)
    requires
        fs.len() == ks.len(),
        fs.len() == cs.len(),
        fs.len() >= 1,
        crate::molecule::dyn_encode(fs).len() < 0x1_0000_0000,
        forall|i: int| 0 <= i < fs.len() ==> #[trigger] spec_kind_check(ks[i], fs[i]) is Ok,
        forall|i: int| 0 <= i < fs.len() ==> #[trigger] spec_field_check(cs[i], fs[i]) is Ok,
    ensures
        spec_table_check(crate::molecule::dyn_encode(fs), ks, cs) == Ok::<Seq<Seq<u8>>, Error>(fs),
{
    crate::molecule::lemma_encode_then_split(fs, Some(ks.len()));
    lemma_kinds_check_ok(fs, ks);
    lemma_fields_check_ok(fs, cs);
}

// ------------------------------------------------------------------------
// Executable checks.
pub fn bytes_check(b: &[u8]) -> (r: Result<(), VerificationError>)
    ensures
        r == spec_bytes_check(b@),
{
    if b.len() < 4 {
        return Err(VerificationError::HeaderIsBroken(4, b.len()));
    }
    let count = decode_le(vstd::slice::slice_subrange(b, 0, 4));
    proof {
        crate::bytes::lemma_le_value_bound(b@.subrange(0, 4));
        crate::bytes::lemma_pow256_values();
    }
    if b.len() as u128 != 4 + count {
        return Err(VerificationError::TotalSizeNotMatch((4 + count) as usize, b.len()));
    }
    Ok(())
}

fn all_bytes_check(items: &Vec<Vec<u8>>) -> (r: Result<(), VerificationError>)
    ensures
        r == spec_all_bytes_check(views(items@)),
{
    let n = items.len();
    let mut i: usize = 0;
    assert(views(items@).skip(0) =~= views(items@));
    while i < n
        invariant
            n == items@.len(),
            i <= n,
            spec_all_bytes_check(views(items@)) == spec_all_bytes_check(
                views(items@).skip(i as int),
            ),
        decreases n - i,
    {
        let ghost rest = views(items@).skip(i as int);
        assert(rest.drop_first() =~= views(items@).skip(i + 1));
        assert(rest[0] == items@[i as int]@);
        match bytes_check(items[i].as_slice()) {
            Err(e) => {
                return Err(e);
            },
            Ok(()) => {},
        }
        i = i + 1;
    }
    assert(views(items@).skip(n as int) =~= Seq::<Seq<u8>>::empty());
    Ok(())
}

fn single_fixed_table_check(s: &[u8], n: usize) -> (r: Result<(), VerificationError>)
    ensures
        r == spec_single_fixed_table_check(s@, n as nat),
{
    let fs = split_dyn_exec(s, Some(1))?;
    proof {
        let v = views(fs@);
        crate::molecule::lemma_split_dyn_len(s@, Some(1nat));
        assert(v.len() == 1);
    }
    if fs[0].len() == n {
        Ok(())
    } else {
        Err(VerificationError::TotalSizeNotMatch(n, fs[0].len()))
    }
}

fn reason_check(s: &[u8]) -> (r: Result<(), VerificationError>)
    ensures
        r == spec_reason_check(s@),
{
    if s.len() < 4 {
        return Err(VerificationError::HeaderIsBroken(4, s.len()));
    }
    let id = decode_le(vstd::slice::slice_subrange(s, 0, 4));
    let inner = vstd::slice::slice_subrange(s, 4, s.len());
    assert(inner@ =~= s@.skip(4));
    if id == 0 {
        single_fixed_table_check(inner, 32)
    } else if id == 1 {
        single_fixed_table_check(inner, 4)
    } else {
        proof {
            crate::bytes::lemma_le_value_bound(s@.subrange(0, 4));
            crate::bytes::lemma_pow256_values();
        }
        Err(VerificationError::UnknownItem(2, id as u32))
    }
}

/// The molecule check of a field of kind `k`.
pub fn kind_check(k: FieldKind, f: &[u8]) -> (r: Result<(), VerificationError>)
    ensures
        r == spec_kind_check(k, f@),
{
    match k {
        FieldKind::Fixed(n) => {
            if f.len() == n {
                Ok(())
            } else {
                Err(VerificationError::TotalSizeNotMatch(n, f.len()))
            }
        },
        FieldKind::Bytes => bytes_check(f),
        FieldKind::BytesVec => {
            let items = split_dyn_exec(f, None)?;
            all_bytes_check(&items)
        },
        FieldKind::Script => check_script(f),
        FieldKind::ScriptOpt => {
            if f.len() == 0 {
                Ok(())
            } else {
                check_script(f)
            }
        },
        FieldKind::Transaction => check_transaction(f),
        FieldKind::RemoveTlcReason => reason_check(f),
    }
}

/// The conversion check of a field whose layout is sound.
pub fn field_check(c: FieldCheck, k: FieldKind, f: &[u8]) -> (r: Result<(), Error>)
    requires
        spec_kind_check(k, f@) is Ok,
        c is Pubkey ==> k == FieldKind::Fixed(33),
        c is NonceMusig2 || c is NonceOther ==> k == FieldKind::Fixed(66),
        c is PartialSignature ==> k == FieldKind::Fixed(32),
        c is HashAlgorithm ==> k == FieldKind::Fixed(1),
    ensures
        r == spec_field_check(c, f@),
{
    match c {
        FieldCheck::Plain => Ok(()),
        FieldCheck::Pubkey => check_pubkey(f),
        FieldCheck::NonceMusig2 => check_pub_nonce(f, true),
        FieldCheck::NonceOther => check_pub_nonce(f, false),
        FieldCheck::PartialSignature => check_partial_signature(f),
        FieldCheck::HashAlgorithm => {
            if f[0] < 2 {
                Ok(())
            } else {
                Err(Error::AnyHow(Reason::UnknownHashAlgorithm))
            }
        },
    }
}

/// Whether a check may follow a kind.
pub open spec fn check_fits(c: FieldCheck, k: FieldKind) -> bool {
    &&& c is Pubkey ==> k == FieldKind::Fixed(33)
    &&& c is NonceMusig2 || c is NonceOther ==> k == FieldKind::Fixed(66)
    &&& c is PartialSignature ==> k == FieldKind::Fixed(32)
    &&& c is HashAlgorithm ==> k == FieldKind::Fixed(1)
}

/// The first failed molecule check among the fields.
fn kinds_check(fs: &Vec<Vec<u8>>, ks: &Vec<FieldKind>) -> (r: Result<(), VerificationError>)
    requires
        fs@.len() == ks@.len(),
    ensures
        r == spec_kinds_check(views(fs@), ks@),
{
    let n = ks.len();
    let ghost v = views(fs@);
    let mut i: usize = 0;
    assert(v.skip(0) =~= v);
    assert(ks@.skip(0) =~= ks@);
    while i < n
        invariant
            n == ks@.len(),
            n == fs@.len(),
            v == views(fs@),
            i <= n,
            spec_kinds_check(v, ks@) == spec_kinds_check(v.skip(i as int), ks@.skip(i as int)),
        decreases n - i,
    {
        assert(v.skip(i as int).drop_first() =~= v.skip(i + 1));
        assert(ks@.skip(i as int).drop_first() =~= ks@.skip(i + 1));
        assert(v.skip(i as int)[0] == fs@[i as int]@);
        let r = kind_check(ks[i], fs[i].as_slice());
        if let Err(e) = r {
            return Err(e);
        }
        i = i + 1;
    }
    assert(v.skip(n as int) =~= Seq::<Seq<u8>>::empty());
    Ok(())
}

/// The first failed conversion check among fields whose layout is sound.
fn fields_check(fs: &Vec<Vec<u8>>, ks: &Vec<FieldKind>, cs: &Vec<FieldCheck>) -> (r: Result<
    (),
    Error,
>)
    requires
        fs@.len() == ks@.len(),
        fs@.len() == cs@.len(),
        forall|j: int| 0 <= j < ks@.len() ==> #[trigger] spec_kind_check(ks@[j], fs@[j]@) is Ok,
        forall|j: int| 0 <= j < ks@.len() ==> #[trigger] check_fits(cs@[j], ks@[j]),
    ensures
        r == spec_fields_check(views(fs@), cs@),
{
    let n = ks.len();
    let ghost v = views(fs@);
    let mut i: usize = 0;
    assert(v.skip(0) =~= v);
    assert(cs@.skip(0) =~= cs@);
    while i < n
        invariant
            n == ks@.len(),
            n == cs@.len(),
            n == fs@.len(),
            v == views(fs@),
            i <= n,
            forall|j: int| 0 <= j < ks@.len() ==> #[trigger] spec_kind_check(ks@[j], fs@[j]@) is Ok,
            forall|j: int| 0 <= j < ks@.len() ==> #[trigger] check_fits(cs@[j], ks@[j]),
            spec_fields_check(v, cs@) == spec_fields_check(v.skip(i as int), cs@.skip(i as int)),
        decreases n - i,
    {
        assert(v.skip(i as int).drop_first() =~= v.skip(i + 1));
        assert(cs@.skip(i as int).drop_first() =~= cs@.skip(i + 1));
        assert(v.skip(i as int)[0] == fs@[i as int]@);
        assert(spec_kind_check(ks@[i as int], fs@[i as int]@) is Ok);
        assert(check_fits(cs@[i as int], ks@[i as int]));
        let r = field_check(cs[i], ks[i], fs[i].as_slice());
        if let Err(e) = r {
            return Err(e);
        }
        i = i + 1;
    }
    assert(v.skip(n as int) =~= Seq::<Seq<u8>>::empty());
    Ok(())
}

/// Decodes a table of `ks.len()` fields and checks every field.
pub fn table_check(s: &[u8], ks: &Vec<FieldKind>, cs: &Vec<FieldCheck>) -> (r: Result<
    Vec<Vec<u8>>,
    Error,
>)
    requires
        ks@.len() == cs@.len(),
        ks@.len() >= 1,
        forall|i: int| 0 <= i < ks@.len() ==> #[trigger] check_fits(cs@[i], ks@[i]),
    ensures
        match r {
            Ok(fs) => spec_table_check(s@, ks@, cs@) == Ok::<Seq<Seq<u8>>, Error>(views(fs@)),
            Err(e) => spec_table_check(s@, ks@, cs@) == Err::<Seq<Seq<u8>>, Error>(e),
        },
{
    let n = ks.len();
    let fs = match split_dyn_exec(s, Some(n)) {
        Ok(fs) => fs,
        Err(e) => {
            return Err(Error::Molecule(e));
        },
    };
    let ghost v = views(fs@);
    proof {
        crate::molecule::lemma_split_dyn_len(s@, Some(n as nat));
    }
    if let Err(e) = kinds_check(&fs, ks) {
        return Err(Error::Molecule(e));
    }
    proof {
        lemma_kinds_check_each(v, ks@);
        assert forall|j: int| 0 <= j < ks@.len() implies #[trigger] spec_kind_check(
            ks@[j],
            fs@[j]@,
        ) is Ok by {
            assert(v[j] == fs@[j]@);
        }
    }
    if let Err(e) = fields_check(&fs, ks, cs) {
        return Err(e);
    }
    Ok(fs)
}

} // verus!
