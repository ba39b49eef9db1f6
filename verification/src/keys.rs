//! secp256k1 keys, signatures and musig2 values, held as the bytes that
//! they serialize to. What only secp256k1 and musig2 can compute stands
//! behind the wrappers of this module.
use vstd::prelude::*;

use musig2::BinaryEncoding;

use crate::bytes::be_value;
use crate::error::{Error, Musig2Error, Reason, SecpError};
use crate::hash::Hash256;

verus! {

// ------------------------------------------------------------------------
// What secp256k1 and musig2 decide.
/// The order of the secp256k1 group.
pub open spec fn curve_order() -> nat {
    0xFFFF_FFFF_FFFF_FFFF_FFFF_FFFF_FFFF_FFFE_BAAE_DCE6_AF48_A03B_BFD2_5E8C_D036_4141nat
}

/// A secret key: 32 bytes, big-endian, in `[1, n)`.
pub open spec fn is_valid_secret_key(b: Seq<u8>) -> bool {
    b.len() == 32 && 0 < be_value(b) < curve_order()
}

/// The prime of the field over which secp256k1 is defined.
pub open spec fn field_prime() -> nat {
    0xFFFF_FFFF_FFFF_FFFF_FFFF_FFFF_FFFF_FFFF_FFFF_FFFF_FFFF_FFFF_FFFF_FFFE_FFFF_FC2Fnat
}

/// `y * y` modulo the field prime.
pub open spec fn square_mod_p(y: nat) -> nat {
    (y * y) % field_prime()
}

/// Whether `x` is the x-coordinate of a point of the curve `y^2 = x^3 + 7`:
/// an element of the field for which `x^3 + 7` is a square.
pub open spec fn is_curve_x(x: nat) -> bool {
    &&& x < field_prime()
    &&& exists|y: nat| y < field_prime() && #[trigger] square_mod_p(y) == (x * x * x + 7) % field_prime()
}

/// The compressed encoding of a point of secp256k1: `02` or `03` (the parity
/// of y), then the x-coordinate, 32 bytes big-endian.
pub open spec fn is_valid_pubkey(bytes: Seq<u8>) -> bool {
    &&& bytes.len() == 33
    &&& bytes[0] == 2 || bytes[0] == 3
    &&& is_curve_x(be_value(bytes.skip(1)))
}

/// A compact ECDSA signature: 64 bytes, `r` then `s`, each 32 bytes
/// big-endian and below the curve order.
pub open spec fn is_valid_compact_signature(bytes: Seq<u8>) -> bool {
    &&& bytes.len() == 64
    &&& be_value(bytes.take(32)) < curve_order()
    &&& be_value(bytes.skip(32)) < curve_order()
}

/// A musig2 public nonce: two compressed points of secp256k1, 33 bytes each.
pub open spec fn is_valid_pub_nonce(bytes: Seq<u8>) -> bool {
    &&& bytes.len() == 66
    &&& is_valid_pubkey(bytes.take(33))
    &&& is_valid_pubkey(bytes.skip(33))
}

/// The compressed public key of a secret key.
pub uninterp spec fn public_key_of(secret: Seq<u8>) -> Seq<u8>;

/// The compressed encoding of `point + tweak * G`, or `None` where that sum
/// is the point at infinity.
pub uninterp spec fn tweaked_point(point: Seq<u8>, tweak: Seq<u8>) -> Option<Seq<u8>>;

/// The compact recoverable ECDSA signature of `digest` by `secret`, and its
/// recovery id.
pub uninterp spec fn ecdsa_recoverable_signature(secret: Seq<u8>, digest: Seq<u8>) -> (
    Seq<u8>,
    i32,
);

/// `secp256k1::PublicKey::from_slice` on 33 bytes: whether they are the
/// compressed encoding of a point of the curve (libsecp256k1's
/// `eckey_pubkey_parse`: the tag `02` or `03`, an x-coordinate below the
/// field prime, and a square root of `x^3 + 7`; the curve has cofactor one).
/// The key it gives serializes back to the same bytes, which is why the
/// library keeps the bytes.
#[verifier::external_body]
fn secp_pubkey_parses(bytes: &[u8]) -> (r: bool)
    requires
        bytes@.len() == 33,
    ensures
        r == is_valid_pubkey(bytes@),
{
    secp256k1::PublicKey::from_slice(bytes).is_ok()
}

/// `secp256k1::ecdsa::Signature::from_compact` on 64 bytes: whether they
/// are a compact signature (libsecp256k1's `ecdsa_signature_parse_compact`
/// refuses `r` or `s` that overflow the curve order). The signature it gives
/// serializes back (compact) to the same bytes.
#[verifier::external_body]
fn secp_signature_parses(bytes: &[u8]) -> (r: bool)
    requires
        bytes@.len() == 64,
    ensures
        r == is_valid_compact_signature(bytes@),
{
    secp256k1::ecdsa::Signature::from_compact(bytes).is_ok()
}

/// `musig2::PubNonce::from_bytes` on 66 bytes: whether each half is a point,
/// which it decides with `secp::Point::from_slice`, that is with
/// `secp256k1::PublicKey::from_slice`. The nonce it gives serializes back to
/// the same bytes.
#[verifier::external_body]
fn musig2_pub_nonce_parses(bytes: &[u8]) -> (r: bool)
    requires
        bytes@.len() == 66,
    ensures
        r == is_valid_pub_nonce(bytes@),
{
    musig2::PubNonce::from_bytes(bytes).is_ok()
}

/// `musig2::PartialSignature::from_slice` on 32 bytes: it accepts a
/// big-endian scalar in `[0, n)`, which serializes back to the same bytes.
#[verifier::external_body]
fn musig2_partial_signature_parses(bytes: &[u8]) -> (r: bool)
    requires
        bytes@.len() == 32,
    ensures
        r == (be_value(bytes@) < curve_order()),
{
    musig2::PartialSignature::from_slice(bytes).is_ok()
}

/// `secp256k1::SecretKey::from_slice`: it accepts 32 bytes whose big-endian
/// value is in `[1, n)`, and keeps them as they are.
#[verifier::external_body]
#[allow(deprecated)]
fn secp_secret_key_parses(key: &[u8]) -> (r: bool)
    ensures
        r == is_valid_secret_key(key@),
{
    secp256k1::SecretKey::from_slice(key).is_ok()
}

/// `secp256k1::SecretKey::public_key`, serialized: the compressed public
/// key of `secret`, which secp256k1 accepts back as a public key (the
/// compressed form of a point of the curve).
#[verifier::external_body]
fn secp_public_key(secret: &[u8; 32]) -> (r: [u8; 33])
    requires
        is_valid_secret_key(secret@),
    ensures
        r@ == public_key_of(secret@),
        is_valid_pubkey(r@),
{
    let sk = secp256k1::SecretKey::from_byte_array(*secret).unwrap();
    sk.public_key(&secp256k1::Secp256k1::new()).serialize()
}

/// `Scalar + Scalar` of `musig2::secp`, serialized: the sum of two scalars
/// in `[1, n)` modulo `n`, big-endian; the sum must not be zero (`unwrap`).
/// As the sum is taken in the group of scalars, its public key is the public
/// key of `secret` moved by `tweak * G`: `(k + t)G = kG + tG`.
#[verifier::external_body]
fn secp_scalar_add(secret: &[u8; 32], tweak: &[u8; 32]) -> (r: [u8; 32])
    requires
        is_valid_secret_key(secret@),
        is_valid_secret_key(tweak@),
        (be_value(secret@) + be_value(tweak@)) % curve_order() != 0,
    ensures
        be_value(r@) == (be_value(secret@) + be_value(tweak@)) % curve_order(),
        tweaked_point(public_key_of(secret@), tweak@) == Some(public_key_of(r@)),
{
    let t = musig2::secp::Scalar::from_slice(tweak).unwrap();
    let k = musig2::secp::Scalar::from_slice(secret).unwrap();
    (t + k).unwrap().serialize()
}

/// `Point + Scalar::base_point_mul` of `musig2::secp`, serialized: the
/// compressed encoding of `point + tweak * G`, `None` at infinity. A point
/// it gives is one that secp256k1 accepts back.
#[verifier::external_body]
fn secp_tweak_point(point: &[u8; 33], tweak: &[u8; 32]) -> (r: Option<[u8; 33]>)
    requires
        is_valid_pubkey(point@),
        is_valid_secret_key(tweak@),
    ensures
        match r {
            Some(q) => tweaked_point(point@, tweak@) == Some(q@) && is_valid_pubkey(q@),
            None => tweaked_point(point@, tweak@) is None,
        },
{
    let p = musig2::secp::Point::from_slice(point).unwrap();
    let t = musig2::secp::Scalar::from_slice(tweak).unwrap();
    match p + t.base_point_mul() {
        musig2::secp::MaybePoint::Valid(q) => Some(q.serialize()),
        musig2::secp::MaybePoint::Infinity => None,
    }
}

/// `Secp256k1::sign_ecdsa_recoverable` with `Message::from_digest`, then
/// `serialize_compact`: the 64-byte compact signature and the recovery id,
/// which is one of 0 to 3.
#[verifier::external_body]
fn secp_sign_recoverable(secret: &[u8; 32], digest: &[u8; 32]) -> (r: ([u8; 64], i32))
    requires
        is_valid_secret_key(secret@),
    ensures
        (r.0@, r.1) == ecdsa_recoverable_signature(secret@, digest@),
        0 <= r.1 <= 3,
        is_valid_compact_signature(r.0@),
{
    let sk = secp256k1::SecretKey::from_byte_array(*secret).unwrap();
    let (id, data) = secp256k1::Secp256k1::new().sign_ecdsa_recoverable(
        secp256k1::Message::from_digest(*digest),
        &sk,
    ).serialize_compact();
    (data, i32::from(id))
}

// ------------------------------------------------------------------------
// Fixed-size arrays.
pub fn array_32(b: &[u8]) -> (r: [u8; 32])
    requires
        b@.len() == 32,
    ensures
        r@ == b@,
{
    let mut a = [0u8; 32];
    let mut i: usize = 0;
    while i < 32
        invariant
            b@.len() == 32,
            i <= 32,
            forall|j: int| 0 <= j < i ==> a@[j] == b@[j],
        decreases 32 - i,
    {
        a[i] = b[i];
        i = i + 1;
    }
    assert(a@ =~= b@);
    a
}

pub fn array_33(b: &[u8]) -> (r: [u8; 33])
    requires
        b@.len() == 33,
    ensures
        r@ == b@,
{
    let mut a = [0u8; 33];
    let mut i: usize = 0;
    while i < 33
        invariant
            b@.len() == 33,
            i <= 33,
            forall|j: int| 0 <= j < i ==> a@[j] == b@[j],
        decreases 33 - i,
    {
        a[i] = b[i];
        i = i + 1;
    }
    assert(a@ =~= b@);
    a
}

pub fn array_64(b: &[u8]) -> (r: [u8; 64])
    requires
        b@.len() == 64,
    ensures
        r@ == b@,
{
    let mut a = [0u8; 64];
    let mut i: usize = 0;
    while i < 64
        invariant
            b@.len() == 64,
            i <= 64,
            forall|j: int| 0 <= j < i ==> a@[j] == b@[j],
        decreases 64 - i,
    {
        a[i] = b[i];
        i = i + 1;
    }
    assert(a@ =~= b@);
    a
}

pub fn array_66(b: &[u8]) -> (r: [u8; 66])
    requires
        b@.len() == 66,
    ensures
        r@ == b@,
{
    let mut a = [0u8; 66];
    let mut i: usize = 0;
    while i < 66
        invariant
            b@.len() == 66,
            i <= 66,
            forall|j: int| 0 <= j < i ==> a@[j] == b@[j],
        decreases 66 - i,
    {
        a[i] = b[i];
        i = i + 1;
    }
    assert(a@ =~= b@);
    a
}

// ------------------------------------------------------------------------
// Validity checks on byte strings.
/// Whether `b` is a compressed public key.
pub fn check_pubkey(b: &[u8]) -> (r: Result<(), Error>)
    requires
        b@.len() == 33,
    ensures
        r == (if is_valid_pubkey(b@) {
            Ok::<(), Error>(())
        } else {
            Err::<(), Error>(Error::Secp(SecpError::InvalidPublicKey))
        }),
{
    if secp_pubkey_parses(b) {
        Ok(())
    } else {
        Err(Error::Secp(SecpError::InvalidPublicKey))
    }
}

/// Whether `b` is a compact signature.
pub fn check_signature(b: &[u8]) -> (r: Result<(), Error>)
    requires
        b@.len() == 64,
    ensures
        r == (if is_valid_compact_signature(b@) {
            Ok::<(), Error>(())
        } else {
            Err::<(), Error>(Error::Secp(SecpError::InvalidSignature))
        }),
{
    if secp_signature_parses(b) {
        Ok(())
    } else {
        Err(Error::Secp(SecpError::InvalidSignature))
    }
}

/// Whether `b` is a public nonce; `as_musig2` chooses the error.
pub fn check_pub_nonce(b: &[u8], as_musig2: bool) -> (r: Result<(), Error>)
    requires
        b@.len() == 66,
    ensures
        r == (if is_valid_pub_nonce(b@) {
            Ok::<(), Error>(())
        } else if as_musig2 {
            Err::<(), Error>(Error::Musig2(Musig2Error::InvalidPubNonce))
        } else {
            Err::<(), Error>(Error::AnyHow(Reason::InvalidPubNonce))
        }),
{
    if musig2_pub_nonce_parses(b) {
        Ok(())
    } else if as_musig2 {
        Err(Error::Musig2(Musig2Error::InvalidPubNonce))
    } else {
        Err(Error::AnyHow(Reason::InvalidPubNonce))
    }
}

/// Whether `b` is a partial signature: a scalar below the curve order.
pub fn check_partial_signature(b: &[u8]) -> (r: Result<(), Error>)
    requires
        b@.len() == 32,
    ensures
        r == (if be_value(b@) < curve_order() {
            Ok::<(), Error>(())
        } else {
            Err::<(), Error>(Error::AnyHow(Reason::InvalidPartialSignature))
        }),
{
    if musig2_partial_signature_parses(b) {
        Ok(())
    } else {
        Err(Error::AnyHow(Reason::InvalidPartialSignature))
    }
}

// ------------------------------------------------------------------------
// The types.
/// A secp256k1 secret key, held as its 32 big-endian bytes.
#[derive(Copy, Clone, PartialEq, Eq, Debug)]
pub struct Privkey(pub [u8; 32]);

/// A compressed secp256k1 public key (33 bytes).
#[derive(Copy, Clone, PartialOrd, Ord, PartialEq, Eq, Hash, Debug)]
pub struct Pubkey(pub [u8; 33]);

/// A compact secp256k1 ECDSA signature (64 bytes).
#[derive(Copy, Clone, PartialEq, Eq, Hash, Debug)]
pub struct Signature(pub [u8; 64]);

/// A musig2 public nonce: two compressed curve points (66 bytes).
#[derive(Copy, Clone, PartialEq, Eq, Debug)]
pub struct PubNonce(pub [u8; 66]);

/// A musig2 partial signature: a big-endian scalar below the curve order.
#[derive(Copy, Clone, PartialEq, Eq, Debug)]
pub struct PartialSignature(pub [u8; 32]);

impl Privkey {
    pub open spec fn wf(self) -> bool {
        is_valid_secret_key(self.0@)
    }

    /// The key of 32 bytes in `[1, n)`; any other input is refused by
    /// secp256k1, where this function panics.
    pub fn from_slice(key: &[u8]) -> (r: Privkey)
        requires
            is_valid_secret_key(key@),
        ensures
            r.0@ == key@,
            r.wf(),
    {
        let ok = secp_secret_key_parses(key);
        assert(ok);
        Privkey(array_32(key))
    }

    /// The key whose bytes are the hash.
    pub fn from_hash(hash: Hash256) -> (r: Privkey)
        requires
            is_valid_secret_key(hash@),
        ensures
            r.0@ == hash@,
            r.wf(),
    {
        Privkey::from_slice(hash.as_ref())
    }

    /// The bytes of the key.
    pub fn as_ref(&self) -> (r: &[u8; 32])
        ensures
            *r == self.0,
    {
        &self.0
    }

    /// The public key of this key.
    pub fn pubkey(&self) -> (r: Pubkey)
        requires
            self.wf(),
        ensures
            r.0@ == public_key_of(self.0@),
            r.wf(),
    {
        Pubkey(secp_public_key(&self.0))
    }

    /// This key plus `scalar`, modulo the curve order. `scalar` must be a
    /// scalar in `[1, n)` and the sum must not be zero; secp256k1 refuses
    /// both, where this function panics.
    pub fn tweak(&self, scalar: [u8; 32]) -> (r: Privkey)
        requires
            self.wf(),
            is_valid_secret_key(scalar@),
            (be_value(self.0@) + be_value(scalar@)) % curve_order() != 0,
        ensures
            be_value(r.0@) == (be_value(self.0@) + be_value(scalar@)) % curve_order(),
            r.wf(),
            tweaked_point(public_key_of(self.0@), scalar@) == Some(public_key_of(r.0@)),
    {
        let sum = secp_scalar_add(&self.0, &scalar);
        Privkey(sum)
    }

    /// The recoverable ECDSA signature of a 32-byte digest: the 64-byte
    /// compact signature, then the recovery id.
    pub fn sign_ecdsa_recoverable(&self, message: &[u8; 32]) -> (r: [u8; 65])
        requires
            self.wf(),
        ensures
            r@.take(64) == ecdsa_recoverable_signature(self.0@, message@).0,
            r@[64] as int == ecdsa_recoverable_signature(self.0@, message@).1 as int,
            r@[64] <= 3,
            is_valid_compact_signature(r@.take(64)),
    {
        let (data, rec_id) = secp_sign_recoverable(&self.0, message);
        let mut result = [0u8; 65];
        let mut i: usize = 0;
        while i < 64
            invariant
                i <= 64,
                forall|j: int| 0 <= j < i ==> result@[j] == data@[j],
            decreases 64 - i,
        {
            result[i] = data[i];
            i = i + 1;
        }
        result[64] = rec_id as u8;
        assert(result@.take(64) =~= data@);
        result
    }
}

impl Pubkey {
    pub open spec fn wf(self) -> bool {
        is_valid_pubkey(self.0@)
    }

    /// The public key of 33 bytes, when secp256k1 accepts them.
    pub fn from_slice(b: &[u8]) -> (r: Result<Pubkey, Error>)
        requires
            b@.len() == 33,
        ensures
            match r {
                Ok(p) => p.0@ == b@ && is_valid_pubkey(b@),
                Err(e) => !is_valid_pubkey(b@) && e == Error::Secp(SecpError::InvalidPublicKey),
            },
    {
        check_pubkey(b)?;
        Ok(Pubkey(array_33(b)))
    }

    /// The compressed encoding of the key.
    pub fn serialize(&self) -> (r: [u8; 33])
        ensures
            r == self.0,
    {
        self.0
    }

    /// This key plus `scalar * G`. `scalar` must be in `[1, n)` and the sum
    /// must not be the point at infinity; secp256k1 refuses both, where this
    /// function panics.
    pub fn tweak(&self, scalar: [u8; 32]) -> (r: Pubkey)
        requires
            self.wf(),
            is_valid_secret_key(scalar@),
            tweaked_point(self.0@, scalar@) is Some,
        ensures
            Some(r.0@) == tweaked_point(self.0@, scalar@),
            r.wf(),
    {
        match secp_tweak_point(&self.0, &scalar) {
            Some(q) => Pubkey(q),
            None => {
                assert(false);
                Pubkey(self.0)
            },
        }
    }

    /// `tweak`, or `None` where it would panic: where the key is not
    /// valid, the scalar is not in `[1, n)`, or the sum is the point at
    /// infinity.
    pub fn checked_tweak(&self, scalar: [u8; 32]) -> (r: Option<Pubkey>)
        ensures
            match r {
                Some(p) => self.wf() && is_valid_secret_key(scalar@) && Some(p.0@) == tweaked_point(
                    self.0@,
                    scalar@,
                ) && p.wf(),
                None => !self.wf() || !is_valid_secret_key(scalar@) || tweaked_point(
                    self.0@,
                    scalar@,
                ) is None,
            },
    {
        if !secp_pubkey_parses(self.0.as_slice()) || !secp_secret_key_parses(scalar.as_slice()) {
            return None;
        }
        match secp_tweak_point(&self.0, &scalar) {
            Some(_) => Some(self.tweak(scalar)),
            None => None,
        }
    }
}

/// A public key's encoding is 33 bytes that start with `02` or `03`, and
/// that `Pubkey::from_slice` accepts, keeping them: the key comes back.
pub proof fn lemma_pubkey_roundtrip(p: Pubkey)
    requires
        p.wf(),
    ensures
        p.0@.len() == 33,
        p.0@[0] == 2 || p.0@[0] == 3,
        is_valid_pubkey(p.0@),
{
}

/// Tweaking commutes with taking the public key: where `k2` is `k` tweaked
/// by `s` (`Privkey::tweak`), `p` the public key of `k` and `p2` that of `k2`
/// (`Privkey::pubkey`), `p` can be tweaked by `s` (`Pubkey::tweak`), and
/// the key `q` it gives is `p2`.
pub proof fn lemma_tweak_commutes(k: Privkey, s: [u8; 32], k2: Privkey, p: Pubkey, p2: Pubkey, q: Pubkey)
    requires
        k.wf(),
        is_valid_secret_key(s@),
        (be_value(k.0@) + be_value(s@)) % curve_order() != 0,
        tweaked_point(public_key_of(k.0@), s@) == Some(public_key_of(k2.0@)),
        p.0@ == public_key_of(k.0@),
        p2.0@ == public_key_of(k2.0@),
        Some(q.0@) == tweaked_point(p.0@, s@),
    ensures
        tweaked_point(p.0@, s@) is Some,
        q.0@ == p2.0@,
{
}

impl Signature {
    pub open spec fn wf(self) -> bool {
        is_valid_compact_signature(self.0@)
    }

    /// The signature of 64 compact bytes, when secp256k1 accepts them.
    pub fn from_slice(b: &[u8]) -> (r: Result<Signature, Error>)
        requires
            b@.len() == 64,
        ensures
            match r {
                Ok(s) => s.0@ == b@ && is_valid_compact_signature(b@),
                Err(e) => !is_valid_compact_signature(b@) && e == Error::Secp(
                    SecpError::InvalidSignature,
                ),
            },
    {
        check_signature(b)?;
        Ok(Signature(array_64(b)))
    }
}

impl Signature {
    /// The compact encoding of the signature.
    pub fn serialize_compact(&self) -> (r: [u8; 64])
        ensures
            r == self.0,
    {
        self.0
    }
}

impl PubNonce {
    pub open spec fn wf(self) -> bool {
        is_valid_pub_nonce(self.0@)
    }

    /// The nonce of 66 bytes, when musig2 accepts them.
    pub fn from_slice(b: &[u8]) -> (r: Result<PubNonce, Error>)
        requires
            b@.len() == 66,
        ensures
            match r {
                Ok(n) => n.0@ == b@ && is_valid_pub_nonce(b@),
                Err(e) => !is_valid_pub_nonce(b@) && e == Error::Musig2(Musig2Error::InvalidPubNonce),
            },
    {
        check_pub_nonce(b, true)?;
        Ok(PubNonce(array_66(b)))
    }

    /// The 66 bytes of the nonce.
    pub fn to_bytes(&self) -> (r: [u8; 66])
        ensures
            r == self.0,
    {
        self.0
    }
}

impl PartialSignature {
    pub open spec fn wf(self) -> bool {
        be_value(self.0@) < curve_order()
    }

    /// The partial signature of 32 bytes, when they are a scalar below the
    /// curve order.
    pub fn from_slice(b: &[u8]) -> (r: Result<PartialSignature, Error>)
        requires
            b@.len() == 32,
        ensures
            match r {
                Ok(p) => p.0@ == b@ && p.wf(),
                Err(e) => be_value(b@) >= curve_order() && e == Error::AnyHow(
                    Reason::InvalidPartialSignature,
                ),
            },
    {
        check_partial_signature(b)?;
        Ok(PartialSignature(array_32(b)))
    }

    /// The 32 big-endian bytes of the scalar.
    pub fn serialize(&self) -> (r: [u8; 32])
        ensures
            r == self.0,
    {
        self.0
    }
}

} // verus!
