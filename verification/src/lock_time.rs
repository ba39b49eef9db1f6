//! Relative lock times, counted in blocks.
use vstd::prelude::*;

use crate::bytes::{decode_le, encode_le, le_bytes, le_value, lemma_le_value_bound, lemma_pow256_values};
use crate::ckb::{
    since_extract_metric, since_is_relative, since_metric_mask, since_relative_block_number,
    since_relative_flag, since_value_mask, spec_extract_metric, SinceMetric,
};
use crate::error::{Error, Reason};

verus! {

/// A relative lock time, in blocks.
#[derive(Clone, Copy, Debug, PartialEq, Eq, Structural)]
pub struct LockTime(pub u64);

impl From<u64> for LockTime {
    fn from(value: u64) -> (r: LockTime)
        ensures
            r.0 == value,
    {
        LockTime(value)
    }
}

impl vstd::std_specs::convert::FromSpecImpl<u64> for LockTime {
    open spec fn obeys_from_spec() -> bool {
        true
    }

    open spec fn from_spec(v: u64) -> LockTime {
        LockTime(v)
    }
}

/// The lock time that a raw `Since` holds: it must be relative and count
/// blocks.
pub open spec fn spec_lock_time_from_since(raw: u64) -> Result<LockTime, Error> {
    if raw & since_relative_flag() == 0 {
        Err(Error::AnyHow(Reason::LockTimeNotRelative))
    } else {
        match spec_extract_metric(raw) {
            Some((SinceMetric::BlockNumber, v)) => Ok(LockTime(v)),
            Some(_) => Err(Error::AnyHow(Reason::LockTimeNotBlockNumber)),
            None => Err(Error::AnyHow(Reason::LockTimeMetricUnknown)),
        }
    }
}

/// The lock time of a byte string: 8 bytes, least significant first.
pub open spec fn spec_lock_time_from_slice(b: Seq<u8>) -> Result<LockTime, Error> {
    if b.len() != 8 {
        Err(Error::AnyHow(Reason::InvalidLockTimeLength))
    } else {
        Ok(LockTime(le_value(b) as u64))
    }
}

impl LockTime {
    pub fn new(blocks: u64) -> (r: Self)
        ensures
            r.0 == blocks,
    {
        LockTime(blocks)
    }

    /// The number of blocks.
    pub fn to_u64(self) -> (r: u64)
        ensures
            r == self.0,
    {
        self.0
    }

    /// The lock time of 8 bytes, least significant first.
    pub fn from_le_bytes(value: [u8; 8]) -> (r: LockTime)
        ensures
            r.0 as nat == le_value(value@),
    {
        LockTime::from_slice_exact(value.as_slice())
    }

    fn from_slice_exact(b: &[u8]) -> (r: LockTime)
        requires
            b@.len() == 8,
        ensures
            r.0 as nat == le_value(b@),
    {
        proof {
            lemma_le_value_bound(b@);
            lemma_pow256_values();
        }
        LockTime(decode_le(b) as u64)
    }

    /// The 8 bytes of the lock time, least significant first.
    pub fn to_le_bytes(self) -> (r: [u8; 8])
        ensures
            r@ == le_bytes(self.0 as nat, 8),
    {
        let v = encode_le(self.0 as u128, 8);
        proof {
            crate::bytes::lemma_le_bytes_len(self.0 as nat, 8);
        }
        array_8(v.as_slice())
    }

    /// The lock time of a byte string, which must be 8 bytes long.
    pub fn try_from_slice(value: &[u8]) -> (r: Result<LockTime, Error>)
        ensures
            r == spec_lock_time_from_slice(value@),
    {
        if value.len() != 8 {
            return Err(Error::AnyHow(Reason::InvalidLockTimeLength));
        }
        let r = LockTime::from_slice_exact(value);
        proof {
            lemma_le_value_bound(value@);
            lemma_pow256_values();
        }
        Ok(r)
    }

    /// The relative `Since` of this many blocks, as its raw value.
    pub fn to_since(self) -> (r: u64)
        ensures
            r == self.0 | since_relative_flag(),
    {
        since_relative_block_number(self.0)
    }

    /// The lock time that a raw `Since` holds.
    pub fn try_from_since(since: u64) -> (r: Result<LockTime, Error>)
        ensures
            r == spec_lock_time_from_since(since),
    {
        if !since_is_relative(since) {
            return Err(Error::AnyHow(Reason::LockTimeNotRelative));
        }
        match since_extract_metric(since) {
            Some((SinceMetric::BlockNumber, value)) => Ok(LockTime(value)),
            Some(_) => Err(Error::AnyHow(Reason::LockTimeNotBlockNumber)),
            None => Err(Error::AnyHow(Reason::LockTimeMetricUnknown)),
        }
    }
}

pub fn array_8(b: &[u8]) -> (r: [u8; 8])
    requires
        b@.len() == 8,
    ensures
        r@ == b@,
{
    let mut a = [0u8; 8];
    let mut i: usize = 0;
    while i < 8
        invariant
            b@.len() == 8,
            i <= 8,
            forall|j: int| 0 <= j < i ==> a@[j] == b@[j],
        decreases 8 - i,
    {
        a[i] = b[i];
        i = i + 1;
    }
    assert(a@ =~= b@);
    a
}

/// A lock time of fewer than `2^56` blocks comes back unchanged from its
/// `Since`.
pub proof fn lemma_since_roundtrip(lt: LockTime)
    requires
        lt.0 < 0x0100_0000_0000_0000,
    ensures
        spec_lock_time_from_since(lt.0 | since_relative_flag()) == Ok::<LockTime, Error>(lt),
{
    let v = lt.0;
    assert((v | 0x8000_0000_0000_0000u64) & 0x8000_0000_0000_0000u64 != 0) by (bit_vector);
    assert(v < 0x0100_0000_0000_0000u64 ==> (v | 0x8000_0000_0000_0000u64)
        & 0x6000_0000_0000_0000u64 == 0) by (bit_vector);
    assert(v < 0x0100_0000_0000_0000u64 ==> (v | 0x8000_0000_0000_0000u64)
        & 0x00ff_ffff_ffff_ffffu64 == v) by (bit_vector);
}

/// What a raw `Since` gives as a lock time, bit by bit: it is accepted
/// exactly when its relative flag (bit 63) is set and its metric bits (61
/// and 62) are both clear, which name a block number; the lock time is then
/// its low 56 bits. A value that is not relative is refused as such; a
/// relative epoch (`01`) or timestamp (`10`) is refused as not a block
/// number; the metric `11` is refused as unknown.
pub proof fn lemma_lock_time_from_since_bits(raw: u64)
    ensures
        (spec_lock_time_from_since(raw) is Ok) <==> (raw & 0x8000_0000_0000_0000u64 != 0 && raw
            & 0x6000_0000_0000_0000u64 == 0),
        spec_lock_time_from_since(raw) is Ok ==> spec_lock_time_from_since(raw)->Ok_0.0 == raw
            & 0x00ff_ffff_ffff_ffffu64,
        raw & 0x8000_0000_0000_0000u64 == 0 ==> spec_lock_time_from_since(raw) == Err::<
            LockTime,
            Error,
        >(Error::AnyHow(Reason::LockTimeNotRelative)),
        raw & 0x8000_0000_0000_0000u64 != 0 && (raw & 0x6000_0000_0000_0000u64
            == 0x2000_0000_0000_0000u64 || raw & 0x6000_0000_0000_0000u64
            == 0x4000_0000_0000_0000u64) ==> spec_lock_time_from_since(raw) == Err::<
            LockTime,
            Error,
        >(Error::AnyHow(Reason::LockTimeNotBlockNumber)),
        raw & 0x8000_0000_0000_0000u64 != 0 && raw & 0x6000_0000_0000_0000u64
            == 0x6000_0000_0000_0000u64 ==> spec_lock_time_from_since(raw) == Err::<
            LockTime,
            Error,
        >(Error::AnyHow(Reason::LockTimeMetricUnknown)),
{
    let m = raw & 0x6000_0000_0000_0000u64;
    assert(m == 0 || m == 0x2000_0000_0000_0000u64 || m == 0x4000_0000_0000_0000u64 || m
        == 0x6000_0000_0000_0000u64) by (bit_vector)
        requires
            m == raw & 0x6000_0000_0000_0000u64,
    ;
}

/// The bytes of a lock time read back to it.
pub proof fn lemma_le_bytes_roundtrip(lt: LockTime)
    ensures
        spec_lock_time_from_slice(le_bytes(lt.0 as nat, 8)) == Ok::<LockTime, Error>(lt),
{
    crate::bytes::lemma_le_bytes_len(lt.0 as nat, 8);
    crate::bytes::lemma_le_value_of_bytes(lt.0 as nat, 8);
    lemma_pow256_values();
    vstd::arithmetic::div_mod::lemma_small_mod(lt.0 as nat, 0x1_0000_0000_0000_0000);
}

} // verus!
