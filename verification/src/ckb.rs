//! What comes from the CKB crates: lock times as `Since` values, and the
//! scripts and transactions that messages carry as checked molecule bytes.
use vstd::prelude::*;

use molecule::error::VerificationError as MoleculeError;
use molecule::prelude::Reader;

use crate::error::Error;
use crate::molecule::VerificationError;

verus! {

// ------------------------------------------------------------------------
// `Since` (ckb-sdk), held as its raw 64-bit value.
/// The flag of a relative `Since`.
pub open spec fn since_relative_flag() -> u64 {
    0x8000_0000_0000_0000
}

/// The bits of a `Since` that name its metric.
pub open spec fn since_metric_mask() -> u64 {
    0x6000_0000_0000_0000
}

/// The bits of a `Since` that hold its value.
pub open spec fn since_value_mask() -> u64 {
    0x00ff_ffff_ffff_ffff
}

/// The metric of a `Since`.
#[derive(Clone, Copy, Debug, PartialEq, Eq, Structural)]
pub enum SinceMetric {
    BlockNumber,
    EpochNumberWithFraction,
    Timestamp,
}

/// The metric and value of a raw `Since`, `None` where the metric bits are
/// `0b11`.
pub open spec fn spec_extract_metric(raw: u64) -> Option<(SinceMetric, u64)> {
    let ty = raw & since_metric_mask();
    let value = raw & since_value_mask();
    if ty == 0 {
        Some((SinceMetric::BlockNumber, value))
    } else if ty == 0x2000_0000_0000_0000 {
        Some((SinceMetric::EpochNumberWithFraction, value))
    } else if ty == 0x4000_0000_0000_0000 {
        Some((SinceMetric::Timestamp, value))
    } else {
        None
    }
}

/// `Since::new(SinceType::BlockNumber, value, true).value()`: the value with
/// the relative flag set (ckb-sdk ORs the flag in and leaves the metric
/// bits of a block number at zero).
#[verifier::external_body]
pub(crate) fn since_relative_block_number(value: u64) -> (r: u64)
    ensures
        r == value | since_relative_flag(),
{
    ckb_sdk::Since::new(ckb_sdk::SinceType::BlockNumber, value, true).value()
}

/// `Since::is_relative` of a raw value: whether the relative flag is set.
#[verifier::external_body]
pub(crate) fn since_is_relative(raw: u64) -> (r: bool)
    ensures
        r == (raw & since_relative_flag() != 0),
{
    ckb_sdk::Since::from_raw_value(raw).is_relative()
}

/// `Since::extract_metric` of a raw value: the metric that bits 61 and 62
/// name, with the low 56 bits as the value.
#[verifier::external_body]
pub(crate) fn since_extract_metric(raw: u64) -> (r: Option<(SinceMetric, u64)>)
    ensures
        r == spec_extract_metric(raw),
{
    match ckb_sdk::Since::from_raw_value(raw).extract_metric() {
        Some((ckb_sdk::SinceType::BlockNumber, v)) => Some((SinceMetric::BlockNumber, v)),
        Some((ckb_sdk::SinceType::EpochNumberWithFraction, v)) => Some(
            (SinceMetric::EpochNumberWithFraction, v),
        ),
        Some((ckb_sdk::SinceType::Timestamp, v)) => Some((SinceMetric::Timestamp, v)),
        None => None,
    }
}

// ------------------------------------------------------------------------
// Scripts and transactions.
/// The outcome of a molecule check, as ckb-types reports it: code 0 when
/// the bytes are well formed, else the kind of error (1 to 5, in the order
/// of `VerificationError`) with the two sizes or counts that it carries
/// (for an unknown union item, the number of items and the item id).
pub open spec fn code_result(c: (u8, usize, usize, u32)) -> Result<(), VerificationError> {
    if c.0 == 0 {
        Ok(())
    } else if c.0 == 1 {
        Err(VerificationError::TotalSizeNotMatch(c.1, c.2))
    } else if c.0 == 2 {
        Err(VerificationError::HeaderIsBroken(c.1, c.2))
    } else if c.0 == 3 {
        Err(VerificationError::UnknownItem(c.1, c.3))
    } else if c.0 == 4 {
        Err(VerificationError::OffsetsNotMatch)
    } else {
        Err(VerificationError::FieldCountNotMatch(c.1, c.2))
    }
}

/// The outcome of ckb-types' strict check of `bytes` as a `Script`.
pub uninterp spec fn ckb_script_check(bytes: Seq<u8>) -> (u8, usize, usize, u32);

/// The outcome of ckb-types' strict check of `bytes` as a `Transaction`.
pub uninterp spec fn ckb_transaction_check(bytes: Seq<u8>) -> (u8, usize, usize, u32);

/// `ScriptReader::verify(bytes, false)` of ckb-types, its error told apart
/// by variant, with the sizes and counts it carries (the name of the
/// molecule type that failed is not kept). Its first test refuses fewer
/// than 4 bytes as a broken header: 4 needed, the length there is.
#[verifier::external_body]
fn verify_ckb_script(bytes: &[u8]) -> (r: Result<(), VerificationError>)
    ensures
        r == code_result(ckb_script_check(bytes@)),
        bytes@.len() < 4 ==> (r == Err::<(), VerificationError>(
            VerificationError::HeaderIsBroken(4, bytes@.len() as usize),
        )),
{
    match ckb_types::packed::ScriptReader::verify(bytes, false) {
        Ok(()) => Ok(()),
        Err(MoleculeError::TotalSizeNotMatch(_, e, a)) => Err(VerificationError::TotalSizeNotMatch(e, a)),
        Err(MoleculeError::HeaderIsBroken(_, e, a)) => Err(VerificationError::HeaderIsBroken(e, a)),
        Err(MoleculeError::UnknownItem(_, n, id)) => Err(VerificationError::UnknownItem(n, id)),
        Err(MoleculeError::OffsetsNotMatch(_)) => Err(VerificationError::OffsetsNotMatch),
        Err(MoleculeError::FieldCountNotMatch(_, e, a)) => Err(VerificationError::FieldCountNotMatch(e, a)),
    }
}

/// `TransactionReader::verify(bytes, false)` of ckb-types, its error told
/// apart by variant, with the sizes and counts it carries (the name of the
/// molecule type that failed is not kept). Its first test refuses fewer
/// than 4 bytes as a broken header: 4 needed, the length there is.
#[verifier::external_body]
fn verify_ckb_transaction(bytes: &[u8]) -> (r: Result<(), VerificationError>)
    ensures
        r == code_result(ckb_transaction_check(bytes@)),
        bytes@.len() < 4 ==> (r == Err::<(), VerificationError>(
            VerificationError::HeaderIsBroken(4, bytes@.len() as usize),
        )),
{
    match ckb_types::packed::TransactionReader::verify(bytes, false) {
        Ok(()) => Ok(()),
        Err(MoleculeError::TotalSizeNotMatch(_, e, a)) => Err(VerificationError::TotalSizeNotMatch(e, a)),
        Err(MoleculeError::HeaderIsBroken(_, e, a)) => Err(VerificationError::HeaderIsBroken(e, a)),
        Err(MoleculeError::UnknownItem(_, n, id)) => Err(VerificationError::UnknownItem(n, id)),
        Err(MoleculeError::OffsetsNotMatch(_)) => Err(VerificationError::OffsetsNotMatch),
        Err(MoleculeError::FieldCountNotMatch(_, e, a)) => Err(VerificationError::FieldCountNotMatch(e, a)),
    }
}

/// The strict molecule check of a `Script`.
pub open spec fn spec_script_check(b: Seq<u8>) -> Result<(), VerificationError> {
    if b.len() < 4 {
        Err(VerificationError::HeaderIsBroken(4, b.len() as usize))
    } else {
        code_result(ckb_script_check(b))
    }
}

/// The strict molecule check of a `Transaction`.
pub open spec fn spec_transaction_check(b: Seq<u8>) -> Result<(), VerificationError> {
    if b.len() < 4 {
        Err(VerificationError::HeaderIsBroken(4, b.len() as usize))
    } else {
        code_result(ckb_transaction_check(b))
    }
}

pub fn check_script(b: &[u8]) -> (r: Result<(), VerificationError>)
    ensures
        r == spec_script_check(b@),
{
    verify_ckb_script(b)
}

pub fn check_transaction(b: &[u8]) -> (r: Result<(), VerificationError>)
    ensures
        r == spec_transaction_check(b@),
{
    verify_ckb_transaction(b)
}

/// A CKB script, held as its molecule bytes.
#[derive(Clone, Debug)]
pub struct Script(pub Vec<u8>);

/// A CKB transaction, held as its molecule bytes.
#[derive(Clone, Debug)]
pub struct Transaction(pub Vec<u8>);

impl Script {
    pub open spec fn wf(&self) -> bool {
        spec_script_check(self.0@) is Ok
    }

    /// The script of `b`, when ckb-types accepts it.
    pub fn from_slice(b: &[u8]) -> (r: Result<Script, Error>)
        ensures
            match r {
                Ok(s) => s.0@ == b@ && s.wf(),
                Err(e) => spec_script_check(b@) == Err::<(), VerificationError>(
                    e->Molecule_0,
                ) && e is Molecule,
            },
    {
        match check_script(b) {
            Ok(()) => Ok(Script(vstd::slice::slice_to_vec(b))),
            Err(e) => Err(Error::Molecule(e)),
        }
    }

    pub fn as_slice(&self) -> (r: &[u8])
        ensures
            r@ == self.0@,
    {
        self.0.as_slice()
    }
}

impl Transaction {
    pub open spec fn wf(&self) -> bool {
        spec_transaction_check(self.0@) is Ok
    }

    /// The transaction of `b`, when ckb-types accepts it.
    pub fn from_slice(b: &[u8]) -> (r: Result<Transaction, Error>)
        ensures
            match r {
                Ok(t) => t.0@ == b@ && t.wf(),
                Err(e) => spec_transaction_check(b@) == Err::<(), VerificationError>(
                    e->Molecule_0,
                ) && e is Molecule,
            },
    {
        match check_transaction(b) {
            Ok(()) => Ok(Transaction(vstd::slice::slice_to_vec(b))),
            Err(e) => Err(Error::Molecule(e)),
        }
    }

    pub fn as_slice(&self) -> (r: &[u8])
        ensures
            r@ == self.0@,
    {
        self.0.as_slice()
    }
}

} // verus!
