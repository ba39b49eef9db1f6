//! The fiber protocol messages and their molecule encoding.
use vstd::prelude::*;

use vstd::slice::{slice_subrange, slice_to_vec};

use crate::bytes::{decode_le, encode_le, le_bytes, lemma_le_bytes_len, lemma_le_bytes_of_value};
use crate::ckb::{Script, Transaction};
use crate::error::{Error, Reason};
use crate::fields::{
    bytes_vec_encode, decode_bytes, decode_bytes_vec, decode_script_opt, decode_u128, decode_u32,
    decode_u64, encode_bytes, encode_bytes_vec, encode_script_opt, encode_u128, encode_u32,
    encode_u64, encode_u8, lemma_bytes_encode_checks, lemma_bytes_encode_injective,
    lemma_bytes_vec_encode_checks, lemma_bytes_vec_encode_injective, lemma_item_len,
    lemma_script_opt_checks, lemma_script_opt_injective, lemma_u128_injective, lemma_u32_injective,
    lemma_u64_injective, script_opt_encode, script_opt_same, script_opt_wf,
};
use crate::hash::Hash256;
use crate::keys::{array_32, array_33, array_66, PartialSignature, PubNonce, Pubkey};
use crate::lock_time::LockTime;
use crate::molecule::{
    dyn_encode, encode_dyn, lemma_dyn_encode_bounded, lemma_encode_then_split, lemma_split_dyn_len, lemma_split_then_encode,
    number, read_number, split_dyn, split_dyn_exec, views, VerificationError,
};
use crate::schema::{
    bytes_encode, check_fits, lemma_table_check_encode, lemma_table_check_fields,
    spec_field_check, spec_kind_check, spec_reason_check, spec_single_fixed_table_check,
    spec_table_check, table_check, union_encode, FieldCheck, FieldKind,
};

verus! {

/// Every number spelled in `n` bytes takes `n` bytes.
proof fn lemma_fixed_lens_all()
    ensures
        forall|v: nat, n: nat| #[trigger] le_bytes(v, n).len() == n,
{
    assert forall|v: nat, n: nat| #[trigger] le_bytes(v, n).len() == n by {
        lemma_le_bytes_len(v, n);
    }
}

/// The hash function of a payment hash.
#[derive(Copy, Clone, Debug, Default, PartialEq, Eq, Structural)]
pub enum HashAlgorithm {
    #[default]
    CkbHash,
    Sha256,
}

impl HashAlgorithm {
    /// The byte that stands for the algorithm.
    pub open spec fn spec_byte(self) -> u8 {
        match self {
            HashAlgorithm::CkbHash => 0,
            HashAlgorithm::Sha256 => 1,
        }
    }

    pub fn byte(&self) -> (r: u8)
        ensures
            r == self.spec_byte(),
    {
        match self {
            HashAlgorithm::CkbHash => 0,
            HashAlgorithm::Sha256 => 1,
        }
    }

    /// The algorithm of a known byte.
    pub fn from_byte(b: u8) -> (r: HashAlgorithm)
        requires
            b < 2,
        ensures
            r.spec_byte() == b,
    {
        if b == 0 {
            HashAlgorithm::CkbHash
        } else {
            HashAlgorithm::Sha256
        }
    }

    /// The algorithm of a byte, refused when it names none.
    pub fn try_from_byte(b: u8) -> (r: Result<HashAlgorithm, Error>)
        ensures
            match r {
                Ok(a) => b < 2 && a.spec_byte() == b,
                Err(e) => b >= 2 && e == Error::AnyHow(Reason::UnknownHashAlgorithm),
            },
    {
        if b < 2 {
            Ok(HashAlgorithm::from_byte(b))
        } else {
            Err(Error::AnyHow(Reason::UnknownHashAlgorithm))
        }
    }
}

/// The request to open a channel.
#[derive(Clone, Debug)]
pub struct OpenChannel {
    pub chain_hash: Hash256,
    pub channel_id: Hash256,
    pub funding_udt_type_script: Option<Script>,
    pub funding_amount: u128,
    pub reserved_ckb_amount: u64,
    pub funding_fee_rate: u64,
    pub commitment_fee_rate: u64,
    pub max_tlc_value_in_flight: u128,
    pub max_num_of_accept_tlcs: u64,
    pub min_tlc_value: u128,
    pub to_local_delay: LockTime,
    pub funding_pubkey: Pubkey,
    pub revocation_basepoint: Pubkey,
    pub payment_basepoint: Pubkey,
    pub delayed_payment_basepoint: Pubkey,
    pub tlc_basepoint: Pubkey,
    pub first_per_commitment_point: Pubkey,
    pub second_per_commitment_point: Pubkey,
    pub next_local_nonce: PubNonce,
    pub channel_flags: u8,
}

impl OpenChannel {
    /// The molecule types of the fields.
    pub open spec fn kinds() -> Seq<FieldKind> {
        seq![
            FieldKind::Fixed(32),
            FieldKind::Fixed(32),
            FieldKind::ScriptOpt,
            FieldKind::Fixed(16),
            FieldKind::Fixed(8),
            FieldKind::Fixed(8),
            FieldKind::Fixed(8),
            FieldKind::Fixed(16),
            FieldKind::Fixed(8),
            FieldKind::Fixed(16),
            FieldKind::Fixed(8),
            FieldKind::Fixed(33),
            FieldKind::Fixed(33),
            FieldKind::Fixed(33),
            FieldKind::Fixed(33),
            FieldKind::Fixed(33),
            FieldKind::Fixed(33),
            FieldKind::Fixed(33),
            FieldKind::Fixed(66),
            FieldKind::Fixed(1),
        ]
    }

    /// What converting each field may refuse.
    pub open spec fn checks() -> Seq<FieldCheck> {
        seq![
            FieldCheck::Plain,
            FieldCheck::Plain,
            FieldCheck::Plain,
            FieldCheck::Plain,
            FieldCheck::Plain,
            FieldCheck::Plain,
            FieldCheck::Plain,
            FieldCheck::Plain,
            FieldCheck::Plain,
            FieldCheck::Plain,
            FieldCheck::Plain,
            FieldCheck::Pubkey,
            FieldCheck::Pubkey,
            FieldCheck::Pubkey,
            FieldCheck::Pubkey,
            FieldCheck::Pubkey,
            FieldCheck::Pubkey,
            FieldCheck::Pubkey,
            FieldCheck::NonceMusig2,
            FieldCheck::Plain,
        ]
    }

    /// The encoding of each field.
    pub open spec fn fields(self) -> Seq<Seq<u8>> {
        seq![
            self.chain_hash@,
            self.channel_id@,
            script_opt_encode(self.funding_udt_type_script),
            le_bytes(self.funding_amount as nat, 16),
            le_bytes(self.reserved_ckb_amount as nat, 8),
            le_bytes(self.funding_fee_rate as nat, 8),
            le_bytes(self.commitment_fee_rate as nat, 8),
            le_bytes(self.max_tlc_value_in_flight as nat, 16),
            le_bytes(self.max_num_of_accept_tlcs as nat, 8),
            le_bytes(self.min_tlc_value as nat, 16),
            le_bytes(self.to_local_delay.0 as nat, 8),
            self.funding_pubkey.0@,
            self.revocation_basepoint.0@,
            self.payment_basepoint.0@,
            self.delayed_payment_basepoint.0@,
            self.tlc_basepoint.0@,
            self.first_per_commitment_point.0@,
            self.second_per_commitment_point.0@,
            self.next_local_nonce.0@,
            seq![self.channel_flags],
        ]
    }

    /// The molecule encoding of the message.
    pub open spec fn spec_encode(self) -> Seq<u8> {
        dyn_encode(self.fields())
    }

    /// Decoding the molecule encoding `s`: the fields, or the first refusal.
    pub open spec fn spec_decode(s: Seq<u8>) -> Result<Seq<Seq<u8>>, Error> {
        spec_table_check(s, Self::kinds(), Self::checks())
    }

    /// Every key, nonce, signature and script of the message is valid.
    pub open spec fn wf(self) -> bool {
        script_opt_wf(self.funding_udt_type_script) && self.funding_pubkey.wf() && self.revocation_basepoint.wf() && self.payment_basepoint.wf() && self.delayed_payment_basepoint.wf() && self.tlc_basepoint.wf() && self.first_per_commitment_point.wf() && self.second_per_commitment_point.wf() && self.next_local_nonce.wf()
    }

    /// The message is what the decoded fields `fs` hold.
    pub open spec fn decodes_to(self, fs: Seq<Seq<u8>>) -> bool {
        &&& fs.len() == 20
        &&& fs[0] == self.chain_hash@
        &&& fs[1] == self.channel_id@
        &&& fs[2] == script_opt_encode(self.funding_udt_type_script)
        &&& fs[3] == le_bytes(self.funding_amount as nat, 16)
        &&& fs[4] == le_bytes(self.reserved_ckb_amount as nat, 8)
        &&& fs[5] == le_bytes(self.funding_fee_rate as nat, 8)
        &&& fs[6] == le_bytes(self.commitment_fee_rate as nat, 8)
        &&& fs[7] == le_bytes(self.max_tlc_value_in_flight as nat, 16)
        &&& fs[8] == le_bytes(self.max_num_of_accept_tlcs as nat, 8)
        &&& fs[9] == le_bytes(self.min_tlc_value as nat, 16)
        &&& fs[10] == le_bytes(self.to_local_delay.0 as nat, 8)
        &&& fs[11] == self.funding_pubkey.0@
        &&& fs[12] == self.revocation_basepoint.0@
        &&& fs[13] == self.payment_basepoint.0@
        &&& fs[14] == self.delayed_payment_basepoint.0@
        &&& fs[15] == self.tlc_basepoint.0@
        &&& fs[16] == self.first_per_commitment_point.0@
        &&& fs[17] == self.second_per_commitment_point.0@
        &&& fs[18] == self.next_local_nonce.0@
        &&& fs[19] == seq![self.channel_flags]
    }

    /// The two messages hold the same values.
    pub open spec fn same(self, other: Self) -> bool {
        &&& self.chain_hash == other.chain_hash
        &&& self.channel_id == other.channel_id
        &&& script_opt_same(self.funding_udt_type_script, other.funding_udt_type_script)
        &&& self.funding_amount == other.funding_amount
        &&& self.reserved_ckb_amount == other.reserved_ckb_amount
        &&& self.funding_fee_rate == other.funding_fee_rate
        &&& self.commitment_fee_rate == other.commitment_fee_rate
        &&& self.max_tlc_value_in_flight == other.max_tlc_value_in_flight
        &&& self.max_num_of_accept_tlcs == other.max_num_of_accept_tlcs
        &&& self.min_tlc_value == other.min_tlc_value
        &&& self.to_local_delay == other.to_local_delay
        &&& self.funding_pubkey == other.funding_pubkey
        &&& self.revocation_basepoint == other.revocation_basepoint
        &&& self.payment_basepoint == other.payment_basepoint
        &&& self.delayed_payment_basepoint == other.delayed_payment_basepoint
        &&& self.tlc_basepoint == other.tlc_basepoint
        &&& self.first_per_commitment_point == other.first_per_commitment_point
        &&& self.second_per_commitment_point == other.second_per_commitment_point
        &&& self.next_local_nonce == other.next_local_nonce
        &&& self.channel_flags == other.channel_flags
    }

    fn exec_kinds() -> (r: Vec<FieldKind>)
        ensures
            r@ == Self::kinds(),
    {
        let mut r = Vec::new();
        r.push(FieldKind::Fixed(32));
        r.push(FieldKind::Fixed(32));
        r.push(FieldKind::ScriptOpt);
        r.push(FieldKind::Fixed(16));
        r.push(FieldKind::Fixed(8));
        r.push(FieldKind::Fixed(8));
        r.push(FieldKind::Fixed(8));
        r.push(FieldKind::Fixed(16));
        r.push(FieldKind::Fixed(8));
        r.push(FieldKind::Fixed(16));
        r.push(FieldKind::Fixed(8));
        r.push(FieldKind::Fixed(33));
        r.push(FieldKind::Fixed(33));
        r.push(FieldKind::Fixed(33));
        r.push(FieldKind::Fixed(33));
        r.push(FieldKind::Fixed(33));
        r.push(FieldKind::Fixed(33));
        r.push(FieldKind::Fixed(33));
        r.push(FieldKind::Fixed(66));
        r.push(FieldKind::Fixed(1));
        assert(r@ =~= Self::kinds());
        r
    }

    fn exec_checks() -> (r: Vec<FieldCheck>)
        ensures
            r@ == Self::checks(),
    {
        let mut r = Vec::new();
        r.push(FieldCheck::Plain);
        r.push(FieldCheck::Plain);
        r.push(FieldCheck::Plain);
        r.push(FieldCheck::Plain);
        r.push(FieldCheck::Plain);
        r.push(FieldCheck::Plain);
        r.push(FieldCheck::Plain);
        r.push(FieldCheck::Plain);
        r.push(FieldCheck::Plain);
        r.push(FieldCheck::Plain);
        r.push(FieldCheck::Plain);
        r.push(FieldCheck::Pubkey);
        r.push(FieldCheck::Pubkey);
        r.push(FieldCheck::Pubkey);
        r.push(FieldCheck::Pubkey);
        r.push(FieldCheck::Pubkey);
        r.push(FieldCheck::Pubkey);
        r.push(FieldCheck::Pubkey);
        r.push(FieldCheck::NonceMusig2);
        r.push(FieldCheck::Plain);
        assert(r@ =~= Self::checks());
        r
    }

    /// The molecule encoding of the message.
    pub fn to_molecule_bytes(&self) -> (r: Vec<u8>)
        ensures
            r@ == self.spec_encode(),
    {
        let mut fs: Vec<Vec<u8>> = Vec::new();
        fs.push(slice_to_vec(self.chain_hash.as_ref()));
        fs.push(slice_to_vec(self.channel_id.as_ref()));
        fs.push(encode_script_opt(&self.funding_udt_type_script));
        fs.push(encode_u128(self.funding_amount));
        fs.push(encode_u64(self.reserved_ckb_amount));
        fs.push(encode_u64(self.funding_fee_rate));
        fs.push(encode_u64(self.commitment_fee_rate));
        fs.push(encode_u128(self.max_tlc_value_in_flight));
        fs.push(encode_u64(self.max_num_of_accept_tlcs));
        fs.push(encode_u128(self.min_tlc_value));
        fs.push(encode_u64(self.to_local_delay.0));
        fs.push(slice_to_vec(self.funding_pubkey.0.as_slice()));
        fs.push(slice_to_vec(self.revocation_basepoint.0.as_slice()));
        fs.push(slice_to_vec(self.payment_basepoint.0.as_slice()));
        fs.push(slice_to_vec(self.delayed_payment_basepoint.0.as_slice()));
        fs.push(slice_to_vec(self.tlc_basepoint.0.as_slice()));
        fs.push(slice_to_vec(self.first_per_commitment_point.0.as_slice()));
        fs.push(slice_to_vec(self.second_per_commitment_point.0.as_slice()));
        fs.push(slice_to_vec(self.next_local_nonce.0.as_slice()));
        fs.push(encode_u8(self.channel_flags));
        assert(views(fs@) =~= self.fields());
        encode_dyn(&fs)
    }

    /// The message of fields that passed every check.
    pub(crate) fn from_checked_fields(fs: &Vec<Vec<u8>>) -> (r: Self)
        requires
            fs@.len() == 20,
            forall|i: int|
                0 <= i < 20 ==> #[trigger] spec_kind_check(Self::kinds()[i], views(fs@)[i]) is Ok,
            forall|i: int|
                0 <= i < 20 ==> #[trigger] spec_field_check(Self::checks()[i], views(fs@)[i]) is Ok,
        ensures
            r.wf(),
            r.decodes_to(views(fs@)),
    {
        assert(spec_kind_check(Self::kinds()[0], views(fs@)[0]) is Ok);
        assert(spec_field_check(Self::checks()[0], views(fs@)[0]) is Ok);
        let chain_hash = Hash256::from_bytes(fs[0].as_slice());
        assert(spec_kind_check(Self::kinds()[1], views(fs@)[1]) is Ok);
        assert(spec_field_check(Self::checks()[1], views(fs@)[1]) is Ok);
        let channel_id = Hash256::from_bytes(fs[1].as_slice());
        assert(spec_kind_check(Self::kinds()[2], views(fs@)[2]) is Ok);
        assert(spec_field_check(Self::checks()[2], views(fs@)[2]) is Ok);
        let funding_udt_type_script = decode_script_opt(fs[2].as_slice());
        assert(spec_kind_check(Self::kinds()[3], views(fs@)[3]) is Ok);
        assert(spec_field_check(Self::checks()[3], views(fs@)[3]) is Ok);
        let funding_amount = decode_u128(fs[3].as_slice());
        assert(spec_kind_check(Self::kinds()[4], views(fs@)[4]) is Ok);
        assert(spec_field_check(Self::checks()[4], views(fs@)[4]) is Ok);
        let reserved_ckb_amount = decode_u64(fs[4].as_slice());
        assert(spec_kind_check(Self::kinds()[5], views(fs@)[5]) is Ok);
        assert(spec_field_check(Self::checks()[5], views(fs@)[5]) is Ok);
        let funding_fee_rate = decode_u64(fs[5].as_slice());
        assert(spec_kind_check(Self::kinds()[6], views(fs@)[6]) is Ok);
        assert(spec_field_check(Self::checks()[6], views(fs@)[6]) is Ok);
        let commitment_fee_rate = decode_u64(fs[6].as_slice());
        assert(spec_kind_check(Self::kinds()[7], views(fs@)[7]) is Ok);
        assert(spec_field_check(Self::checks()[7], views(fs@)[7]) is Ok);
        let max_tlc_value_in_flight = decode_u128(fs[7].as_slice());
        assert(spec_kind_check(Self::kinds()[8], views(fs@)[8]) is Ok);
        assert(spec_field_check(Self::checks()[8], views(fs@)[8]) is Ok);
        let max_num_of_accept_tlcs = decode_u64(fs[8].as_slice());
        assert(spec_kind_check(Self::kinds()[9], views(fs@)[9]) is Ok);
        assert(spec_field_check(Self::checks()[9], views(fs@)[9]) is Ok);
        let min_tlc_value = decode_u128(fs[9].as_slice());
        assert(spec_kind_check(Self::kinds()[10], views(fs@)[10]) is Ok);
        assert(spec_field_check(Self::checks()[10], views(fs@)[10]) is Ok);
        let to_local_delay = LockTime(decode_u64(fs[10].as_slice()));
        assert(spec_kind_check(Self::kinds()[11], views(fs@)[11]) is Ok);
        assert(spec_field_check(Self::checks()[11], views(fs@)[11]) is Ok);
        let funding_pubkey = Pubkey(array_33(fs[11].as_slice()));
        assert(spec_kind_check(Self::kinds()[12], views(fs@)[12]) is Ok);
        assert(spec_field_check(Self::checks()[12], views(fs@)[12]) is Ok);
        let revocation_basepoint = Pubkey(array_33(fs[12].as_slice()));
        assert(spec_kind_check(Self::kinds()[13], views(fs@)[13]) is Ok);
        assert(spec_field_check(Self::checks()[13], views(fs@)[13]) is Ok);
        let payment_basepoint = Pubkey(array_33(fs[13].as_slice()));
        assert(spec_kind_check(Self::kinds()[14], views(fs@)[14]) is Ok);
        assert(spec_field_check(Self::checks()[14], views(fs@)[14]) is Ok);
        let delayed_payment_basepoint = Pubkey(array_33(fs[14].as_slice()));
        assert(spec_kind_check(Self::kinds()[15], views(fs@)[15]) is Ok);
        assert(spec_field_check(Self::checks()[15], views(fs@)[15]) is Ok);
        let tlc_basepoint = Pubkey(array_33(fs[15].as_slice()));
        assert(spec_kind_check(Self::kinds()[16], views(fs@)[16]) is Ok);
        assert(spec_field_check(Self::checks()[16], views(fs@)[16]) is Ok);
        let first_per_commitment_point = Pubkey(array_33(fs[16].as_slice()));
        assert(spec_kind_check(Self::kinds()[17], views(fs@)[17]) is Ok);
        assert(spec_field_check(Self::checks()[17], views(fs@)[17]) is Ok);
        let second_per_commitment_point = Pubkey(array_33(fs[17].as_slice()));
        assert(spec_kind_check(Self::kinds()[18], views(fs@)[18]) is Ok);
        assert(spec_field_check(Self::checks()[18], views(fs@)[18]) is Ok);
        let next_local_nonce = PubNonce(array_66(fs[18].as_slice()));
        assert(spec_kind_check(Self::kinds()[19], views(fs@)[19]) is Ok);
        assert(spec_field_check(Self::checks()[19], views(fs@)[19]) is Ok);
        let channel_flags = fs[19].as_slice()[0];
        assert(fs@[19]@ =~= seq![fs@[19]@[0]]);
        let r = OpenChannel { chain_hash, channel_id, funding_udt_type_script, funding_amount, reserved_ckb_amount, funding_fee_rate, commitment_fee_rate, max_tlc_value_in_flight, max_num_of_accept_tlcs, min_tlc_value, to_local_delay, funding_pubkey, revocation_basepoint, payment_basepoint, delayed_payment_basepoint, tlc_basepoint, first_per_commitment_point, second_per_commitment_point, next_local_nonce, channel_flags };
        assert(views(fs@).len() == 20);
        r
    }

    /// Decodes the molecule encoding of the message.
    pub fn from_molecule_slice(s: &[u8]) -> (r: Result<Self, Error>)
        ensures
            match Self::spec_decode(s@) {
                Ok(fs) => r matches Ok(m) && m.wf() && m.decodes_to(fs),
                Err(e) => r == Err::<Self, Error>(e),
            },
    {
        let ks = Self::exec_kinds();
        let cs = Self::exec_checks();
        proof {
            lemma_open_channel_fits();
        }
        let fs = table_check(s, &ks, &cs)?;
        proof {
            lemma_table_check_fields(s@, ks@, cs@);
        }
        Ok(Self::from_checked_fields(&fs))
    }
}

proof fn lemma_open_channel_fits()
    ensures
        OpenChannel::kinds().len() == 20,
        OpenChannel::checks().len() == 20,
        forall|i: int| 0 <= i < 20 ==> #[trigger] check_fits(OpenChannel::checks()[i], OpenChannel::kinds()[i]),
{
    assert forall|i: int| 0 <= i < 20 implies #[trigger] check_fits(OpenChannel::checks()[i], OpenChannel::kinds()[i]) by {
        // One case per field.
        if i == 0 {
        } else if i == 1 {
        } else if i == 2 {
        } else if i == 3 {
        } else if i == 4 {
        } else if i == 5 {
        } else if i == 6 {
        } else if i == 7 {
        } else if i == 8 {
        } else if i == 9 {
        } else if i == 10 {
        } else if i == 11 {
        } else if i == 12 {
        } else if i == 13 {
        } else if i == 14 {
        } else if i == 15 {
        } else if i == 16 {
        } else if i == 17 {
        } else if i == 18 {
        } else if i == 19 {
        }
    }
}

/// The fields of a valid `OpenChannel` pass every check, when its encoding fits
/// in a molecule number.
proof fn lemma_open_channel_checks(m: OpenChannel)
    requires
        m.wf(),
        m.spec_encode().len() < 0x1_0000_0000,
    ensures
        m.fields().len() == 20,
        forall|i: int|
            0 <= i < 20 ==> #[trigger] spec_kind_check(OpenChannel::kinds()[i], m.fields()[i]) is Ok,
        forall|i: int|
            0 <= i < 20 ==> #[trigger] spec_field_check(OpenChannel::checks()[i], m.fields()[i]) is Ok,
{
    lemma_script_opt_checks(m.funding_udt_type_script);
    lemma_fixed_lens_all();
    assert forall|i: int| 0 <= i < 20 implies #[trigger] spec_kind_check(OpenChannel::kinds()[i], m.fields()[i]) is Ok by {
        // One case per field.
        if i == 0 {
        } else if i == 1 {
        } else if i == 2 {
        } else if i == 3 {
        } else if i == 4 {
        } else if i == 5 {
        } else if i == 6 {
        } else if i == 7 {
        } else if i == 8 {
        } else if i == 9 {
        } else if i == 10 {
        } else if i == 11 {
        } else if i == 12 {
        } else if i == 13 {
        } else if i == 14 {
        } else if i == 15 {
        } else if i == 16 {
        } else if i == 17 {
        } else if i == 18 {
        } else if i == 19 {
        }
    }
    assert forall|i: int| 0 <= i < 20 implies #[trigger] spec_field_check(OpenChannel::checks()[i], m.fields()[i]) is Ok by {
        // One case per field.
        if i == 0 {
        } else if i == 1 {
        } else if i == 2 {
        } else if i == 3 {
        } else if i == 4 {
        } else if i == 5 {
        } else if i == 6 {
        } else if i == 7 {
        } else if i == 8 {
        } else if i == 9 {
        } else if i == 10 {
        } else if i == 11 {
        } else if i == 12 {
        } else if i == 13 {
        } else if i == 14 {
        } else if i == 15 {
        } else if i == 16 {
        } else if i == 17 {
        } else if i == 18 {
        } else if i == 19 {
        }
    }
}

/// Decoding the encoding of a valid `OpenChannel` succeeds, and gives back a
/// message that holds the same values, when the encoding fits in a
/// molecule number.
pub proof fn lemma_open_channel_roundtrip(m: OpenChannel, m2: OpenChannel)
    requires
        m.wf(),
        m.spec_encode().len() < 0x1_0000_0000,
    ensures
        OpenChannel::spec_decode(m.spec_encode()) == Ok::<Seq<Seq<u8>>, Error>(m.fields()),
        m2.wf() && m2.decodes_to(m.fields()) ==> m2.same(m),
{
    lemma_open_channel_checks(m);
    lemma_table_check_encode(m.fields(), OpenChannel::kinds(), OpenChannel::checks());
    if m2.wf() && m2.decodes_to(m.fields()) {
        assert(m2.chain_hash.0 =~= m.chain_hash.0);
        assert(m2.channel_id.0 =~= m.channel_id.0);
        lemma_script_opt_injective(m2.funding_udt_type_script, m.funding_udt_type_script);
        lemma_u128_injective(m2.funding_amount, m.funding_amount);
        lemma_u64_injective(m2.reserved_ckb_amount, m.reserved_ckb_amount);
        lemma_u64_injective(m2.funding_fee_rate, m.funding_fee_rate);
        lemma_u64_injective(m2.commitment_fee_rate, m.commitment_fee_rate);
        lemma_u128_injective(m2.max_tlc_value_in_flight, m.max_tlc_value_in_flight);
        lemma_u64_injective(m2.max_num_of_accept_tlcs, m.max_num_of_accept_tlcs);
        lemma_u128_injective(m2.min_tlc_value, m.min_tlc_value);
        lemma_u64_injective(m2.to_local_delay.0, m.to_local_delay.0);
        assert(m2.funding_pubkey.0 =~= m.funding_pubkey.0);
        assert(m2.revocation_basepoint.0 =~= m.revocation_basepoint.0);
        assert(m2.payment_basepoint.0 =~= m.payment_basepoint.0);
        assert(m2.delayed_payment_basepoint.0 =~= m.delayed_payment_basepoint.0);
        assert(m2.tlc_basepoint.0 =~= m.tlc_basepoint.0);
        assert(m2.first_per_commitment_point.0 =~= m.first_per_commitment_point.0);
        assert(m2.second_per_commitment_point.0 =~= m.second_per_commitment_point.0);
        assert(m2.next_local_nonce.0 =~= m.next_local_nonce.0);
        assert(seq![m2.channel_flags][0] == seq![m.channel_flags][0]);
    }
}

/// A `OpenChannel` decoded from `s` encodes back to `s`.
pub proof fn lemma_open_channel_decode_encode(s: Seq<u8>, m: OpenChannel)
    requires
        OpenChannel::spec_decode(s) is Ok,
        m.decodes_to(OpenChannel::spec_decode(s)->Ok_0),
    ensures
        m.spec_encode() == s,
{
    let fs = OpenChannel::spec_decode(s)->Ok_0;
    lemma_open_channel_fits();
    lemma_table_check_fields(s, OpenChannel::kinds(), OpenChannel::checks());
    lemma_split_then_encode(s, Some(OpenChannel::kinds().len()));
    assert(m.fields() =~= fs);
}

/// The schema of `OpenChannel`, field by field in table order:
/// 0. `chain_hash` (Byte32)
/// 1. `channel_id` (Byte32)
/// 2. `funding_udt_type_script` (ScriptOpt)
/// 3. `funding_amount` (Uint128)
/// 4. `reserved_ckb_amount` (Uint64)
/// 5. `funding_fee_rate` (Uint64)
/// 6. `commitment_fee_rate` (Uint64)
/// 7. `max_tlc_value_in_flight` (Uint128)
/// 8. `max_num_of_accept_tlcs` (Uint64)
/// 9. `min_tlc_value` (Uint128)
/// 10. `to_local_delay` (Uint64)
/// 11. `funding_pubkey` (Pubkey)
/// 12. `revocation_basepoint` (Pubkey)
/// 13. `payment_basepoint` (Pubkey)
/// 14. `delayed_payment_basepoint` (Pubkey)
/// 15. `tlc_basepoint` (Pubkey)
/// 16. `first_per_commitment_point` (Pubkey)
/// 17. `second_per_commitment_point` (Pubkey)
/// 18. `next_local_nonce` (PubNonce)
/// 19. `channel_flags` (byte)
/// Its encoding is the molecule table of these fields in this order, and
/// a message decoded from a table holds in each field the value that the
/// table's item at that position encodes.
pub proof fn lemma_open_channel_schema(m: OpenChannel, fs: Seq<Seq<u8>>)
    ensures
        m.spec_encode() == dyn_encode(
            seq![
                m.chain_hash@,
                m.channel_id@,
                script_opt_encode(m.funding_udt_type_script),
                le_bytes(m.funding_amount as nat, 16),
                le_bytes(m.reserved_ckb_amount as nat, 8),
                le_bytes(m.funding_fee_rate as nat, 8),
                le_bytes(m.commitment_fee_rate as nat, 8),
                le_bytes(m.max_tlc_value_in_flight as nat, 16),
                le_bytes(m.max_num_of_accept_tlcs as nat, 8),
                le_bytes(m.min_tlc_value as nat, 16),
                le_bytes(m.to_local_delay.0 as nat, 8),
                m.funding_pubkey.0@,
                m.revocation_basepoint.0@,
                m.payment_basepoint.0@,
                m.delayed_payment_basepoint.0@,
                m.tlc_basepoint.0@,
                m.first_per_commitment_point.0@,
                m.second_per_commitment_point.0@,
                m.next_local_nonce.0@,
                seq![m.channel_flags],
            ],
        ),
        m.decodes_to(fs) ==> {
            &&& fs.len() == 20
            &&& fs[0] == m.chain_hash@
            &&& fs[1] == m.channel_id@
            &&& fs[2] == script_opt_encode(m.funding_udt_type_script)
            &&& fs[3] == le_bytes(m.funding_amount as nat, 16)
            &&& fs[4] == le_bytes(m.reserved_ckb_amount as nat, 8)
            &&& fs[5] == le_bytes(m.funding_fee_rate as nat, 8)
            &&& fs[6] == le_bytes(m.commitment_fee_rate as nat, 8)
            &&& fs[7] == le_bytes(m.max_tlc_value_in_flight as nat, 16)
            &&& fs[8] == le_bytes(m.max_num_of_accept_tlcs as nat, 8)
            &&& fs[9] == le_bytes(m.min_tlc_value as nat, 16)
            &&& fs[10] == le_bytes(m.to_local_delay.0 as nat, 8)
            &&& fs[11] == m.funding_pubkey.0@
            &&& fs[12] == m.revocation_basepoint.0@
            &&& fs[13] == m.payment_basepoint.0@
            &&& fs[14] == m.delayed_payment_basepoint.0@
            &&& fs[15] == m.tlc_basepoint.0@
            &&& fs[16] == m.first_per_commitment_point.0@
            &&& fs[17] == m.second_per_commitment_point.0@
            &&& fs[18] == m.next_local_nonce.0@
            &&& fs[19] == seq![m.channel_flags]
        },
{
}

/// The answer that accepts a channel.
#[derive(Debug, Clone)]
pub struct AcceptChannel {
    pub channel_id: Hash256,
    pub funding_amount: u128,
    pub reserved_ckb_amount: u64,
    pub max_tlc_value_in_flight: u128,
    pub max_num_of_accept_tlcs: u64,
    pub min_tlc_value: u128,
    pub to_local_delay: LockTime,
    pub funding_pubkey: Pubkey,
    pub revocation_basepoint: Pubkey,
    pub payment_basepoint: Pubkey,
    pub delayed_payment_basepoint: Pubkey,
    pub tlc_basepoint: Pubkey,
    pub first_per_commitment_point: Pubkey,
    pub second_per_commitment_point: Pubkey,
    pub next_local_nonce: PubNonce,
}

impl AcceptChannel {
    /// The molecule types of the fields.
    pub open spec fn kinds() -> Seq<FieldKind> {
        seq![
            FieldKind::Fixed(32),
            FieldKind::Fixed(16),
            FieldKind::Fixed(8),
            FieldKind::Fixed(16),
            FieldKind::Fixed(8),
            FieldKind::Fixed(16),
            FieldKind::Fixed(8),
            FieldKind::Fixed(33),
            FieldKind::Fixed(33),
            FieldKind::Fixed(33),
            FieldKind::Fixed(33),
            FieldKind::Fixed(33),
            FieldKind::Fixed(33),
            FieldKind::Fixed(33),
            FieldKind::Fixed(66),
        ]
    }

    /// What converting each field may refuse.
    pub open spec fn checks() -> Seq<FieldCheck> {
        seq![
            FieldCheck::Plain,
            FieldCheck::Plain,
            FieldCheck::Plain,
            FieldCheck::Plain,
            FieldCheck::Plain,
            FieldCheck::Plain,
            FieldCheck::Plain,
            FieldCheck::Pubkey,
            FieldCheck::Pubkey,
            FieldCheck::Pubkey,
            FieldCheck::Pubkey,
            FieldCheck::Pubkey,
            FieldCheck::Pubkey,
            FieldCheck::Pubkey,
            FieldCheck::NonceMusig2,
        ]
    }

    /// The encoding of each field.
    pub open spec fn fields(self) -> Seq<Seq<u8>> {
        seq![
            self.channel_id@,
            le_bytes(self.funding_amount as nat, 16),
            le_bytes(self.reserved_ckb_amount as nat, 8),
            le_bytes(self.max_tlc_value_in_flight as nat, 16),
            le_bytes(self.max_num_of_accept_tlcs as nat, 8),
            le_bytes(self.min_tlc_value as nat, 16),
            le_bytes(self.to_local_delay.0 as nat, 8),
            self.funding_pubkey.0@,
            self.revocation_basepoint.0@,
            self.payment_basepoint.0@,
            self.delayed_payment_basepoint.0@,
            self.tlc_basepoint.0@,
            self.first_per_commitment_point.0@,
            self.second_per_commitment_point.0@,
            self.next_local_nonce.0@,
        ]
    }

    /// The molecule encoding of the message.
    pub open spec fn spec_encode(self) -> Seq<u8> {
        dyn_encode(self.fields())
    }

    /// Decoding the molecule encoding `s`: the fields, or the first refusal.
    pub open spec fn spec_decode(s: Seq<u8>) -> Result<Seq<Seq<u8>>, Error> {
        spec_table_check(s, Self::kinds(), Self::checks())
    }

    /// Every key, nonce, signature and script of the message is valid.
    pub open spec fn wf(self) -> bool {
        self.funding_pubkey.wf() && self.revocation_basepoint.wf() && self.payment_basepoint.wf() && self.delayed_payment_basepoint.wf() && self.tlc_basepoint.wf() && self.first_per_commitment_point.wf() && self.second_per_commitment_point.wf() && self.next_local_nonce.wf()
    }

    /// The message is what the decoded fields `fs` hold.
    pub open spec fn decodes_to(self, fs: Seq<Seq<u8>>) -> bool {
        &&& fs.len() == 15
        &&& fs[0] == self.channel_id@
        &&& fs[1] == le_bytes(self.funding_amount as nat, 16)
        &&& fs[2] == le_bytes(self.reserved_ckb_amount as nat, 8)
        &&& fs[3] == le_bytes(self.max_tlc_value_in_flight as nat, 16)
        &&& fs[4] == le_bytes(self.max_num_of_accept_tlcs as nat, 8)
        &&& fs[5] == le_bytes(self.min_tlc_value as nat, 16)
        &&& fs[6] == le_bytes(self.to_local_delay.0 as nat, 8)
        &&& fs[7] == self.funding_pubkey.0@
        &&& fs[8] == self.revocation_basepoint.0@
        &&& fs[9] == self.payment_basepoint.0@
        &&& fs[10] == self.delayed_payment_basepoint.0@
        &&& fs[11] == self.tlc_basepoint.0@
        &&& fs[12] == self.first_per_commitment_point.0@
        &&& fs[13] == self.second_per_commitment_point.0@
        &&& fs[14] == self.next_local_nonce.0@
    }

    /// The two messages hold the same values.
    pub open spec fn same(self, other: Self) -> bool {
        &&& self.channel_id == other.channel_id
        &&& self.funding_amount == other.funding_amount
        &&& self.reserved_ckb_amount == other.reserved_ckb_amount
        &&& self.max_tlc_value_in_flight == other.max_tlc_value_in_flight
        &&& self.max_num_of_accept_tlcs == other.max_num_of_accept_tlcs
        &&& self.min_tlc_value == other.min_tlc_value
        &&& self.to_local_delay == other.to_local_delay
        &&& self.funding_pubkey == other.funding_pubkey
        &&& self.revocation_basepoint == other.revocation_basepoint
        &&& self.payment_basepoint == other.payment_basepoint
        &&& self.delayed_payment_basepoint == other.delayed_payment_basepoint
        &&& self.tlc_basepoint == other.tlc_basepoint
        &&& self.first_per_commitment_point == other.first_per_commitment_point
        &&& self.second_per_commitment_point == other.second_per_commitment_point
        &&& self.next_local_nonce == other.next_local_nonce
    }

    fn exec_kinds() -> (r: Vec<FieldKind>)
        ensures
            r@ == Self::kinds(),
    {
        let mut r = Vec::new();
        r.push(FieldKind::Fixed(32));
        r.push(FieldKind::Fixed(16));
        r.push(FieldKind::Fixed(8));
        r.push(FieldKind::Fixed(16));
        r.push(FieldKind::Fixed(8));
        r.push(FieldKind::Fixed(16));
        r.push(FieldKind::Fixed(8));
        r.push(FieldKind::Fixed(33));
        r.push(FieldKind::Fixed(33));
        r.push(FieldKind::Fixed(33));
        r.push(FieldKind::Fixed(33));
        r.push(FieldKind::Fixed(33));
        r.push(FieldKind::Fixed(33));
        r.push(FieldKind::Fixed(33));
        r.push(FieldKind::Fixed(66));
        assert(r@ =~= Self::kinds());
        r
    }

    fn exec_checks() -> (r: Vec<FieldCheck>)
        ensures
            r@ == Self::checks(),
    {
        let mut r = Vec::new();
        r.push(FieldCheck::Plain);
        r.push(FieldCheck::Plain);
        r.push(FieldCheck::Plain);
        r.push(FieldCheck::Plain);
        r.push(FieldCheck::Plain);
        r.push(FieldCheck::Plain);
        r.push(FieldCheck::Plain);
        r.push(FieldCheck::Pubkey);
        r.push(FieldCheck::Pubkey);
        r.push(FieldCheck::Pubkey);
        r.push(FieldCheck::Pubkey);
        r.push(FieldCheck::Pubkey);
        r.push(FieldCheck::Pubkey);
        r.push(FieldCheck::Pubkey);
        r.push(FieldCheck::NonceMusig2);
        assert(r@ =~= Self::checks());
        r
    }

    /// The molecule encoding of the message.
    pub fn to_molecule_bytes(&self) -> (r: Vec<u8>)
        ensures
            r@ == self.spec_encode(),
    {
        let mut fs: Vec<Vec<u8>> = Vec::new();
        fs.push(slice_to_vec(self.channel_id.as_ref()));
        fs.push(encode_u128(self.funding_amount));
        fs.push(encode_u64(self.reserved_ckb_amount));
        fs.push(encode_u128(self.max_tlc_value_in_flight));
        fs.push(encode_u64(self.max_num_of_accept_tlcs));
        fs.push(encode_u128(self.min_tlc_value));
        fs.push(encode_u64(self.to_local_delay.0));
        fs.push(slice_to_vec(self.funding_pubkey.0.as_slice()));
        fs.push(slice_to_vec(self.revocation_basepoint.0.as_slice()));
        fs.push(slice_to_vec(self.payment_basepoint.0.as_slice()));
        fs.push(slice_to_vec(self.delayed_payment_basepoint.0.as_slice()));
        fs.push(slice_to_vec(self.tlc_basepoint.0.as_slice()));
        fs.push(slice_to_vec(self.first_per_commitment_point.0.as_slice()));
        fs.push(slice_to_vec(self.second_per_commitment_point.0.as_slice()));
        fs.push(slice_to_vec(self.next_local_nonce.0.as_slice()));
        assert(views(fs@) =~= self.fields());
        encode_dyn(&fs)
    }

    /// The message of fields that passed every check.
    pub(crate) fn from_checked_fields(fs: &Vec<Vec<u8>>) -> (r: Self)
        requires
            fs@.len() == 15,
            forall|i: int|
                0 <= i < 15 ==> #[trigger] spec_kind_check(Self::kinds()[i], views(fs@)[i]) is Ok,
            forall|i: int|
                0 <= i < 15 ==> #[trigger] spec_field_check(Self::checks()[i], views(fs@)[i]) is Ok,
        ensures
            r.wf(),
            r.decodes_to(views(fs@)),
    {
        assert(spec_kind_check(Self::kinds()[0], views(fs@)[0]) is Ok);
        assert(spec_field_check(Self::checks()[0], views(fs@)[0]) is Ok);
        let channel_id = Hash256::from_bytes(fs[0].as_slice());
        assert(spec_kind_check(Self::kinds()[1], views(fs@)[1]) is Ok);
        assert(spec_field_check(Self::checks()[1], views(fs@)[1]) is Ok);
        let funding_amount = decode_u128(fs[1].as_slice());
        assert(spec_kind_check(Self::kinds()[2], views(fs@)[2]) is Ok);
        assert(spec_field_check(Self::checks()[2], views(fs@)[2]) is Ok);
        let reserved_ckb_amount = decode_u64(fs[2].as_slice());
        assert(spec_kind_check(Self::kinds()[3], views(fs@)[3]) is Ok);
        assert(spec_field_check(Self::checks()[3], views(fs@)[3]) is Ok);
        let max_tlc_value_in_flight = decode_u128(fs[3].as_slice());
        assert(spec_kind_check(Self::kinds()[4], views(fs@)[4]) is Ok);
        assert(spec_field_check(Self::checks()[4], views(fs@)[4]) is Ok);
        let max_num_of_accept_tlcs = decode_u64(fs[4].as_slice());
        assert(spec_kind_check(Self::kinds()[5], views(fs@)[5]) is Ok);
        assert(spec_field_check(Self::checks()[5], views(fs@)[5]) is Ok);
        let min_tlc_value = decode_u128(fs[5].as_slice());
        assert(spec_kind_check(Self::kinds()[6], views(fs@)[6]) is Ok);
        assert(spec_field_check(Self::checks()[6], views(fs@)[6]) is Ok);
        let to_local_delay = LockTime(decode_u64(fs[6].as_slice()));
        assert(spec_kind_check(Self::kinds()[7], views(fs@)[7]) is Ok);
        assert(spec_field_check(Self::checks()[7], views(fs@)[7]) is Ok);
        let funding_pubkey = Pubkey(array_33(fs[7].as_slice()));
        assert(spec_kind_check(Self::kinds()[8], views(fs@)[8]) is Ok);
        assert(spec_field_check(Self::checks()[8], views(fs@)[8]) is Ok);
        let revocation_basepoint = Pubkey(array_33(fs[8].as_slice()));
        assert(spec_kind_check(Self::kinds()[9], views(fs@)[9]) is Ok);
        assert(spec_field_check(Self::checks()[9], views(fs@)[9]) is Ok);
        let payment_basepoint = Pubkey(array_33(fs[9].as_slice()));
        assert(spec_kind_check(Self::kinds()[10], views(fs@)[10]) is Ok);
        assert(spec_field_check(Self::checks()[10], views(fs@)[10]) is Ok);
        let delayed_payment_basepoint = Pubkey(array_33(fs[10].as_slice()));
        assert(spec_kind_check(Self::kinds()[11], views(fs@)[11]) is Ok);
        assert(spec_field_check(Self::checks()[11], views(fs@)[11]) is Ok);
        let tlc_basepoint = Pubkey(array_33(fs[11].as_slice()));
        assert(spec_kind_check(Self::kinds()[12], views(fs@)[12]) is Ok);
        assert(spec_field_check(Self::checks()[12], views(fs@)[12]) is Ok);
        let first_per_commitment_point = Pubkey(array_33(fs[12].as_slice()));
        assert(spec_kind_check(Self::kinds()[13], views(fs@)[13]) is Ok);
        assert(spec_field_check(Self::checks()[13], views(fs@)[13]) is Ok);
        let second_per_commitment_point = Pubkey(array_33(fs[13].as_slice()));
        assert(spec_kind_check(Self::kinds()[14], views(fs@)[14]) is Ok);
        assert(spec_field_check(Self::checks()[14], views(fs@)[14]) is Ok);
        let next_local_nonce = PubNonce(array_66(fs[14].as_slice()));
        let r = AcceptChannel { channel_id, funding_amount, reserved_ckb_amount, max_tlc_value_in_flight, max_num_of_accept_tlcs, min_tlc_value, to_local_delay, funding_pubkey, revocation_basepoint, payment_basepoint, delayed_payment_basepoint, tlc_basepoint, first_per_commitment_point, second_per_commitment_point, next_local_nonce };
        assert(views(fs@).len() == 15);
        r
    }

    /// Decodes the molecule encoding of the message.
    pub fn from_molecule_slice(s: &[u8]) -> (r: Result<Self, Error>)
        ensures
            match Self::spec_decode(s@) {
                Ok(fs) => r matches Ok(m) && m.wf() && m.decodes_to(fs),
                Err(e) => r == Err::<Self, Error>(e),
            },
    {
        let ks = Self::exec_kinds();
        let cs = Self::exec_checks();
        proof {
            lemma_accept_channel_fits();
        }
        let fs = table_check(s, &ks, &cs)?;
        proof {
            lemma_table_check_fields(s@, ks@, cs@);
        }
        Ok(Self::from_checked_fields(&fs))
    }
}

proof fn lemma_accept_channel_fits()
    ensures
        AcceptChannel::kinds().len() == 15,
        AcceptChannel::checks().len() == 15,
        forall|i: int| 0 <= i < 15 ==> #[trigger] check_fits(AcceptChannel::checks()[i], AcceptChannel::kinds()[i]),
{
    assert forall|i: int| 0 <= i < 15 implies #[trigger] check_fits(AcceptChannel::checks()[i], AcceptChannel::kinds()[i]) by {
        // One case per field.
        if i == 0 {
        } else if i == 1 {
        } else if i == 2 {
        } else if i == 3 {
        } else if i == 4 {
        } else if i == 5 {
        } else if i == 6 {
        } else if i == 7 {
        } else if i == 8 {
        } else if i == 9 {
        } else if i == 10 {
        } else if i == 11 {
        } else if i == 12 {
        } else if i == 13 {
        } else if i == 14 {
        }
    }
}

/// The fields of a valid `AcceptChannel` pass every check, when its encoding fits
/// in a molecule number.
/// The encoding of a `AcceptChannel` is at most 1054 bytes: its fields are of
/// bounded size, so it always fits in a molecule number.
pub proof fn lemma_accept_channel_size(m: AcceptChannel)
    ensures
        m.spec_encode().len() <= 1054,
{
    lemma_le_bytes_len(m.funding_amount as nat, 16);
    lemma_le_bytes_len(m.reserved_ckb_amount as nat, 8);
    lemma_le_bytes_len(m.max_tlc_value_in_flight as nat, 16);
    lemma_le_bytes_len(m.max_num_of_accept_tlcs as nat, 8);
    lemma_le_bytes_len(m.min_tlc_value as nat, 16);
    lemma_le_bytes_len(m.to_local_delay.0 as nat, 8);
    assert forall|i: int| 0 <= i < 15 implies #[trigger] m.fields()[i].len() <= 66 by {
        // One case per field.
        if i == 0 {
        } else if i == 1 {
        } else if i == 2 {
        } else if i == 3 {
        } else if i == 4 {
        } else if i == 5 {
        } else if i == 6 {
        } else if i == 7 {
        } else if i == 8 {
        } else if i == 9 {
        } else if i == 10 {
        } else if i == 11 {
        } else if i == 12 {
        } else if i == 13 {
        } else if i == 14 {
        }
    }
    lemma_dyn_encode_bounded(m.fields(), 66);
}

proof fn lemma_accept_channel_checks(m: AcceptChannel)
    requires
        m.wf(),
    ensures
        m.fields().len() == 15,
        forall|i: int|
            0 <= i < 15 ==> #[trigger] spec_kind_check(AcceptChannel::kinds()[i], m.fields()[i]) is Ok,
        forall|i: int|
            0 <= i < 15 ==> #[trigger] spec_field_check(AcceptChannel::checks()[i], m.fields()[i]) is Ok,
{
    lemma_accept_channel_size(m);
    lemma_fixed_lens_all();
    assert forall|i: int| 0 <= i < 15 implies #[trigger] spec_kind_check(AcceptChannel::kinds()[i], m.fields()[i]) is Ok by {
        // One case per field.
        if i == 0 {
        } else if i == 1 {
        } else if i == 2 {
        } else if i == 3 {
        } else if i == 4 {
        } else if i == 5 {
        } else if i == 6 {
        } else if i == 7 {
        } else if i == 8 {
        } else if i == 9 {
        } else if i == 10 {
        } else if i == 11 {
        } else if i == 12 {
        } else if i == 13 {
        } else if i == 14 {
        }
    }
    assert forall|i: int| 0 <= i < 15 implies #[trigger] spec_field_check(AcceptChannel::checks()[i], m.fields()[i]) is Ok by {
        // One case per field.
        if i == 0 {
        } else if i == 1 {
        } else if i == 2 {
        } else if i == 3 {
        } else if i == 4 {
        } else if i == 5 {
        } else if i == 6 {
        } else if i == 7 {
        } else if i == 8 {
        } else if i == 9 {
        } else if i == 10 {
        } else if i == 11 {
        } else if i == 12 {
        } else if i == 13 {
        } else if i == 14 {
        }
    }
}

/// Decoding the encoding of a valid `AcceptChannel` succeeds, and gives back a
/// message that holds the same values.
pub proof fn lemma_accept_channel_roundtrip(m: AcceptChannel, m2: AcceptChannel)
    requires
        m.wf(),
    ensures
        AcceptChannel::spec_decode(m.spec_encode()) == Ok::<Seq<Seq<u8>>, Error>(m.fields()),
        m2.wf() && m2.decodes_to(m.fields()) ==> m2.same(m),
{
    lemma_accept_channel_size(m);
    lemma_accept_channel_checks(m);
    lemma_table_check_encode(m.fields(), AcceptChannel::kinds(), AcceptChannel::checks());
    if m2.wf() && m2.decodes_to(m.fields()) {
        assert(m2.channel_id.0 =~= m.channel_id.0);
        lemma_u128_injective(m2.funding_amount, m.funding_amount);
        lemma_u64_injective(m2.reserved_ckb_amount, m.reserved_ckb_amount);
        lemma_u128_injective(m2.max_tlc_value_in_flight, m.max_tlc_value_in_flight);
        lemma_u64_injective(m2.max_num_of_accept_tlcs, m.max_num_of_accept_tlcs);
        lemma_u128_injective(m2.min_tlc_value, m.min_tlc_value);
        lemma_u64_injective(m2.to_local_delay.0, m.to_local_delay.0);
        assert(m2.funding_pubkey.0 =~= m.funding_pubkey.0);
        assert(m2.revocation_basepoint.0 =~= m.revocation_basepoint.0);
        assert(m2.payment_basepoint.0 =~= m.payment_basepoint.0);
        assert(m2.delayed_payment_basepoint.0 =~= m.delayed_payment_basepoint.0);
        assert(m2.tlc_basepoint.0 =~= m.tlc_basepoint.0);
        assert(m2.first_per_commitment_point.0 =~= m.first_per_commitment_point.0);
        assert(m2.second_per_commitment_point.0 =~= m.second_per_commitment_point.0);
        assert(m2.next_local_nonce.0 =~= m.next_local_nonce.0);
    }
}

/// A `AcceptChannel` decoded from `s` encodes back to `s`.
pub proof fn lemma_accept_channel_decode_encode(s: Seq<u8>, m: AcceptChannel)
    requires
        AcceptChannel::spec_decode(s) is Ok,
        m.decodes_to(AcceptChannel::spec_decode(s)->Ok_0),
    ensures
        m.spec_encode() == s,
{
    let fs = AcceptChannel::spec_decode(s)->Ok_0;
    lemma_accept_channel_fits();
    lemma_table_check_fields(s, AcceptChannel::kinds(), AcceptChannel::checks());
    lemma_split_then_encode(s, Some(AcceptChannel::kinds().len()));
    assert(m.fields() =~= fs);
}

/// The schema of `AcceptChannel`, field by field in table order:
/// 0. `channel_id` (Byte32)
/// 1. `funding_amount` (Uint128)
/// 2. `reserved_ckb_amount` (Uint64)
/// 3. `max_tlc_value_in_flight` (Uint128)
/// 4. `max_num_of_accept_tlcs` (Uint64)
/// 5. `min_tlc_value` (Uint128)
/// 6. `to_local_delay` (Uint64)
/// 7. `funding_pubkey` (Pubkey)
/// 8. `revocation_basepoint` (Pubkey)
/// 9. `payment_basepoint` (Pubkey)
/// 10. `delayed_payment_basepoint` (Pubkey)
/// 11. `tlc_basepoint` (Pubkey)
/// 12. `first_per_commitment_point` (Pubkey)
/// 13. `second_per_commitment_point` (Pubkey)
/// 14. `next_local_nonce` (PubNonce)
/// Its encoding is the molecule table of these fields in this order, and
/// a message decoded from a table holds in each field the value that the
/// table's item at that position encodes.
pub proof fn lemma_accept_channel_schema(m: AcceptChannel, fs: Seq<Seq<u8>>)
    ensures
        m.spec_encode() == dyn_encode(
            seq![
                m.channel_id@,
                le_bytes(m.funding_amount as nat, 16),
                le_bytes(m.reserved_ckb_amount as nat, 8),
                le_bytes(m.max_tlc_value_in_flight as nat, 16),
                le_bytes(m.max_num_of_accept_tlcs as nat, 8),
                le_bytes(m.min_tlc_value as nat, 16),
                le_bytes(m.to_local_delay.0 as nat, 8),
                m.funding_pubkey.0@,
                m.revocation_basepoint.0@,
                m.payment_basepoint.0@,
                m.delayed_payment_basepoint.0@,
                m.tlc_basepoint.0@,
                m.first_per_commitment_point.0@,
                m.second_per_commitment_point.0@,
                m.next_local_nonce.0@,
            ],
        ),
        m.decodes_to(fs) ==> {
            &&& fs.len() == 15
            &&& fs[0] == m.channel_id@
            &&& fs[1] == le_bytes(m.funding_amount as nat, 16)
            &&& fs[2] == le_bytes(m.reserved_ckb_amount as nat, 8)
            &&& fs[3] == le_bytes(m.max_tlc_value_in_flight as nat, 16)
            &&& fs[4] == le_bytes(m.max_num_of_accept_tlcs as nat, 8)
            &&& fs[5] == le_bytes(m.min_tlc_value as nat, 16)
            &&& fs[6] == le_bytes(m.to_local_delay.0 as nat, 8)
            &&& fs[7] == m.funding_pubkey.0@
            &&& fs[8] == m.revocation_basepoint.0@
            &&& fs[9] == m.payment_basepoint.0@
            &&& fs[10] == m.delayed_payment_basepoint.0@
            &&& fs[11] == m.tlc_basepoint.0@
            &&& fs[12] == m.first_per_commitment_point.0@
            &&& fs[13] == m.second_per_commitment_point.0@
            &&& fs[14] == m.next_local_nonce.0@
        },
{
}

/// A partial signature of the next commitment.
#[derive(Debug, Clone)]
pub struct CommitmentSigned {
    pub channel_id: Hash256,
    pub partial_signature: PartialSignature,
    pub next_local_nonce: PubNonce,
}

impl CommitmentSigned {
    /// The molecule types of the fields.
    pub open spec fn kinds() -> Seq<FieldKind> {
        seq![FieldKind::Fixed(32), FieldKind::Fixed(32), FieldKind::Fixed(66)]
    }

    /// What converting each field may refuse.
    pub open spec fn checks() -> Seq<FieldCheck> {
        seq![FieldCheck::Plain, FieldCheck::PartialSignature, FieldCheck::NonceOther]
    }

    /// The encoding of each field.
    pub open spec fn fields(self) -> Seq<Seq<u8>> {
        seq![self.channel_id@, self.partial_signature.0@, self.next_local_nonce.0@]
    }

    /// The molecule encoding of the message.
    pub open spec fn spec_encode(self) -> Seq<u8> {
        dyn_encode(self.fields())
    }

    /// Decoding the molecule encoding `s`: the fields, or the first refusal.
    pub open spec fn spec_decode(s: Seq<u8>) -> Result<Seq<Seq<u8>>, Error> {
        spec_table_check(s, Self::kinds(), Self::checks())
    }

    /// Every key, nonce, signature and script of the message is valid.
    pub open spec fn wf(self) -> bool {
        self.partial_signature.wf() && self.next_local_nonce.wf()
    }

    /// The message is what the decoded fields `fs` hold.
    pub open spec fn decodes_to(self, fs: Seq<Seq<u8>>) -> bool {
        &&& fs.len() == 3
        &&& fs[0] == self.channel_id@
        &&& fs[1] == self.partial_signature.0@
        &&& fs[2] == self.next_local_nonce.0@
    }

    /// The two messages hold the same values.
    pub open spec fn same(self, other: Self) -> bool {
        &&& self.channel_id == other.channel_id
        &&& self.partial_signature == other.partial_signature
        &&& self.next_local_nonce == other.next_local_nonce
    }

    fn exec_kinds() -> (r: Vec<FieldKind>)
        ensures
            r@ == Self::kinds(),
    {
        let mut r = Vec::new();
        r.push(FieldKind::Fixed(32));
        r.push(FieldKind::Fixed(32));
        r.push(FieldKind::Fixed(66));
        assert(r@ =~= Self::kinds());
        r
    }

    fn exec_checks() -> (r: Vec<FieldCheck>)
        ensures
            r@ == Self::checks(),
    {
        let mut r = Vec::new();
        r.push(FieldCheck::Plain);
        r.push(FieldCheck::PartialSignature);
        r.push(FieldCheck::NonceOther);
        assert(r@ =~= Self::checks());
        r
    }

    /// The molecule encoding of the message.
    pub fn to_molecule_bytes(&self) -> (r: Vec<u8>)
        ensures
            r@ == self.spec_encode(),
    {
        let mut fs: Vec<Vec<u8>> = Vec::new();
        fs.push(slice_to_vec(self.channel_id.as_ref()));
        fs.push(slice_to_vec(self.partial_signature.0.as_slice()));
        fs.push(slice_to_vec(self.next_local_nonce.0.as_slice()));
        assert(views(fs@) =~= self.fields());
        encode_dyn(&fs)
    }

    /// The message of fields that passed every check.
    pub(crate) fn from_checked_fields(fs: &Vec<Vec<u8>>) -> (r: Self)
        requires
            fs@.len() == 3,
            forall|i: int|
                0 <= i < 3 ==> #[trigger] spec_kind_check(Self::kinds()[i], views(fs@)[i]) is Ok,
            forall|i: int|
                0 <= i < 3 ==> #[trigger] spec_field_check(Self::checks()[i], views(fs@)[i]) is Ok,
        ensures
            r.wf(),
            r.decodes_to(views(fs@)),
    {
        assert(spec_kind_check(Self::kinds()[0], views(fs@)[0]) is Ok);
        assert(spec_field_check(Self::checks()[0], views(fs@)[0]) is Ok);
        let channel_id = Hash256::from_bytes(fs[0].as_slice());
        assert(spec_kind_check(Self::kinds()[1], views(fs@)[1]) is Ok);
        assert(spec_field_check(Self::checks()[1], views(fs@)[1]) is Ok);
        let partial_signature = PartialSignature(array_32(fs[1].as_slice()));
        assert(spec_kind_check(Self::kinds()[2], views(fs@)[2]) is Ok);
        assert(spec_field_check(Self::checks()[2], views(fs@)[2]) is Ok);
        let next_local_nonce = PubNonce(array_66(fs[2].as_slice()));
        let r = CommitmentSigned { channel_id, partial_signature, next_local_nonce };
        assert(views(fs@).len() == 3);
        r
    }

    /// Decodes the molecule encoding of the message.
    pub fn from_molecule_slice(s: &[u8]) -> (r: Result<Self, Error>)
        ensures
            match Self::spec_decode(s@) {
                Ok(fs) => r matches Ok(m) && m.wf() && m.decodes_to(fs),
                Err(e) => r == Err::<Self, Error>(e),
            },
    {
        let ks = Self::exec_kinds();
        let cs = Self::exec_checks();
        proof {
            lemma_commitment_signed_fits();
        }
        let fs = table_check(s, &ks, &cs)?;
        proof {
            lemma_table_check_fields(s@, ks@, cs@);
        }
        Ok(Self::from_checked_fields(&fs))
    }
}

proof fn lemma_commitment_signed_fits()
    ensures
        CommitmentSigned::kinds().len() == 3,
        CommitmentSigned::checks().len() == 3,
        forall|i: int| 0 <= i < 3 ==> #[trigger] check_fits(CommitmentSigned::checks()[i], CommitmentSigned::kinds()[i]),
{
    assert forall|i: int| 0 <= i < 3 implies #[trigger] check_fits(CommitmentSigned::checks()[i], CommitmentSigned::kinds()[i]) by {
        // One case per field.
        if i == 0 {
        } else if i == 1 {
        } else if i == 2 {
        }
    }
}

/// The fields of a valid `CommitmentSigned` pass every check, when its encoding fits
/// in a molecule number.
/// The encoding of a `CommitmentSigned` is at most 214 bytes: its fields are of
/// bounded size, so it always fits in a molecule number.
pub proof fn lemma_commitment_signed_size(m: CommitmentSigned)
    ensures
        m.spec_encode().len() <= 214,
{
    assert forall|i: int| 0 <= i < 3 implies #[trigger] m.fields()[i].len() <= 66 by {
        // One case per field.
        if i == 0 {
        } else if i == 1 {
        } else if i == 2 {
        }
    }
    lemma_dyn_encode_bounded(m.fields(), 66);
}

proof fn lemma_commitment_signed_checks(m: CommitmentSigned)
    requires
        m.wf(),
    ensures
        m.fields().len() == 3,
        forall|i: int|
            0 <= i < 3 ==> #[trigger] spec_kind_check(CommitmentSigned::kinds()[i], m.fields()[i]) is Ok,
        forall|i: int|
            0 <= i < 3 ==> #[trigger] spec_field_check(CommitmentSigned::checks()[i], m.fields()[i]) is Ok,
{
    lemma_commitment_signed_size(m);
    lemma_fixed_lens_all();
    assert forall|i: int| 0 <= i < 3 implies #[trigger] spec_kind_check(CommitmentSigned::kinds()[i], m.fields()[i]) is Ok by {
        // One case per field.
        if i == 0 {
        } else if i == 1 {
        } else if i == 2 {
        }
    }
    assert forall|i: int| 0 <= i < 3 implies #[trigger] spec_field_check(CommitmentSigned::checks()[i], m.fields()[i]) is Ok by {
        // One case per field.
        if i == 0 {
        } else if i == 1 {
        } else if i == 2 {
        }
    }
}

/// Decoding the encoding of a valid `CommitmentSigned` succeeds, and gives back a
/// message that holds the same values.
pub proof fn lemma_commitment_signed_roundtrip(m: CommitmentSigned, m2: CommitmentSigned)
    requires
        m.wf(),
    ensures
        CommitmentSigned::spec_decode(m.spec_encode()) == Ok::<Seq<Seq<u8>>, Error>(m.fields()),
        m2.wf() && m2.decodes_to(m.fields()) ==> m2.same(m),
{
    lemma_commitment_signed_size(m);
    lemma_commitment_signed_checks(m);
    lemma_table_check_encode(m.fields(), CommitmentSigned::kinds(), CommitmentSigned::checks());
    if m2.wf() && m2.decodes_to(m.fields()) {
        assert(m2.channel_id.0 =~= m.channel_id.0);
        assert(m2.partial_signature.0 =~= m.partial_signature.0);
        assert(m2.next_local_nonce.0 =~= m.next_local_nonce.0);
    }
}

/// A `CommitmentSigned` decoded from `s` encodes back to `s`.
pub proof fn lemma_commitment_signed_decode_encode(s: Seq<u8>, m: CommitmentSigned)
    requires
        CommitmentSigned::spec_decode(s) is Ok,
        m.decodes_to(CommitmentSigned::spec_decode(s)->Ok_0),
    ensures
        m.spec_encode() == s,
{
    let fs = CommitmentSigned::spec_decode(s)->Ok_0;
    lemma_commitment_signed_fits();
    lemma_table_check_fields(s, CommitmentSigned::kinds(), CommitmentSigned::checks());
    lemma_split_then_encode(s, Some(CommitmentSigned::kinds().len()));
    assert(m.fields() =~= fs);
}

/// The schema of `CommitmentSigned`, field by field in table order:
/// 0. `channel_id` (Byte32)
/// 1. `partial_signature` (Byte32)
/// 2. `next_local_nonce` (PubNonce)
/// Its encoding is the molecule table of these fields in this order, and
/// a message decoded from a table holds in each field the value that the
/// table's item at that position encodes.
pub proof fn lemma_commitment_signed_schema(m: CommitmentSigned, fs: Seq<Seq<u8>>)
    ensures
        m.spec_encode() == dyn_encode(
            seq![m.channel_id@, m.partial_signature.0@, m.next_local_nonce.0@],
        ),
        m.decodes_to(fs) ==> {
            &&& fs.len() == 3
            &&& fs[0] == m.channel_id@
            &&& fs[1] == m.partial_signature.0@
            &&& fs[2] == m.next_local_nonce.0@
        },
{
}

/// The witnesses of a funding transaction.
#[derive(Debug, Clone)]
pub struct TxSignatures {
    pub channel_id: Hash256,
    pub tx_hash: Hash256,
    pub witnesses: Vec<Vec<u8>>,
}

impl TxSignatures {
    /// The molecule types of the fields.
    pub open spec fn kinds() -> Seq<FieldKind> {
        seq![FieldKind::Fixed(32), FieldKind::Fixed(32), FieldKind::BytesVec]
    }

    /// What converting each field may refuse.
    pub open spec fn checks() -> Seq<FieldCheck> {
        seq![FieldCheck::Plain, FieldCheck::Plain, FieldCheck::Plain]
    }

    /// The encoding of each field.
    pub open spec fn fields(self) -> Seq<Seq<u8>> {
        seq![self.channel_id@, self.tx_hash@, bytes_vec_encode(views(self.witnesses@))]
    }

    /// The molecule encoding of the message.
    pub open spec fn spec_encode(self) -> Seq<u8> {
        dyn_encode(self.fields())
    }

    /// Decoding the molecule encoding `s`: the fields, or the first refusal.
    pub open spec fn spec_decode(s: Seq<u8>) -> Result<Seq<Seq<u8>>, Error> {
        spec_table_check(s, Self::kinds(), Self::checks())
    }

    /// Every key, nonce, signature and script of the message is valid.
    pub open spec fn wf(self) -> bool {
        true
    }

    /// The message is what the decoded fields `fs` hold.
    pub open spec fn decodes_to(self, fs: Seq<Seq<u8>>) -> bool {
        &&& fs.len() == 3
        &&& fs[0] == self.channel_id@
        &&& fs[1] == self.tx_hash@
        &&& fs[2] == bytes_vec_encode(views(self.witnesses@))
    }

    /// The two messages hold the same values.
    pub open spec fn same(self, other: Self) -> bool {
        &&& self.channel_id == other.channel_id
        &&& self.tx_hash == other.tx_hash
        &&& views(self.witnesses@) == views(other.witnesses@)
    }

    fn exec_kinds() -> (r: Vec<FieldKind>)
        ensures
            r@ == Self::kinds(),
    {
        let mut r = Vec::new();
        r.push(FieldKind::Fixed(32));
        r.push(FieldKind::Fixed(32));
        r.push(FieldKind::BytesVec);
        assert(r@ =~= Self::kinds());
        r
    }

    fn exec_checks() -> (r: Vec<FieldCheck>)
        ensures
            r@ == Self::checks(),
    {
        let mut r = Vec::new();
        r.push(FieldCheck::Plain);
        r.push(FieldCheck::Plain);
        r.push(FieldCheck::Plain);
        assert(r@ =~= Self::checks());
        r
    }

    /// The molecule encoding of the message.
    pub fn to_molecule_bytes(&self) -> (r: Vec<u8>)
        ensures
            r@ == self.spec_encode(),
    {
        let mut fs: Vec<Vec<u8>> = Vec::new();
        fs.push(slice_to_vec(self.channel_id.as_ref()));
        fs.push(slice_to_vec(self.tx_hash.as_ref()));
        fs.push(encode_bytes_vec(&self.witnesses));
        assert(views(fs@) =~= self.fields());
        encode_dyn(&fs)
    }

    /// The message of fields that passed every check.
    pub(crate) fn from_checked_fields(fs: &Vec<Vec<u8>>) -> (r: Self)
        requires
            fs@.len() == 3,
            forall|i: int|
                0 <= i < 3 ==> #[trigger] spec_kind_check(Self::kinds()[i], views(fs@)[i]) is Ok,
            forall|i: int|
                0 <= i < 3 ==> #[trigger] spec_field_check(Self::checks()[i], views(fs@)[i]) is Ok,
        ensures
            r.wf(),
            r.decodes_to(views(fs@)),
    {
        assert(spec_kind_check(Self::kinds()[0], views(fs@)[0]) is Ok);
        assert(spec_field_check(Self::checks()[0], views(fs@)[0]) is Ok);
        let channel_id = Hash256::from_bytes(fs[0].as_slice());
        assert(spec_kind_check(Self::kinds()[1], views(fs@)[1]) is Ok);
        assert(spec_field_check(Self::checks()[1], views(fs@)[1]) is Ok);
        let tx_hash = Hash256::from_bytes(fs[1].as_slice());
        assert(spec_kind_check(Self::kinds()[2], views(fs@)[2]) is Ok);
        assert(spec_field_check(Self::checks()[2], views(fs@)[2]) is Ok);
        let witnesses = decode_bytes_vec(fs[2].as_slice());
        let r = TxSignatures { channel_id, tx_hash, witnesses };
        assert(views(fs@).len() == 3);
        r
    }

    /// Decodes the molecule encoding of the message.
    pub fn from_molecule_slice(s: &[u8]) -> (r: Result<Self, Error>)
        ensures
            match Self::spec_decode(s@) {
                Ok(fs) => r matches Ok(m) && m.wf() && m.decodes_to(fs),
                Err(e) => r == Err::<Self, Error>(e),
            },
    {
        let ks = Self::exec_kinds();
        let cs = Self::exec_checks();
        proof {
            lemma_tx_signatures_fits();
        }
        let fs = table_check(s, &ks, &cs)?;
        proof {
            lemma_table_check_fields(s@, ks@, cs@);
        }
        Ok(Self::from_checked_fields(&fs))
    }
}

proof fn lemma_tx_signatures_fits()
    ensures
        TxSignatures::kinds().len() == 3,
        TxSignatures::checks().len() == 3,
        forall|i: int| 0 <= i < 3 ==> #[trigger] check_fits(TxSignatures::checks()[i], TxSignatures::kinds()[i]),
{
    assert forall|i: int| 0 <= i < 3 implies #[trigger] check_fits(TxSignatures::checks()[i], TxSignatures::kinds()[i]) by {
        // One case per field.
        if i == 0 {
        } else if i == 1 {
        } else if i == 2 {
        }
    }
}

/// The fields of a valid `TxSignatures` pass every check, when its encoding fits
/// in a molecule number.
proof fn lemma_tx_signatures_checks(m: TxSignatures)
    requires
        m.wf(),
        m.spec_encode().len() < 0x1_0000_0000,
    ensures
        m.fields().len() == 3,
        forall|i: int|
            0 <= i < 3 ==> #[trigger] spec_kind_check(TxSignatures::kinds()[i], m.fields()[i]) is Ok,
        forall|i: int|
            0 <= i < 3 ==> #[trigger] spec_field_check(TxSignatures::checks()[i], m.fields()[i]) is Ok,
{
    lemma_item_len(m.fields(), 2); lemma_bytes_vec_encode_checks(views(m.witnesses@));
    lemma_fixed_lens_all();
    assert forall|i: int| 0 <= i < 3 implies #[trigger] spec_kind_check(TxSignatures::kinds()[i], m.fields()[i]) is Ok by {
        // One case per field.
        if i == 0 {
        } else if i == 1 {
        } else if i == 2 {
        }
    }
    assert forall|i: int| 0 <= i < 3 implies #[trigger] spec_field_check(TxSignatures::checks()[i], m.fields()[i]) is Ok by {
        // One case per field.
        if i == 0 {
        } else if i == 1 {
        } else if i == 2 {
        }
    }
}

/// Decoding the encoding of a valid `TxSignatures` succeeds, and gives back a
/// message that holds the same values, when the encoding fits in a
/// molecule number.
pub proof fn lemma_tx_signatures_roundtrip(m: TxSignatures, m2: TxSignatures)
    requires
        m.wf(),
        m.spec_encode().len() < 0x1_0000_0000,
    ensures
        TxSignatures::spec_decode(m.spec_encode()) == Ok::<Seq<Seq<u8>>, Error>(m.fields()),
        m2.wf() && m2.decodes_to(m.fields()) ==> m2.same(m),
{
    lemma_tx_signatures_checks(m);
    lemma_table_check_encode(m.fields(), TxSignatures::kinds(), TxSignatures::checks());
    if m2.wf() && m2.decodes_to(m.fields()) {
        assert(m2.channel_id.0 =~= m.channel_id.0);
        assert(m2.tx_hash.0 =~= m.tx_hash.0);
        lemma_item_len(m.fields(), 2); lemma_bytes_vec_encode_injective(views(m2.witnesses@), views(m.witnesses@));
    }
}

/// A `TxSignatures` decoded from `s` encodes back to `s`.
pub proof fn lemma_tx_signatures_decode_encode(s: Seq<u8>, m: TxSignatures)
    requires
        TxSignatures::spec_decode(s) is Ok,
        m.decodes_to(TxSignatures::spec_decode(s)->Ok_0),
    ensures
        m.spec_encode() == s,
{
    let fs = TxSignatures::spec_decode(s)->Ok_0;
    lemma_tx_signatures_fits();
    lemma_table_check_fields(s, TxSignatures::kinds(), TxSignatures::checks());
    lemma_split_then_encode(s, Some(TxSignatures::kinds().len()));
    assert(m.fields() =~= fs);
}

/// The schema of `TxSignatures`, field by field in table order:
/// 0. `channel_id` (Byte32)
/// 1. `tx_hash` (Byte32)
/// 2. `witnesses` (BytesVec)
/// Its encoding is the molecule table of these fields in this order, and
/// a message decoded from a table holds in each field the value that the
/// table's item at that position encodes.
pub proof fn lemma_tx_signatures_schema(m: TxSignatures, fs: Seq<Seq<u8>>)
    ensures
        m.spec_encode() == dyn_encode(
            seq![m.channel_id@, m.tx_hash@, bytes_vec_encode(views(m.witnesses@))],
        ),
        m.decodes_to(fs) ==> {
            &&& fs.len() == 3
            &&& fs[0] == m.channel_id@
            &&& fs[1] == m.tx_hash@
            &&& fs[2] == bytes_vec_encode(views(m.witnesses@))
        },
{
}

/// The signal that a channel is ready.
#[derive(Debug, Clone)]
pub struct ChannelReady {
    pub channel_id: Hash256,
}

impl ChannelReady {
    /// The molecule types of the fields.
    pub open spec fn kinds() -> Seq<FieldKind> {
        seq![FieldKind::Fixed(32)]
    }

    /// What converting each field may refuse.
    pub open spec fn checks() -> Seq<FieldCheck> {
        seq![FieldCheck::Plain]
    }

    /// The encoding of each field.
    pub open spec fn fields(self) -> Seq<Seq<u8>> {
        seq![self.channel_id@]
    }

    /// The molecule encoding of the message.
    pub open spec fn spec_encode(self) -> Seq<u8> {
        dyn_encode(self.fields())
    }

    /// Decoding the molecule encoding `s`: the fields, or the first refusal.
    pub open spec fn spec_decode(s: Seq<u8>) -> Result<Seq<Seq<u8>>, Error> {
        spec_table_check(s, Self::kinds(), Self::checks())
    }

    /// Every key, nonce, signature and script of the message is valid.
    pub open spec fn wf(self) -> bool {
        true
    }

    /// The message is what the decoded fields `fs` hold.
    pub open spec fn decodes_to(self, fs: Seq<Seq<u8>>) -> bool {
        &&& fs.len() == 1
        &&& fs[0] == self.channel_id@
    }

    /// The two messages hold the same values.
    pub open spec fn same(self, other: Self) -> bool {
        &&& self.channel_id == other.channel_id
    }

    fn exec_kinds() -> (r: Vec<FieldKind>)
        ensures
            r@ == Self::kinds(),
    {
        let mut r = Vec::new();
        r.push(FieldKind::Fixed(32));
        assert(r@ =~= Self::kinds());
        r
    }

    fn exec_checks() -> (r: Vec<FieldCheck>)
        ensures
            r@ == Self::checks(),
    {
        let mut r = Vec::new();
        r.push(FieldCheck::Plain);
        assert(r@ =~= Self::checks());
        r
    }

    /// The molecule encoding of the message.
    pub fn to_molecule_bytes(&self) -> (r: Vec<u8>)
        ensures
            r@ == self.spec_encode(),
    {
        let mut fs: Vec<Vec<u8>> = Vec::new();
        fs.push(slice_to_vec(self.channel_id.as_ref()));
        assert(views(fs@) =~= self.fields());
        encode_dyn(&fs)
    }

    /// The message of fields that passed every check.
    pub(crate) fn from_checked_fields(fs: &Vec<Vec<u8>>) -> (r: Self)
        requires
            fs@.len() == 1,
            forall|i: int|
                0 <= i < 1 ==> #[trigger] spec_kind_check(Self::kinds()[i], views(fs@)[i]) is Ok,
            forall|i: int|
                0 <= i < 1 ==> #[trigger] spec_field_check(Self::checks()[i], views(fs@)[i]) is Ok,
        ensures
            r.wf(),
            r.decodes_to(views(fs@)),
    {
        assert(spec_kind_check(Self::kinds()[0], views(fs@)[0]) is Ok);
        assert(spec_field_check(Self::checks()[0], views(fs@)[0]) is Ok);
        let channel_id = Hash256::from_bytes(fs[0].as_slice());
        let r = ChannelReady { channel_id };
        assert(views(fs@).len() == 1);
        r
    }

    /// Decodes the molecule encoding of the message.
    pub fn from_molecule_slice(s: &[u8]) -> (r: Result<Self, Error>)
        ensures
            match Self::spec_decode(s@) {
                Ok(fs) => r matches Ok(m) && m.wf() && m.decodes_to(fs),
                Err(e) => r == Err::<Self, Error>(e),
            },
    {
        let ks = Self::exec_kinds();
        let cs = Self::exec_checks();
        proof {
            lemma_channel_ready_fits();
        }
        let fs = table_check(s, &ks, &cs)?;
        proof {
            lemma_table_check_fields(s@, ks@, cs@);
        }
        Ok(Self::from_checked_fields(&fs))
    }
}

proof fn lemma_channel_ready_fits()
    ensures
        ChannelReady::kinds().len() == 1,
        ChannelReady::checks().len() == 1,
        forall|i: int| 0 <= i < 1 ==> #[trigger] check_fits(ChannelReady::checks()[i], ChannelReady::kinds()[i]),
{
    assert forall|i: int| 0 <= i < 1 implies #[trigger] check_fits(ChannelReady::checks()[i], ChannelReady::kinds()[i]) by {
        // One case per field.
        if i == 0 {
        }
    }
}

/// The fields of a valid `ChannelReady` pass every check, when its encoding fits
/// in a molecule number.
/// The encoding of a `ChannelReady` is at most 40 bytes: its fields are of
/// bounded size, so it always fits in a molecule number.
pub proof fn lemma_channel_ready_size(m: ChannelReady)
    ensures
        m.spec_encode().len() <= 40,
{
    assert forall|i: int| 0 <= i < 1 implies #[trigger] m.fields()[i].len() <= 32 by {
        // One case per field.
        if i == 0 {
        }
    }
    lemma_dyn_encode_bounded(m.fields(), 32);
}

proof fn lemma_channel_ready_checks(m: ChannelReady)
    requires
        m.wf(),
    ensures
        m.fields().len() == 1,
        forall|i: int|
            0 <= i < 1 ==> #[trigger] spec_kind_check(ChannelReady::kinds()[i], m.fields()[i]) is Ok,
        forall|i: int|
            0 <= i < 1 ==> #[trigger] spec_field_check(ChannelReady::checks()[i], m.fields()[i]) is Ok,
{
    lemma_channel_ready_size(m);
    lemma_fixed_lens_all();
    assert forall|i: int| 0 <= i < 1 implies #[trigger] spec_kind_check(ChannelReady::kinds()[i], m.fields()[i]) is Ok by {
        // One case per field.
        if i == 0 {
        }
    }
    assert forall|i: int| 0 <= i < 1 implies #[trigger] spec_field_check(ChannelReady::checks()[i], m.fields()[i]) is Ok by {
        // One case per field.
        if i == 0 {
        }
    }
}

/// Decoding the encoding of a valid `ChannelReady` succeeds, and gives back a
/// message that holds the same values.
pub proof fn lemma_channel_ready_roundtrip(m: ChannelReady, m2: ChannelReady)
    requires
        m.wf(),
    ensures
        ChannelReady::spec_decode(m.spec_encode()) == Ok::<Seq<Seq<u8>>, Error>(m.fields()),
        m2.wf() && m2.decodes_to(m.fields()) ==> m2.same(m),
{
    lemma_channel_ready_size(m);
    lemma_channel_ready_checks(m);
    lemma_table_check_encode(m.fields(), ChannelReady::kinds(), ChannelReady::checks());
    if m2.wf() && m2.decodes_to(m.fields()) {
        assert(m2.channel_id.0 =~= m.channel_id.0);
    }
}

/// A `ChannelReady` decoded from `s` encodes back to `s`.
pub proof fn lemma_channel_ready_decode_encode(s: Seq<u8>, m: ChannelReady)
    requires
        ChannelReady::spec_decode(s) is Ok,
        m.decodes_to(ChannelReady::spec_decode(s)->Ok_0),
    ensures
        m.spec_encode() == s,
{
    let fs = ChannelReady::spec_decode(s)->Ok_0;
    lemma_channel_ready_fits();
    lemma_table_check_fields(s, ChannelReady::kinds(), ChannelReady::checks());
    lemma_split_then_encode(s, Some(ChannelReady::kinds().len()));
    assert(m.fields() =~= fs);
}

/// The schema of `ChannelReady`, field by field in table order:
/// 0. `channel_id` (Byte32)
/// Its encoding is the molecule table of these fields in this order, and
/// a message decoded from a table holds in each field the value that the
/// table's item at that position encodes.
pub proof fn lemma_channel_ready_schema(m: ChannelReady, fs: Seq<Seq<u8>>)
    ensures
        m.spec_encode() == dyn_encode(
            seq![m.channel_id@],
        ),
        m.decodes_to(fs) ==> {
            &&& fs.len() == 1
            &&& fs[0] == m.channel_id@
        },
{
}

/// A new version of the funding transaction.
#[derive(Debug, Clone)]
pub struct TxUpdate {
    pub channel_id: Hash256,
    pub tx: Transaction,
}

impl TxUpdate {
    /// The molecule types of the fields.
    pub open spec fn kinds() -> Seq<FieldKind> {
        seq![FieldKind::Fixed(32), FieldKind::Transaction]
    }

    /// What converting each field may refuse.
    pub open spec fn checks() -> Seq<FieldCheck> {
        seq![FieldCheck::Plain, FieldCheck::Plain]
    }

    /// The encoding of each field.
    pub open spec fn fields(self) -> Seq<Seq<u8>> {
        seq![self.channel_id@, self.tx.0@]
    }

    /// The molecule encoding of the message.
    pub open spec fn spec_encode(self) -> Seq<u8> {
        dyn_encode(self.fields())
    }

    /// Decoding the molecule encoding `s`: the fields, or the first refusal.
    pub open spec fn spec_decode(s: Seq<u8>) -> Result<Seq<Seq<u8>>, Error> {
        spec_table_check(s, Self::kinds(), Self::checks())
    }

    /// Every key, nonce, signature and script of the message is valid.
    pub open spec fn wf(self) -> bool {
        self.tx.wf()
    }

    /// The message is what the decoded fields `fs` hold.
    pub open spec fn decodes_to(self, fs: Seq<Seq<u8>>) -> bool {
        &&& fs.len() == 2
        &&& fs[0] == self.channel_id@
        &&& fs[1] == self.tx.0@
    }

    /// The two messages hold the same values.
    pub open spec fn same(self, other: Self) -> bool {
        &&& self.channel_id == other.channel_id
        &&& self.tx.0@ == other.tx.0@
    }

    fn exec_kinds() -> (r: Vec<FieldKind>)
        ensures
            r@ == Self::kinds(),
    {
        let mut r = Vec::new();
        r.push(FieldKind::Fixed(32));
        r.push(FieldKind::Transaction);
        assert(r@ =~= Self::kinds());
        r
    }

    fn exec_checks() -> (r: Vec<FieldCheck>)
        ensures
            r@ == Self::checks(),
    {
        let mut r = Vec::new();
        r.push(FieldCheck::Plain);
        r.push(FieldCheck::Plain);
        assert(r@ =~= Self::checks());
        r
    }

    /// The molecule encoding of the message.
    pub fn to_molecule_bytes(&self) -> (r: Vec<u8>)
        ensures
            r@ == self.spec_encode(),
    {
        let mut fs: Vec<Vec<u8>> = Vec::new();
        fs.push(slice_to_vec(self.channel_id.as_ref()));
        fs.push(slice_to_vec(self.tx.as_slice()));
        assert(views(fs@) =~= self.fields());
        encode_dyn(&fs)
    }

    /// The message of fields that passed every check.
    pub(crate) fn from_checked_fields(fs: &Vec<Vec<u8>>) -> (r: Self)
        requires
            fs@.len() == 2,
            forall|i: int|
                0 <= i < 2 ==> #[trigger] spec_kind_check(Self::kinds()[i], views(fs@)[i]) is Ok,
            forall|i: int|
                0 <= i < 2 ==> #[trigger] spec_field_check(Self::checks()[i], views(fs@)[i]) is Ok,
        ensures
            r.wf(),
            r.decodes_to(views(fs@)),
    {
        assert(spec_kind_check(Self::kinds()[0], views(fs@)[0]) is Ok);
        assert(spec_field_check(Self::checks()[0], views(fs@)[0]) is Ok);
        let channel_id = Hash256::from_bytes(fs[0].as_slice());
        assert(spec_kind_check(Self::kinds()[1], views(fs@)[1]) is Ok);
        assert(spec_field_check(Self::checks()[1], views(fs@)[1]) is Ok);
        let tx = Transaction(slice_to_vec(fs[1].as_slice()));
        let r = TxUpdate { channel_id, tx };
        assert(views(fs@).len() == 2);
        r
    }

    /// Decodes the molecule encoding of the message.
    pub fn from_molecule_slice(s: &[u8]) -> (r: Result<Self, Error>)
        ensures
            match Self::spec_decode(s@) {
                Ok(fs) => r matches Ok(m) && m.wf() && m.decodes_to(fs),
                Err(e) => r == Err::<Self, Error>(e),
            },
    {
        let ks = Self::exec_kinds();
        let cs = Self::exec_checks();
        proof {
            lemma_tx_update_fits();
        }
        let fs = table_check(s, &ks, &cs)?;
        proof {
            lemma_table_check_fields(s@, ks@, cs@);
        }
        Ok(Self::from_checked_fields(&fs))
    }
}

proof fn lemma_tx_update_fits()
    ensures
        TxUpdate::kinds().len() == 2,
        TxUpdate::checks().len() == 2,
        forall|i: int| 0 <= i < 2 ==> #[trigger] check_fits(TxUpdate::checks()[i], TxUpdate::kinds()[i]),
{
    assert forall|i: int| 0 <= i < 2 implies #[trigger] check_fits(TxUpdate::checks()[i], TxUpdate::kinds()[i]) by {
        // One case per field.
        if i == 0 {
        } else if i == 1 {
        }
    }
}

/// The fields of a valid `TxUpdate` pass every check, when its encoding fits
/// in a molecule number.
proof fn lemma_tx_update_checks(m: TxUpdate)
    requires
        m.wf(),
        m.spec_encode().len() < 0x1_0000_0000,
    ensures
        m.fields().len() == 2,
        forall|i: int|
            0 <= i < 2 ==> #[trigger] spec_kind_check(TxUpdate::kinds()[i], m.fields()[i]) is Ok,
        forall|i: int|
            0 <= i < 2 ==> #[trigger] spec_field_check(TxUpdate::checks()[i], m.fields()[i]) is Ok,
{
    lemma_fixed_lens_all();
    assert forall|i: int| 0 <= i < 2 implies #[trigger] spec_kind_check(TxUpdate::kinds()[i], m.fields()[i]) is Ok by {
        // One case per field.
        if i == 0 {
        } else if i == 1 {
        }
    }
    assert forall|i: int| 0 <= i < 2 implies #[trigger] spec_field_check(TxUpdate::checks()[i], m.fields()[i]) is Ok by {
        // One case per field.
        if i == 0 {
        } else if i == 1 {
        }
    }
}

/// Decoding the encoding of a valid `TxUpdate` succeeds, and gives back a
/// message that holds the same values, when the encoding fits in a
/// molecule number.
pub proof fn lemma_tx_update_roundtrip(m: TxUpdate, m2: TxUpdate)
    requires
        m.wf(),
        m.spec_encode().len() < 0x1_0000_0000,
    ensures
        TxUpdate::spec_decode(m.spec_encode()) == Ok::<Seq<Seq<u8>>, Error>(m.fields()),
        m2.wf() && m2.decodes_to(m.fields()) ==> m2.same(m),
{
    lemma_tx_update_checks(m);
    lemma_table_check_encode(m.fields(), TxUpdate::kinds(), TxUpdate::checks());
    if m2.wf() && m2.decodes_to(m.fields()) {
        assert(m2.channel_id.0 =~= m.channel_id.0);
        assert(m.fields()[1] == m2.tx.0@);
    }
}

/// A `TxUpdate` decoded from `s` encodes back to `s`.
pub proof fn lemma_tx_update_decode_encode(s: Seq<u8>, m: TxUpdate)
    requires
        TxUpdate::spec_decode(s) is Ok,
        m.decodes_to(TxUpdate::spec_decode(s)->Ok_0),
    ensures
        m.spec_encode() == s,
{
    let fs = TxUpdate::spec_decode(s)->Ok_0;
    lemma_tx_update_fits();
    lemma_table_check_fields(s, TxUpdate::kinds(), TxUpdate::checks());
    lemma_split_then_encode(s, Some(TxUpdate::kinds().len()));
    assert(m.fields() =~= fs);
}

/// The schema of `TxUpdate`, field by field in table order:
/// 0. `channel_id` (Byte32)
/// 1. `tx` (Transaction)
/// Its encoding is the molecule table of these fields in this order, and
/// a message decoded from a table holds in each field the value that the
/// table's item at that position encodes.
pub proof fn lemma_tx_update_schema(m: TxUpdate, fs: Seq<Seq<u8>>)
    ensures
        m.spec_encode() == dyn_encode(
            seq![m.channel_id@, m.tx.0@],
        ),
        m.decodes_to(fs) ==> {
            &&& fs.len() == 2
            &&& fs[0] == m.channel_id@
            &&& fs[1] == m.tx.0@
        },
{
}

/// The end of a transaction collaboration.
#[derive(Debug, Clone)]
pub struct TxComplete {
    pub channel_id: Hash256,
}

impl TxComplete {
    /// The molecule types of the fields.
    pub open spec fn kinds() -> Seq<FieldKind> {
        seq![FieldKind::Fixed(32)]
    }

    /// What converting each field may refuse.
    pub open spec fn checks() -> Seq<FieldCheck> {
        seq![FieldCheck::Plain]
    }

    /// The encoding of each field.
    pub open spec fn fields(self) -> Seq<Seq<u8>> {
        seq![self.channel_id@]
    }

    /// The molecule encoding of the message.
    pub open spec fn spec_encode(self) -> Seq<u8> {
        dyn_encode(self.fields())
    }

    /// Decoding the molecule encoding `s`: the fields, or the first refusal.
    pub open spec fn spec_decode(s: Seq<u8>) -> Result<Seq<Seq<u8>>, Error> {
        spec_table_check(s, Self::kinds(), Self::checks())
    }

    /// Every key, nonce, signature and script of the message is valid.
    pub open spec fn wf(self) -> bool {
        true
    }

    /// The message is what the decoded fields `fs` hold.
    pub open spec fn decodes_to(self, fs: Seq<Seq<u8>>) -> bool {
        &&& fs.len() == 1
        &&& fs[0] == self.channel_id@
    }

    /// The two messages hold the same values.
    pub open spec fn same(self, other: Self) -> bool {
        &&& self.channel_id == other.channel_id
    }

    fn exec_kinds() -> (r: Vec<FieldKind>)
        ensures
            r@ == Self::kinds(),
    {
        let mut r = Vec::new();
        r.push(FieldKind::Fixed(32));
        assert(r@ =~= Self::kinds());
        r
    }

    fn exec_checks() -> (r: Vec<FieldCheck>)
        ensures
            r@ == Self::checks(),
    {
        let mut r = Vec::new();
        r.push(FieldCheck::Plain);
        assert(r@ =~= Self::checks());
        r
    }

    /// The molecule encoding of the message.
    pub fn to_molecule_bytes(&self) -> (r: Vec<u8>)
        ensures
            r@ == self.spec_encode(),
    {
        let mut fs: Vec<Vec<u8>> = Vec::new();
        fs.push(slice_to_vec(self.channel_id.as_ref()));
        assert(views(fs@) =~= self.fields());
        encode_dyn(&fs)
    }

    /// The message of fields that passed every check.
    pub(crate) fn from_checked_fields(fs: &Vec<Vec<u8>>) -> (r: Self)
        requires
            fs@.len() == 1,
            forall|i: int|
                0 <= i < 1 ==> #[trigger] spec_kind_check(Self::kinds()[i], views(fs@)[i]) is Ok,
            forall|i: int|
                0 <= i < 1 ==> #[trigger] spec_field_check(Self::checks()[i], views(fs@)[i]) is Ok,
        ensures
            r.wf(),
            r.decodes_to(views(fs@)),
    {
        assert(spec_kind_check(Self::kinds()[0], views(fs@)[0]) is Ok);
        assert(spec_field_check(Self::checks()[0], views(fs@)[0]) is Ok);
        let channel_id = Hash256::from_bytes(fs[0].as_slice());
        let r = TxComplete { channel_id };
        assert(views(fs@).len() == 1);
        r
    }

    /// Decodes the molecule encoding of the message.
    pub fn from_molecule_slice(s: &[u8]) -> (r: Result<Self, Error>)
        ensures
            match Self::spec_decode(s@) {
                Ok(fs) => r matches Ok(m) && m.wf() && m.decodes_to(fs),
                Err(e) => r == Err::<Self, Error>(e),
            },
    {
        let ks = Self::exec_kinds();
        let cs = Self::exec_checks();
        proof {
            lemma_tx_complete_fits();
        }
        let fs = table_check(s, &ks, &cs)?;
        proof {
            lemma_table_check_fields(s@, ks@, cs@);
        }
        Ok(Self::from_checked_fields(&fs))
    }
}

proof fn lemma_tx_complete_fits()
    ensures
        TxComplete::kinds().len() == 1,
        TxComplete::checks().len() == 1,
        forall|i: int| 0 <= i < 1 ==> #[trigger] check_fits(TxComplete::checks()[i], TxComplete::kinds()[i]),
{
    assert forall|i: int| 0 <= i < 1 implies #[trigger] check_fits(TxComplete::checks()[i], TxComplete::kinds()[i]) by {
        // One case per field.
        if i == 0 {
        }
    }
}

/// The fields of a valid `TxComplete` pass every check, when its encoding fits
/// in a molecule number.
/// The encoding of a `TxComplete` is at most 40 bytes: its fields are of
/// bounded size, so it always fits in a molecule number.
pub proof fn lemma_tx_complete_size(m: TxComplete)
    ensures
        m.spec_encode().len() <= 40,
{
    assert forall|i: int| 0 <= i < 1 implies #[trigger] m.fields()[i].len() <= 32 by {
        // One case per field.
        if i == 0 {
        }
    }
    lemma_dyn_encode_bounded(m.fields(), 32);
}

proof fn lemma_tx_complete_checks(m: TxComplete)
    requires
        m.wf(),
    ensures
        m.fields().len() == 1,
        forall|i: int|
            0 <= i < 1 ==> #[trigger] spec_kind_check(TxComplete::kinds()[i], m.fields()[i]) is Ok,
        forall|i: int|
            0 <= i < 1 ==> #[trigger] spec_field_check(TxComplete::checks()[i], m.fields()[i]) is Ok,
{
    lemma_tx_complete_size(m);
    lemma_fixed_lens_all();
    assert forall|i: int| 0 <= i < 1 implies #[trigger] spec_kind_check(TxComplete::kinds()[i], m.fields()[i]) is Ok by {
        // One case per field.
        if i == 0 {
        }
    }
    assert forall|i: int| 0 <= i < 1 implies #[trigger] spec_field_check(TxComplete::checks()[i], m.fields()[i]) is Ok by {
        // One case per field.
        if i == 0 {
        }
    }
}

/// Decoding the encoding of a valid `TxComplete` succeeds, and gives back a
/// message that holds the same values.
pub proof fn lemma_tx_complete_roundtrip(m: TxComplete, m2: TxComplete)
    requires
        m.wf(),
    ensures
        TxComplete::spec_decode(m.spec_encode()) == Ok::<Seq<Seq<u8>>, Error>(m.fields()),
        m2.wf() && m2.decodes_to(m.fields()) ==> m2.same(m),
{
    lemma_tx_complete_size(m);
    lemma_tx_complete_checks(m);
    lemma_table_check_encode(m.fields(), TxComplete::kinds(), TxComplete::checks());
    if m2.wf() && m2.decodes_to(m.fields()) {
        assert(m2.channel_id.0 =~= m.channel_id.0);
    }
}

/// A `TxComplete` decoded from `s` encodes back to `s`.
pub proof fn lemma_tx_complete_decode_encode(s: Seq<u8>, m: TxComplete)
    requires
        TxComplete::spec_decode(s) is Ok,
        m.decodes_to(TxComplete::spec_decode(s)->Ok_0),
    ensures
        m.spec_encode() == s,
{
    let fs = TxComplete::spec_decode(s)->Ok_0;
    lemma_tx_complete_fits();
    lemma_table_check_fields(s, TxComplete::kinds(), TxComplete::checks());
    lemma_split_then_encode(s, Some(TxComplete::kinds().len()));
    assert(m.fields() =~= fs);
}

/// The schema of `TxComplete`, field by field in table order:
/// 0. `channel_id` (Byte32)
/// Its encoding is the molecule table of these fields in this order, and
/// a message decoded from a table holds in each field the value that the
/// table's item at that position encodes.
pub proof fn lemma_tx_complete_schema(m: TxComplete, fs: Seq<Seq<u8>>)
    ensures
        m.spec_encode() == dyn_encode(
            seq![m.channel_id@],
        ),
        m.decodes_to(fs) ==> {
            &&& fs.len() == 1
            &&& fs[0] == m.channel_id@
        },
{
}

/// The abandonment of a transaction collaboration.
#[derive(Debug, Clone)]
pub struct TxAbort {
    pub channel_id: Hash256,
    pub message: Vec<u8>,
}

impl TxAbort {
    /// The molecule types of the fields.
    pub open spec fn kinds() -> Seq<FieldKind> {
        seq![FieldKind::Fixed(32), FieldKind::Bytes]
    }

    /// What converting each field may refuse.
    pub open spec fn checks() -> Seq<FieldCheck> {
        seq![FieldCheck::Plain, FieldCheck::Plain]
    }

    /// The encoding of each field.
    pub open spec fn fields(self) -> Seq<Seq<u8>> {
        seq![self.channel_id@, bytes_encode(self.message@)]
    }

    /// The molecule encoding of the message.
    pub open spec fn spec_encode(self) -> Seq<u8> {
        dyn_encode(self.fields())
    }

    /// Decoding the molecule encoding `s`: the fields, or the first refusal.
    pub open spec fn spec_decode(s: Seq<u8>) -> Result<Seq<Seq<u8>>, Error> {
        spec_table_check(s, Self::kinds(), Self::checks())
    }

    /// Every key, nonce, signature and script of the message is valid.
    pub open spec fn wf(self) -> bool {
        true
    }

    /// The message is what the decoded fields `fs` hold.
    pub open spec fn decodes_to(self, fs: Seq<Seq<u8>>) -> bool {
        &&& fs.len() == 2
        &&& fs[0] == self.channel_id@
        &&& fs[1] == bytes_encode(self.message@)
    }

    /// The two messages hold the same values.
    pub open spec fn same(self, other: Self) -> bool {
        &&& self.channel_id == other.channel_id
        &&& self.message@ == other.message@
    }

    fn exec_kinds() -> (r: Vec<FieldKind>)
        ensures
            r@ == Self::kinds(),
    {
        let mut r = Vec::new();
        r.push(FieldKind::Fixed(32));
        r.push(FieldKind::Bytes);
        assert(r@ =~= Self::kinds());
        r
    }

    fn exec_checks() -> (r: Vec<FieldCheck>)
        ensures
            r@ == Self::checks(),
    {
        let mut r = Vec::new();
        r.push(FieldCheck::Plain);
        r.push(FieldCheck::Plain);
        assert(r@ =~= Self::checks());
        r
    }

    /// The molecule encoding of the message.
    pub fn to_molecule_bytes(&self) -> (r: Vec<u8>)
        ensures
            r@ == self.spec_encode(),
    {
        let mut fs: Vec<Vec<u8>> = Vec::new();
        fs.push(slice_to_vec(self.channel_id.as_ref()));
        fs.push(encode_bytes(self.message.as_slice()));
        assert(views(fs@) =~= self.fields());
        encode_dyn(&fs)
    }

    /// The message of fields that passed every check.
    pub(crate) fn from_checked_fields(fs: &Vec<Vec<u8>>) -> (r: Self)
        requires
            fs@.len() == 2,
            forall|i: int|
                0 <= i < 2 ==> #[trigger] spec_kind_check(Self::kinds()[i], views(fs@)[i]) is Ok,
            forall|i: int|
                0 <= i < 2 ==> #[trigger] spec_field_check(Self::checks()[i], views(fs@)[i]) is Ok,
        ensures
            r.wf(),
            r.decodes_to(views(fs@)),
    {
        assert(spec_kind_check(Self::kinds()[0], views(fs@)[0]) is Ok);
        assert(spec_field_check(Self::checks()[0], views(fs@)[0]) is Ok);
        let channel_id = Hash256::from_bytes(fs[0].as_slice());
        assert(spec_kind_check(Self::kinds()[1], views(fs@)[1]) is Ok);
        assert(spec_field_check(Self::checks()[1], views(fs@)[1]) is Ok);
        let message = decode_bytes(fs[1].as_slice());
        let r = TxAbort { channel_id, message };
        assert(views(fs@).len() == 2);
        r
    }

    /// Decodes the molecule encoding of the message.
    pub fn from_molecule_slice(s: &[u8]) -> (r: Result<Self, Error>)
        ensures
            match Self::spec_decode(s@) {
                Ok(fs) => r matches Ok(m) && m.wf() && m.decodes_to(fs),
                Err(e) => r == Err::<Self, Error>(e),
            },
    {
        let ks = Self::exec_kinds();
        let cs = Self::exec_checks();
        proof {
            lemma_tx_abort_fits();
        }
        let fs = table_check(s, &ks, &cs)?;
        proof {
            lemma_table_check_fields(s@, ks@, cs@);
        }
        Ok(Self::from_checked_fields(&fs))
    }
}

proof fn lemma_tx_abort_fits()
    ensures
        TxAbort::kinds().len() == 2,
        TxAbort::checks().len() == 2,
        forall|i: int| 0 <= i < 2 ==> #[trigger] check_fits(TxAbort::checks()[i], TxAbort::kinds()[i]),
{
    assert forall|i: int| 0 <= i < 2 implies #[trigger] check_fits(TxAbort::checks()[i], TxAbort::kinds()[i]) by {
        // One case per field.
        if i == 0 {
        } else if i == 1 {
        }
    }
}

/// The fields of a valid `TxAbort` pass every check, when its encoding fits
/// in a molecule number.
proof fn lemma_tx_abort_checks(m: TxAbort)
    requires
        m.wf(),
        m.spec_encode().len() < 0x1_0000_0000,
    ensures
        m.fields().len() == 2,
        forall|i: int|
            0 <= i < 2 ==> #[trigger] spec_kind_check(TxAbort::kinds()[i], m.fields()[i]) is Ok,
        forall|i: int|
            0 <= i < 2 ==> #[trigger] spec_field_check(TxAbort::checks()[i], m.fields()[i]) is Ok,
{
    lemma_item_len(m.fields(), 1); lemma_le_bytes_len(m.message@.len(), 4); lemma_bytes_encode_checks(m.message@);
    lemma_fixed_lens_all();
    assert forall|i: int| 0 <= i < 2 implies #[trigger] spec_kind_check(TxAbort::kinds()[i], m.fields()[i]) is Ok by {
        // One case per field.
        if i == 0 {
        } else if i == 1 {
        }
    }
    assert forall|i: int| 0 <= i < 2 implies #[trigger] spec_field_check(TxAbort::checks()[i], m.fields()[i]) is Ok by {
        // One case per field.
        if i == 0 {
        } else if i == 1 {
        }
    }
}

/// Decoding the encoding of a valid `TxAbort` succeeds, and gives back a
/// message that holds the same values, when the encoding fits in a
/// molecule number.
pub proof fn lemma_tx_abort_roundtrip(m: TxAbort, m2: TxAbort)
    requires
        m.wf(),
        m.spec_encode().len() < 0x1_0000_0000,
    ensures
        TxAbort::spec_decode(m.spec_encode()) == Ok::<Seq<Seq<u8>>, Error>(m.fields()),
        m2.wf() && m2.decodes_to(m.fields()) ==> m2.same(m),
{
    lemma_tx_abort_checks(m);
    lemma_table_check_encode(m.fields(), TxAbort::kinds(), TxAbort::checks());
    if m2.wf() && m2.decodes_to(m.fields()) {
        assert(m2.channel_id.0 =~= m.channel_id.0);
        lemma_bytes_encode_injective(m2.message@, m.message@);
    }
}

/// A `TxAbort` decoded from `s` encodes back to `s`.
pub proof fn lemma_tx_abort_decode_encode(s: Seq<u8>, m: TxAbort)
    requires
        TxAbort::spec_decode(s) is Ok,
        m.decodes_to(TxAbort::spec_decode(s)->Ok_0),
    ensures
        m.spec_encode() == s,
{
    let fs = TxAbort::spec_decode(s)->Ok_0;
    lemma_tx_abort_fits();
    lemma_table_check_fields(s, TxAbort::kinds(), TxAbort::checks());
    lemma_split_then_encode(s, Some(TxAbort::kinds().len()));
    assert(m.fields() =~= fs);
}

/// The schema of `TxAbort`, field by field in table order:
/// 0. `channel_id` (Byte32)
/// 1. `message` (Bytes)
/// Its encoding is the molecule table of these fields in this order, and
/// a message decoded from a table holds in each field the value that the
/// table's item at that position encodes.
pub proof fn lemma_tx_abort_schema(m: TxAbort, fs: Seq<Seq<u8>>)
    ensures
        m.spec_encode() == dyn_encode(
            seq![m.channel_id@, bytes_encode(m.message@)],
        ),
        m.decodes_to(fs) ==> {
            &&& fs.len() == 2
            &&& fs[0] == m.channel_id@
            &&& fs[1] == bytes_encode(m.message@)
        },
{
}

/// A request to replace the funding transaction by fee.
#[derive(Debug, Clone)]
pub struct TxInitRBF {
    pub channel_id: Hash256,
    pub fee_rate: u64,
}

impl TxInitRBF {
    /// The molecule types of the fields.
    pub open spec fn kinds() -> Seq<FieldKind> {
        seq![FieldKind::Fixed(32), FieldKind::Fixed(8)]
    }

    /// What converting each field may refuse.
    pub open spec fn checks() -> Seq<FieldCheck> {
        seq![FieldCheck::Plain, FieldCheck::Plain]
    }

    /// The encoding of each field.
    pub open spec fn fields(self) -> Seq<Seq<u8>> {
        seq![self.channel_id@, le_bytes(self.fee_rate as nat, 8)]
    }

    /// The molecule encoding of the message.
    pub open spec fn spec_encode(self) -> Seq<u8> {
        dyn_encode(self.fields())
    }

    /// Decoding the molecule encoding `s`: the fields, or the first refusal.
    pub open spec fn spec_decode(s: Seq<u8>) -> Result<Seq<Seq<u8>>, Error> {
        spec_table_check(s, Self::kinds(), Self::checks())
    }

    /// Every key, nonce, signature and script of the message is valid.
    pub open spec fn wf(self) -> bool {
        true
    }

    /// The message is what the decoded fields `fs` hold.
    pub open spec fn decodes_to(self, fs: Seq<Seq<u8>>) -> bool {
        &&& fs.len() == 2
        &&& fs[0] == self.channel_id@
        &&& fs[1] == le_bytes(self.fee_rate as nat, 8)
    }

    /// The two messages hold the same values.
    pub open spec fn same(self, other: Self) -> bool {
        &&& self.channel_id == other.channel_id
        &&& self.fee_rate == other.fee_rate
    }

    fn exec_kinds() -> (r: Vec<FieldKind>)
        ensures
            r@ == Self::kinds(),
    {
        let mut r = Vec::new();
        r.push(FieldKind::Fixed(32));
        r.push(FieldKind::Fixed(8));
        assert(r@ =~= Self::kinds());
        r
    }

    fn exec_checks() -> (r: Vec<FieldCheck>)
        ensures
            r@ == Self::checks(),
    {
        let mut r = Vec::new();
        r.push(FieldCheck::Plain);
        r.push(FieldCheck::Plain);
        assert(r@ =~= Self::checks());
        r
    }

    /// The molecule encoding of the message.
    pub fn to_molecule_bytes(&self) -> (r: Vec<u8>)
        ensures
            r@ == self.spec_encode(),
    {
        let mut fs: Vec<Vec<u8>> = Vec::new();
        fs.push(slice_to_vec(self.channel_id.as_ref()));
        fs.push(encode_u64(self.fee_rate));
        assert(views(fs@) =~= self.fields());
        encode_dyn(&fs)
    }

    /// The message of fields that passed every check.
    pub(crate) fn from_checked_fields(fs: &Vec<Vec<u8>>) -> (r: Self)
        requires
            fs@.len() == 2,
            forall|i: int|
                0 <= i < 2 ==> #[trigger] spec_kind_check(Self::kinds()[i], views(fs@)[i]) is Ok,
            forall|i: int|
                0 <= i < 2 ==> #[trigger] spec_field_check(Self::checks()[i], views(fs@)[i]) is Ok,
        ensures
            r.wf(),
            r.decodes_to(views(fs@)),
    {
        assert(spec_kind_check(Self::kinds()[0], views(fs@)[0]) is Ok);
        assert(spec_field_check(Self::checks()[0], views(fs@)[0]) is Ok);
        let channel_id = Hash256::from_bytes(fs[0].as_slice());
        assert(spec_kind_check(Self::kinds()[1], views(fs@)[1]) is Ok);
        assert(spec_field_check(Self::checks()[1], views(fs@)[1]) is Ok);
        let fee_rate = decode_u64(fs[1].as_slice());
        let r = TxInitRBF { channel_id, fee_rate };
        assert(views(fs@).len() == 2);
        r
    }

    /// Decodes the molecule encoding of the message.
    pub fn from_molecule_slice(s: &[u8]) -> (r: Result<Self, Error>)
        ensures
            match Self::spec_decode(s@) {
                Ok(fs) => r matches Ok(m) && m.wf() && m.decodes_to(fs),
                Err(e) => r == Err::<Self, Error>(e),
            },
    {
        let ks = Self::exec_kinds();
        let cs = Self::exec_checks();
        proof {
            lemma_tx_init_rbf_fits();
        }
        let fs = table_check(s, &ks, &cs)?;
        proof {
            lemma_table_check_fields(s@, ks@, cs@);
        }
        Ok(Self::from_checked_fields(&fs))
    }
}

proof fn lemma_tx_init_rbf_fits()
    ensures
        TxInitRBF::kinds().len() == 2,
        TxInitRBF::checks().len() == 2,
        forall|i: int| 0 <= i < 2 ==> #[trigger] check_fits(TxInitRBF::checks()[i], TxInitRBF::kinds()[i]),
{
    assert forall|i: int| 0 <= i < 2 implies #[trigger] check_fits(TxInitRBF::checks()[i], TxInitRBF::kinds()[i]) by {
        // One case per field.
        if i == 0 {
        } else if i == 1 {
        }
    }
}

/// The fields of a valid `TxInitRBF` pass every check, when its encoding fits
/// in a molecule number.
/// The encoding of a `TxInitRBF` is at most 76 bytes: its fields are of
/// bounded size, so it always fits in a molecule number.
pub proof fn lemma_tx_init_rbf_size(m: TxInitRBF)
    ensures
        m.spec_encode().len() <= 76,
{
    lemma_le_bytes_len(m.fee_rate as nat, 8);
    assert forall|i: int| 0 <= i < 2 implies #[trigger] m.fields()[i].len() <= 32 by {
        // One case per field.
        if i == 0 {
        } else if i == 1 {
        }
    }
    lemma_dyn_encode_bounded(m.fields(), 32);
}

proof fn lemma_tx_init_rbf_checks(m: TxInitRBF)
    requires
        m.wf(),
    ensures
        m.fields().len() == 2,
        forall|i: int|
            0 <= i < 2 ==> #[trigger] spec_kind_check(TxInitRBF::kinds()[i], m.fields()[i]) is Ok,
        forall|i: int|
            0 <= i < 2 ==> #[trigger] spec_field_check(TxInitRBF::checks()[i], m.fields()[i]) is Ok,
{
    lemma_tx_init_rbf_size(m);
    lemma_fixed_lens_all();
    assert forall|i: int| 0 <= i < 2 implies #[trigger] spec_kind_check(TxInitRBF::kinds()[i], m.fields()[i]) is Ok by {
        // One case per field.
        if i == 0 {
        } else if i == 1 {
        }
    }
    assert forall|i: int| 0 <= i < 2 implies #[trigger] spec_field_check(TxInitRBF::checks()[i], m.fields()[i]) is Ok by {
        // One case per field.
        if i == 0 {
        } else if i == 1 {
        }
    }
}

/// Decoding the encoding of a valid `TxInitRBF` succeeds, and gives back a
/// message that holds the same values.
pub proof fn lemma_tx_init_rbf_roundtrip(m: TxInitRBF, m2: TxInitRBF)
    requires
        m.wf(),
    ensures
        TxInitRBF::spec_decode(m.spec_encode()) == Ok::<Seq<Seq<u8>>, Error>(m.fields()),
        m2.wf() && m2.decodes_to(m.fields()) ==> m2.same(m),
{
    lemma_tx_init_rbf_size(m);
    lemma_tx_init_rbf_checks(m);
    lemma_table_check_encode(m.fields(), TxInitRBF::kinds(), TxInitRBF::checks());
    if m2.wf() && m2.decodes_to(m.fields()) {
        assert(m2.channel_id.0 =~= m.channel_id.0);
        lemma_u64_injective(m2.fee_rate, m.fee_rate);
    }
}

/// A `TxInitRBF` decoded from `s` encodes back to `s`.
pub proof fn lemma_tx_init_rbf_decode_encode(s: Seq<u8>, m: TxInitRBF)
    requires
        TxInitRBF::spec_decode(s) is Ok,
        m.decodes_to(TxInitRBF::spec_decode(s)->Ok_0),
    ensures
        m.spec_encode() == s,
{
    let fs = TxInitRBF::spec_decode(s)->Ok_0;
    lemma_tx_init_rbf_fits();
    lemma_table_check_fields(s, TxInitRBF::kinds(), TxInitRBF::checks());
    lemma_split_then_encode(s, Some(TxInitRBF::kinds().len()));
    assert(m.fields() =~= fs);
}

/// The schema of `TxInitRBF`, field by field in table order:
/// 0. `channel_id` (Byte32)
/// 1. `fee_rate` (Uint64)
/// Its encoding is the molecule table of these fields in this order, and
/// a message decoded from a table holds in each field the value that the
/// table's item at that position encodes.
pub proof fn lemma_tx_init_rbf_schema(m: TxInitRBF, fs: Seq<Seq<u8>>)
    ensures
        m.spec_encode() == dyn_encode(
            seq![m.channel_id@, le_bytes(m.fee_rate as nat, 8)],
        ),
        m.decodes_to(fs) ==> {
            &&& fs.len() == 2
            &&& fs[0] == m.channel_id@
            &&& fs[1] == le_bytes(m.fee_rate as nat, 8)
        },
{
}

/// The acceptance of a replace-by-fee request.
#[derive(Debug, Clone)]
pub struct TxAckRBF {
    pub channel_id: Hash256,
}

impl TxAckRBF {
    /// The molecule types of the fields.
    pub open spec fn kinds() -> Seq<FieldKind> {
        seq![FieldKind::Fixed(32)]
    }

    /// What converting each field may refuse.
    pub open spec fn checks() -> Seq<FieldCheck> {
        seq![FieldCheck::Plain]
    }

    /// The encoding of each field.
    pub open spec fn fields(self) -> Seq<Seq<u8>> {
        seq![self.channel_id@]
    }

    /// The molecule encoding of the message.
    pub open spec fn spec_encode(self) -> Seq<u8> {
        dyn_encode(self.fields())
    }

    /// Decoding the molecule encoding `s`: the fields, or the first refusal.
    pub open spec fn spec_decode(s: Seq<u8>) -> Result<Seq<Seq<u8>>, Error> {
        spec_table_check(s, Self::kinds(), Self::checks())
    }

    /// Every key, nonce, signature and script of the message is valid.
    pub open spec fn wf(self) -> bool {
        true
    }

    /// The message is what the decoded fields `fs` hold.
    pub open spec fn decodes_to(self, fs: Seq<Seq<u8>>) -> bool {
        &&& fs.len() == 1
        &&& fs[0] == self.channel_id@
    }

    /// The two messages hold the same values.
    pub open spec fn same(self, other: Self) -> bool {
        &&& self.channel_id == other.channel_id
    }

    fn exec_kinds() -> (r: Vec<FieldKind>)
        ensures
            r@ == Self::kinds(),
    {
        let mut r = Vec::new();
        r.push(FieldKind::Fixed(32));
        assert(r@ =~= Self::kinds());
        r
    }

    fn exec_checks() -> (r: Vec<FieldCheck>)
        ensures
            r@ == Self::checks(),
    {
        let mut r = Vec::new();
        r.push(FieldCheck::Plain);
        assert(r@ =~= Self::checks());
        r
    }

    /// The molecule encoding of the message.
    pub fn to_molecule_bytes(&self) -> (r: Vec<u8>)
        ensures
            r@ == self.spec_encode(),
    {
        let mut fs: Vec<Vec<u8>> = Vec::new();
        fs.push(slice_to_vec(self.channel_id.as_ref()));
        assert(views(fs@) =~= self.fields());
        encode_dyn(&fs)
    }

    /// The message of fields that passed every check.
    pub(crate) fn from_checked_fields(fs: &Vec<Vec<u8>>) -> (r: Self)
        requires
            fs@.len() == 1,
            forall|i: int|
                0 <= i < 1 ==> #[trigger] spec_kind_check(Self::kinds()[i], views(fs@)[i]) is Ok,
            forall|i: int|
                0 <= i < 1 ==> #[trigger] spec_field_check(Self::checks()[i], views(fs@)[i]) is Ok,
        ensures
            r.wf(),
            r.decodes_to(views(fs@)),
    {
        assert(spec_kind_check(Self::kinds()[0], views(fs@)[0]) is Ok);
        assert(spec_field_check(Self::checks()[0], views(fs@)[0]) is Ok);
        let channel_id = Hash256::from_bytes(fs[0].as_slice());
        let r = TxAckRBF { channel_id };
        assert(views(fs@).len() == 1);
        r
    }

    /// Decodes the molecule encoding of the message.
    pub fn from_molecule_slice(s: &[u8]) -> (r: Result<Self, Error>)
        ensures
            match Self::spec_decode(s@) {
                Ok(fs) => r matches Ok(m) && m.wf() && m.decodes_to(fs),
                Err(e) => r == Err::<Self, Error>(e),
            },
    {
        let ks = Self::exec_kinds();
        let cs = Self::exec_checks();
        proof {
            lemma_tx_ack_rbf_fits();
        }
        let fs = table_check(s, &ks, &cs)?;
        proof {
            lemma_table_check_fields(s@, ks@, cs@);
        }
        Ok(Self::from_checked_fields(&fs))
    }
}

proof fn lemma_tx_ack_rbf_fits()
    ensures
        TxAckRBF::kinds().len() == 1,
        TxAckRBF::checks().len() == 1,
        forall|i: int| 0 <= i < 1 ==> #[trigger] check_fits(TxAckRBF::checks()[i], TxAckRBF::kinds()[i]),
{
    assert forall|i: int| 0 <= i < 1 implies #[trigger] check_fits(TxAckRBF::checks()[i], TxAckRBF::kinds()[i]) by {
        // One case per field.
        if i == 0 {
        }
    }
}

/// The fields of a valid `TxAckRBF` pass every check, when its encoding fits
/// in a molecule number.
/// The encoding of a `TxAckRBF` is at most 40 bytes: its fields are of
/// bounded size, so it always fits in a molecule number.
pub proof fn lemma_tx_ack_rbf_size(m: TxAckRBF)
    ensures
        m.spec_encode().len() <= 40,
{
    assert forall|i: int| 0 <= i < 1 implies #[trigger] m.fields()[i].len() <= 32 by {
        // One case per field.
        if i == 0 {
        }
    }
    lemma_dyn_encode_bounded(m.fields(), 32);
}

proof fn lemma_tx_ack_rbf_checks(m: TxAckRBF)
    requires
        m.wf(),
    ensures
        m.fields().len() == 1,
        forall|i: int|
            0 <= i < 1 ==> #[trigger] spec_kind_check(TxAckRBF::kinds()[i], m.fields()[i]) is Ok,
        forall|i: int|
            0 <= i < 1 ==> #[trigger] spec_field_check(TxAckRBF::checks()[i], m.fields()[i]) is Ok,
{
    lemma_tx_ack_rbf_size(m);
    lemma_fixed_lens_all();
    assert forall|i: int| 0 <= i < 1 implies #[trigger] spec_kind_check(TxAckRBF::kinds()[i], m.fields()[i]) is Ok by {
        // One case per field.
        if i == 0 {
        }
    }
    assert forall|i: int| 0 <= i < 1 implies #[trigger] spec_field_check(TxAckRBF::checks()[i], m.fields()[i]) is Ok by {
        // One case per field.
        if i == 0 {
        }
    }
}

/// Decoding the encoding of a valid `TxAckRBF` succeeds, and gives back a
/// message that holds the same values.
pub proof fn lemma_tx_ack_rbf_roundtrip(m: TxAckRBF, m2: TxAckRBF)
    requires
        m.wf(),
    ensures
        TxAckRBF::spec_decode(m.spec_encode()) == Ok::<Seq<Seq<u8>>, Error>(m.fields()),
        m2.wf() && m2.decodes_to(m.fields()) ==> m2.same(m),
{
    lemma_tx_ack_rbf_size(m);
    lemma_tx_ack_rbf_checks(m);
    lemma_table_check_encode(m.fields(), TxAckRBF::kinds(), TxAckRBF::checks());
    if m2.wf() && m2.decodes_to(m.fields()) {
        assert(m2.channel_id.0 =~= m.channel_id.0);
    }
}

/// A `TxAckRBF` decoded from `s` encodes back to `s`.
pub proof fn lemma_tx_ack_rbf_decode_encode(s: Seq<u8>, m: TxAckRBF)
    requires
        TxAckRBF::spec_decode(s) is Ok,
        m.decodes_to(TxAckRBF::spec_decode(s)->Ok_0),
    ensures
        m.spec_encode() == s,
{
    let fs = TxAckRBF::spec_decode(s)->Ok_0;
    lemma_tx_ack_rbf_fits();
    lemma_table_check_fields(s, TxAckRBF::kinds(), TxAckRBF::checks());
    lemma_split_then_encode(s, Some(TxAckRBF::kinds().len()));
    assert(m.fields() =~= fs);
}

/// The schema of `TxAckRBF`, field by field in table order:
/// 0. `channel_id` (Byte32)
/// Its encoding is the molecule table of these fields in this order, and
/// a message decoded from a table holds in each field the value that the
/// table's item at that position encodes.
pub proof fn lemma_tx_ack_rbf_schema(m: TxAckRBF, fs: Seq<Seq<u8>>)
    ensures
        m.spec_encode() == dyn_encode(
            seq![m.channel_id@],
        ),
        m.decodes_to(fs) ==> {
            &&& fs.len() == 1
            &&& fs[0] == m.channel_id@
        },
{
}

/// The request to close a channel (the fee rate in shannons per kilo-weight).
#[derive(Debug, Clone)]
pub struct Shutdown {
    pub channel_id: Hash256,
    pub close_script: Script,
    pub fee_rate: u64,
    pub force: bool,
}

impl Shutdown {
    /// The molecule types of the fields.
    pub open spec fn kinds() -> Seq<FieldKind> {
        seq![FieldKind::Fixed(32), FieldKind::Script, FieldKind::Fixed(8), FieldKind::Fixed(1)]
    }

    /// What converting each field may refuse.
    pub open spec fn checks() -> Seq<FieldCheck> {
        seq![FieldCheck::Plain, FieldCheck::Plain, FieldCheck::Plain, FieldCheck::Plain]
    }

    /// The encoding of each field.
    pub open spec fn fields(self) -> Seq<Seq<u8>> {
        seq![
            self.channel_id@,
            self.close_script.0@,
            le_bytes(self.fee_rate as nat, 8),
            seq![if self.force { 1u8 } else { 0u8 }],
        ]
    }

    /// The molecule encoding of the message.
    pub open spec fn spec_encode(self) -> Seq<u8> {
        dyn_encode(self.fields())
    }

    /// Decoding the molecule encoding `s`: the fields, or the first refusal.
    pub open spec fn spec_decode(s: Seq<u8>) -> Result<Seq<Seq<u8>>, Error> {
        spec_table_check(s, Self::kinds(), Self::checks())
    }

    /// Every key, nonce, signature and script of the message is valid.
    pub open spec fn wf(self) -> bool {
        self.close_script.wf()
    }

    /// The message is what the decoded fields `fs` hold.
    pub open spec fn decodes_to(self, fs: Seq<Seq<u8>>) -> bool {
        &&& fs.len() == 4
        &&& fs[0] == self.channel_id@
        &&& fs[1] == self.close_script.0@
        &&& fs[2] == le_bytes(self.fee_rate as nat, 8)
        &&& fs[3].len() == 1 && self.force == (fs[3][0] != 0)
    }

    /// The two messages hold the same values.
    pub open spec fn same(self, other: Self) -> bool {
        &&& self.channel_id == other.channel_id
        &&& self.close_script.0@ == other.close_script.0@
        &&& self.fee_rate == other.fee_rate
        &&& self.force == other.force
    }

    fn exec_kinds() -> (r: Vec<FieldKind>)
        ensures
            r@ == Self::kinds(),
    {
        let mut r = Vec::new();
        r.push(FieldKind::Fixed(32));
        r.push(FieldKind::Script);
        r.push(FieldKind::Fixed(8));
        r.push(FieldKind::Fixed(1));
        assert(r@ =~= Self::kinds());
        r
    }

    fn exec_checks() -> (r: Vec<FieldCheck>)
        ensures
            r@ == Self::checks(),
    {
        let mut r = Vec::new();
        r.push(FieldCheck::Plain);
        r.push(FieldCheck::Plain);
        r.push(FieldCheck::Plain);
        r.push(FieldCheck::Plain);
        assert(r@ =~= Self::checks());
        r
    }

    /// The molecule encoding of the message.
    pub fn to_molecule_bytes(&self) -> (r: Vec<u8>)
        ensures
            r@ == self.spec_encode(),
    {
        let mut fs: Vec<Vec<u8>> = Vec::new();
        fs.push(slice_to_vec(self.channel_id.as_ref()));
        fs.push(slice_to_vec(self.close_script.as_slice()));
        fs.push(encode_u64(self.fee_rate));
        fs.push(encode_u8(if self.force { 1u8 } else { 0u8 }));
        assert(views(fs@) =~= self.fields());
        encode_dyn(&fs)
    }

    /// The message of fields that passed every check.
    pub(crate) fn from_checked_fields(fs: &Vec<Vec<u8>>) -> (r: Self)
        requires
            fs@.len() == 4,
            forall|i: int|
                0 <= i < 4 ==> #[trigger] spec_kind_check(Self::kinds()[i], views(fs@)[i]) is Ok,
            forall|i: int|
                0 <= i < 4 ==> #[trigger] spec_field_check(Self::checks()[i], views(fs@)[i]) is Ok,
        ensures
            r.wf(),
            r.decodes_to(views(fs@)),
    {
        assert(spec_kind_check(Self::kinds()[0], views(fs@)[0]) is Ok);
        assert(spec_field_check(Self::checks()[0], views(fs@)[0]) is Ok);
        let channel_id = Hash256::from_bytes(fs[0].as_slice());
        assert(spec_kind_check(Self::kinds()[1], views(fs@)[1]) is Ok);
        assert(spec_field_check(Self::checks()[1], views(fs@)[1]) is Ok);
        let close_script = Script(slice_to_vec(fs[1].as_slice()));
        assert(spec_kind_check(Self::kinds()[2], views(fs@)[2]) is Ok);
        assert(spec_field_check(Self::checks()[2], views(fs@)[2]) is Ok);
        let fee_rate = decode_u64(fs[2].as_slice());
        assert(spec_kind_check(Self::kinds()[3], views(fs@)[3]) is Ok);
        assert(spec_field_check(Self::checks()[3], views(fs@)[3]) is Ok);
        let force = fs[3].as_slice()[0] != 0;
        let r = Shutdown { channel_id, close_script, fee_rate, force };
        assert(views(fs@).len() == 4);
        r
    }

    /// Decodes the molecule encoding of the message.
    pub fn from_molecule_slice(s: &[u8]) -> (r: Result<Self, Error>)
        ensures
            match Self::spec_decode(s@) {
                Ok(fs) => r matches Ok(m) && m.wf() && m.decodes_to(fs),
                Err(e) => r == Err::<Self, Error>(e),
            },
    {
        let ks = Self::exec_kinds();
        let cs = Self::exec_checks();
        proof {
            lemma_shutdown_fits();
        }
        let fs = table_check(s, &ks, &cs)?;
        proof {
            lemma_table_check_fields(s@, ks@, cs@);
        }
        Ok(Self::from_checked_fields(&fs))
    }
}

proof fn lemma_shutdown_fits()
    ensures
        Shutdown::kinds().len() == 4,
        Shutdown::checks().len() == 4,
        forall|i: int| 0 <= i < 4 ==> #[trigger] check_fits(Shutdown::checks()[i], Shutdown::kinds()[i]),
{
    assert forall|i: int| 0 <= i < 4 implies #[trigger] check_fits(Shutdown::checks()[i], Shutdown::kinds()[i]) by {
        // One case per field.
        if i == 0 {
        } else if i == 1 {
        } else if i == 2 {
        } else if i == 3 {
        }
    }
}

/// The fields of a valid `Shutdown` pass every check, when its encoding fits
/// in a molecule number.
proof fn lemma_shutdown_checks(m: Shutdown)
    requires
        m.wf(),
        m.spec_encode().len() < 0x1_0000_0000,
    ensures
        m.fields().len() == 4,
        forall|i: int|
            0 <= i < 4 ==> #[trigger] spec_kind_check(Shutdown::kinds()[i], m.fields()[i]) is Ok,
        forall|i: int|
            0 <= i < 4 ==> #[trigger] spec_field_check(Shutdown::checks()[i], m.fields()[i]) is Ok,
{
    lemma_fixed_lens_all();
    assert forall|i: int| 0 <= i < 4 implies #[trigger] spec_kind_check(Shutdown::kinds()[i], m.fields()[i]) is Ok by {
        // One case per field.
        if i == 0 {
        } else if i == 1 {
        } else if i == 2 {
        } else if i == 3 {
        }
    }
    assert forall|i: int| 0 <= i < 4 implies #[trigger] spec_field_check(Shutdown::checks()[i], m.fields()[i]) is Ok by {
        // One case per field.
        if i == 0 {
        } else if i == 1 {
        } else if i == 2 {
        } else if i == 3 {
        }
    }
}

/// Decoding the encoding of a valid `Shutdown` succeeds, and gives back a
/// message that holds the same values, when the encoding fits in a
/// molecule number.
pub proof fn lemma_shutdown_roundtrip(m: Shutdown, m2: Shutdown)
    requires
        m.wf(),
        m.spec_encode().len() < 0x1_0000_0000,
    ensures
        Shutdown::spec_decode(m.spec_encode()) == Ok::<Seq<Seq<u8>>, Error>(m.fields()),
        m2.wf() && m2.decodes_to(m.fields()) ==> m2.same(m),
{
    lemma_shutdown_checks(m);
    lemma_table_check_encode(m.fields(), Shutdown::kinds(), Shutdown::checks());
    if m2.wf() && m2.decodes_to(m.fields()) {
        assert(m2.channel_id.0 =~= m.channel_id.0);
        assert(m.fields()[1] == m2.close_script.0@);
        lemma_u64_injective(m2.fee_rate, m.fee_rate);
        assert(m.fields()[3] == seq![if m2.force { 1u8 } else { 0u8 }]);
    }
}

/// A `Shutdown` decoded from `s` encodes back to `s` (when its flag byte is 0 or 1).
pub proof fn lemma_shutdown_decode_encode(s: Seq<u8>, m: Shutdown)
    requires
        Shutdown::spec_decode(s) is Ok,
        m.decodes_to(Shutdown::spec_decode(s)->Ok_0),
        Shutdown::spec_decode(s)->Ok_0[3][0] <= 1,
    ensures
        m.spec_encode() == s,
{
    let fs = Shutdown::spec_decode(s)->Ok_0;
    lemma_shutdown_fits();
    lemma_table_check_fields(s, Shutdown::kinds(), Shutdown::checks());
    lemma_split_then_encode(s, Some(Shutdown::kinds().len()));
    assert(fs[3] =~= seq![if m.force { 1u8 } else { 0u8 }]);
    assert(m.fields() =~= fs);
}

/// The schema of `Shutdown`, field by field in table order:
/// 0. `channel_id` (Byte32)
/// 1. `close_script` (Script)
/// 2. `fee_rate` (Uint64)
/// 3. `force` (byte)
/// Its encoding is the molecule table of these fields in this order, and
/// a message decoded from a table holds in each field the value that the
/// table's item at that position encodes.
pub proof fn lemma_shutdown_schema(m: Shutdown, fs: Seq<Seq<u8>>)
    ensures
        m.spec_encode() == dyn_encode(
            seq![
                m.channel_id@,
                m.close_script.0@,
                le_bytes(m.fee_rate as nat, 8),
                seq![if m.force { 1u8 } else { 0u8 }],
            ],
        ),
        m.decodes_to(fs) ==> {
            &&& fs.len() == 4
            &&& fs[0] == m.channel_id@
            &&& fs[1] == m.close_script.0@
            &&& fs[2] == le_bytes(m.fee_rate as nat, 8)
            &&& fs[3].len() == 1 && m.force == (fs[3][0] != 0)
        },
{
}

/// A partial signature of the closing transaction.
#[derive(Debug, Clone)]
pub struct ClosingSigned {
    pub channel_id: Hash256,
    pub partial_signature: PartialSignature,
}

impl ClosingSigned {
    /// The molecule types of the fields.
    pub open spec fn kinds() -> Seq<FieldKind> {
        seq![FieldKind::Fixed(32), FieldKind::Fixed(32)]
    }

    /// What converting each field may refuse.
    pub open spec fn checks() -> Seq<FieldCheck> {
        seq![FieldCheck::Plain, FieldCheck::PartialSignature]
    }

    /// The encoding of each field.
    pub open spec fn fields(self) -> Seq<Seq<u8>> {
        seq![self.channel_id@, self.partial_signature.0@]
    }

    /// The molecule encoding of the message.
    pub open spec fn spec_encode(self) -> Seq<u8> {
        dyn_encode(self.fields())
    }

    /// Decoding the molecule encoding `s`: the fields, or the first refusal.
    pub open spec fn spec_decode(s: Seq<u8>) -> Result<Seq<Seq<u8>>, Error> {
        spec_table_check(s, Self::kinds(), Self::checks())
    }

    /// Every key, nonce, signature and script of the message is valid.
    pub open spec fn wf(self) -> bool {
        self.partial_signature.wf()
    }

    /// The message is what the decoded fields `fs` hold.
    pub open spec fn decodes_to(self, fs: Seq<Seq<u8>>) -> bool {
        &&& fs.len() == 2
        &&& fs[0] == self.channel_id@
        &&& fs[1] == self.partial_signature.0@
    }

    /// The two messages hold the same values.
    pub open spec fn same(self, other: Self) -> bool {
        &&& self.channel_id == other.channel_id
        &&& self.partial_signature == other.partial_signature
    }

    fn exec_kinds() -> (r: Vec<FieldKind>)
        ensures
            r@ == Self::kinds(),
    {
        let mut r = Vec::new();
        r.push(FieldKind::Fixed(32));
        r.push(FieldKind::Fixed(32));
        assert(r@ =~= Self::kinds());
        r
    }

    fn exec_checks() -> (r: Vec<FieldCheck>)
        ensures
            r@ == Self::checks(),
    {
        let mut r = Vec::new();
        r.push(FieldCheck::Plain);
        r.push(FieldCheck::PartialSignature);
        assert(r@ =~= Self::checks());
        r
    }

    /// The molecule encoding of the message.
    pub fn to_molecule_bytes(&self) -> (r: Vec<u8>)
        ensures
            r@ == self.spec_encode(),
    {
        let mut fs: Vec<Vec<u8>> = Vec::new();
        fs.push(slice_to_vec(self.channel_id.as_ref()));
        fs.push(slice_to_vec(self.partial_signature.0.as_slice()));
        assert(views(fs@) =~= self.fields());
        encode_dyn(&fs)
    }

    /// The message of fields that passed every check.
    pub(crate) fn from_checked_fields(fs: &Vec<Vec<u8>>) -> (r: Self)
        requires
            fs@.len() == 2,
            forall|i: int|
                0 <= i < 2 ==> #[trigger] spec_kind_check(Self::kinds()[i], views(fs@)[i]) is Ok,
            forall|i: int|
                0 <= i < 2 ==> #[trigger] spec_field_check(Self::checks()[i], views(fs@)[i]) is Ok,
        ensures
            r.wf(),
            r.decodes_to(views(fs@)),
    {
        assert(spec_kind_check(Self::kinds()[0], views(fs@)[0]) is Ok);
        assert(spec_field_check(Self::checks()[0], views(fs@)[0]) is Ok);
        let channel_id = Hash256::from_bytes(fs[0].as_slice());
        assert(spec_kind_check(Self::kinds()[1], views(fs@)[1]) is Ok);
        assert(spec_field_check(Self::checks()[1], views(fs@)[1]) is Ok);
        let partial_signature = PartialSignature(array_32(fs[1].as_slice()));
        let r = ClosingSigned { channel_id, partial_signature };
        assert(views(fs@).len() == 2);
        r
    }

    /// Decodes the molecule encoding of the message.
    pub fn from_molecule_slice(s: &[u8]) -> (r: Result<Self, Error>)
        ensures
            match Self::spec_decode(s@) {
                Ok(fs) => r matches Ok(m) && m.wf() && m.decodes_to(fs),
                Err(e) => r == Err::<Self, Error>(e),
            },
    {
        let ks = Self::exec_kinds();
        let cs = Self::exec_checks();
        proof {
            lemma_closing_signed_fits();
        }
        let fs = table_check(s, &ks, &cs)?;
        proof {
            lemma_table_check_fields(s@, ks@, cs@);
        }
        Ok(Self::from_checked_fields(&fs))
    }
}

proof fn lemma_closing_signed_fits()
    ensures
        ClosingSigned::kinds().len() == 2,
        ClosingSigned::checks().len() == 2,
        forall|i: int| 0 <= i < 2 ==> #[trigger] check_fits(ClosingSigned::checks()[i], ClosingSigned::kinds()[i]),
{
    assert forall|i: int| 0 <= i < 2 implies #[trigger] check_fits(ClosingSigned::checks()[i], ClosingSigned::kinds()[i]) by {
        // One case per field.
        if i == 0 {
        } else if i == 1 {
        }
    }
}

/// The fields of a valid `ClosingSigned` pass every check, when its encoding fits
/// in a molecule number.
/// The encoding of a `ClosingSigned` is at most 76 bytes: its fields are of
/// bounded size, so it always fits in a molecule number.
pub proof fn lemma_closing_signed_size(m: ClosingSigned)
    ensures
        m.spec_encode().len() <= 76,
{
    assert forall|i: int| 0 <= i < 2 implies #[trigger] m.fields()[i].len() <= 32 by {
        // One case per field.
        if i == 0 {
        } else if i == 1 {
        }
    }
    lemma_dyn_encode_bounded(m.fields(), 32);
}

proof fn lemma_closing_signed_checks(m: ClosingSigned)
    requires
        m.wf(),
    ensures
        m.fields().len() == 2,
        forall|i: int|
            0 <= i < 2 ==> #[trigger] spec_kind_check(ClosingSigned::kinds()[i], m.fields()[i]) is Ok,
        forall|i: int|
            0 <= i < 2 ==> #[trigger] spec_field_check(ClosingSigned::checks()[i], m.fields()[i]) is Ok,
{
    lemma_closing_signed_size(m);
    lemma_fixed_lens_all();
    assert forall|i: int| 0 <= i < 2 implies #[trigger] spec_kind_check(ClosingSigned::kinds()[i], m.fields()[i]) is Ok by {
        // One case per field.
        if i == 0 {
        } else if i == 1 {
        }
    }
    assert forall|i: int| 0 <= i < 2 implies #[trigger] spec_field_check(ClosingSigned::checks()[i], m.fields()[i]) is Ok by {
        // One case per field.
        if i == 0 {
        } else if i == 1 {
        }
    }
}

/// Decoding the encoding of a valid `ClosingSigned` succeeds, and gives back a
/// message that holds the same values.
pub proof fn lemma_closing_signed_roundtrip(m: ClosingSigned, m2: ClosingSigned)
    requires
        m.wf(),
    ensures
        ClosingSigned::spec_decode(m.spec_encode()) == Ok::<Seq<Seq<u8>>, Error>(m.fields()),
        m2.wf() && m2.decodes_to(m.fields()) ==> m2.same(m),
{
    lemma_closing_signed_size(m);
    lemma_closing_signed_checks(m);
    lemma_table_check_encode(m.fields(), ClosingSigned::kinds(), ClosingSigned::checks());
    if m2.wf() && m2.decodes_to(m.fields()) {
        assert(m2.channel_id.0 =~= m.channel_id.0);
        assert(m2.partial_signature.0 =~= m.partial_signature.0);
    }
}

/// A `ClosingSigned` decoded from `s` encodes back to `s`.
pub proof fn lemma_closing_signed_decode_encode(s: Seq<u8>, m: ClosingSigned)
    requires
        ClosingSigned::spec_decode(s) is Ok,
        m.decodes_to(ClosingSigned::spec_decode(s)->Ok_0),
    ensures
        m.spec_encode() == s,
{
    let fs = ClosingSigned::spec_decode(s)->Ok_0;
    lemma_closing_signed_fits();
    lemma_table_check_fields(s, ClosingSigned::kinds(), ClosingSigned::checks());
    lemma_split_then_encode(s, Some(ClosingSigned::kinds().len()));
    assert(m.fields() =~= fs);
}

/// The schema of `ClosingSigned`, field by field in table order:
/// 0. `channel_id` (Byte32)
/// 1. `partial_signature` (Byte32)
/// Its encoding is the molecule table of these fields in this order, and
/// a message decoded from a table holds in each field the value that the
/// table's item at that position encodes.
pub proof fn lemma_closing_signed_schema(m: ClosingSigned, fs: Seq<Seq<u8>>)
    ensures
        m.spec_encode() == dyn_encode(
            seq![m.channel_id@, m.partial_signature.0@],
        ),
        m.decodes_to(fs) ==> {
            &&& fs.len() == 2
            &&& fs[0] == m.channel_id@
            &&& fs[1] == m.partial_signature.0@
        },
{
}

/// The offer of a time-locked contract.
#[derive(Debug, Clone, PartialEq, Eq)]
pub struct AddTlc {
    pub channel_id: Hash256,
    pub tlc_id: u64,
    pub amount: u128,
    pub payment_hash: Hash256,
    pub expiry: LockTime,
    pub hash_algorithm: HashAlgorithm,
}

impl AddTlc {
    /// The molecule types of the fields.
    pub open spec fn kinds() -> Seq<FieldKind> {
        seq![
            FieldKind::Fixed(32),
            FieldKind::Fixed(8),
            FieldKind::Fixed(16),
            FieldKind::Fixed(32),
            FieldKind::Fixed(8),
            FieldKind::Fixed(1),
        ]
    }

    /// What converting each field may refuse.
    pub open spec fn checks() -> Seq<FieldCheck> {
        seq![
            FieldCheck::Plain,
            FieldCheck::Plain,
            FieldCheck::Plain,
            FieldCheck::Plain,
            FieldCheck::Plain,
            FieldCheck::HashAlgorithm,
        ]
    }

    /// The encoding of each field.
    pub open spec fn fields(self) -> Seq<Seq<u8>> {
        seq![
            self.channel_id@,
            le_bytes(self.tlc_id as nat, 8),
            le_bytes(self.amount as nat, 16),
            self.payment_hash@,
            le_bytes(self.expiry.0 as nat, 8),
            seq![self.hash_algorithm.spec_byte()],
        ]
    }

    /// The molecule encoding of the message.
    pub open spec fn spec_encode(self) -> Seq<u8> {
        dyn_encode(self.fields())
    }

    /// Decoding the molecule encoding `s`: the fields, or the first refusal.
    pub open spec fn spec_decode(s: Seq<u8>) -> Result<Seq<Seq<u8>>, Error> {
        spec_table_check(s, Self::kinds(), Self::checks())
    }

    /// Every key, nonce, signature and script of the message is valid.
    pub open spec fn wf(self) -> bool {
        true
    }

    /// The message is what the decoded fields `fs` hold.
    pub open spec fn decodes_to(self, fs: Seq<Seq<u8>>) -> bool {
        &&& fs.len() == 6
        &&& fs[0] == self.channel_id@
        &&& fs[1] == le_bytes(self.tlc_id as nat, 8)
        &&& fs[2] == le_bytes(self.amount as nat, 16)
        &&& fs[3] == self.payment_hash@
        &&& fs[4] == le_bytes(self.expiry.0 as nat, 8)
        &&& fs[5] == seq![self.hash_algorithm.spec_byte()]
    }

    /// The two messages hold the same values.
    pub open spec fn same(self, other: Self) -> bool {
        &&& self.channel_id == other.channel_id
        &&& self.tlc_id == other.tlc_id
        &&& self.amount == other.amount
        &&& self.payment_hash == other.payment_hash
        &&& self.expiry == other.expiry
        &&& self.hash_algorithm == other.hash_algorithm
    }

    fn exec_kinds() -> (r: Vec<FieldKind>)
        ensures
            r@ == Self::kinds(),
    {
        let mut r = Vec::new();
        r.push(FieldKind::Fixed(32));
        r.push(FieldKind::Fixed(8));
        r.push(FieldKind::Fixed(16));
        r.push(FieldKind::Fixed(32));
        r.push(FieldKind::Fixed(8));
        r.push(FieldKind::Fixed(1));
        assert(r@ =~= Self::kinds());
        r
    }

    fn exec_checks() -> (r: Vec<FieldCheck>)
        ensures
            r@ == Self::checks(),
    {
        let mut r = Vec::new();
        r.push(FieldCheck::Plain);
        r.push(FieldCheck::Plain);
        r.push(FieldCheck::Plain);
        r.push(FieldCheck::Plain);
        r.push(FieldCheck::Plain);
        r.push(FieldCheck::HashAlgorithm);
        assert(r@ =~= Self::checks());
        r
    }

    /// The molecule encoding of the message.
    pub fn to_molecule_bytes(&self) -> (r: Vec<u8>)
        ensures
            r@ == self.spec_encode(),
    {
        let mut fs: Vec<Vec<u8>> = Vec::new();
        fs.push(slice_to_vec(self.channel_id.as_ref()));
        fs.push(encode_u64(self.tlc_id));
        fs.push(encode_u128(self.amount));
        fs.push(slice_to_vec(self.payment_hash.as_ref()));
        fs.push(encode_u64(self.expiry.0));
        fs.push(encode_u8(self.hash_algorithm.byte()));
        assert(views(fs@) =~= self.fields());
        encode_dyn(&fs)
    }

    /// The message of fields that passed every check.
    pub(crate) fn from_checked_fields(fs: &Vec<Vec<u8>>) -> (r: Self)
        requires
            fs@.len() == 6,
            forall|i: int|
                0 <= i < 6 ==> #[trigger] spec_kind_check(Self::kinds()[i], views(fs@)[i]) is Ok,
            forall|i: int|
                0 <= i < 6 ==> #[trigger] spec_field_check(Self::checks()[i], views(fs@)[i]) is Ok,
        ensures
            r.wf(),
            r.decodes_to(views(fs@)),
    {
        assert(spec_kind_check(Self::kinds()[0], views(fs@)[0]) is Ok);
        assert(spec_field_check(Self::checks()[0], views(fs@)[0]) is Ok);
        let channel_id = Hash256::from_bytes(fs[0].as_slice());
        assert(spec_kind_check(Self::kinds()[1], views(fs@)[1]) is Ok);
        assert(spec_field_check(Self::checks()[1], views(fs@)[1]) is Ok);
        let tlc_id = decode_u64(fs[1].as_slice());
        assert(spec_kind_check(Self::kinds()[2], views(fs@)[2]) is Ok);
        assert(spec_field_check(Self::checks()[2], views(fs@)[2]) is Ok);
        let amount = decode_u128(fs[2].as_slice());
        assert(spec_kind_check(Self::kinds()[3], views(fs@)[3]) is Ok);
        assert(spec_field_check(Self::checks()[3], views(fs@)[3]) is Ok);
        let payment_hash = Hash256::from_bytes(fs[3].as_slice());
        assert(spec_kind_check(Self::kinds()[4], views(fs@)[4]) is Ok);
        assert(spec_field_check(Self::checks()[4], views(fs@)[4]) is Ok);
        let expiry = LockTime(decode_u64(fs[4].as_slice()));
        assert(spec_kind_check(Self::kinds()[5], views(fs@)[5]) is Ok);
        assert(spec_field_check(Self::checks()[5], views(fs@)[5]) is Ok);
        let hash_algorithm = HashAlgorithm::from_byte(fs[5].as_slice()[0]);
        assert(fs@[5]@ =~= seq![fs@[5]@[0]]);
        let r = AddTlc { channel_id, tlc_id, amount, payment_hash, expiry, hash_algorithm };
        assert(views(fs@).len() == 6);
        r
    }

    /// Decodes the molecule encoding of the message.
    pub fn from_molecule_slice(s: &[u8]) -> (r: Result<Self, Error>)
        ensures
            match Self::spec_decode(s@) {
                Ok(fs) => r matches Ok(m) && m.wf() && m.decodes_to(fs),
                Err(e) => r == Err::<Self, Error>(e),
            },
    {
        let ks = Self::exec_kinds();
        let cs = Self::exec_checks();
        proof {
            lemma_add_tlc_fits();
        }
        let fs = table_check(s, &ks, &cs)?;
        proof {
            lemma_table_check_fields(s@, ks@, cs@);
        }
        Ok(Self::from_checked_fields(&fs))
    }
}

proof fn lemma_add_tlc_fits()
    ensures
        AddTlc::kinds().len() == 6,
        AddTlc::checks().len() == 6,
        forall|i: int| 0 <= i < 6 ==> #[trigger] check_fits(AddTlc::checks()[i], AddTlc::kinds()[i]),
{
    assert forall|i: int| 0 <= i < 6 implies #[trigger] check_fits(AddTlc::checks()[i], AddTlc::kinds()[i]) by {
        // One case per field.
        if i == 0 {
        } else if i == 1 {
        } else if i == 2 {
        } else if i == 3 {
        } else if i == 4 {
        } else if i == 5 {
        }
    }
}

/// The fields of a valid `AddTlc` pass every check, when its encoding fits
/// in a molecule number.
/// The encoding of a `AddTlc` is at most 220 bytes: its fields are of
/// bounded size, so it always fits in a molecule number.
pub proof fn lemma_add_tlc_size(m: AddTlc)
    ensures
        m.spec_encode().len() <= 220,
{
    lemma_le_bytes_len(m.tlc_id as nat, 8);
    lemma_le_bytes_len(m.amount as nat, 16);
    lemma_le_bytes_len(m.expiry.0 as nat, 8);
    assert forall|i: int| 0 <= i < 6 implies #[trigger] m.fields()[i].len() <= 32 by {
        // One case per field.
        if i == 0 {
        } else if i == 1 {
        } else if i == 2 {
        } else if i == 3 {
        } else if i == 4 {
        } else if i == 5 {
        }
    }
    lemma_dyn_encode_bounded(m.fields(), 32);
}

proof fn lemma_add_tlc_checks(m: AddTlc)
    requires
        m.wf(),
    ensures
        m.fields().len() == 6,
        forall|i: int|
            0 <= i < 6 ==> #[trigger] spec_kind_check(AddTlc::kinds()[i], m.fields()[i]) is Ok,
        forall|i: int|
            0 <= i < 6 ==> #[trigger] spec_field_check(AddTlc::checks()[i], m.fields()[i]) is Ok,
{
    lemma_add_tlc_size(m);
    lemma_fixed_lens_all();
    assert forall|i: int| 0 <= i < 6 implies #[trigger] spec_kind_check(AddTlc::kinds()[i], m.fields()[i]) is Ok by {
        // One case per field.
        if i == 0 {
        } else if i == 1 {
        } else if i == 2 {
        } else if i == 3 {
        } else if i == 4 {
        } else if i == 5 {
        }
    }
    assert forall|i: int| 0 <= i < 6 implies #[trigger] spec_field_check(AddTlc::checks()[i], m.fields()[i]) is Ok by {
        // One case per field.
        if i == 0 {
        } else if i == 1 {
        } else if i == 2 {
        } else if i == 3 {
        } else if i == 4 {
        } else if i == 5 {
        }
    }
}

/// Decoding the encoding of a valid `AddTlc` succeeds, and gives back a
/// message that holds the same values.
pub proof fn lemma_add_tlc_roundtrip(m: AddTlc, m2: AddTlc)
    requires
        m.wf(),
    ensures
        AddTlc::spec_decode(m.spec_encode()) == Ok::<Seq<Seq<u8>>, Error>(m.fields()),
        m2.wf() && m2.decodes_to(m.fields()) ==> m2.same(m),
{
    lemma_add_tlc_size(m);
    lemma_add_tlc_checks(m);
    lemma_table_check_encode(m.fields(), AddTlc::kinds(), AddTlc::checks());
    if m2.wf() && m2.decodes_to(m.fields()) {
        assert(m2.channel_id.0 =~= m.channel_id.0);
        lemma_u64_injective(m2.tlc_id, m.tlc_id);
        lemma_u128_injective(m2.amount, m.amount);
        assert(m2.payment_hash.0 =~= m.payment_hash.0);
        lemma_u64_injective(m2.expiry.0, m.expiry.0);
        assert(seq![m2.hash_algorithm.spec_byte()][0] == seq![m.hash_algorithm.spec_byte()][0]);
    }
}

/// A `AddTlc` decoded from `s` encodes back to `s`.
pub proof fn lemma_add_tlc_decode_encode(s: Seq<u8>, m: AddTlc)
    requires
        AddTlc::spec_decode(s) is Ok,
        m.decodes_to(AddTlc::spec_decode(s)->Ok_0),
    ensures
        m.spec_encode() == s,
{
    let fs = AddTlc::spec_decode(s)->Ok_0;
    lemma_add_tlc_fits();
    lemma_table_check_fields(s, AddTlc::kinds(), AddTlc::checks());
    lemma_split_then_encode(s, Some(AddTlc::kinds().len()));
    assert(m.fields() =~= fs);
}

/// The schema of `AddTlc`, field by field in table order:
/// 0. `channel_id` (Byte32)
/// 1. `tlc_id` (Uint64)
/// 2. `amount` (Uint128)
/// 3. `payment_hash` (Byte32)
/// 4. `expiry` (Uint64)
/// 5. `hash_algorithm` (byte)
/// Its encoding is the molecule table of these fields in this order, and
/// a message decoded from a table holds in each field the value that the
/// table's item at that position encodes.
pub proof fn lemma_add_tlc_schema(m: AddTlc, fs: Seq<Seq<u8>>)
    ensures
        m.spec_encode() == dyn_encode(
            seq![
                m.channel_id@,
                le_bytes(m.tlc_id as nat, 8),
                le_bytes(m.amount as nat, 16),
                m.payment_hash@,
                le_bytes(m.expiry.0 as nat, 8),
                seq![m.hash_algorithm.spec_byte()],
            ],
        ),
        m.decodes_to(fs) ==> {
            &&& fs.len() == 6
            &&& fs[0] == m.channel_id@
            &&& fs[1] == le_bytes(m.tlc_id as nat, 8)
            &&& fs[2] == le_bytes(m.amount as nat, 16)
            &&& fs[3] == m.payment_hash@
            &&& fs[4] == le_bytes(m.expiry.0 as nat, 8)
            &&& fs[5] == seq![m.hash_algorithm.spec_byte()]
        },
{
}

/// The revocation of a commitment.
#[derive(Debug, Clone)]
pub struct RevokeAndAck {
    pub channel_id: Hash256,
    pub per_commitment_secret: Hash256,
    pub next_per_commitment_point: Pubkey,
}

impl RevokeAndAck {
    /// The molecule types of the fields.
    pub open spec fn kinds() -> Seq<FieldKind> {
        seq![FieldKind::Fixed(32), FieldKind::Fixed(32), FieldKind::Fixed(33)]
    }

    /// What converting each field may refuse.
    pub open spec fn checks() -> Seq<FieldCheck> {
        seq![FieldCheck::Plain, FieldCheck::Plain, FieldCheck::Pubkey]
    }

    /// The encoding of each field.
    pub open spec fn fields(self) -> Seq<Seq<u8>> {
        seq![self.channel_id@, self.per_commitment_secret@, self.next_per_commitment_point.0@]
    }

    /// The molecule encoding of the message.
    pub open spec fn spec_encode(self) -> Seq<u8> {
        dyn_encode(self.fields())
    }

    /// Decoding the molecule encoding `s`: the fields, or the first refusal.
    pub open spec fn spec_decode(s: Seq<u8>) -> Result<Seq<Seq<u8>>, Error> {
        spec_table_check(s, Self::kinds(), Self::checks())
    }

    /// Every key, nonce, signature and script of the message is valid.
    pub open spec fn wf(self) -> bool {
        self.next_per_commitment_point.wf()
    }

    /// The message is what the decoded fields `fs` hold.
    pub open spec fn decodes_to(self, fs: Seq<Seq<u8>>) -> bool {
        &&& fs.len() == 3
        &&& fs[0] == self.channel_id@
        &&& fs[1] == self.per_commitment_secret@
        &&& fs[2] == self.next_per_commitment_point.0@
    }

    /// The two messages hold the same values.
    pub open spec fn same(self, other: Self) -> bool {
        &&& self.channel_id == other.channel_id
        &&& self.per_commitment_secret == other.per_commitment_secret
        &&& self.next_per_commitment_point == other.next_per_commitment_point
    }

    fn exec_kinds() -> (r: Vec<FieldKind>)
        ensures
            r@ == Self::kinds(),
    {
        let mut r = Vec::new();
        r.push(FieldKind::Fixed(32));
        r.push(FieldKind::Fixed(32));
        r.push(FieldKind::Fixed(33));
        assert(r@ =~= Self::kinds());
        r
    }

    fn exec_checks() -> (r: Vec<FieldCheck>)
        ensures
            r@ == Self::checks(),
    {
        let mut r = Vec::new();
        r.push(FieldCheck::Plain);
        r.push(FieldCheck::Plain);
        r.push(FieldCheck::Pubkey);
        assert(r@ =~= Self::checks());
        r
    }

    /// The molecule encoding of the message.
    pub fn to_molecule_bytes(&self) -> (r: Vec<u8>)
        ensures
            r@ == self.spec_encode(),
    {
        let mut fs: Vec<Vec<u8>> = Vec::new();
        fs.push(slice_to_vec(self.channel_id.as_ref()));
        fs.push(slice_to_vec(self.per_commitment_secret.as_ref()));
        fs.push(slice_to_vec(self.next_per_commitment_point.0.as_slice()));
        assert(views(fs@) =~= self.fields());
        encode_dyn(&fs)
    }

    /// The message of fields that passed every check.
    pub(crate) fn from_checked_fields(fs: &Vec<Vec<u8>>) -> (r: Self)
        requires
            fs@.len() == 3,
            forall|i: int|
                0 <= i < 3 ==> #[trigger] spec_kind_check(Self::kinds()[i], views(fs@)[i]) is Ok,
            forall|i: int|
                0 <= i < 3 ==> #[trigger] spec_field_check(Self::checks()[i], views(fs@)[i]) is Ok,
        ensures
            r.wf(),
            r.decodes_to(views(fs@)),
    {
        assert(spec_kind_check(Self::kinds()[0], views(fs@)[0]) is Ok);
        assert(spec_field_check(Self::checks()[0], views(fs@)[0]) is Ok);
        let channel_id = Hash256::from_bytes(fs[0].as_slice());
        assert(spec_kind_check(Self::kinds()[1], views(fs@)[1]) is Ok);
        assert(spec_field_check(Self::checks()[1], views(fs@)[1]) is Ok);
        let per_commitment_secret = Hash256::from_bytes(fs[1].as_slice());
        assert(spec_kind_check(Self::kinds()[2], views(fs@)[2]) is Ok);
        assert(spec_field_check(Self::checks()[2], views(fs@)[2]) is Ok);
        let next_per_commitment_point = Pubkey(array_33(fs[2].as_slice()));
        let r = RevokeAndAck { channel_id, per_commitment_secret, next_per_commitment_point };
        assert(views(fs@).len() == 3);
        r
    }

    /// Decodes the molecule encoding of the message.
    pub fn from_molecule_slice(s: &[u8]) -> (r: Result<Self, Error>)
        ensures
            match Self::spec_decode(s@) {
                Ok(fs) => r matches Ok(m) && m.wf() && m.decodes_to(fs),
                Err(e) => r == Err::<Self, Error>(e),
            },
    {
        let ks = Self::exec_kinds();
        let cs = Self::exec_checks();
        proof {
            lemma_revoke_and_ack_fits();
        }
        let fs = table_check(s, &ks, &cs)?;
        proof {
            lemma_table_check_fields(s@, ks@, cs@);
        }
        Ok(Self::from_checked_fields(&fs))
    }
}

proof fn lemma_revoke_and_ack_fits()
    ensures
        RevokeAndAck::kinds().len() == 3,
        RevokeAndAck::checks().len() == 3,
        forall|i: int| 0 <= i < 3 ==> #[trigger] check_fits(RevokeAndAck::checks()[i], RevokeAndAck::kinds()[i]),
{
    assert forall|i: int| 0 <= i < 3 implies #[trigger] check_fits(RevokeAndAck::checks()[i], RevokeAndAck::kinds()[i]) by {
        // One case per field.
        if i == 0 {
        } else if i == 1 {
        } else if i == 2 {
        }
    }
}

/// The fields of a valid `RevokeAndAck` pass every check, when its encoding fits
/// in a molecule number.
/// The encoding of a `RevokeAndAck` is at most 115 bytes: its fields are of
/// bounded size, so it always fits in a molecule number.
pub proof fn lemma_revoke_and_ack_size(m: RevokeAndAck)
    ensures
        m.spec_encode().len() <= 115,
{
    assert forall|i: int| 0 <= i < 3 implies #[trigger] m.fields()[i].len() <= 33 by {
        // One case per field.
        if i == 0 {
        } else if i == 1 {
        } else if i == 2 {
        }
    }
    lemma_dyn_encode_bounded(m.fields(), 33);
}

proof fn lemma_revoke_and_ack_checks(m: RevokeAndAck)
    requires
        m.wf(),
    ensures
        m.fields().len() == 3,
        forall|i: int|
            0 <= i < 3 ==> #[trigger] spec_kind_check(RevokeAndAck::kinds()[i], m.fields()[i]) is Ok,
        forall|i: int|
            0 <= i < 3 ==> #[trigger] spec_field_check(RevokeAndAck::checks()[i], m.fields()[i]) is Ok,
{
    lemma_revoke_and_ack_size(m);
    lemma_fixed_lens_all();
    assert forall|i: int| 0 <= i < 3 implies #[trigger] spec_kind_check(RevokeAndAck::kinds()[i], m.fields()[i]) is Ok by {
        // One case per field.
        if i == 0 {
        } else if i == 1 {
        } else if i == 2 {
        }
    }
    assert forall|i: int| 0 <= i < 3 implies #[trigger] spec_field_check(RevokeAndAck::checks()[i], m.fields()[i]) is Ok by {
        // One case per field.
        if i == 0 {
        } else if i == 1 {
        } else if i == 2 {
        }
    }
}

/// Decoding the encoding of a valid `RevokeAndAck` succeeds, and gives back a
/// message that holds the same values.
pub proof fn lemma_revoke_and_ack_roundtrip(m: RevokeAndAck, m2: RevokeAndAck)
    requires
        m.wf(),
    ensures
        RevokeAndAck::spec_decode(m.spec_encode()) == Ok::<Seq<Seq<u8>>, Error>(m.fields()),
        m2.wf() && m2.decodes_to(m.fields()) ==> m2.same(m),
{
    lemma_revoke_and_ack_size(m);
    lemma_revoke_and_ack_checks(m);
    lemma_table_check_encode(m.fields(), RevokeAndAck::kinds(), RevokeAndAck::checks());
    if m2.wf() && m2.decodes_to(m.fields()) {
        assert(m2.channel_id.0 =~= m.channel_id.0);
        assert(m2.per_commitment_secret.0 =~= m.per_commitment_secret.0);
        assert(m2.next_per_commitment_point.0 =~= m.next_per_commitment_point.0);
    }
}

/// A `RevokeAndAck` decoded from `s` encodes back to `s`.
pub proof fn lemma_revoke_and_ack_decode_encode(s: Seq<u8>, m: RevokeAndAck)
    requires
        RevokeAndAck::spec_decode(s) is Ok,
        m.decodes_to(RevokeAndAck::spec_decode(s)->Ok_0),
    ensures
        m.spec_encode() == s,
{
    let fs = RevokeAndAck::spec_decode(s)->Ok_0;
    lemma_revoke_and_ack_fits();
    lemma_table_check_fields(s, RevokeAndAck::kinds(), RevokeAndAck::checks());
    lemma_split_then_encode(s, Some(RevokeAndAck::kinds().len()));
    assert(m.fields() =~= fs);
}

/// The schema of `RevokeAndAck`, field by field in table order:
/// 0. `channel_id` (Byte32)
/// 1. `per_commitment_secret` (Byte32)
/// 2. `next_per_commitment_point` (Pubkey)
/// Its encoding is the molecule table of these fields in this order, and
/// a message decoded from a table holds in each field the value that the
/// table's item at that position encodes.
pub proof fn lemma_revoke_and_ack_schema(m: RevokeAndAck, fs: Seq<Seq<u8>>)
    ensures
        m.spec_encode() == dyn_encode(
            seq![m.channel_id@, m.per_commitment_secret@, m.next_per_commitment_point.0@],
        ),
        m.decodes_to(fs) ==> {
            &&& fs.len() == 3
            &&& fs[0] == m.channel_id@
            &&& fs[1] == m.per_commitment_secret@
            &&& fs[2] == m.next_per_commitment_point.0@
        },
{
}

/// The reason of a removal that fulfills the contract.
#[derive(Debug, Copy, Clone, PartialEq, Eq)]
pub struct RemoveTlcFulfill {
    pub payment_preimage: Hash256,
}

impl RemoveTlcFulfill {
    /// The molecule types of the fields.
    pub open spec fn kinds() -> Seq<FieldKind> {
        seq![FieldKind::Fixed(32)]
    }

    /// What converting each field may refuse.
    pub open spec fn checks() -> Seq<FieldCheck> {
        seq![FieldCheck::Plain]
    }

    /// The encoding of each field.
    pub open spec fn fields(self) -> Seq<Seq<u8>> {
        seq![self.payment_preimage@]
    }

    /// The molecule encoding of the message.
    pub open spec fn spec_encode(self) -> Seq<u8> {
        dyn_encode(self.fields())
    }

    /// Decoding the molecule encoding `s`: the fields, or the first refusal.
    pub open spec fn spec_decode(s: Seq<u8>) -> Result<Seq<Seq<u8>>, Error> {
        spec_table_check(s, Self::kinds(), Self::checks())
    }

    /// Every key, nonce, signature and script of the message is valid.
    pub open spec fn wf(self) -> bool {
        true
    }

    /// The message is what the decoded fields `fs` hold.
    pub open spec fn decodes_to(self, fs: Seq<Seq<u8>>) -> bool {
        &&& fs.len() == 1
        &&& fs[0] == self.payment_preimage@
    }

    /// The two messages hold the same values.
    pub open spec fn same(self, other: Self) -> bool {
        &&& self.payment_preimage == other.payment_preimage
    }

    fn exec_kinds() -> (r: Vec<FieldKind>)
        ensures
            r@ == Self::kinds(),
    {
        let mut r = Vec::new();
        r.push(FieldKind::Fixed(32));
        assert(r@ =~= Self::kinds());
        r
    }

    fn exec_checks() -> (r: Vec<FieldCheck>)
        ensures
            r@ == Self::checks(),
    {
        let mut r = Vec::new();
        r.push(FieldCheck::Plain);
        assert(r@ =~= Self::checks());
        r
    }

    /// The molecule encoding of the message.
    pub fn to_molecule_bytes(&self) -> (r: Vec<u8>)
        ensures
            r@ == self.spec_encode(),
    {
        let mut fs: Vec<Vec<u8>> = Vec::new();
        fs.push(slice_to_vec(self.payment_preimage.as_ref()));
        assert(views(fs@) =~= self.fields());
        encode_dyn(&fs)
    }

    /// The message of fields that passed every check.
    pub(crate) fn from_checked_fields(fs: &Vec<Vec<u8>>) -> (r: Self)
        requires
            fs@.len() == 1,
            forall|i: int|
                0 <= i < 1 ==> #[trigger] spec_kind_check(Self::kinds()[i], views(fs@)[i]) is Ok,
            forall|i: int|
                0 <= i < 1 ==> #[trigger] spec_field_check(Self::checks()[i], views(fs@)[i]) is Ok,
        ensures
            r.wf(),
            r.decodes_to(views(fs@)),
    {
        assert(spec_kind_check(Self::kinds()[0], views(fs@)[0]) is Ok);
        assert(spec_field_check(Self::checks()[0], views(fs@)[0]) is Ok);
        let payment_preimage = Hash256::from_bytes(fs[0].as_slice());
        let r = RemoveTlcFulfill { payment_preimage };
        assert(views(fs@).len() == 1);
        r
    }

    /// Decodes the molecule encoding of the message.
    pub fn from_molecule_slice(s: &[u8]) -> (r: Result<Self, Error>)
        ensures
            match Self::spec_decode(s@) {
                Ok(fs) => r matches Ok(m) && m.wf() && m.decodes_to(fs),
                Err(e) => r == Err::<Self, Error>(e),
            },
    {
        let ks = Self::exec_kinds();
        let cs = Self::exec_checks();
        proof {
            lemma_remove_tlc_fulfill_fits();
        }
        let fs = table_check(s, &ks, &cs)?;
        proof {
            lemma_table_check_fields(s@, ks@, cs@);
        }
        Ok(Self::from_checked_fields(&fs))
    }
}

proof fn lemma_remove_tlc_fulfill_fits()
    ensures
        RemoveTlcFulfill::kinds().len() == 1,
        RemoveTlcFulfill::checks().len() == 1,
        forall|i: int| 0 <= i < 1 ==> #[trigger] check_fits(RemoveTlcFulfill::checks()[i], RemoveTlcFulfill::kinds()[i]),
{
    assert forall|i: int| 0 <= i < 1 implies #[trigger] check_fits(RemoveTlcFulfill::checks()[i], RemoveTlcFulfill::kinds()[i]) by {
        // One case per field.
        if i == 0 {
        }
    }
}

/// The fields of a valid `RemoveTlcFulfill` pass every check, when its encoding fits
/// in a molecule number.
/// The encoding of a `RemoveTlcFulfill` is at most 40 bytes: its fields are of
/// bounded size, so it always fits in a molecule number.
pub proof fn lemma_remove_tlc_fulfill_size(m: RemoveTlcFulfill)
    ensures
        m.spec_encode().len() <= 40,
{
    assert forall|i: int| 0 <= i < 1 implies #[trigger] m.fields()[i].len() <= 32 by {
        // One case per field.
        if i == 0 {
        }
    }
    lemma_dyn_encode_bounded(m.fields(), 32);
}

proof fn lemma_remove_tlc_fulfill_checks(m: RemoveTlcFulfill)
    requires
        m.wf(),
    ensures
        m.fields().len() == 1,
        forall|i: int|
            0 <= i < 1 ==> #[trigger] spec_kind_check(RemoveTlcFulfill::kinds()[i], m.fields()[i]) is Ok,
        forall|i: int|
            0 <= i < 1 ==> #[trigger] spec_field_check(RemoveTlcFulfill::checks()[i], m.fields()[i]) is Ok,
{
    lemma_remove_tlc_fulfill_size(m);
    lemma_fixed_lens_all();
    assert forall|i: int| 0 <= i < 1 implies #[trigger] spec_kind_check(RemoveTlcFulfill::kinds()[i], m.fields()[i]) is Ok by {
        // One case per field.
        if i == 0 {
        }
    }
    assert forall|i: int| 0 <= i < 1 implies #[trigger] spec_field_check(RemoveTlcFulfill::checks()[i], m.fields()[i]) is Ok by {
        // One case per field.
        if i == 0 {
        }
    }
}

/// Decoding the encoding of a valid `RemoveTlcFulfill` succeeds, and gives back a
/// message that holds the same values.
pub proof fn lemma_remove_tlc_fulfill_roundtrip(m: RemoveTlcFulfill, m2: RemoveTlcFulfill)
    requires
        m.wf(),
    ensures
        RemoveTlcFulfill::spec_decode(m.spec_encode()) == Ok::<Seq<Seq<u8>>, Error>(m.fields()),
        m2.wf() && m2.decodes_to(m.fields()) ==> m2.same(m),
{
    lemma_remove_tlc_fulfill_size(m);
    lemma_remove_tlc_fulfill_checks(m);
    lemma_table_check_encode(m.fields(), RemoveTlcFulfill::kinds(), RemoveTlcFulfill::checks());
    if m2.wf() && m2.decodes_to(m.fields()) {
        assert(m2.payment_preimage.0 =~= m.payment_preimage.0);
    }
}

/// A `RemoveTlcFulfill` decoded from `s` encodes back to `s`.
pub proof fn lemma_remove_tlc_fulfill_decode_encode(s: Seq<u8>, m: RemoveTlcFulfill)
    requires
        RemoveTlcFulfill::spec_decode(s) is Ok,
        m.decodes_to(RemoveTlcFulfill::spec_decode(s)->Ok_0),
    ensures
        m.spec_encode() == s,
{
    let fs = RemoveTlcFulfill::spec_decode(s)->Ok_0;
    lemma_remove_tlc_fulfill_fits();
    lemma_table_check_fields(s, RemoveTlcFulfill::kinds(), RemoveTlcFulfill::checks());
    lemma_split_then_encode(s, Some(RemoveTlcFulfill::kinds().len()));
    assert(m.fields() =~= fs);
}

/// The schema of `RemoveTlcFulfill`, field by field in table order:
/// 0. `payment_preimage` (Byte32)
/// Its encoding is the molecule table of these fields in this order, and
/// a message decoded from a table holds in each field the value that the
/// table's item at that position encodes.
pub proof fn lemma_remove_tlc_fulfill_schema(m: RemoveTlcFulfill, fs: Seq<Seq<u8>>)
    ensures
        m.spec_encode() == dyn_encode(
            seq![m.payment_preimage@],
        ),
        m.decodes_to(fs) ==> {
            &&& fs.len() == 1
            &&& fs[0] == m.payment_preimage@
        },
{
}

/// The reason of a removal that fails the contract.
#[derive(Debug, Copy, Clone, PartialEq, Eq)]
pub struct RemoveTlcFail {
    pub error_code: u32,
}

impl RemoveTlcFail {
    /// The molecule types of the fields.
    pub open spec fn kinds() -> Seq<FieldKind> {
        seq![FieldKind::Fixed(4)]
    }

    /// What converting each field may refuse.
    pub open spec fn checks() -> Seq<FieldCheck> {
        seq![FieldCheck::Plain]
    }

    /// The encoding of each field.
    pub open spec fn fields(self) -> Seq<Seq<u8>> {
        seq![le_bytes(self.error_code as nat, 4)]
    }

    /// The molecule encoding of the message.
    pub open spec fn spec_encode(self) -> Seq<u8> {
        dyn_encode(self.fields())
    }

    /// Decoding the molecule encoding `s`: the fields, or the first refusal.
    pub open spec fn spec_decode(s: Seq<u8>) -> Result<Seq<Seq<u8>>, Error> {
        spec_table_check(s, Self::kinds(), Self::checks())
    }

    /// Every key, nonce, signature and script of the message is valid.
    pub open spec fn wf(self) -> bool {
        true
    }

    /// The message is what the decoded fields `fs` hold.
    pub open spec fn decodes_to(self, fs: Seq<Seq<u8>>) -> bool {
        &&& fs.len() == 1
        &&& fs[0] == le_bytes(self.error_code as nat, 4)
    }

    /// The two messages hold the same values.
    pub open spec fn same(self, other: Self) -> bool {
        &&& self.error_code == other.error_code
    }

    fn exec_kinds() -> (r: Vec<FieldKind>)
        ensures
            r@ == Self::kinds(),
    {
        let mut r = Vec::new();
        r.push(FieldKind::Fixed(4));
        assert(r@ =~= Self::kinds());
        r
    }

    fn exec_checks() -> (r: Vec<FieldCheck>)
        ensures
            r@ == Self::checks(),
    {
        let mut r = Vec::new();
        r.push(FieldCheck::Plain);
        assert(r@ =~= Self::checks());
        r
    }

    /// The molecule encoding of the message.
    pub fn to_molecule_bytes(&self) -> (r: Vec<u8>)
        ensures
            r@ == self.spec_encode(),
    {
        let mut fs: Vec<Vec<u8>> = Vec::new();
        fs.push(encode_u32(self.error_code));
        assert(views(fs@) =~= self.fields());
        encode_dyn(&fs)
    }

    /// The message of fields that passed every check.
    pub(crate) fn from_checked_fields(fs: &Vec<Vec<u8>>) -> (r: Self)
        requires
            fs@.len() == 1,
            forall|i: int|
                0 <= i < 1 ==> #[trigger] spec_kind_check(Self::kinds()[i], views(fs@)[i]) is Ok,
            forall|i: int|
                0 <= i < 1 ==> #[trigger] spec_field_check(Self::checks()[i], views(fs@)[i]) is Ok,
        ensures
            r.wf(),
            r.decodes_to(views(fs@)),
    {
        assert(spec_kind_check(Self::kinds()[0], views(fs@)[0]) is Ok);
        assert(spec_field_check(Self::checks()[0], views(fs@)[0]) is Ok);
        let error_code = decode_u32(fs[0].as_slice());
        let r = RemoveTlcFail { error_code };
        assert(views(fs@).len() == 1);
        r
    }

    /// Decodes the molecule encoding of the message.
    pub fn from_molecule_slice(s: &[u8]) -> (r: Result<Self, Error>)
        ensures
            match Self::spec_decode(s@) {
                Ok(fs) => r matches Ok(m) && m.wf() && m.decodes_to(fs),
                Err(e) => r == Err::<Self, Error>(e),
            },
    {
        let ks = Self::exec_kinds();
        let cs = Self::exec_checks();
        proof {
            lemma_remove_tlc_fail_fits();
        }
        let fs = table_check(s, &ks, &cs)?;
        proof {
            lemma_table_check_fields(s@, ks@, cs@);
        }
        Ok(Self::from_checked_fields(&fs))
    }
}

proof fn lemma_remove_tlc_fail_fits()
    ensures
        RemoveTlcFail::kinds().len() == 1,
        RemoveTlcFail::checks().len() == 1,
        forall|i: int| 0 <= i < 1 ==> #[trigger] check_fits(RemoveTlcFail::checks()[i], RemoveTlcFail::kinds()[i]),
{
    assert forall|i: int| 0 <= i < 1 implies #[trigger] check_fits(RemoveTlcFail::checks()[i], RemoveTlcFail::kinds()[i]) by {
        // One case per field.
        if i == 0 {
        }
    }
}

/// The fields of a valid `RemoveTlcFail` pass every check, when its encoding fits
/// in a molecule number.
/// The encoding of a `RemoveTlcFail` is at most 12 bytes: its fields are of
/// bounded size, so it always fits in a molecule number.
pub proof fn lemma_remove_tlc_fail_size(m: RemoveTlcFail)
    ensures
        m.spec_encode().len() <= 12,
{
    lemma_le_bytes_len(m.error_code as nat, 4);
    assert forall|i: int| 0 <= i < 1 implies #[trigger] m.fields()[i].len() <= 4 by {
        // One case per field.
        if i == 0 {
        }
    }
    lemma_dyn_encode_bounded(m.fields(), 4);
}

proof fn lemma_remove_tlc_fail_checks(m: RemoveTlcFail)
    requires
        m.wf(),
    ensures
        m.fields().len() == 1,
        forall|i: int|
            0 <= i < 1 ==> #[trigger] spec_kind_check(RemoveTlcFail::kinds()[i], m.fields()[i]) is Ok,
        forall|i: int|
            0 <= i < 1 ==> #[trigger] spec_field_check(RemoveTlcFail::checks()[i], m.fields()[i]) is Ok,
{
    lemma_remove_tlc_fail_size(m);
    lemma_fixed_lens_all();
    assert forall|i: int| 0 <= i < 1 implies #[trigger] spec_kind_check(RemoveTlcFail::kinds()[i], m.fields()[i]) is Ok by {
        // One case per field.
        if i == 0 {
        }
    }
    assert forall|i: int| 0 <= i < 1 implies #[trigger] spec_field_check(RemoveTlcFail::checks()[i], m.fields()[i]) is Ok by {
        // One case per field.
        if i == 0 {
        }
    }
}

/// Decoding the encoding of a valid `RemoveTlcFail` succeeds, and gives back a
/// message that holds the same values.
pub proof fn lemma_remove_tlc_fail_roundtrip(m: RemoveTlcFail, m2: RemoveTlcFail)
    requires
        m.wf(),
    ensures
        RemoveTlcFail::spec_decode(m.spec_encode()) == Ok::<Seq<Seq<u8>>, Error>(m.fields()),
        m2.wf() && m2.decodes_to(m.fields()) ==> m2.same(m),
{
    lemma_remove_tlc_fail_size(m);
    lemma_remove_tlc_fail_checks(m);
    lemma_table_check_encode(m.fields(), RemoveTlcFail::kinds(), RemoveTlcFail::checks());
    if m2.wf() && m2.decodes_to(m.fields()) {
        lemma_u32_injective(m2.error_code, m.error_code);
    }
}

/// A `RemoveTlcFail` decoded from `s` encodes back to `s`.
pub proof fn lemma_remove_tlc_fail_decode_encode(s: Seq<u8>, m: RemoveTlcFail)
    requires
        RemoveTlcFail::spec_decode(s) is Ok,
        m.decodes_to(RemoveTlcFail::spec_decode(s)->Ok_0),
    ensures
        m.spec_encode() == s,
{
    let fs = RemoveTlcFail::spec_decode(s)->Ok_0;
    lemma_remove_tlc_fail_fits();
    lemma_table_check_fields(s, RemoveTlcFail::kinds(), RemoveTlcFail::checks());
    lemma_split_then_encode(s, Some(RemoveTlcFail::kinds().len()));
    assert(m.fields() =~= fs);
}

/// The schema of `RemoveTlcFail`, field by field in table order:
/// 0. `error_code` (Uint32)
/// Its encoding is the molecule table of these fields in this order, and
/// a message decoded from a table holds in each field the value that the
/// table's item at that position encodes.
pub proof fn lemma_remove_tlc_fail_schema(m: RemoveTlcFail, fs: Seq<Seq<u8>>)
    ensures
        m.spec_encode() == dyn_encode(
            seq![le_bytes(m.error_code as nat, 4)],
        ),
        m.decodes_to(fs) ==> {
            &&& fs.len() == 1
            &&& fs[0] == le_bytes(m.error_code as nat, 4)
        },
{
}

/// The removal of a time-locked contract.
#[derive(Debug, Clone)]
pub struct RemoveTlc {
    pub channel_id: Hash256,
    pub tlc_id: u64,
    pub reason: RemoveTlcReason,
}

impl RemoveTlc {
    /// The molecule types of the fields.
    pub open spec fn kinds() -> Seq<FieldKind> {
        seq![FieldKind::Fixed(32), FieldKind::Fixed(8), FieldKind::RemoveTlcReason]
    }

    /// What converting each field may refuse.
    pub open spec fn checks() -> Seq<FieldCheck> {
        seq![FieldCheck::Plain, FieldCheck::Plain, FieldCheck::Plain]
    }

    /// The encoding of each field.
    pub open spec fn fields(self) -> Seq<Seq<u8>> {
        seq![self.channel_id@, le_bytes(self.tlc_id as nat, 8), self.reason.spec_encode()]
    }

    /// The molecule encoding of the message.
    pub open spec fn spec_encode(self) -> Seq<u8> {
        dyn_encode(self.fields())
    }

    /// Decoding the molecule encoding `s`: the fields, or the first refusal.
    pub open spec fn spec_decode(s: Seq<u8>) -> Result<Seq<Seq<u8>>, Error> {
        spec_table_check(s, Self::kinds(), Self::checks())
    }

    /// Every key, nonce, signature and script of the message is valid.
    pub open spec fn wf(self) -> bool {
        true
    }

    /// The message is what the decoded fields `fs` hold.
    pub open spec fn decodes_to(self, fs: Seq<Seq<u8>>) -> bool {
        &&& fs.len() == 3
        &&& fs[0] == self.channel_id@
        &&& fs[1] == le_bytes(self.tlc_id as nat, 8)
        &&& fs[2] == self.reason.spec_encode()
    }

    /// The two messages hold the same values.
    pub open spec fn same(self, other: Self) -> bool {
        &&& self.channel_id == other.channel_id
        &&& self.tlc_id == other.tlc_id
        &&& self.reason == other.reason
    }

    fn exec_kinds() -> (r: Vec<FieldKind>)
        ensures
            r@ == Self::kinds(),
    {
        let mut r = Vec::new();
        r.push(FieldKind::Fixed(32));
        r.push(FieldKind::Fixed(8));
        r.push(FieldKind::RemoveTlcReason);
        assert(r@ =~= Self::kinds());
        r
    }

    fn exec_checks() -> (r: Vec<FieldCheck>)
        ensures
            r@ == Self::checks(),
    {
        let mut r = Vec::new();
        r.push(FieldCheck::Plain);
        r.push(FieldCheck::Plain);
        r.push(FieldCheck::Plain);
        assert(r@ =~= Self::checks());
        r
    }

    /// The molecule encoding of the message.
    pub fn to_molecule_bytes(&self) -> (r: Vec<u8>)
        ensures
            r@ == self.spec_encode(),
    {
        let mut fs: Vec<Vec<u8>> = Vec::new();
        fs.push(slice_to_vec(self.channel_id.as_ref()));
        fs.push(encode_u64(self.tlc_id));
        fs.push(self.reason.to_molecule_bytes());
        assert(views(fs@) =~= self.fields());
        encode_dyn(&fs)
    }

    /// The message of fields that passed every check.
    pub(crate) fn from_checked_fields(fs: &Vec<Vec<u8>>) -> (r: Self)
        requires
            fs@.len() == 3,
            forall|i: int|
                0 <= i < 3 ==> #[trigger] spec_kind_check(Self::kinds()[i], views(fs@)[i]) is Ok,
            forall|i: int|
                0 <= i < 3 ==> #[trigger] spec_field_check(Self::checks()[i], views(fs@)[i]) is Ok,
        ensures
            r.wf(),
            r.decodes_to(views(fs@)),
    {
        assert(spec_kind_check(Self::kinds()[0], views(fs@)[0]) is Ok);
        assert(spec_field_check(Self::checks()[0], views(fs@)[0]) is Ok);
        let channel_id = Hash256::from_bytes(fs[0].as_slice());
        assert(spec_kind_check(Self::kinds()[1], views(fs@)[1]) is Ok);
        assert(spec_field_check(Self::checks()[1], views(fs@)[1]) is Ok);
        let tlc_id = decode_u64(fs[1].as_slice());
        assert(spec_kind_check(Self::kinds()[2], views(fs@)[2]) is Ok);
        assert(spec_field_check(Self::checks()[2], views(fs@)[2]) is Ok);
        let reason = RemoveTlcReason::from_checked(fs[2].as_slice());
        let r = RemoveTlc { channel_id, tlc_id, reason };
        assert(views(fs@).len() == 3);
        r
    }

    /// Decodes the molecule encoding of the message.
    pub fn from_molecule_slice(s: &[u8]) -> (r: Result<Self, Error>)
        ensures
            match Self::spec_decode(s@) {
                Ok(fs) => r matches Ok(m) && m.wf() && m.decodes_to(fs),
                Err(e) => r == Err::<Self, Error>(e),
            },
    {
        let ks = Self::exec_kinds();
        let cs = Self::exec_checks();
        proof {
            lemma_remove_tlc_fits();
        }
        let fs = table_check(s, &ks, &cs)?;
        proof {
            lemma_table_check_fields(s@, ks@, cs@);
        }
        Ok(Self::from_checked_fields(&fs))
    }
}

proof fn lemma_remove_tlc_fits()
    ensures
        RemoveTlc::kinds().len() == 3,
        RemoveTlc::checks().len() == 3,
        forall|i: int| 0 <= i < 3 ==> #[trigger] check_fits(RemoveTlc::checks()[i], RemoveTlc::kinds()[i]),
{
    assert forall|i: int| 0 <= i < 3 implies #[trigger] check_fits(RemoveTlc::checks()[i], RemoveTlc::kinds()[i]) by {
        // One case per field.
        if i == 0 {
        } else if i == 1 {
        } else if i == 2 {
        }
    }
}

/// The fields of a valid `RemoveTlc` pass every check, when its encoding fits
/// in a molecule number.
/// The encoding of a `RemoveTlc` is at most 148 bytes: its fields are of
/// bounded size, so it always fits in a molecule number.
pub proof fn lemma_remove_tlc_size(m: RemoveTlc)
    ensures
        m.spec_encode().len() <= 148,
{
    lemma_le_bytes_len(m.tlc_id as nat, 8);
    lemma_reason_size(m.reason);
    assert forall|i: int| 0 <= i < 3 implies #[trigger] m.fields()[i].len() <= 44 by {
        // One case per field.
        if i == 0 {
        } else if i == 1 {
        } else if i == 2 {
        }
    }
    lemma_dyn_encode_bounded(m.fields(), 44);
}

proof fn lemma_remove_tlc_checks(m: RemoveTlc)
    requires
        m.wf(),
    ensures
        m.fields().len() == 3,
        forall|i: int|
            0 <= i < 3 ==> #[trigger] spec_kind_check(RemoveTlc::kinds()[i], m.fields()[i]) is Ok,
        forall|i: int|
            0 <= i < 3 ==> #[trigger] spec_field_check(RemoveTlc::checks()[i], m.fields()[i]) is Ok,
{
    lemma_remove_tlc_size(m);
    lemma_item_len(m.fields(), 2); lemma_reason_checks(m.reason);
    lemma_fixed_lens_all();
    assert forall|i: int| 0 <= i < 3 implies #[trigger] spec_kind_check(RemoveTlc::kinds()[i], m.fields()[i]) is Ok by {
        // One case per field.
        if i == 0 {
        } else if i == 1 {
        } else if i == 2 {
        }
    }
    assert forall|i: int| 0 <= i < 3 implies #[trigger] spec_field_check(RemoveTlc::checks()[i], m.fields()[i]) is Ok by {
        // One case per field.
        if i == 0 {
        } else if i == 1 {
        } else if i == 2 {
        }
    }
}

/// Decoding the encoding of a valid `RemoveTlc` succeeds, and gives back a
/// message that holds the same values.
pub proof fn lemma_remove_tlc_roundtrip(m: RemoveTlc, m2: RemoveTlc)
    requires
        m.wf(),
    ensures
        RemoveTlc::spec_decode(m.spec_encode()) == Ok::<Seq<Seq<u8>>, Error>(m.fields()),
        m2.wf() && m2.decodes_to(m.fields()) ==> m2.same(m),
{
    lemma_remove_tlc_size(m);
    lemma_remove_tlc_checks(m);
    lemma_table_check_encode(m.fields(), RemoveTlc::kinds(), RemoveTlc::checks());
    if m2.wf() && m2.decodes_to(m.fields()) {
        assert(m2.channel_id.0 =~= m.channel_id.0);
        lemma_u64_injective(m2.tlc_id, m.tlc_id);
        lemma_item_len(m.fields(), 2); lemma_reason_injective(m2.reason, m.reason);
    }
}

/// A `RemoveTlc` decoded from `s` encodes back to `s`.
pub proof fn lemma_remove_tlc_decode_encode(s: Seq<u8>, m: RemoveTlc)
    requires
        RemoveTlc::spec_decode(s) is Ok,
        m.decodes_to(RemoveTlc::spec_decode(s)->Ok_0),
    ensures
        m.spec_encode() == s,
{
    let fs = RemoveTlc::spec_decode(s)->Ok_0;
    lemma_remove_tlc_fits();
    lemma_table_check_fields(s, RemoveTlc::kinds(), RemoveTlc::checks());
    lemma_split_then_encode(s, Some(RemoveTlc::kinds().len()));
    assert(m.fields() =~= fs);
}

/// The schema of `RemoveTlc`, field by field in table order:
/// 0. `channel_id` (Byte32)
/// 1. `tlc_id` (Uint64)
/// 2. `reason` (RemoveTlcReason)
/// Its encoding is the molecule table of these fields in this order, and
/// a message decoded from a table holds in each field the value that the
/// table's item at that position encodes.
pub proof fn lemma_remove_tlc_schema(m: RemoveTlc, fs: Seq<Seq<u8>>)
    ensures
        m.spec_encode() == dyn_encode(
            seq![m.channel_id@, le_bytes(m.tlc_id as nat, 8), m.reason.spec_encode()],
        ),
        m.decodes_to(fs) ==> {
            &&& fs.len() == 3
            &&& fs[0] == m.channel_id@
            &&& fs[1] == le_bytes(m.tlc_id as nat, 8)
            &&& fs[2] == m.reason.spec_encode()
        },
{
}

/// The request to resume a channel.
#[derive(Debug, Clone)]
pub struct ReestablishChannel {
    pub channel_id: Hash256,
    pub local_commitment_number: u64,
    pub remote_commitment_number: u64,
}

impl ReestablishChannel {
    /// The molecule types of the fields.
    pub open spec fn kinds() -> Seq<FieldKind> {
        seq![FieldKind::Fixed(32), FieldKind::Fixed(8), FieldKind::Fixed(8)]
    }

    /// What converting each field may refuse.
    pub open spec fn checks() -> Seq<FieldCheck> {
        seq![FieldCheck::Plain, FieldCheck::Plain, FieldCheck::Plain]
    }

    /// The encoding of each field.
    pub open spec fn fields(self) -> Seq<Seq<u8>> {
        seq![
            self.channel_id@,
            le_bytes(self.local_commitment_number as nat, 8),
            le_bytes(self.remote_commitment_number as nat, 8),
        ]
    }

    /// The molecule encoding of the message.
    pub open spec fn spec_encode(self) -> Seq<u8> {
        dyn_encode(self.fields())
    }

    /// Decoding the molecule encoding `s`: the fields, or the first refusal.
    pub open spec fn spec_decode(s: Seq<u8>) -> Result<Seq<Seq<u8>>, Error> {
        spec_table_check(s, Self::kinds(), Self::checks())
    }

    /// Every key, nonce, signature and script of the message is valid.
    pub open spec fn wf(self) -> bool {
        true
    }

    /// The message is what the decoded fields `fs` hold.
    pub open spec fn decodes_to(self, fs: Seq<Seq<u8>>) -> bool {
        &&& fs.len() == 3
        &&& fs[0] == self.channel_id@
        &&& fs[1] == le_bytes(self.local_commitment_number as nat, 8)
        &&& fs[2] == le_bytes(self.remote_commitment_number as nat, 8)
    }

    /// The two messages hold the same values.
    pub open spec fn same(self, other: Self) -> bool {
        &&& self.channel_id == other.channel_id
        &&& self.local_commitment_number == other.local_commitment_number
        &&& self.remote_commitment_number == other.remote_commitment_number
    }

    fn exec_kinds() -> (r: Vec<FieldKind>)
        ensures
            r@ == Self::kinds(),
    {
        let mut r = Vec::new();
        r.push(FieldKind::Fixed(32));
        r.push(FieldKind::Fixed(8));
        r.push(FieldKind::Fixed(8));
        assert(r@ =~= Self::kinds());
        r
    }

    fn exec_checks() -> (r: Vec<FieldCheck>)
        ensures
            r@ == Self::checks(),
    {
        let mut r = Vec::new();
        r.push(FieldCheck::Plain);
        r.push(FieldCheck::Plain);
        r.push(FieldCheck::Plain);
        assert(r@ =~= Self::checks());
        r
    }

    /// The molecule encoding of the message.
    pub fn to_molecule_bytes(&self) -> (r: Vec<u8>)
        ensures
            r@ == self.spec_encode(),
    {
        let mut fs: Vec<Vec<u8>> = Vec::new();
        fs.push(slice_to_vec(self.channel_id.as_ref()));
        fs.push(encode_u64(self.local_commitment_number));
        fs.push(encode_u64(self.remote_commitment_number));
        assert(views(fs@) =~= self.fields());
        encode_dyn(&fs)
    }

    /// The message of fields that passed every check.
    pub(crate) fn from_checked_fields(fs: &Vec<Vec<u8>>) -> (r: Self)
        requires
            fs@.len() == 3,
            forall|i: int|
                0 <= i < 3 ==> #[trigger] spec_kind_check(Self::kinds()[i], views(fs@)[i]) is Ok,
            forall|i: int|
                0 <= i < 3 ==> #[trigger] spec_field_check(Self::checks()[i], views(fs@)[i]) is Ok,
        ensures
            r.wf(),
            r.decodes_to(views(fs@)),
    {
        assert(spec_kind_check(Self::kinds()[0], views(fs@)[0]) is Ok);
        assert(spec_field_check(Self::checks()[0], views(fs@)[0]) is Ok);
        let channel_id = Hash256::from_bytes(fs[0].as_slice());
        assert(spec_kind_check(Self::kinds()[1], views(fs@)[1]) is Ok);
        assert(spec_field_check(Self::checks()[1], views(fs@)[1]) is Ok);
        let local_commitment_number = decode_u64(fs[1].as_slice());
        assert(spec_kind_check(Self::kinds()[2], views(fs@)[2]) is Ok);
        assert(spec_field_check(Self::checks()[2], views(fs@)[2]) is Ok);
        let remote_commitment_number = decode_u64(fs[2].as_slice());
        let r = ReestablishChannel { channel_id, local_commitment_number, remote_commitment_number };
        assert(views(fs@).len() == 3);
        r
    }

    /// Decodes the molecule encoding of the message.
    pub fn from_molecule_slice(s: &[u8]) -> (r: Result<Self, Error>)
        ensures
            match Self::spec_decode(s@) {
                Ok(fs) => r matches Ok(m) && m.wf() && m.decodes_to(fs),
                Err(e) => r == Err::<Self, Error>(e),
            },
    {
        let ks = Self::exec_kinds();
        let cs = Self::exec_checks();
        proof {
            lemma_reestablish_channel_fits();
        }
        let fs = table_check(s, &ks, &cs)?;
        proof {
            lemma_table_check_fields(s@, ks@, cs@);
        }
        Ok(Self::from_checked_fields(&fs))
    }
}

proof fn lemma_reestablish_channel_fits()
    ensures
        ReestablishChannel::kinds().len() == 3,
        ReestablishChannel::checks().len() == 3,
        forall|i: int| 0 <= i < 3 ==> #[trigger] check_fits(ReestablishChannel::checks()[i], ReestablishChannel::kinds()[i]),
{
    assert forall|i: int| 0 <= i < 3 implies #[trigger] check_fits(ReestablishChannel::checks()[i], ReestablishChannel::kinds()[i]) by {
        // One case per field.
        if i == 0 {
        } else if i == 1 {
        } else if i == 2 {
        }
    }
}

/// The fields of a valid `ReestablishChannel` pass every check, when its encoding fits
/// in a molecule number.
/// The encoding of a `ReestablishChannel` is at most 112 bytes: its fields are of
/// bounded size, so it always fits in a molecule number.
pub proof fn lemma_reestablish_channel_size(m: ReestablishChannel)
    ensures
        m.spec_encode().len() <= 112,
{
    lemma_le_bytes_len(m.local_commitment_number as nat, 8);
    lemma_le_bytes_len(m.remote_commitment_number as nat, 8);
    assert forall|i: int| 0 <= i < 3 implies #[trigger] m.fields()[i].len() <= 32 by {
        // One case per field.
        if i == 0 {
        } else if i == 1 {
        } else if i == 2 {
        }
    }
    lemma_dyn_encode_bounded(m.fields(), 32);
}

proof fn lemma_reestablish_channel_checks(m: ReestablishChannel)
    requires
        m.wf(),
    ensures
        m.fields().len() == 3,
        forall|i: int|
            0 <= i < 3 ==> #[trigger] spec_kind_check(ReestablishChannel::kinds()[i], m.fields()[i]) is Ok,
        forall|i: int|
            0 <= i < 3 ==> #[trigger] spec_field_check(ReestablishChannel::checks()[i], m.fields()[i]) is Ok,
{
    lemma_reestablish_channel_size(m);
    lemma_fixed_lens_all();
    assert forall|i: int| 0 <= i < 3 implies #[trigger] spec_kind_check(ReestablishChannel::kinds()[i], m.fields()[i]) is Ok by {
        // One case per field.
        if i == 0 {
        } else if i == 1 {
        } else if i == 2 {
        }
    }
    assert forall|i: int| 0 <= i < 3 implies #[trigger] spec_field_check(ReestablishChannel::checks()[i], m.fields()[i]) is Ok by {
        // One case per field.
        if i == 0 {
        } else if i == 1 {
        } else if i == 2 {
        }
    }
}

/// Decoding the encoding of a valid `ReestablishChannel` succeeds, and gives back a
/// message that holds the same values.
pub proof fn lemma_reestablish_channel_roundtrip(m: ReestablishChannel, m2: ReestablishChannel)
    requires
        m.wf(),
    ensures
        ReestablishChannel::spec_decode(m.spec_encode()) == Ok::<Seq<Seq<u8>>, Error>(m.fields()),
        m2.wf() && m2.decodes_to(m.fields()) ==> m2.same(m),
{
    lemma_reestablish_channel_size(m);
    lemma_reestablish_channel_checks(m);
    lemma_table_check_encode(m.fields(), ReestablishChannel::kinds(), ReestablishChannel::checks());
    if m2.wf() && m2.decodes_to(m.fields()) {
        assert(m2.channel_id.0 =~= m.channel_id.0);
        lemma_u64_injective(m2.local_commitment_number, m.local_commitment_number);
        lemma_u64_injective(m2.remote_commitment_number, m.remote_commitment_number);
    }
}

/// A `ReestablishChannel` decoded from `s` encodes back to `s`.
pub proof fn lemma_reestablish_channel_decode_encode(s: Seq<u8>, m: ReestablishChannel)
    requires
        ReestablishChannel::spec_decode(s) is Ok,
        m.decodes_to(ReestablishChannel::spec_decode(s)->Ok_0),
    ensures
        m.spec_encode() == s,
{
    let fs = ReestablishChannel::spec_decode(s)->Ok_0;
    lemma_reestablish_channel_fits();
    lemma_table_check_fields(s, ReestablishChannel::kinds(), ReestablishChannel::checks());
    lemma_split_then_encode(s, Some(ReestablishChannel::kinds().len()));
    assert(m.fields() =~= fs);
}

/// The schema of `ReestablishChannel`, field by field in table order:
/// 0. `channel_id` (Byte32)
/// 1. `local_commitment_number` (Uint64)
/// 2. `remote_commitment_number` (Uint64)
/// Its encoding is the molecule table of these fields in this order, and
/// a message decoded from a table holds in each field the value that the
/// table's item at that position encodes.
pub proof fn lemma_reestablish_channel_schema(m: ReestablishChannel, fs: Seq<Seq<u8>>)
    ensures
        m.spec_encode() == dyn_encode(
            seq![
                m.channel_id@,
                le_bytes(m.local_commitment_number as nat, 8),
                le_bytes(m.remote_commitment_number as nat, 8),
            ],
        ),
        m.decodes_to(fs) ==> {
            &&& fs.len() == 3
            &&& fs[0] == m.channel_id@
            &&& fs[1] == le_bytes(m.local_commitment_number as nat, 8)
            &&& fs[2] == le_bytes(m.remote_commitment_number as nat, 8)
        },
{
}

/// Why a time-locked contract is removed.
#[derive(Debug, Copy, Clone, PartialEq, Eq)]
pub enum RemoveTlcReason {
    RemoveTlcFulfill(RemoveTlcFulfill),
    RemoveTlcFail(RemoveTlcFail),
}

impl RemoveTlcReason {
    /// The molecule encoding of the reason: a union whose item 0 is a
    /// fulfillment and item 1 a failure.
    pub open spec fn spec_encode(self) -> Seq<u8> {
        match self {
            RemoveTlcReason::RemoveTlcFulfill(f) => union_encode(0, f.spec_encode()),
            RemoveTlcReason::RemoveTlcFail(f) => union_encode(1, f.spec_encode()),
        }
    }

    /// Decoding the molecule encoding `s`: `Ok` when it is well formed.
    pub open spec fn spec_decode(s: Seq<u8>) -> Result<(), Error> {
        match spec_reason_check(s) {
            Ok(_) => Ok(()),
            Err(e) => Err(Error::Molecule(e)),
        }
    }

    /// The molecule encoding of the reason.
    pub fn to_molecule_bytes(&self) -> (r: Vec<u8>)
        ensures
            r@ == self.spec_encode(),
    {
        match self {
            RemoveTlcReason::RemoveTlcFulfill(f) => {
                let mut r = encode_le(0, 4);
                let mut inner = f.to_molecule_bytes();
                r.append(&mut inner);
                r
            },
            RemoveTlcReason::RemoveTlcFail(f) => {
                let mut r = encode_le(1, 4);
                let mut inner = f.to_molecule_bytes();
                r.append(&mut inner);
                r
            },
        }
    }

    /// The reason that well-formed bytes encode.
    pub(crate) fn from_checked(s: &[u8]) -> (r: Self)
        requires
            spec_reason_check(s@) is Ok,
        ensures
            r.spec_encode() == s@,
    {
        let id = decode_le(slice_subrange(s, 0, 4));
        let inner = slice_subrange(s, 4, s.len());
        proof {
            lemma_le_bytes_of_value(s@.subrange(0, 4));
            assert(inner@ =~= s@.skip(4));
            assert(s@ =~= s@.subrange(0, 4) + inner@);
        }
        if id == 0 {
            let fs = match split_dyn_exec(inner, Some(1)) {
                Ok(fs) => fs,
                Err(_) => {
                    assert(false);
                    Vec::new()
                },
            };
            proof {
                lemma_split_dyn_len(inner@, Some(1nat));
                lemma_split_then_encode(inner@, Some(1nat));
            }
            let h = Hash256::from_bytes(fs[0].as_slice());
            let f = RemoveTlcFulfill { payment_preimage: h };
            assert(f.fields() =~= views(fs@));
            RemoveTlcReason::RemoveTlcFulfill(f)
        } else {
            let fs = match split_dyn_exec(inner, Some(1)) {
                Ok(fs) => fs,
                Err(_) => {
                    assert(false);
                    Vec::new()
                },
            };
            proof {
                lemma_split_dyn_len(inner@, Some(1nat));
                lemma_split_then_encode(inner@, Some(1nat));
            }
            let c = decode_u32(fs[0].as_slice());
            let f = RemoveTlcFail { error_code: c };
            assert(f.fields() =~= views(fs@));
            RemoveTlcReason::RemoveTlcFail(f)
        }
    }

    /// Decodes the molecule encoding of a reason.
    pub fn from_molecule_slice(s: &[u8]) -> (r: Result<Self, Error>)
        ensures
            match Self::spec_decode(s@) {
                Ok(_) => r matches Ok(m) && m.spec_encode() == s@,
                Err(e) => r == Err::<Self, Error>(e),
            },
    {
        match crate::schema::kind_check(FieldKind::RemoveTlcReason, s) {
            Ok(()) => Ok(Self::from_checked(s)),
            Err(e) => Err(Error::Molecule(e)),
        }
    }
}

/// The encoding of a reason is at most 44 bytes.
pub proof fn lemma_reason_size(r: RemoveTlcReason)
    ensures
        r.spec_encode().len() <= 44,
{
    lemma_le_bytes_len(0, 4);
    lemma_le_bytes_len(1, 4);
    match r {
        RemoveTlcReason::RemoveTlcFulfill(f) => lemma_remove_tlc_fulfill_size(f),
        RemoveTlcReason::RemoveTlcFail(f) => lemma_remove_tlc_fail_size(f),
    }
}

/// The encoding of a reason passes its check, when it fits in a molecule
/// number.
pub proof fn lemma_reason_checks(r: RemoveTlcReason)
    requires
        r.spec_encode().len() < 0x1_0000_0000,
    ensures
        spec_reason_check(r.spec_encode()) is Ok,
{
    lemma_fixed_lens_all();
    let (id, inner) = match r {
        RemoveTlcReason::RemoveTlcFulfill(f) => (0nat, f.fields()),
        RemoveTlcReason::RemoveTlcFail(f) => (1nat, f.fields()),
    };
    let s = r.spec_encode();
    assert(s.subrange(0, 4) =~= number(id));
    assert(s.skip(4) =~= dyn_encode(inner));
    crate::bytes::lemma_le_value_of_bytes(id, 4);
    crate::bytes::lemma_pow256_values();
    lemma_encode_then_split(inner, Some(1nat));
}

/// Two reasons with the same encoding are the same, when it fits in a
/// molecule number.
pub proof fn lemma_reason_injective(a: RemoveTlcReason, b: RemoveTlcReason)
    requires
        a.spec_encode() == b.spec_encode(),
        a.spec_encode().len() < 0x1_0000_0000,
    ensures
        a == b,
{
    lemma_fixed_lens_all();
    let s = a.spec_encode();
    crate::bytes::lemma_pow256_values();
    crate::bytes::lemma_le_value_of_bytes(0, 4);
    crate::bytes::lemma_le_value_of_bytes(1, 4);
    match (a, b) {
        (RemoveTlcReason::RemoveTlcFulfill(x), RemoveTlcReason::RemoveTlcFulfill(y)) => {
            assert(s.skip(4) =~= dyn_encode(x.fields()));
            assert(b.spec_encode().skip(4) =~= dyn_encode(y.fields()));
            lemma_encode_then_split(x.fields(), Some(1nat));
            lemma_encode_then_split(y.fields(), Some(1nat));
            assert(x.fields()[0] == y.fields()[0]);
            assert(x.payment_preimage.0 =~= y.payment_preimage.0);
        },
        (RemoveTlcReason::RemoveTlcFail(x), RemoveTlcReason::RemoveTlcFail(y)) => {
            assert(s.skip(4) =~= dyn_encode(x.fields()));
            assert(b.spec_encode().skip(4) =~= dyn_encode(y.fields()));
            lemma_encode_then_split(x.fields(), Some(1nat));
            lemma_encode_then_split(y.fields(), Some(1nat));
            assert(x.fields()[0] == y.fields()[0]);
            lemma_u32_injective(x.error_code, y.error_code);
        },
        (RemoveTlcReason::RemoveTlcFulfill(x), RemoveTlcReason::RemoveTlcFail(y)) => {
            assert(s.subrange(0, 4) =~= number(0));
            assert(b.spec_encode().subrange(0, 4) =~= number(1));
        },
        (RemoveTlcReason::RemoveTlcFail(x), RemoveTlcReason::RemoveTlcFulfill(y)) => {
            assert(s.subrange(0, 4) =~= number(1));
            assert(b.spec_encode().subrange(0, 4) =~= number(0));
        },
    }
}

/// The messages of a transaction collaboration.
#[derive(Debug, Clone)]
pub enum TxCollaborationMsg {
    TxUpdate(TxUpdate),
    TxComplete(TxComplete),
}

impl OpenChannel {
    /// The CKB that the channel holds: the funding amount (cut to 64 bits)
    /// and the reserve when the channel funds CKB, the reserve alone when
    /// it funds a UDT. The sum must not overflow, where this panics.
    pub fn all_ckb_amount(&self) -> (r: u64)
        requires
            self.funding_udt_type_script is None ==> self.funding_amount as u64 as int
                + self.reserved_ckb_amount as int <= u64::MAX,
        ensures
            r as int == (if self.funding_udt_type_script is None {
                self.funding_amount as u64 as int + self.reserved_ckb_amount as int
            } else {
                self.reserved_ckb_amount as int
            }),
    {
        if self.funding_udt_type_script.is_none() {
            self.funding_amount as u64 + self.reserved_ckb_amount
        } else {
            self.reserved_ckb_amount
        }
    }
}

/// A message of the fiber protocol.
#[derive(Debug, Clone)]
pub enum FiberMessage {
    OpenChannel(OpenChannel),
    AcceptChannel(AcceptChannel),
    CommitmentSigned(CommitmentSigned),
    TxSignatures(TxSignatures),
    ChannelReady(ChannelReady),
    TxUpdate(TxUpdate),
    TxComplete(TxComplete),
    TxAbort(TxAbort),
    TxInitRBF(TxInitRBF),
    TxAckRBF(TxAckRBF),
    Shutdown(Shutdown),
    ClosingSigned(ClosingSigned),
    AddTlc(AddTlc),
    RevokeAndAck(RevokeAndAck),
    RemoveTlc(RemoveTlc),
    ReestablishChannel(ReestablishChannel),
}

/// Decoding the item `id` of the union `FiberMessage`.
pub open spec fn spec_decode_item(id: nat, s: Seq<u8>) -> Result<Seq<Seq<u8>>, Error> {
    if id == 0 {
        OpenChannel::spec_decode(s)
    } else if id == 1 {
        AcceptChannel::spec_decode(s)
    } else if id == 2 {
        CommitmentSigned::spec_decode(s)
    } else if id == 3 {
        TxSignatures::spec_decode(s)
    } else if id == 4 {
        ChannelReady::spec_decode(s)
    } else if id == 5 {
        TxUpdate::spec_decode(s)
    } else if id == 6 {
        TxComplete::spec_decode(s)
    } else if id == 7 {
        TxAbort::spec_decode(s)
    } else if id == 8 {
        TxInitRBF::spec_decode(s)
    } else if id == 9 {
        TxAckRBF::spec_decode(s)
    } else if id == 10 {
        Shutdown::spec_decode(s)
    } else if id == 11 {
        ClosingSigned::spec_decode(s)
    } else if id == 12 {
        AddTlc::spec_decode(s)
    } else if id == 13 {
        RevokeAndAck::spec_decode(s)
    } else if id == 14 {
        RemoveTlc::spec_decode(s)
    } else if id == 15 {
        ReestablishChannel::spec_decode(s)
    } else {
        Err(Error::Molecule(VerificationError::UnknownItem(16, id as u32)))
    }
}

impl FiberMessage {
    /// The item id of the message in the union.
    pub open spec fn id(self) -> nat {
        match self {
            FiberMessage::OpenChannel(m) => 0,
            FiberMessage::AcceptChannel(m) => 1,
            FiberMessage::CommitmentSigned(m) => 2,
            FiberMessage::TxSignatures(m) => 3,
            FiberMessage::ChannelReady(m) => 4,
            FiberMessage::TxUpdate(m) => 5,
            FiberMessage::TxComplete(m) => 6,
            FiberMessage::TxAbort(m) => 7,
            FiberMessage::TxInitRBF(m) => 8,
            FiberMessage::TxAckRBF(m) => 9,
            FiberMessage::Shutdown(m) => 10,
            FiberMessage::ClosingSigned(m) => 11,
            FiberMessage::AddTlc(m) => 12,
            FiberMessage::RevokeAndAck(m) => 13,
            FiberMessage::RemoveTlc(m) => 14,
            FiberMessage::ReestablishChannel(m) => 15,
        }
    }

    /// The encoding of each field of the message.
    pub open spec fn fields(self) -> Seq<Seq<u8>> {
        match self {
            FiberMessage::OpenChannel(m) => m.fields(),
            FiberMessage::AcceptChannel(m) => m.fields(),
            FiberMessage::CommitmentSigned(m) => m.fields(),
            FiberMessage::TxSignatures(m) => m.fields(),
            FiberMessage::ChannelReady(m) => m.fields(),
            FiberMessage::TxUpdate(m) => m.fields(),
            FiberMessage::TxComplete(m) => m.fields(),
            FiberMessage::TxAbort(m) => m.fields(),
            FiberMessage::TxInitRBF(m) => m.fields(),
            FiberMessage::TxAckRBF(m) => m.fields(),
            FiberMessage::Shutdown(m) => m.fields(),
            FiberMessage::ClosingSigned(m) => m.fields(),
            FiberMessage::AddTlc(m) => m.fields(),
            FiberMessage::RevokeAndAck(m) => m.fields(),
            FiberMessage::RemoveTlc(m) => m.fields(),
            FiberMessage::ReestablishChannel(m) => m.fields(),
        }
    }

    /// Every key, nonce, signature and script of the message is valid.
    pub open spec fn wf(self) -> bool {
        match self {
            FiberMessage::OpenChannel(m) => m.wf(),
            FiberMessage::AcceptChannel(m) => m.wf(),
            FiberMessage::CommitmentSigned(m) => m.wf(),
            FiberMessage::TxSignatures(m) => m.wf(),
            FiberMessage::ChannelReady(m) => m.wf(),
            FiberMessage::TxUpdate(m) => m.wf(),
            FiberMessage::TxComplete(m) => m.wf(),
            FiberMessage::TxAbort(m) => m.wf(),
            FiberMessage::TxInitRBF(m) => m.wf(),
            FiberMessage::TxAckRBF(m) => m.wf(),
            FiberMessage::Shutdown(m) => m.wf(),
            FiberMessage::ClosingSigned(m) => m.wf(),
            FiberMessage::AddTlc(m) => m.wf(),
            FiberMessage::RevokeAndAck(m) => m.wf(),
            FiberMessage::RemoveTlc(m) => m.wf(),
            FiberMessage::ReestablishChannel(m) => m.wf(),
        }
    }

    /// The channel that the message is about.
    pub open spec fn spec_channel_id(self) -> Hash256 {
        match self {
            FiberMessage::OpenChannel(m) => m.channel_id,
            FiberMessage::AcceptChannel(m) => m.channel_id,
            FiberMessage::CommitmentSigned(m) => m.channel_id,
            FiberMessage::TxSignatures(m) => m.channel_id,
            FiberMessage::ChannelReady(m) => m.channel_id,
            FiberMessage::TxUpdate(m) => m.channel_id,
            FiberMessage::TxComplete(m) => m.channel_id,
            FiberMessage::TxAbort(m) => m.channel_id,
            FiberMessage::TxInitRBF(m) => m.channel_id,
            FiberMessage::TxAckRBF(m) => m.channel_id,
            FiberMessage::Shutdown(m) => m.channel_id,
            FiberMessage::ClosingSigned(m) => m.channel_id,
            FiberMessage::AddTlc(m) => m.channel_id,
            FiberMessage::RevokeAndAck(m) => m.channel_id,
            FiberMessage::RemoveTlc(m) => m.channel_id,
            FiberMessage::ReestablishChannel(m) => m.channel_id,
        }
    }

    /// The molecule encoding of the message: its item id, then the message.
    pub open spec fn spec_encode(self) -> Seq<u8> {
        union_encode(self.id(), dyn_encode(self.fields()))
    }

    /// Decoding the molecule encoding `s`: the item id and the fields, or
    /// the first refusal.
    pub open spec fn spec_decode(s: Seq<u8>) -> Result<(nat, Seq<Seq<u8>>), Error> {
        if s.len() < 4 {
            Err(Error::Molecule(VerificationError::HeaderIsBroken(4, s.len() as usize)))
        } else {
            match spec_decode_item(read_number(s, 0), s.skip(4)) {
                Ok(fs) => Ok((read_number(s, 0), fs)),
                Err(e) => Err(e),
            }
        }
    }

    /// The message is what the decoded item `id` with fields `fs` holds.
    pub open spec fn decodes_to(self, id: nat, fs: Seq<Seq<u8>>) -> bool {
        match self {
            FiberMessage::OpenChannel(m) => id == 0 && m.decodes_to(fs),
            FiberMessage::AcceptChannel(m) => id == 1 && m.decodes_to(fs),
            FiberMessage::CommitmentSigned(m) => id == 2 && m.decodes_to(fs),
            FiberMessage::TxSignatures(m) => id == 3 && m.decodes_to(fs),
            FiberMessage::ChannelReady(m) => id == 4 && m.decodes_to(fs),
            FiberMessage::TxUpdate(m) => id == 5 && m.decodes_to(fs),
            FiberMessage::TxComplete(m) => id == 6 && m.decodes_to(fs),
            FiberMessage::TxAbort(m) => id == 7 && m.decodes_to(fs),
            FiberMessage::TxInitRBF(m) => id == 8 && m.decodes_to(fs),
            FiberMessage::TxAckRBF(m) => id == 9 && m.decodes_to(fs),
            FiberMessage::Shutdown(m) => id == 10 && m.decodes_to(fs),
            FiberMessage::ClosingSigned(m) => id == 11 && m.decodes_to(fs),
            FiberMessage::AddTlc(m) => id == 12 && m.decodes_to(fs),
            FiberMessage::RevokeAndAck(m) => id == 13 && m.decodes_to(fs),
            FiberMessage::RemoveTlc(m) => id == 14 && m.decodes_to(fs),
            FiberMessage::ReestablishChannel(m) => id == 15 && m.decodes_to(fs),
        }
    }

    /// The two messages hold the same values.
    pub open spec fn same(self, other: Self) -> bool {
        match (self, other) {
            (FiberMessage::OpenChannel(a), FiberMessage::OpenChannel(b)) => a.same(b),
            (FiberMessage::AcceptChannel(a), FiberMessage::AcceptChannel(b)) => a.same(b),
            (FiberMessage::CommitmentSigned(a), FiberMessage::CommitmentSigned(b)) => a.same(b),
            (FiberMessage::TxSignatures(a), FiberMessage::TxSignatures(b)) => a.same(b),
            (FiberMessage::ChannelReady(a), FiberMessage::ChannelReady(b)) => a.same(b),
            (FiberMessage::TxUpdate(a), FiberMessage::TxUpdate(b)) => a.same(b),
            (FiberMessage::TxComplete(a), FiberMessage::TxComplete(b)) => a.same(b),
            (FiberMessage::TxAbort(a), FiberMessage::TxAbort(b)) => a.same(b),
            (FiberMessage::TxInitRBF(a), FiberMessage::TxInitRBF(b)) => a.same(b),
            (FiberMessage::TxAckRBF(a), FiberMessage::TxAckRBF(b)) => a.same(b),
            (FiberMessage::Shutdown(a), FiberMessage::Shutdown(b)) => a.same(b),
            (FiberMessage::ClosingSigned(a), FiberMessage::ClosingSigned(b)) => a.same(b),
            (FiberMessage::AddTlc(a), FiberMessage::AddTlc(b)) => a.same(b),
            (FiberMessage::RevokeAndAck(a), FiberMessage::RevokeAndAck(b)) => a.same(b),
            (FiberMessage::RemoveTlc(a), FiberMessage::RemoveTlc(b)) => a.same(b),
            (FiberMessage::ReestablishChannel(a), FiberMessage::ReestablishChannel(b)) => a.same(b),
            _ => false,
        }
    }

    /// The channel that the message is about.
    pub fn get_channel_id(&self) -> (r: Hash256)
        ensures
            r == self.spec_channel_id(),
            match *self {
                FiberMessage::OpenChannel(m) => r == m.channel_id,
                FiberMessage::AcceptChannel(m) => r == m.channel_id,
                FiberMessage::CommitmentSigned(m) => r == m.channel_id,
                FiberMessage::TxSignatures(m) => r == m.channel_id,
                FiberMessage::ChannelReady(m) => r == m.channel_id,
                FiberMessage::TxUpdate(m) => r == m.channel_id,
                FiberMessage::TxComplete(m) => r == m.channel_id,
                FiberMessage::TxAbort(m) => r == m.channel_id,
                FiberMessage::TxInitRBF(m) => r == m.channel_id,
                FiberMessage::TxAckRBF(m) => r == m.channel_id,
                FiberMessage::Shutdown(m) => r == m.channel_id,
                FiberMessage::ClosingSigned(m) => r == m.channel_id,
                FiberMessage::AddTlc(m) => r == m.channel_id,
                FiberMessage::RevokeAndAck(m) => r == m.channel_id,
                FiberMessage::RemoveTlc(m) => r == m.channel_id,
                FiberMessage::ReestablishChannel(m) => r == m.channel_id,
            },
    {
        match self {
            FiberMessage::OpenChannel(m) => m.channel_id,
            FiberMessage::AcceptChannel(m) => m.channel_id,
            FiberMessage::CommitmentSigned(m) => m.channel_id,
            FiberMessage::TxSignatures(m) => m.channel_id,
            FiberMessage::ChannelReady(m) => m.channel_id,
            FiberMessage::TxUpdate(m) => m.channel_id,
            FiberMessage::TxComplete(m) => m.channel_id,
            FiberMessage::TxAbort(m) => m.channel_id,
            FiberMessage::TxInitRBF(m) => m.channel_id,
            FiberMessage::TxAckRBF(m) => m.channel_id,
            FiberMessage::Shutdown(m) => m.channel_id,
            FiberMessage::ClosingSigned(m) => m.channel_id,
            FiberMessage::AddTlc(m) => m.channel_id,
            FiberMessage::RevokeAndAck(m) => m.channel_id,
            FiberMessage::RemoveTlc(m) => m.channel_id,
            FiberMessage::ReestablishChannel(m) => m.channel_id,
        }
    }

    /// The molecule encoding of the message.
    pub fn to_molecule_bytes(&self) -> (r: Vec<u8>)
        ensures
            r@ == self.spec_encode(),
    {
        let (id, mut inner): (u128, Vec<u8>) = match self {
            FiberMessage::OpenChannel(m) => (0, m.to_molecule_bytes()),
            FiberMessage::AcceptChannel(m) => (1, m.to_molecule_bytes()),
            FiberMessage::CommitmentSigned(m) => (2, m.to_molecule_bytes()),
            FiberMessage::TxSignatures(m) => (3, m.to_molecule_bytes()),
            FiberMessage::ChannelReady(m) => (4, m.to_molecule_bytes()),
            FiberMessage::TxUpdate(m) => (5, m.to_molecule_bytes()),
            FiberMessage::TxComplete(m) => (6, m.to_molecule_bytes()),
            FiberMessage::TxAbort(m) => (7, m.to_molecule_bytes()),
            FiberMessage::TxInitRBF(m) => (8, m.to_molecule_bytes()),
            FiberMessage::TxAckRBF(m) => (9, m.to_molecule_bytes()),
            FiberMessage::Shutdown(m) => (10, m.to_molecule_bytes()),
            FiberMessage::ClosingSigned(m) => (11, m.to_molecule_bytes()),
            FiberMessage::AddTlc(m) => (12, m.to_molecule_bytes()),
            FiberMessage::RevokeAndAck(m) => (13, m.to_molecule_bytes()),
            FiberMessage::RemoveTlc(m) => (14, m.to_molecule_bytes()),
            FiberMessage::ReestablishChannel(m) => (15, m.to_molecule_bytes()),
        };
        let mut r = encode_le(id, 4);
        r.append(&mut inner);
        r
    }

    /// Decodes the molecule encoding of a message.
    pub fn from_molecule_slice(data: &[u8]) -> (r: Result<Self, Error>)
        ensures
            match Self::spec_decode(data@) {
                Ok((id, fs)) => r matches Ok(m) && m.wf() && m.decodes_to(id, fs),
                Err(e) => r == Err::<Self, Error>(e),
            },
    {
        if data.len() < 4 {
            return Err(Error::Molecule(VerificationError::HeaderIsBroken(4, data.len())));
        }
        let id = decode_le(slice_subrange(data, 0, 4));
        let inner = slice_subrange(data, 4, data.len());
        assert(inner@ =~= data@.skip(4));
        if id == 0 {
            Ok(FiberMessage::OpenChannel(OpenChannel::from_molecule_slice(inner)?))
        } else if id == 1 {
            Ok(FiberMessage::AcceptChannel(AcceptChannel::from_molecule_slice(inner)?))
        } else if id == 2 {
            Ok(FiberMessage::CommitmentSigned(CommitmentSigned::from_molecule_slice(inner)?))
        } else if id == 3 {
            Ok(FiberMessage::TxSignatures(TxSignatures::from_molecule_slice(inner)?))
        } else if id == 4 {
            Ok(FiberMessage::ChannelReady(ChannelReady::from_molecule_slice(inner)?))
        } else if id == 5 {
            Ok(FiberMessage::TxUpdate(TxUpdate::from_molecule_slice(inner)?))
        } else if id == 6 {
            Ok(FiberMessage::TxComplete(TxComplete::from_molecule_slice(inner)?))
        } else if id == 7 {
            Ok(FiberMessage::TxAbort(TxAbort::from_molecule_slice(inner)?))
        } else if id == 8 {
            Ok(FiberMessage::TxInitRBF(TxInitRBF::from_molecule_slice(inner)?))
        } else if id == 9 {
            Ok(FiberMessage::TxAckRBF(TxAckRBF::from_molecule_slice(inner)?))
        } else if id == 10 {
            Ok(FiberMessage::Shutdown(Shutdown::from_molecule_slice(inner)?))
        } else if id == 11 {
            Ok(FiberMessage::ClosingSigned(ClosingSigned::from_molecule_slice(inner)?))
        } else if id == 12 {
            Ok(FiberMessage::AddTlc(AddTlc::from_molecule_slice(inner)?))
        } else if id == 13 {
            Ok(FiberMessage::RevokeAndAck(RevokeAndAck::from_molecule_slice(inner)?))
        } else if id == 14 {
            Ok(FiberMessage::RemoveTlc(RemoveTlc::from_molecule_slice(inner)?))
        } else if id == 15 {
            Ok(FiberMessage::ReestablishChannel(ReestablishChannel::from_molecule_slice(inner)?))
        } else {
            Err(Error::Molecule(VerificationError::UnknownItem(16, id as u32)))
        }
    }
}

/// Decoding the encoding of a valid message succeeds with its item id and
/// fields, and gives back a message that holds the same values, when the
/// encoding fits in a molecule number.
#[verifier::spinoff_prover]
pub proof fn lemma_fiber_message_roundtrip(m: FiberMessage, m2: FiberMessage)
    requires
        m.wf(),
        m.spec_encode().len() < 0x1_0000_0000,
    ensures
        FiberMessage::spec_decode(m.spec_encode()) == Ok::<(nat, Seq<Seq<u8>>), Error>(
            (m.id(), m.fields()),
        ),
        m2.wf() && m2.decodes_to(m.id(), m.fields()) ==> m2.same(m),
{
    let s = m.spec_encode();
    lemma_le_bytes_len(m.id(), 4);
    assert(s.subrange(0, 4) =~= number(m.id()));
    assert(s.skip(4) =~= dyn_encode(m.fields()));
    crate::bytes::lemma_le_value_of_bytes(m.id(), 4);
    crate::bytes::lemma_pow256_values();
    assert(read_number(s, 0) == m.id());
    match m {
        FiberMessage::OpenChannel(a) => {
            let b = match m2 {
                FiberMessage::OpenChannel(b) => b,
                _ => a,
            };
            lemma_open_channel_roundtrip(a, b);
        },
        FiberMessage::AcceptChannel(a) => {
            let b = match m2 {
                FiberMessage::AcceptChannel(b) => b,
                _ => a,
            };
            lemma_accept_channel_roundtrip(a, b);
        },
        FiberMessage::CommitmentSigned(a) => {
            let b = match m2 {
                FiberMessage::CommitmentSigned(b) => b,
                _ => a,
            };
            lemma_commitment_signed_roundtrip(a, b);
        },
        FiberMessage::TxSignatures(a) => {
            let b = match m2 {
                FiberMessage::TxSignatures(b) => b,
                _ => a,
            };
            lemma_tx_signatures_roundtrip(a, b);
        },
        FiberMessage::ChannelReady(a) => {
            let b = match m2 {
                FiberMessage::ChannelReady(b) => b,
                _ => a,
            };
            lemma_channel_ready_roundtrip(a, b);
        },
        FiberMessage::TxUpdate(a) => {
            let b = match m2 {
                FiberMessage::TxUpdate(b) => b,
                _ => a,
            };
            lemma_tx_update_roundtrip(a, b);
        },
        FiberMessage::TxComplete(a) => {
            let b = match m2 {
                FiberMessage::TxComplete(b) => b,
                _ => a,
            };
            lemma_tx_complete_roundtrip(a, b);
        },
        FiberMessage::TxAbort(a) => {
            let b = match m2 {
                FiberMessage::TxAbort(b) => b,
                _ => a,
            };
            lemma_tx_abort_roundtrip(a, b);
        },
        FiberMessage::TxInitRBF(a) => {
            let b = match m2 {
                FiberMessage::TxInitRBF(b) => b,
                _ => a,
            };
            lemma_tx_init_rbf_roundtrip(a, b);
        },
        FiberMessage::TxAckRBF(a) => {
            let b = match m2 {
                FiberMessage::TxAckRBF(b) => b,
                _ => a,
            };
            lemma_tx_ack_rbf_roundtrip(a, b);
        },
        FiberMessage::Shutdown(a) => {
            let b = match m2 {
                FiberMessage::Shutdown(b) => b,
                _ => a,
            };
            lemma_shutdown_roundtrip(a, b);
        },
        FiberMessage::ClosingSigned(a) => {
            let b = match m2 {
                FiberMessage::ClosingSigned(b) => b,
                _ => a,
            };
            lemma_closing_signed_roundtrip(a, b);
        },
        FiberMessage::AddTlc(a) => {
            let b = match m2 {
                FiberMessage::AddTlc(b) => b,
                _ => a,
            };
            lemma_add_tlc_roundtrip(a, b);
        },
        FiberMessage::RevokeAndAck(a) => {
            let b = match m2 {
                FiberMessage::RevokeAndAck(b) => b,
                _ => a,
            };
            lemma_revoke_and_ack_roundtrip(a, b);
        },
        FiberMessage::RemoveTlc(a) => {
            let b = match m2 {
                FiberMessage::RemoveTlc(b) => b,
                _ => a,
            };
            lemma_remove_tlc_roundtrip(a, b);
        },
        FiberMessage::ReestablishChannel(a) => {
            let b = match m2 {
                FiberMessage::ReestablishChannel(b) => b,
                _ => a,
            };
            lemma_reestablish_channel_roundtrip(a, b);
        },
    }
}

/// A message decoded from `s` encodes back to `s`. (A `Shutdown` whose
/// force byte is neither 0 nor 1 decodes to a forced shutdown, which
/// encodes that byte as 1.)
#[verifier::spinoff_prover]
pub proof fn lemma_fiber_message_decode_encode(s: Seq<u8>, m: FiberMessage)
    requires
        FiberMessage::spec_decode(s) is Ok,
        m.decodes_to(FiberMessage::spec_decode(s)->Ok_0.0, FiberMessage::spec_decode(s)->Ok_0.1),
        m is Shutdown ==> FiberMessage::spec_decode(s)->Ok_0.1[3][0] <= 1,
    ensures
        m.spec_encode() == s,
{
    let inner = s.skip(4);
    match m {
        FiberMessage::OpenChannel(a) => {
            lemma_open_channel_decode_encode(inner, a);
        },
        FiberMessage::AcceptChannel(a) => {
            lemma_accept_channel_decode_encode(inner, a);
        },
        FiberMessage::CommitmentSigned(a) => {
            lemma_commitment_signed_decode_encode(inner, a);
        },
        FiberMessage::TxSignatures(a) => {
            lemma_tx_signatures_decode_encode(inner, a);
        },
        FiberMessage::ChannelReady(a) => {
            lemma_channel_ready_decode_encode(inner, a);
        },
        FiberMessage::TxUpdate(a) => {
            lemma_tx_update_decode_encode(inner, a);
        },
        FiberMessage::TxComplete(a) => {
            lemma_tx_complete_decode_encode(inner, a);
        },
        FiberMessage::TxAbort(a) => {
            lemma_tx_abort_decode_encode(inner, a);
        },
        FiberMessage::TxInitRBF(a) => {
            lemma_tx_init_rbf_decode_encode(inner, a);
        },
        FiberMessage::TxAckRBF(a) => {
            lemma_tx_ack_rbf_decode_encode(inner, a);
        },
        FiberMessage::Shutdown(a) => {
            lemma_shutdown_decode_encode(inner, a);
        },
        FiberMessage::ClosingSigned(a) => {
            lemma_closing_signed_decode_encode(inner, a);
        },
        FiberMessage::AddTlc(a) => {
            lemma_add_tlc_decode_encode(inner, a);
        },
        FiberMessage::RevokeAndAck(a) => {
            lemma_revoke_and_ack_decode_encode(inner, a);
        },
        FiberMessage::RemoveTlc(a) => {
            lemma_remove_tlc_decode_encode(inner, a);
        },
        FiberMessage::ReestablishChannel(a) => {
            lemma_reestablish_channel_decode_encode(inner, a);
        },
    }
    lemma_le_bytes_of_value(s.subrange(0, 4));
    lemma_le_bytes_len(m.id(), 4);
    assert(s =~= number(m.id()) + inner);
}

/// A message encodes as a union item: its item id, as a molecule number,
/// followed by the encoding of the message that it holds.
pub proof fn lemma_fiber_message_encode_item(m: FiberMessage)
    ensures
        m.spec_encode() == number(m.id()) + match m {
            FiberMessage::OpenChannel(a) => a.spec_encode(),
            FiberMessage::AcceptChannel(a) => a.spec_encode(),
            FiberMessage::CommitmentSigned(a) => a.spec_encode(),
            FiberMessage::TxSignatures(a) => a.spec_encode(),
            FiberMessage::ChannelReady(a) => a.spec_encode(),
            FiberMessage::TxUpdate(a) => a.spec_encode(),
            FiberMessage::TxComplete(a) => a.spec_encode(),
            FiberMessage::TxAbort(a) => a.spec_encode(),
            FiberMessage::TxInitRBF(a) => a.spec_encode(),
            FiberMessage::TxAckRBF(a) => a.spec_encode(),
            FiberMessage::Shutdown(a) => a.spec_encode(),
            FiberMessage::ClosingSigned(a) => a.spec_encode(),
            FiberMessage::AddTlc(a) => a.spec_encode(),
            FiberMessage::RevokeAndAck(a) => a.spec_encode(),
            FiberMessage::RemoveTlc(a) => a.spec_encode(),
            FiberMessage::ReestablishChannel(a) => a.spec_encode(),
        },
        match m {
            FiberMessage::OpenChannel(a) => m.spec_encode() == number(0) + a.spec_encode(),
            FiberMessage::AcceptChannel(a) => m.spec_encode() == number(1) + a.spec_encode(),
            FiberMessage::CommitmentSigned(a) => m.spec_encode() == number(2) + a.spec_encode(),
            FiberMessage::TxSignatures(a) => m.spec_encode() == number(3) + a.spec_encode(),
            FiberMessage::ChannelReady(a) => m.spec_encode() == number(4) + a.spec_encode(),
            FiberMessage::TxUpdate(a) => m.spec_encode() == number(5) + a.spec_encode(),
            FiberMessage::TxComplete(a) => m.spec_encode() == number(6) + a.spec_encode(),
            FiberMessage::TxAbort(a) => m.spec_encode() == number(7) + a.spec_encode(),
            FiberMessage::TxInitRBF(a) => m.spec_encode() == number(8) + a.spec_encode(),
            FiberMessage::TxAckRBF(a) => m.spec_encode() == number(9) + a.spec_encode(),
            FiberMessage::Shutdown(a) => m.spec_encode() == number(10) + a.spec_encode(),
            FiberMessage::ClosingSigned(a) => m.spec_encode() == number(11) + a.spec_encode(),
            FiberMessage::AddTlc(a) => m.spec_encode() == number(12) + a.spec_encode(),
            FiberMessage::RevokeAndAck(a) => m.spec_encode() == number(13) + a.spec_encode(),
            FiberMessage::RemoveTlc(a) => m.spec_encode() == number(14) + a.spec_encode(),
            FiberMessage::ReestablishChannel(a) => m.spec_encode() == number(15) + a.spec_encode(),
        },
{
}

/// Decoding a message decodes its item: after an item id of four bytes,
/// the rest is decoded as the message of that id, and its fields come
/// out, or its error comes out unchanged; an id past the last message is
/// refused. A message that a decoded item gives is of the kind of the id
/// and holds what the item decodes to.
pub proof fn lemma_fiber_message_decode_item(s: Seq<u8>, m: FiberMessage)
    requires
        s.len() >= 4,
    ensures
        match spec_decode_item(read_number(s, 0), s.skip(4)) {
            Ok(fs) => FiberMessage::spec_decode(s) == Ok::<(nat, Seq<Seq<u8>>), Error>(
                (read_number(s, 0), fs),
            ),
            Err(e) => FiberMessage::spec_decode(s) == Err::<(nat, Seq<Seq<u8>>), Error>(e),
        },
        read_number(s, 0) == 0 ==> spec_decode_item(read_number(s, 0), s.skip(4)) == OpenChannel::spec_decode(s.skip(4)),
        read_number(s, 0) == 1 ==> spec_decode_item(read_number(s, 0), s.skip(4)) == AcceptChannel::spec_decode(s.skip(4)),
        read_number(s, 0) == 2 ==> spec_decode_item(read_number(s, 0), s.skip(4)) == CommitmentSigned::spec_decode(s.skip(4)),
        read_number(s, 0) == 3 ==> spec_decode_item(read_number(s, 0), s.skip(4)) == TxSignatures::spec_decode(s.skip(4)),
        read_number(s, 0) == 4 ==> spec_decode_item(read_number(s, 0), s.skip(4)) == ChannelReady::spec_decode(s.skip(4)),
        read_number(s, 0) == 5 ==> spec_decode_item(read_number(s, 0), s.skip(4)) == TxUpdate::spec_decode(s.skip(4)),
        read_number(s, 0) == 6 ==> spec_decode_item(read_number(s, 0), s.skip(4)) == TxComplete::spec_decode(s.skip(4)),
        read_number(s, 0) == 7 ==> spec_decode_item(read_number(s, 0), s.skip(4)) == TxAbort::spec_decode(s.skip(4)),
        read_number(s, 0) == 8 ==> spec_decode_item(read_number(s, 0), s.skip(4)) == TxInitRBF::spec_decode(s.skip(4)),
        read_number(s, 0) == 9 ==> spec_decode_item(read_number(s, 0), s.skip(4)) == TxAckRBF::spec_decode(s.skip(4)),
        read_number(s, 0) == 10 ==> spec_decode_item(read_number(s, 0), s.skip(4)) == Shutdown::spec_decode(s.skip(4)),
        read_number(s, 0) == 11 ==> spec_decode_item(read_number(s, 0), s.skip(4)) == ClosingSigned::spec_decode(s.skip(4)),
        read_number(s, 0) == 12 ==> spec_decode_item(read_number(s, 0), s.skip(4)) == AddTlc::spec_decode(s.skip(4)),
        read_number(s, 0) == 13 ==> spec_decode_item(read_number(s, 0), s.skip(4)) == RevokeAndAck::spec_decode(s.skip(4)),
        read_number(s, 0) == 14 ==> spec_decode_item(read_number(s, 0), s.skip(4)) == RemoveTlc::spec_decode(s.skip(4)),
        read_number(s, 0) == 15 ==> spec_decode_item(read_number(s, 0), s.skip(4)) == ReestablishChannel::spec_decode(s.skip(4)),
        read_number(s, 0) >= 16 ==> FiberMessage::spec_decode(s) == Err::<(nat, Seq<Seq<u8>>), Error>(
            Error::Molecule(VerificationError::UnknownItem(16, read_number(s, 0) as u32)),
        ),
        forall|id: nat, fs: Seq<Seq<u8>>| #[trigger] m.decodes_to(id, fs) ==> m.id() == id && match m {
            FiberMessage::OpenChannel(a) => a.decodes_to(fs),
            FiberMessage::AcceptChannel(a) => a.decodes_to(fs),
            FiberMessage::CommitmentSigned(a) => a.decodes_to(fs),
            FiberMessage::TxSignatures(a) => a.decodes_to(fs),
            FiberMessage::ChannelReady(a) => a.decodes_to(fs),
            FiberMessage::TxUpdate(a) => a.decodes_to(fs),
            FiberMessage::TxComplete(a) => a.decodes_to(fs),
            FiberMessage::TxAbort(a) => a.decodes_to(fs),
            FiberMessage::TxInitRBF(a) => a.decodes_to(fs),
            FiberMessage::TxAckRBF(a) => a.decodes_to(fs),
            FiberMessage::Shutdown(a) => a.decodes_to(fs),
            FiberMessage::ClosingSigned(a) => a.decodes_to(fs),
            FiberMessage::AddTlc(a) => a.decodes_to(fs),
            FiberMessage::RevokeAndAck(a) => a.decodes_to(fs),
            FiberMessage::RemoveTlc(a) => a.decodes_to(fs),
            FiberMessage::ReestablishChannel(a) => a.decodes_to(fs),
        },
{
}

/// Every message is about the channel that its own `channel_id` field
/// names, whatever its kind: no other field of it is taken for the channel.
pub proof fn lemma_fiber_message_channel_id(m: FiberMessage)
    ensures
        match m {
            FiberMessage::OpenChannel(a) => m.spec_channel_id() == a.channel_id,
            FiberMessage::AcceptChannel(a) => m.spec_channel_id() == a.channel_id,
            FiberMessage::CommitmentSigned(a) => m.spec_channel_id() == a.channel_id,
            FiberMessage::TxSignatures(a) => m.spec_channel_id() == a.channel_id,
            FiberMessage::ChannelReady(a) => m.spec_channel_id() == a.channel_id,
            FiberMessage::TxUpdate(a) => m.spec_channel_id() == a.channel_id,
            FiberMessage::TxComplete(a) => m.spec_channel_id() == a.channel_id,
            FiberMessage::TxAbort(a) => m.spec_channel_id() == a.channel_id,
            FiberMessage::TxInitRBF(a) => m.spec_channel_id() == a.channel_id,
            FiberMessage::TxAckRBF(a) => m.spec_channel_id() == a.channel_id,
            FiberMessage::Shutdown(a) => m.spec_channel_id() == a.channel_id,
            FiberMessage::ClosingSigned(a) => m.spec_channel_id() == a.channel_id,
            FiberMessage::AddTlc(a) => m.spec_channel_id() == a.channel_id,
            FiberMessage::RevokeAndAck(a) => m.spec_channel_id() == a.channel_id,
            FiberMessage::RemoveTlc(a) => m.spec_channel_id() == a.channel_id,
            FiberMessage::ReestablishChannel(a) => m.spec_channel_id() == a.channel_id,
        },
{
}

} // verus!
