use fiber_types::ckb::{Script, Transaction};
use fiber_types::error::{Error, HexError, Musig2Error, Reason, SecpError};
use fiber_types::hash::Hash256;
use fiber_types::keys::{PartialSignature, PubNonce, Privkey, Pubkey, Signature};
use fiber_types::lock_time::LockTime;
use fiber_types::messages::{
    AcceptChannel, AddTlc, ChannelReady, ClosingSigned, CommitmentSigned, FiberMessage,
    HashAlgorithm, OpenChannel, ReestablishChannel, RemoveTlc, RemoveTlcFail, RemoveTlcFulfill,
    RemoveTlcReason, RevokeAndAck, Shutdown, TxAbort, TxAckRBF, TxComplete, TxInitRBF,
    TxSignatures, TxUpdate,
};
use fiber_types::molecule::VerificationError;

use molecule::prelude::{Builder, Entity};

fn key(n: u8) -> Privkey {
    let mut b = [0u8; 32];
    b[31] = n;
    Privkey::from_slice(&b)
}

fn pubkey(n: u8) -> Pubkey {
    key(n).pubkey()
}

fn nonce() -> PubNonce {
    let mut b = [0u8; 66];
    b[..33].copy_from_slice(&pubkey(5).serialize());
    b[33..].copy_from_slice(&pubkey(6).serialize());
    PubNonce::from_slice(&b).expect("two points")
}

fn script() -> Script {
    Script::from_slice(ckb_types::packed::Script::default().as_slice()).expect("script")
}

fn open_channel() -> OpenChannel {
    OpenChannel {
        chain_hash: [1; 32].into(),
        channel_id: [2; 32].into(),
        funding_udt_type_script: Some(script()),
        funding_amount: 300,
        reserved_ckb_amount: 62,
        funding_fee_rate: 1000,
        commitment_fee_rate: 2000,
        max_tlc_value_in_flight: u128::MAX,
        max_num_of_accept_tlcs: 30,
        min_tlc_value: 1,
        to_local_delay: LockTime::new(100),
        funding_pubkey: pubkey(1),
        revocation_basepoint: pubkey(2),
        payment_basepoint: pubkey(3),
        delayed_payment_basepoint: pubkey(4),
        tlc_basepoint: pubkey(5),
        first_per_commitment_point: pubkey(6),
        second_per_commitment_point: pubkey(7),
        next_local_nonce: nonce(),
        channel_flags: 1,
    }
}

#[test]
fn test_serde_public_key() {
    let sk = Privkey::from_slice(&[42; 32]);
    let public_key = sk.pubkey();
    let pk_str = format!("\"{}\"", hex::encode(public_key.serialize()));
    assert_eq!(
        "\"035be5e9478209674a96e60f1f037f6176540fd001fa1d64694770c56a7709c42c\"",
        &pk_str
    );
    let pubkey = Pubkey::from_slice(&public_key.serialize()).unwrap();
    assert_eq!(pubkey, public_key)
}

#[test]
fn test_add_tlc_serialization() {
    let add_tlc = AddTlc {
        channel_id: [42; 32].into(),
        tlc_id: 42,
        amount: 42,
        payment_hash: [42; 32].into(),
        expiry: 42.into(),
        hash_algorithm: HashAlgorithm::Sha256,
    };
    let add_tlc_mol = add_tlc.clone().to_molecule_bytes();
    let add_tlc2 = AddTlc::from_molecule_slice(&add_tlc_mol).expect("decode");
    assert_eq!(add_tlc, add_tlc2);
}

#[test]
fn lock_time_bytes_and_numbers() {
    let lt = LockTime::new(0x0102_0304_0506_0708);
    assert_eq!(lt.to_le_bytes(), [8, 7, 6, 5, 4, 3, 2, 1]);
    assert_eq!(LockTime::from_le_bytes([8, 7, 6, 5, 4, 3, 2, 1]), lt);
    assert_eq!(LockTime::from(7u64).to_u64(), 7);
    assert_eq!(LockTime::try_from_slice(&lt.to_le_bytes()), Ok(lt));
    assert_eq!(
        LockTime::try_from_slice(&[1, 2, 3]),
        Err(Error::AnyHow(Reason::InvalidLockTimeLength))
    );
}

#[test]
fn lock_time_since() {
    let lt = LockTime::new(42);
    assert_eq!(lt.to_since(), 42 | (1u64 << 63));
    assert_eq!(LockTime::try_from_since(lt.to_since()), Ok(lt));
    assert_eq!(
        LockTime::try_from_since(42),
        Err(Error::AnyHow(Reason::LockTimeNotRelative))
    );
    assert_eq!(
        LockTime::try_from_since((1u64 << 63) | 0x2000_0000_0000_0000 | 42),
        Err(Error::AnyHow(Reason::LockTimeNotBlockNumber))
    );
    assert_eq!(
        LockTime::try_from_since((1u64 << 63) | 0x6000_0000_0000_0000 | 42),
        Err(Error::AnyHow(Reason::LockTimeMetricUnknown))
    );
    // A value that reaches the metric bits does not come back.
    let big = LockTime::new(1u64 << 61);
    assert_eq!(
        LockTime::try_from_since(big.to_since()),
        Err(Error::AnyHow(Reason::LockTimeNotBlockNumber))
    );
}

#[test]
fn hash_text() {
    let h: Hash256 = [0xab; 32].into();
    let text = h.to_lower_hex(false);
    assert_eq!(text, "ab".repeat(32));
    assert_eq!(h.to_lower_hex(true), format!("0x{}", "ab".repeat(32)));
    assert_eq!(h.to_display_string(), format!("Hash256(0x{})", "ab".repeat(32)));
    assert_eq!(Hash256::from_str(&h.to_lower_hex(true)), Ok(h));
    assert_eq!(Hash256::from_str(&text), Ok(h));
    assert_eq!(Hash256::from_str(&format!("0x0x{}", "AB".repeat(32))), Ok(h));
    assert_eq!(
        Hash256::from_str("0xzz"),
        Err(Error::AnyHow(Reason::InvalidHex(HexError::InvalidHexCharacter { c: 'z', index: 0 })))
    );
    assert_eq!(
        Hash256::from_str("0xabc"),
        Err(Error::AnyHow(Reason::InvalidHex(HexError::OddLength)))
    );
    assert_eq!(
        Hash256::from_str("0xabcd"),
        Err(Error::AnyHow(Reason::InvalidHashLength))
    );
    assert_eq!(h.as_ref(), &[0xab; 32][..]);
}

#[test]
fn privkey_tweak_adds_scalars() {
    let k = key(1);
    let mut t = [0u8; 32];
    t[31] = 2;
    let sum = k.tweak(t);
    let mut expect = [0u8; 32];
    expect[31] = 3;
    assert_eq!(sum.as_ref(), &expect);
    // n - 1 plus 2 wraps around to 1.
    let n_minus_1 = hex::decode("fffffffffffffffffffffffffffffffebaaedce6af48a03bbfd25e8cd0364140")
        .unwrap();
    let big = Privkey::from_slice(&n_minus_1);
    assert_eq!(big.tweak(t).as_ref(), key(1).as_ref());
}

#[test]
fn pubkey_tweak_matches_privkey_tweak() {
    let mut t = [0u8; 32];
    t[31] = 2;
    assert_eq!(pubkey(1).tweak(t), key(3).pubkey());
    assert_eq!(pubkey(1).checked_tweak(t), Some(key(3).pubkey()));
    assert_ne!(pubkey(1).tweak(t), pubkey(1));
    // A zero scalar and an invalid key are refused.
    assert_eq!(pubkey(1).checked_tweak([0; 32]), None);
    assert_eq!(Pubkey([0; 33]).checked_tweak(t), None);
    // The key plus the negation of its own scalar is at infinity.
    let n_minus_1 = hex::decode("fffffffffffffffffffffffffffffffebaaedce6af48a03bbfd25e8cd0364140")
        .unwrap();
    let mut neg = [0u8; 32];
    neg.copy_from_slice(&n_minus_1);
    assert_eq!(pubkey(1).checked_tweak(neg), None);
}

#[test]
fn privkey_from_hash_and_pubkey() {
    let h: Hash256 = [42; 32].into();
    assert_eq!(Privkey::from_hash(h), Privkey::from_slice(&[42; 32]));
    assert_eq!(Privkey::from_hash(h).as_ref(), &[42; 32]);
}

#[test]
fn sign_recoverable_recovers_the_key() {
    let k = Privkey::from_slice(&[42; 32]);
    let msg = [7u8; 32];
    let sig = k.sign_ecdsa_recoverable(&msg);
    assert!(sig[64] <= 3);
    assert_eq!(Signature::from_slice(&sig[..64]).unwrap().serialize_compact()[..], sig[..64]);
    let id = secp256k1::ecdsa::RecoveryId::try_from(sig[64] as i32).unwrap();
    let rec = secp256k1::ecdsa::RecoverableSignature::from_compact(&sig[..64], id).unwrap();
    let secp = secp256k1::Secp256k1::new();
    let pk = secp.recover_ecdsa(secp256k1::Message::from_digest(msg), &rec).unwrap();
    assert_eq!(pk.serialize(), k.pubkey().serialize());
}

#[test]
fn signature_and_scalars_from_slices() {
    let mut compact = [0u8; 64];
    compact[31] = 1;
    compact[63] = 1;
    let s = Signature::from_slice(&compact).unwrap();
    assert_eq!(s.serialize_compact(), compact);
    assert_eq!(
        Signature::from_slice(&[0xff; 64]),
        Err(Error::Secp(SecpError::InvalidSignature))
    );
    assert_eq!(
        Pubkey::from_slice(&[0; 33]),
        Err(Error::Secp(SecpError::InvalidPublicKey))
    );
    assert_eq!(
        PubNonce::from_slice(&[0; 66]),
        Err(Error::Musig2(Musig2Error::InvalidPubNonce))
    );
    assert_eq!(PartialSignature::from_slice(&[0; 32]).unwrap().serialize(), [0; 32]);
    assert_eq!(
        PartialSignature::from_slice(&[0xff; 32]),
        Err(Error::AnyHow(Reason::InvalidPartialSignature))
    );
    assert_eq!(nonce().to_bytes()[..33], pubkey(5).serialize());
}

#[test]
fn hash_algorithm_bytes() {
    assert_eq!(HashAlgorithm::try_from_byte(0), Ok(HashAlgorithm::CkbHash));
    assert_eq!(HashAlgorithm::try_from_byte(1), Ok(HashAlgorithm::Sha256));
    assert_eq!(
        HashAlgorithm::try_from_byte(2),
        Err(Error::AnyHow(Reason::UnknownHashAlgorithm))
    );
    assert_eq!(HashAlgorithm::Sha256.byte(), 1);
}

#[test]
fn add_tlc_encoding_layout() {
    let add_tlc = AddTlc {
        channel_id: [1; 32].into(),
        tlc_id: 2,
        amount: 3,
        payment_hash: [4; 32].into(),
        expiry: 5.into(),
        hash_algorithm: HashAlgorithm::CkbHash,
    };
    let b = add_tlc.to_molecule_bytes();
    // Header of six offsets, then 32 + 8 + 16 + 32 + 8 + 1 bytes.
    let total = 4 * 7 + 32 + 8 + 16 + 32 + 8 + 1;
    assert_eq!(b.len(), total);
    assert_eq!(&b[0..4], &(total as u32).to_le_bytes());
    assert_eq!(&b[4..8], &28u32.to_le_bytes());
    assert_eq!(&b[8..12], &60u32.to_le_bytes());
    assert_eq!(&b[28..60], &[1; 32]);
    assert_eq!(&b[60..68], &2u64.to_le_bytes());
    assert_eq!(b[total - 1], 0);
}

#[test]
fn add_tlc_refusals() {
    let add_tlc = AddTlc {
        channel_id: [1; 32].into(),
        tlc_id: 2,
        amount: 3,
        payment_hash: [4; 32].into(),
        expiry: 5.into(),
        hash_algorithm: HashAlgorithm::Sha256,
    };
    let b = add_tlc.to_molecule_bytes();
    assert_eq!(
        AddTlc::from_molecule_slice(&b[..3]).unwrap_err(),
        Error::Molecule(VerificationError::HeaderIsBroken(4, 3))
    );
    assert_eq!(
        AddTlc::from_molecule_slice(&b[..b.len() - 1]).unwrap_err(),
        Error::Molecule(VerificationError::TotalSizeNotMatch(b.len(), b.len() - 1))
    );
    let mut bad_alg = b.clone();
    let last = bad_alg.len() - 1;
    bad_alg[last] = 7;
    assert_eq!(
        AddTlc::from_molecule_slice(&bad_alg).unwrap_err(),
        Error::AnyHow(Reason::UnknownHashAlgorithm)
    );
    // A table of another field count.
    let other = ChannelReady { channel_id: [1; 32].into() }.to_molecule_bytes();
    assert_eq!(
        AddTlc::from_molecule_slice(&other).unwrap_err(),
        Error::Molecule(VerificationError::FieldCountNotMatch(6, 1))
    );
    // Offsets that go down.
    let mut bad_offsets = b.clone();
    bad_offsets[8..12].copy_from_slice(&20u32.to_le_bytes());
    assert_eq!(
        AddTlc::from_molecule_slice(&bad_offsets).unwrap_err(),
        Error::Molecule(VerificationError::OffsetsNotMatch)
    );
}

#[test]
fn open_channel_roundtrip_and_amount() {
    let oc = open_channel();
    let b = oc.to_molecule_bytes();
    let oc2 = OpenChannel::from_molecule_slice(&b).unwrap();
    assert_eq!(oc2.to_molecule_bytes(), b);
    assert_eq!(oc2.funding_pubkey, pubkey(1));
    assert_eq!(oc2.max_tlc_value_in_flight, u128::MAX);
    assert_eq!(oc.all_ckb_amount(), 62);
    let mut ckb = open_channel();
    ckb.funding_udt_type_script = None;
    assert_eq!(ckb.all_ckb_amount(), 362);
    let b = ckb.to_molecule_bytes();
    assert!(OpenChannel::from_molecule_slice(&b)
        .unwrap()
        .funding_udt_type_script
        .is_none());
}

#[test]
fn open_channel_refusals() {
    let oc = open_channel();
    let b = oc.to_molecule_bytes();
    let good = b.clone();
    // Find the funding pubkey and break it.
    let pk = pubkey(1).serialize();
    let pos = good.windows(33).position(|w| w == pk).unwrap();
    let mut bad = good.clone();
    bad[pos] = 0x05;
    assert_eq!(
        OpenChannel::from_molecule_slice(&bad).unwrap_err(),
        Error::Secp(SecpError::InvalidPublicKey)
    );
    let n = nonce().to_bytes();
    let pos = good.windows(66).rposition(|w| w == n).unwrap();
    let mut bad = good.clone();
    bad[pos] = 0x05;
    assert_eq!(
        OpenChannel::from_molecule_slice(&bad).unwrap_err(),
        Error::Musig2(Musig2Error::InvalidPubNonce)
    );
}

#[test]
fn accept_channel_roundtrip() {
    let ac = AcceptChannel {
        channel_id: [9; 32].into(),
        funding_amount: 1,
        reserved_ckb_amount: 2,
        max_tlc_value_in_flight: 3,
        max_num_of_accept_tlcs: 4,
        min_tlc_value: 5,
        to_local_delay: LockTime::new(6),
        funding_pubkey: pubkey(1),
        revocation_basepoint: pubkey(2),
        payment_basepoint: pubkey(3),
        delayed_payment_basepoint: pubkey(4),
        tlc_basepoint: pubkey(5),
        first_per_commitment_point: pubkey(6),
        second_per_commitment_point: pubkey(7),
        next_local_nonce: nonce(),
    };
    let b = ac.to_molecule_bytes();
    let ac2 = AcceptChannel::from_molecule_slice(&b).unwrap();
    assert_eq!(ac2.to_molecule_bytes(), b);
    assert_eq!(ac2.to_local_delay, LockTime::new(6));
}

#[test]
fn commitment_and_closing_signed() {
    let mut psig = [0u8; 32];
    psig[31] = 9;
    let cs = CommitmentSigned {
        channel_id: [3; 32].into(),
        partial_signature: PartialSignature::from_slice(&psig).unwrap(),
        next_local_nonce: nonce(),
    };
    let b = cs.to_molecule_bytes();
    let cs2 = CommitmentSigned::from_molecule_slice(&b).unwrap();
    assert_eq!(cs2.partial_signature.serialize(), psig);
    let mut bad = b.clone();
    let pos = b.windows(32).position(|w| w == psig).unwrap();
    bad[pos..pos + 32].copy_from_slice(&[0xff; 32]);
    assert_eq!(
        CommitmentSigned::from_molecule_slice(&bad).unwrap_err(),
        Error::AnyHow(Reason::InvalidPartialSignature)
    );
    let n = nonce().to_bytes();
    let pos = b.windows(66).position(|w| w == n).unwrap();
    let mut bad = b.clone();
    bad[pos] = 0x05;
    assert_eq!(
        CommitmentSigned::from_molecule_slice(&bad).unwrap_err(),
        Error::AnyHow(Reason::InvalidPubNonce)
    );
    let closing = ClosingSigned {
        channel_id: [3; 32].into(),
        partial_signature: PartialSignature::from_slice(&psig).unwrap(),
    };
    let b = closing.to_molecule_bytes();
    assert_eq!(ClosingSigned::from_molecule_slice(&b).unwrap().to_molecule_bytes(), b);
}

#[test]
fn tx_messages_roundtrip() {
    let sigs = TxSignatures {
        channel_id: [1; 32].into(),
        tx_hash: [2; 32].into(),
        witnesses: vec![vec![], vec![1, 2, 3], vec![4]],
    };
    let b = sigs.to_molecule_bytes();
    let sigs2 = TxSignatures::from_molecule_slice(&b).unwrap();
    assert_eq!(sigs2.witnesses, vec![vec![], vec![1, 2, 3], vec![4]]);
    // The same witnesses as ckb-types encodes them.
    let packed: ckb_types::packed::BytesVec = ckb_types::packed::BytesVec::new_builder()
        .set(
            sigs.witnesses
                .iter()
                .map(|w| ckb_types::prelude::Pack::pack(w.as_slice()))
                .collect(),
        )
        .build();
    assert!(b.windows(packed.as_slice().len()).any(|w| w == packed.as_slice()));

    let tx = Transaction::from_slice(ckb_types::packed::Transaction::default().as_slice()).unwrap();
    let upd = TxUpdate { channel_id: [1; 32].into(), tx };
    let b = upd.to_molecule_bytes();
    assert_eq!(TxUpdate::from_molecule_slice(&b).unwrap().tx.as_slice(), ckb_types::packed::Transaction::default().as_slice());
    assert_eq!(
        Transaction::from_slice(&[1, 2]).unwrap_err(),
        Error::Molecule(VerificationError::HeaderIsBroken(4, 2))
    );

    let abort = TxAbort { channel_id: [1; 32].into(), message: b"bye".to_vec() };
    let b = abort.to_molecule_bytes();
    assert_eq!(TxAbort::from_molecule_slice(&b).unwrap().message, b"bye".to_vec());

    let rbf = TxInitRBF { channel_id: [1; 32].into(), fee_rate: 77 };
    let b = rbf.to_molecule_bytes();
    assert_eq!(TxInitRBF::from_molecule_slice(&b).unwrap().fee_rate, 77);

    for b in [
        TxComplete { channel_id: [1; 32].into() }.to_molecule_bytes(),
        TxAckRBF { channel_id: [1; 32].into() }.to_molecule_bytes(),
    ] {
        assert_eq!(b.len(), 8 + 32);
    }
}

#[test]
fn shutdown_force_flag() {
    let sd = Shutdown {
        channel_id: [1; 32].into(),
        close_script: script(),
        fee_rate: 1000,
        force: true,
    };
    let b = sd.to_molecule_bytes();
    let sd2 = Shutdown::from_molecule_slice(&b).unwrap();
    assert!(sd2.force);
    assert_eq!(sd2.fee_rate, 1000);
    let mut other = b.clone();
    let last = other.len() - 1;
    other[last] = 5;
    let forced = Shutdown::from_molecule_slice(&other).unwrap();
    assert!(forced.force);
    // Decoding and encoding again gives back every byte but the flag, as 1.
    assert_eq!(forced.to_molecule_bytes(), b);
    other[last] = 0;
    assert!(!Shutdown::from_molecule_slice(&other).unwrap().force);
    assert_eq!(
        Script::from_slice(&[0, 0, 0, 0, 0]).unwrap_err(),
        Error::Molecule(VerificationError::TotalSizeNotMatch(0, 5))
    );
}

#[test]
fn remove_tlc_reasons() {
    let fulfill = RemoveTlcReason::RemoveTlcFulfill(RemoveTlcFulfill { payment_preimage: [8; 32].into() });
    let fail = RemoveTlcReason::RemoveTlcFail(RemoveTlcFail { error_code: 0x01020304 });
    for reason in [fulfill, fail] {
        let b = reason.to_molecule_bytes();
        assert_eq!(RemoveTlcReason::from_molecule_slice(&b).unwrap(), reason);
        let rt = RemoveTlc { channel_id: [1; 32].into(), tlc_id: 9, reason };
        let b = rt.to_molecule_bytes();
        assert_eq!(RemoveTlc::from_molecule_slice(&b).unwrap().reason, reason);
    }
    let b = fail.to_molecule_bytes();
    assert_eq!(&b[0..4], &1u32.to_le_bytes());
    let mut bad = b.clone();
    bad[0] = 2;
    assert_eq!(
        RemoveTlcReason::from_molecule_slice(&bad).unwrap_err(),
        Error::Molecule(VerificationError::UnknownItem(2, 2))
    );
    let f = RemoveTlcFail { error_code: 5 };
    assert_eq!(RemoveTlcFail::from_molecule_slice(&f.to_molecule_bytes()).unwrap(), f);
    let f = RemoveTlcFulfill { payment_preimage: [3; 32].into() };
    assert_eq!(RemoveTlcFulfill::from_molecule_slice(&f.to_molecule_bytes()).unwrap(), f);
}

#[test]
fn fiber_message_roundtrip_and_channel_id() {
    let messages = vec![
        FiberMessage::OpenChannel(open_channel()),
        FiberMessage::ChannelReady(ChannelReady { channel_id: [4; 32].into() }),
        FiberMessage::RevokeAndAck(RevokeAndAck {
            channel_id: [5; 32].into(),
            per_commitment_secret: [6; 32].into(),
            next_per_commitment_point: pubkey(2),
        }),
        FiberMessage::ReestablishChannel(ReestablishChannel {
            channel_id: [7; 32].into(),
            local_commitment_number: 1,
            remote_commitment_number: 2,
        }),
        FiberMessage::AddTlc(AddTlc {
            channel_id: [8; 32].into(),
            tlc_id: 42,
            amount: 42,
            payment_hash: [42; 32].into(),
            expiry: 42.into(),
            hash_algorithm: HashAlgorithm::Sha256,
        }),
    ];
    let ids = [0u32, 4, 13, 15, 12];
    let channels: [[u8; 32]; 5] = [[2; 32], [4; 32], [5; 32], [7; 32], [8; 32]];
    for ((m, id), ch) in messages.into_iter().zip(ids).zip(channels) {
        let b = m.to_molecule_bytes();
        assert_eq!(&b[0..4], &id.to_le_bytes());
        let m2 = FiberMessage::from_molecule_slice(&b).unwrap();
        assert_eq!(m2.to_molecule_bytes(), b);
        assert_eq!(m2.get_channel_id(), Hash256::from(ch));
        assert_eq!(m.get_channel_id(), Hash256::from(ch));
    }
    assert_eq!(
        FiberMessage::from_molecule_slice(&[16, 0, 0, 0]).unwrap_err(),
        Error::Molecule(VerificationError::UnknownItem(16, 16))
    );
    assert_eq!(
        FiberMessage::from_molecule_slice(&[0, 0]).unwrap_err(),
        Error::Molecule(VerificationError::HeaderIsBroken(4, 2))
    );
}

#[test]
fn hex_errors_name_the_byte() {
    assert_eq!(
        Hash256::from_str("0x0g"),
        Err(Error::AnyHow(Reason::InvalidHex(HexError::InvalidHexCharacter { c: 'g', index: 1 })))
    );
    // Positions and lengths count bytes: "é" is two bytes, neither a digit.
    assert_eq!(
        Hash256::from_str("\u{e9}"),
        Err(Error::AnyHow(Reason::InvalidHex(HexError::InvalidHexCharacter {
            c: '\u{c3}',
            index: 0
        })))
    );
    assert_eq!(
        Hash256::from_str("a\u{e9}"),
        Err(Error::AnyHow(Reason::InvalidHex(HexError::OddLength)))
    );
    assert_eq!(
        Hash256::from_str(&format!("{}zz", "00".repeat(40))),
        Err(Error::AnyHow(Reason::InvalidHex(HexError::InvalidHexCharacter { c: 'z', index: 80 })))
    );
}

#[test]
fn pubkey_encoding_roundtrip() {
    for n in 1..20u8 {
        let p = pubkey(n);
        let b = p.serialize();
        assert!(b[0] == 2 || b[0] == 3);
        assert_eq!(Pubkey::from_slice(&b), Ok(p));
        let mut other = b;
        other[0] = 4;
        assert_eq!(
            Pubkey::from_slice(&other),
            Err(Error::Secp(SecpError::InvalidPublicKey))
        );
    }
}

#[test]
fn compact_signature_scalars_below_order() {
    let order: [u8; 32] = [
        0xFF, 0xFF, 0xFF, 0xFF, 0xFF, 0xFF, 0xFF, 0xFF, 0xFF, 0xFF, 0xFF, 0xFF, 0xFF, 0xFF, 0xFF,
        0xFE, 0xBA, 0xAE, 0xDC, 0xE6, 0xAF, 0x48, 0xA0, 0x3B, 0xBF, 0xD2, 0x5E, 0x8C, 0xD0, 0x36,
        0x41, 0x41,
    ];
    let mut below = order;
    below[31] = 0x40;
    let mut sig = [0u8; 64];
    sig[..32].copy_from_slice(&below);
    sig[32..].copy_from_slice(&below);
    assert_eq!(Signature::from_slice(&sig).unwrap().serialize_compact(), sig);
    let mut r_at_order = sig;
    r_at_order[..32].copy_from_slice(&order);
    assert_eq!(
        Signature::from_slice(&r_at_order),
        Err(Error::Secp(SecpError::InvalidSignature))
    );
    let mut s_at_order = sig;
    s_at_order[32..].copy_from_slice(&order);
    assert_eq!(
        Signature::from_slice(&s_at_order),
        Err(Error::Secp(SecpError::InvalidSignature))
    );
}

#[test]
fn pub_nonce_needs_two_points() {
    let good = nonce().to_bytes();
    let mut half = good;
    half[33..].copy_from_slice(&[0; 33]);
    assert_eq!(
        PubNonce::from_slice(&half),
        Err(Error::Musig2(Musig2Error::InvalidPubNonce))
    );
    let mut other_half = good;
    other_half[..33].copy_from_slice(&[0; 33]);
    assert_eq!(
        PubNonce::from_slice(&other_half),
        Err(Error::Musig2(Musig2Error::InvalidPubNonce))
    );
    assert_eq!(PubNonce::from_slice(&good).unwrap().to_bytes(), good);
}

#[test]
fn molecule_errors_carry_sizes() {
    // A table of one field of 31 bytes where a 32-byte hash belongs.
    let mut b = Vec::new();
    b.extend_from_slice(&(8u32 + 31).to_le_bytes());
    b.extend_from_slice(&8u32.to_le_bytes());
    b.extend_from_slice(&[1; 31]);
    assert_eq!(
        ChannelReady::from_molecule_slice(&b).unwrap_err(),
        Error::Molecule(VerificationError::TotalSizeNotMatch(32, 31))
    );
    // A table whose first offset points past its end.
    let mut short = Vec::new();
    short.extend_from_slice(&12u32.to_le_bytes());
    short.extend_from_slice(&16u32.to_le_bytes());
    short.extend_from_slice(&[0; 4]);
    assert_eq!(
        ChannelReady::from_molecule_slice(&short).unwrap_err(),
        Error::Molecule(VerificationError::HeaderIsBroken(16, 12))
    );
    // A table of four bytes: its header needs eight.
    assert_eq!(
        ChannelReady::from_molecule_slice(&4u32.to_le_bytes()).unwrap_err(),
        Error::Molecule(VerificationError::HeaderIsBroken(8, 4))
    );
    // A message whose `Bytes` field says 5 bytes and holds 3.
    let abort = TxAbort { channel_id: [1; 32].into(), message: b"bye".to_vec() };
    let mut m = abort.to_molecule_bytes();
    let at = m.len() - 7;
    m[at..at + 4].copy_from_slice(&5u32.to_le_bytes());
    assert_eq!(
        TxAbort::from_molecule_slice(&m).unwrap_err(),
        Error::Molecule(VerificationError::TotalSizeNotMatch(9, 7))
    );
}

#[test]
fn fiber_message_decodes_its_item() {
    // The error of the item comes out unchanged.
    let mut b = vec![4u8, 0, 0, 0];
    b.extend_from_slice(&[1, 2]);
    assert_eq!(
        FiberMessage::from_molecule_slice(&b).unwrap_err(),
        Error::Molecule(VerificationError::HeaderIsBroken(4, 2))
    );
    // The item is the message's own encoding.
    let ready = ChannelReady { channel_id: [9; 32].into() };
    let inner = ready.to_molecule_bytes();
    let m = FiberMessage::ChannelReady(ready);
    let b = m.to_molecule_bytes();
    assert_eq!(&b[..4], &4u32.to_le_bytes());
    assert_eq!(&b[4..], &inner[..]);
    match FiberMessage::from_molecule_slice(&b).unwrap() {
        FiberMessage::ChannelReady(r) => assert_eq!(r.channel_id, Hash256::from([9; 32])),
        _ => panic!("another kind of message"),
    }
}

#[test]
fn tweak_commutes_with_pubkey() {
    for n in 1..10u8 {
        let k = key(n);
        let mut s = [0u8; 32];
        s[31] = 100 + n;
        s[0] = n;
        let tweaked = k.tweak(s);
        assert_eq!(k.pubkey().tweak(s), tweaked.pubkey());
        assert_eq!(k.pubkey().checked_tweak(s), Some(tweaked.pubkey()));
    }
}
