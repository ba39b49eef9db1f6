//! 32-byte hashes and their hexadecimal text form.
use vstd::prelude::*;

use vstd::string::StringSliceAdditionalSpecFns;
use vstd::utf8::{encode_utf8, is_ascii_chars, is_ascii_chars_encode_utf8};

use crate::error::{Error, HexError, Reason};

verus! {

// ------------------------------------------------------------------------
// Hexadecimal text.
/// The lowercase hexadecimal digit of `v < 16`.
pub open spec fn hex_char(v: nat) -> char {
    if v < 10 {
        (48 + v) as char
    } else {
        (87 + v) as char
    }
}

/// The value of a hexadecimal digit, either case.
pub open spec fn hex_digit(c: char) -> Option<nat> {
    if '0' <= c <= '9' {
        Some((c as nat - 48) as nat)
    } else if 'a' <= c <= 'f' {
        Some((c as nat - 87) as nat)
    } else if 'A' <= c <= 'F' {
        Some((c as nat - 55) as nat)
    } else {
        None
    }
}

/// Two lowercase hexadecimal digits per byte, high digit first.
pub open spec fn hex_encode(b: Seq<u8>) -> Seq<char>
    decreases b.len(),
{
    if b.len() == 0 {
        Seq::empty()
    } else {
        seq![hex_char(b[0] as nat / 16), hex_char(b[0] as nat % 16)] + hex_encode(b.drop_first())
    }
}

/// The value of a hexadecimal digit byte, either case.
pub open spec fn hex_byte(b: u8) -> Option<nat> {
    hex_digit(b as char)
}

/// The bytes of the digit pairs of `s`, whose first byte stands at `index`
/// of the whole text: the first byte that is not a digit is the error.
pub open spec fn hex_decode_pairs(s: Seq<u8>, index: nat) -> Result<Seq<u8>, HexError>
    decreases s.len(),
{
    if s.len() < 2 {
        Ok(Seq::empty())
    } else {
        match hex_byte(s[0]) {
            None => Err(HexError::InvalidHexCharacter { c: s[0] as char, index: index as usize }),
            Some(h) => match hex_byte(s[1]) {
                None => Err(
                    HexError::InvalidHexCharacter { c: s[1] as char, index: (index + 1) as usize },
                ),
                Some(l) => match hex_decode_pairs(s.skip(2), index + 2) {
                    Ok(rest) => Ok(seq![(16 * h + l) as u8] + rest),
                    Err(e) => Err(e),
                },
            },
        }
    }
}

/// `hex::decode` on the bytes of a text: an odd length is refused first,
/// then the first byte that is not a hexadecimal digit.
pub open spec fn hex_decode_bytes(s: Seq<u8>) -> Result<Seq<u8>, HexError> {
    if s.len() % 2 != 0 {
        Err(HexError::OddLength)
    } else {
        hex_decode_pairs(s, 0)
    }
}

/// `s` with every leading `"0x"` taken off.
pub open spec fn strip_0x(s: Seq<char>) -> Seq<char>
    decreases s.len(),
{
    if s.len() >= 2 && s[0] == '0' && s[1] == 'x' {
        strip_0x(s.skip(2))
    } else {
        s
    }
}

/// `hex::encode`: lowercase hexadecimal text of `data`, two digits per byte,
/// high digit first.
#[verifier::external_body]
fn hex_encode_bytes(data: &[u8]) -> (r: String)
    ensures
        r@ == hex_encode(data@),
{
    hex::encode(data)
}

/// `hex::decode` on a string: the bytes that its UTF-8 bytes spell, or the
/// error that `hex` reports, variant for variant (`InvalidStringLength` only
/// comes from decoding into a fixed-size container, which this is not).
#[verifier::external_body]
fn hex_decode_str(s: &str) -> (r: Result<Vec<u8>, HexError>)
    ensures
        match r {
            Ok(v) => hex_decode_bytes(s.spec_bytes()) == Ok::<Seq<u8>, HexError>(v@),
            Err(e) => hex_decode_bytes(s.spec_bytes()) == Err::<Seq<u8>, HexError>(e),
        },
{
    match hex::decode(s) {
        Ok(v) => Ok(v),
        Err(hex::FromHexError::InvalidHexCharacter { c, index }) => Err(
            HexError::InvalidHexCharacter { c, index },
        ),
        Err(hex::FromHexError::OddLength) => Err(HexError::OddLength),
        Err(hex::FromHexError::InvalidStringLength) => Err(HexError::InvalidStringLength),
    }
}

/// `str::trim_start_matches` with the pattern `"0x"`: `s` with every leading
/// `"0x"` taken off.
#[verifier::external_body]
fn trim_start_0x(s: &str) -> (r: &str)
    ensures
        r@ == strip_0x(s@),
{
    s.trim_start_matches("0x")
}

pub proof fn lemma_hex_encode_len(b: Seq<u8>)
    ensures
        hex_encode(b).len() == 2 * b.len(),
    decreases b.len(),
{
    if b.len() > 0 {
        lemma_hex_encode_len(b.drop_first());
    }
}

/// The text of `b` is ASCII.
pub proof fn lemma_hex_encode_ascii(b: Seq<u8>)
    ensures
        is_ascii_chars(hex_encode(b)),
    decreases b.len(),
{
    if b.len() > 0 {
        let t = hex_encode(b);
        let rest = hex_encode(b.drop_first());
        lemma_hex_encode_ascii(b.drop_first());
        assert forall|i: int| 0 <= i < t.len() implies '\0' <= #[trigger] t[i] <= '\u{7f}' by {
            if i >= 2 {
                assert(t[i] == rest[i - 2]);
            }
        }
    }
}

/// Decoding the bytes of the text of `b` gives `b`.
pub proof fn lemma_hex_decode_encode(b: Seq<u8>, index: nat)
    ensures
        hex_decode_pairs(encode_utf8(hex_encode(b)), index) == Ok::<Seq<u8>, HexError>(b),
    decreases b.len(),
{
    let t = hex_encode(b);
    lemma_hex_encode_ascii(b);
    is_ascii_chars_encode_utf8(t);
    lemma_hex_encode_len(b);
    if b.len() > 0 {
        let rest = b.drop_first();
        let u = encode_utf8(t);
        lemma_hex_decode_encode(rest, index + 2);
        lemma_hex_encode_ascii(rest);
        is_ascii_chars_encode_utf8(hex_encode(rest));
        lemma_hex_encode_len(rest);
        assert(t.skip(2) =~= hex_encode(rest));
        assert(u.skip(2) =~= encode_utf8(hex_encode(rest)));
        let v = b[0] as nat;
        assert(u[0] == t[0] as u8);
        assert(u[1] == t[1] as u8);
        assert(hex_byte(u[0]) == Some(v / 16));
        assert(hex_byte(u[1]) == Some(v % 16));
        assert(16 * (v / 16) + v % 16 == v);
        assert((16 * (v / 16) + v % 16) as u8 == b[0]);
        assert(hex_decode_pairs(u, index) == Ok::<Seq<u8>, HexError>(
            seq![b[0]] + rest,
        ));
        assert(b =~= seq![b[0]] + rest);
    } else {
        assert(b =~= Seq::<u8>::empty());
    }
}

/// Text made of hexadecimal digits has no `"0x"` to strip.
pub proof fn lemma_strip_hex(b: Seq<u8>)
    ensures
        strip_0x(hex_encode(b)) == hex_encode(b),
{
    let t = hex_encode(b);
    if t.len() >= 2 {
        assert(b.len() > 0);
        assert(t[1] == hex_char(b[0] as nat % 16));
    }
}

/// Stripping `"0x"` from `"0x" + t` strips it from `t`.
pub proof fn lemma_strip_prefixed(t: Seq<char>)
    ensures
        strip_0x(seq!['0', 'x'] + t) == strip_0x(t),
{
    assert((seq!['0', 'x'] + t).skip(2) =~= t);
}

// ------------------------------------------------------------------------
// The hash type.
/// A 256-bit hash.
#[derive(Copy, Clone, Hash, PartialEq, Eq, Default, Debug)]
pub struct Hash256(pub [u8; 32]);

impl View for Hash256 {
    type V = Seq<u8>;

    open spec fn view(&self) -> Seq<u8> {
        self.0@
    }
}

impl From<[u8; 32]> for Hash256 {
    fn from(value: [u8; 32]) -> (r: Self)
        ensures
            r.0 == value,
    {
        Hash256(value)
    }
}

impl vstd::std_specs::convert::FromSpecImpl<[u8; 32]> for Hash256 {
    open spec fn obeys_from_spec() -> bool {
        true
    }

    open spec fn from_spec(v: [u8; 32]) -> Hash256 {
        Hash256(v)
    }
}

/// The spec of `Hash256::from_str`: the bytes that `s` spells in hexadecimal,
/// after every leading `"0x"`, when there are 32 of them.
pub open spec fn spec_hash_from_str(s: Seq<char>) -> Result<Seq<u8>, Error> {
    match hex_decode_bytes(encode_utf8(strip_0x(s))) {
        Err(e) => Err(Error::AnyHow(Reason::InvalidHex(e))),
        Ok(b) => if b.len() == 32 {
            Ok(b)
        } else {
            Err(Error::AnyHow(Reason::InvalidHashLength))
        },
    }
}

/// The lowercase hexadecimal text of a hash, with `"0x"` before it when
/// `alternate`.
pub open spec fn spec_lower_hex(h: Seq<u8>, alternate: bool) -> Seq<char> {
    if alternate {
        seq!['0', 'x'] + hex_encode(h)
    } else {
        hex_encode(h)
    }
}

impl Hash256 {
    /// The bytes of the hash.
    pub fn as_ref(&self) -> (r: &[u8])
        ensures
            r@ == self@,
    {
        self.0.as_slice()
    }

    /// The hash of 32 bytes.
    pub fn from_bytes(b: &[u8]) -> (r: Hash256)
        requires
            b@.len() == 32,
        ensures
            r@ == b@,
    {
        let mut a = [0u8; 32];
        let mut i: usize = 0;
        while i < 32
            invariant
                b@.len() == 32,
                i <= 32,
                forall|j: int| 0 <= j < i ==> a@[j] == b@[j],
            decreases 32 - i,
        {
            a[i] = b[i];
            i = i + 1;
        }
        assert(a@ =~= b@);
        Hash256(a)
    }

    /// Parses hexadecimal text, with or without leading `"0x"`.
    pub fn from_str(s: &str) -> (r: Result<Hash256, Error>)
        ensures
            match r {
                Ok(h) => spec_hash_from_str(s@) == Ok::<Seq<u8>, Error>(h@),
                Err(e) => spec_hash_from_str(s@) == Err::<Seq<u8>, Error>(e),
            },
    {
        let t = trim_start_0x(s);
        match hex_decode_str(t) {
            Err(e) => Err(Error::AnyHow(Reason::InvalidHex(e))),
            Ok(v) => {
                if v.len() != 32 {
                    Err(Error::AnyHow(Reason::InvalidHashLength))
                } else {
                    Ok(Hash256::from_bytes(v.as_slice()))
                }
            },
        }
    }

    /// The lowercase hexadecimal text of the hash (`{:x}`), with `"0x"`
    /// before it when `alternate` (`{:#x}`).
    pub fn to_lower_hex(&self, alternate: bool) -> (r: String)
        ensures
            r@ == spec_lower_hex(self@, alternate),
    {
        let digits = hex_encode_bytes(self.0.as_slice());
        if alternate {
            let mut r = String::from_str("0x");
            proof {
                reveal_strlit("0x");
            }
            r.append(digits.as_str());
            assert(r@ =~= seq!['0', 'x'] + hex_encode(self@));
            r
        } else {
            digits
        }
    }

    /// The text that `Display` and `Debug` show: `Hash256(0x...)`.
    pub fn to_display_string(&self) -> (r: String)
        ensures
            r@ == seq!['H', 'a', 's', 'h', '2', '5', '6', '(', '0', 'x'] + hex_encode(self@) + seq![')'],
    {
        let mut r = String::from_str("Hash256(0x");
        proof {
            reveal_strlit("Hash256(0x");
            reveal_strlit(")");
        }
        let digits = hex_encode_bytes(self.0.as_slice());
        r.append(digits.as_str());
        r.append(")");
        assert(r@ =~= seq!['H', 'a', 's', 'h', '2', '5', '6', '(', '0', 'x'] + hex_encode(self@)
            + seq![')']);
        r
    }
}

/// What `Hash256::from_str` accepts: text whose bytes, after every leading
/// `"0x"`, decode as hexadecimal to exactly 32 bytes, and the hash holds
/// exactly those bytes. Text that decodes to any other number of bytes is
/// refused as `InvalidHashLength`, and text that does not decode is refused
/// with the error of the decoding.
pub proof fn lemma_hash_from_str_exact(s: Seq<char>)
    ensures
        match hex_decode_bytes(encode_utf8(strip_0x(s))) {
            Ok(b) => if b.len() == 32 {
                spec_hash_from_str(s) == Ok::<Seq<u8>, Error>(b)
            } else {
                spec_hash_from_str(s) == Err::<Seq<u8>, Error>(
                    Error::AnyHow(Reason::InvalidHashLength),
                )
            },
            Err(e) => spec_hash_from_str(s) == Err::<Seq<u8>, Error>(
                Error::AnyHow(Reason::InvalidHex(e)),
            ),
        },
        spec_hash_from_str(s) is Ok ==> spec_hash_from_str(s)->Ok_0.len() == 32,
{
}

/// The hexadecimal text of a hash, with or without `"0x"`, parses back to
/// the hash.
pub proof fn lemma_hash_hex_roundtrip(h: Hash256, alternate: bool)
    ensures
        spec_hash_from_str(spec_lower_hex(h@, alternate)) == Ok::<Seq<u8>, Error>(h@),
{
    lemma_strip_hex(h@);
    lemma_strip_prefixed(hex_encode(h@));
    lemma_hex_decode_encode(h@, 0);
    lemma_hex_encode_len(h@);
    lemma_hex_encode_ascii(h@);
    is_ascii_chars_encode_utf8(hex_encode(h@));
}

} // verus!
