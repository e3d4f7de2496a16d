//! Hashes, message authentication codes and hexadecimal text. The primitives are
//! those of the `sha2`, `argon2`, `hmac`, `hex` and `rand` crates; this module
//! states what the rest of the crate relies on of each.
use argon2::Argon2;
use hmac::{Hmac, KeyInit, Mac};
use rand::RngExt;
use sha2::{Digest, Sha256};
use vstd::prelude::*;

verus! {

/// The SHA-256 digest of a message.
pub uninterp spec fn sha256(message: Seq<u8>) -> Seq<u8>;

/// `sha2::Sha256::digest`: the 32 bytes of the digest depend on the message
/// alone.
#[verifier::external_body]
pub(crate) fn sha256_digest(message: &[u8]) -> (r: [u8; 32])
    ensures
        r@ == sha256(message@),
{
    Sha256::digest(message).into()
}

/// The costs that Argon2 takes: at least eight blocks of memory for each lane, at
/// least one pass, and between one and 2^24 - 1 lanes.
pub open spec fn argon2_costs_valid(m_cost: u32, t_cost: u32, p_cost: u32) -> bool {
    &&& m_cost >= 8
    &&& 1 <= p_cost <= 0xFF_FFFF
    &&& m_cost >= p_cost * 8
    &&& t_cost >= 1
}

/// What `argon2` says of costs that it does not take.
pub uninterp spec fn argon2_error(m_cost: u32, t_cost: u32, p_cost: u32) -> Seq<char>;

/// `argon2::Params::new` without an output length: it succeeds exactly on valid
/// costs, and its error depends on the costs alone.
#[verifier::external_body]
pub(crate) fn argon2_check(m_cost: u32, t_cost: u32, p_cost: u32) -> (r: Result<(), String>)
    ensures
        r is Ok == argon2_costs_valid(m_cost, t_cost, p_cost),
        r matches Err(e) ==> e@ == argon2_error(m_cost, t_cost, p_cost),
{
    match argon2::Params::new(m_cost, t_cost, p_cost, None) {
        Ok(_) => Ok(()),
        Err(e) => Err(e.to_string()),
    }
}

/// The first 32 bytes that Argon2id, version 0x13, derives from a password and a
/// salt at the given costs.
pub uninterp spec fn argon2id(
    password: Seq<u8>,
    salt: Seq<u8>,
    m_cost: u32,
    t_cost: u32,
    p_cost: u32,
) -> Seq<u8>;

/// Argon2id takes a password and a salt of these lengths at these costs.
pub open spec fn argon2id_takes(
    password: Seq<u8>,
    salt: Seq<u8>,
    m_cost: u32,
    t_cost: u32,
    p_cost: u32,
) -> bool {
    &&& argon2_costs_valid(m_cost, t_cost, p_cost)
    &&& password.len() <= 0xFFFF_FFFF
    &&& 8 <= salt.len() <= 0xFFFF_FFFF
}

/// `argon2::Argon2::hash_password_into_with_memory` for 32 bytes of output, with as many
/// blocks of memory as `argon2::Params::block_count` asks for. The claim is that there is a
/// hash exactly at valid costs and for a password and a salt of valid length, and that it
/// depends on the arguments alone. The memory is had as that of any vector is.
#[verifier::external_body]
pub(crate) fn argon2id_hash(
    password: &[u8],
    salt: &[u8],
    m_cost: u32,
    t_cost: u32,
    p_cost: u32,
) -> (r: Option<[u8; 32]>)
    ensures
        r is Some <==> argon2id_takes(password@, salt@, m_cost, t_cost, p_cost),
        r matches Some(hash) ==> {
            &&& argon2_costs_valid(m_cost, t_cost, p_cost)
            &&& salt@.len() >= 8
            &&& hash@ == argon2id(password@, salt@, m_cost, t_cost, p_cost)
        },
{
    let params = argon2::Params::new(m_cost, t_cost, p_cost, Some(32)).ok()?;
    let mut memory = vec![argon2::Block::default(); params.block_count()];
    let hasher = Argon2::new(argon2::Algorithm::Argon2id, argon2::Version::V0x13, params);
    let mut out = [0u8; 32];
    hasher.hash_password_into_with_memory(password, salt, &mut out, &mut memory).ok()?;
    Some(out)
}

/// The HMAC-SHA256 tag of a message under a key.
pub uninterp spec fn hmac_sha256(key: Seq<u8>, message: Seq<u8>) -> Seq<u8>;

/// `hmac::Mac::finalize` of an `Hmac<Sha256>`: the 32 bytes of the tag depend on
/// the key and the message alone. A key may have any length.
#[verifier::external_body]
pub(crate) fn hmac_tag(key: &[u8], message: &[u8]) -> (r: [u8; 32])
    ensures
        r@ == hmac_sha256(key@, message@),
{
    let mut mac = <Hmac<Sha256> as KeyInit>::new_from_slice(key).expect("any key length is taken");
    mac.update(message);
    mac.finalize().into_bytes().into()
}

/// `hmac::Mac::verify_slice` of an `Hmac<Sha256>`: whether the given bytes are the
/// whole tag of the message, compared in constant time.
#[verifier::external_body]
pub(crate) fn hmac_tag_matches(key: &[u8], message: &[u8], tag: &[u8]) -> (r: bool)
    ensures
        r == (tag@ == hmac_sha256(key@, message@)),
{
    let mut mac = <Hmac<Sha256> as KeyInit>::new_from_slice(key).expect("any key length is taken");
    mac.update(message);
    mac.verify_slice(tag).is_ok()
}

/// Random bytes, by `rand::RngExt::fill` on the thread's generator. Nothing is claimed of
/// their values.
#[verifier::external_body]
pub(crate) fn random_bytes<const N: usize>() -> (r: [u8; N]) {
    let mut out = [0u8; N];
    rand::rng().fill(&mut out);
    out
}

/// The lower-case hexadecimal digit of a number below sixteen.
pub open spec fn hex_digit(d: int) -> char {
    if d < 10 {
        (d + 48) as char
    } else {
        (d + 87) as char
    }
}

/// Bytes as lower-case hexadecimal text, two digits for each.
pub open spec fn hex_text(data: Seq<u8>) -> Seq<char> {
    Seq::new(
        2 * data.len(),
        |i: int|
            if i % 2 == 0 {
                hex_digit(data[i / 2] as int / 16)
            } else {
                hex_digit(data[i / 2] as int % 16)
            },
    )
}

pub open spec fn is_hex_digit(c: char) -> bool {
    let p = c as int;
    48 <= p <= 57 || 65 <= p <= 70 || 97 <= p <= 102
}

/// The number that a hexadecimal digit writes, in either case.
pub open spec fn hex_value(c: char) -> int {
    let p = c as int;
    if p <= 57 {
        p - 48
    } else if p <= 70 {
        p - 55
    } else {
        p - 87
    }
}

/// Pairs of hexadecimal digits and nothing else.
pub open spec fn is_hex_text(s: Seq<char>) -> bool {
    &&& s.len() % 2 == 0
    &&& forall|i: int| 0 <= i < s.len() ==> is_hex_digit(#[trigger] s[i])
}

/// The bytes that pairs of hexadecimal digits write.
pub open spec fn hex_bytes(s: Seq<char>) -> Seq<u8> {
    Seq::new(
        s.len() / 2,
        |i: int| (hex_value(s[2 * i]) * 16 + hex_value(s[2 * i + 1])) as u8,
    )
}

/// `hex::encode`: two lower-case digits for each byte.
#[verifier::external_body]
pub(crate) fn hex_encode(data: &[u8]) -> (r: String)
    ensures
        r@ == hex_text(data@),
{
    hex::encode(data)
}

/// `hex::decode`: succeeds exactly on pairs of hexadecimal digits, of either case,
/// and gives the bytes that they write.
#[verifier::external_body]
pub(crate) fn hex_decode(text: &str) -> (r: Option<Vec<u8>>)
    ensures
        r is Some == is_hex_text(text@),
        r matches Some(data) ==> data@ == hex_bytes(text@),
{
    hex::decode(text).ok()
}

/// Decoding what was encoded gives the bytes back.
pub proof fn lemma_hex_round_trip(data: Seq<u8>)
    ensures
        is_hex_text(hex_text(data)),
        hex_bytes(hex_text(data)) == data,
{
    let s = hex_text(data);
    assert forall|i: int| 0 <= i < s.len() implies is_hex_digit(#[trigger] s[i]) by {
        let b = data[i / 2] as int;
        assert(0 <= b / 16 < 16 && 0 <= b % 16 < 16);
    }
    assert forall|i: int| 0 <= i < data.len() implies hex_bytes(s)[i] == data[i] by {
        let b = data[i] as int;
        assert((2 * i) / 2 == i && (2 * i + 1) / 2 == i);
        assert(hex_value(hex_digit(b / 16)) == b / 16);
        assert(hex_value(hex_digit(b % 16)) == b % 16);
        assert((b / 16) * 16 + b % 16 == b);
    }
    assert(hex_bytes(s) =~= data);
}

/// Each byte is written as two digits, the higher half first, in the digits 0 to 9 and a to f.
pub proof fn lemma_hex_digits(data: Seq<u8>, i: int)
    requires
        0 <= i < data.len(),
    ensures
        hex_text(data).len() == 2 * data.len(),
        ({
            let high = hex_text(data)[2 * i] as int;
            let low = hex_text(data)[2 * i + 1] as int;
            let digit = |c: int|
                if 48 <= c <= 57 {
                    c - 48
                } else {
                    c - 87
                };
            &&& 48 <= high <= 57 || 97 <= high <= 102
            &&& 48 <= low <= 57 || 97 <= low <= 102
            &&& digit(high) * 16 + digit(low) == data[i]
        }),
{
    let b = data[i] as int;
    assert((2 * i) / 2 == i && (2 * i + 1) / 2 == i);
    assert(0 <= b / 16 < 16 && 0 <= b % 16 < 16);
    assert(b / 16 * 16 + b % 16 == b);
}

/// A hexadecimal text has an even number of digits, in either case, and gives half as many
/// bytes.
pub proof fn lemma_hex_text(s: Seq<char>, i: int)
    ensures
        is_hex_text(s) ==> s.len() % 2 == 0 && hex_bytes(s).len() == s.len() / 2,
        is_hex_text(s) && 0 <= i < s.len() ==> 48 <= s[i] as int <= 57 || 65 <= s[i] as int <= 70
            || 97 <= s[i] as int <= 102,
        s.len() % 2 == 1 ==> !is_hex_text(s),
        0 <= i < s.len() && !(48 <= s[i] as int <= 57 || 65 <= s[i] as int <= 70 || 97
            <= s[i] as int <= 102) ==> !is_hex_text(s),
{
    if is_hex_text(s) && 0 <= i < s.len() {
        assert(is_hex_digit(s[i]));
    }
    if 0 <= i < s.len() && !(48 <= s[i] as int <= 57 || 65 <= s[i] as int <= 70 || 97 <= s[i] as int
        <= 102) {
        assert(!is_hex_digit(s[i]));
    }
}

/// The bytes of a hexadecimal text: each of two digits, the first of which counts sixteen
/// times, in either case of the letters.
pub proof fn lemma_hex_bytes(s: Seq<char>, i: int)
    requires
        is_hex_text(s),
        0 <= i < s.len() / 2,
    ensures
        ({
            let digit = |c: char|
                if c as int <= 57 {
                    c as int - 48
                } else if c as int <= 70 {
                    c as int - 65 + 10
                } else {
                    c as int - 97 + 10
                };
            hex_bytes(s)[i] == digit(s[2 * i]) * 16 + digit(s[2 * i + 1])
        }),
{
    assert(is_hex_digit(s[2 * i]));
    assert(is_hex_digit(s[2 * i + 1]));
}

} // verus!
