//! Issuing and checking proof-of-work challenges.
use vstd::prelude::*;
use vstd::string::*;

use crate::bytes::u64_le;
use crate::crypto::{argon2id_hash, hex_encode, random_bytes, sha256_digest};
use crate::ident::{fresh_uuid, Uuid};
use crate::puzzle::types::{Algorithm, Argon2idParams, Challenge, PuzzleConfig,
    MAX_LIFETIME_SECS};
use crate::time::{now, Timestamp};

verus! {

/// Bit `k` of a byte string, counted from the most significant bit of its first
/// byte.
pub open spec fn bit_at(data: Seq<u8>, k: int) -> bool {
    data[k / 8] & (0x80u8 >> ((k % 8) as u8)) != 0
}

/// The first `n` bits of a byte string are there, and are all zero.
pub open spec fn leading_bits_zero(data: Seq<u8>, n: nat) -> bool {
    &&& n <= 8 * data.len()
    &&& forall|k: int| 0 <= k < n ==> !#[trigger] bit_at(data, k)
}

/// The bytes that the SHA-256 puzzle hashes.
pub open spec fn sha256_input(prefix: Seq<char>, nonce: u64) -> Seq<u8> {
    vstd::utf8::encode_utf8(prefix) + crate::bytes::le_bytes(nonce as nat, 8)
}

/// The hash of a nonce in a SHA-256 puzzle.
pub open spec fn sha256_pow(prefix: Seq<char>, nonce: u64) -> Seq<u8> {
    crate::crypto::sha256(sha256_input(prefix, nonce))
}

/// The hash of a nonce in an Argon2id puzzle: the nonce is the password, the
/// prefix the salt.
pub open spec fn argon2id_pow(prefix: Seq<char>, nonce: u64, params: Argon2idParams) -> Seq<u8> {
    crate::crypto::argon2id(
        crate::bytes::le_bytes(nonce as nat, 8),
        vstd::utf8::encode_utf8(prefix),
        params.m_cost,
        params.t_cost,
        params.p_cost,
    )
}

/// The hash that a nonce must be judged by.
pub open spec fn pow_hash(algorithm: Algorithm, prefix: Seq<char>, nonce: u64) -> Seq<u8> {
    match algorithm {
        Algorithm::Sha256 => sha256_pow(prefix, nonce),
        Algorithm::Argon2id(params) => argon2id_pow(prefix, nonce, params),
    }
}

/// The nonce solves the challenge.
pub open spec fn solves(challenge: Challenge, nonce: u64) -> bool {
    leading_bits_zero(
        pow_hash(challenge.algorithm, challenge.prefix@, nonce),
        challenge.difficulty as nat,
    )
}

/// There is an Argon2id hash at these costs for a prefix: Argon2 takes the costs, and the
/// prefix as a salt.
pub open spec fn can_hash(prefix: Seq<char>, params: Argon2idParams) -> bool {
    &&& crate::crypto::argon2_costs_valid(params.m_cost, params.t_cost, params.p_cost)
    &&& 8 <= vstd::utf8::encode_utf8(prefix).len() <= 0xFFFF_FFFF
}

/// The nonce is accepted for the challenge: it solves it, and where the puzzle is one of
/// Argon2id, there is a hash at all.
pub open spec fn is_accepted(challenge: Challenge, nonce: u64) -> bool {
    &&& challenge.algorithm matches Algorithm::Argon2id(params) ==> can_hash(
        challenge.prefix@,
        params,
    )
    &&& solves(challenge, nonce)
}

/// The nonce solves the SHA-256 puzzle with the given prefix and difficulty.
pub open spec fn sha256_solution(prefix: Seq<char>, difficulty: u32, nonce: u64) -> bool {
    leading_bits_zero(sha256_pow(prefix, nonce), difficulty as nat)
}

/// The nonce solves the Argon2id puzzle with the given prefix and difficulty.
pub open spec fn argon2id_solution(
    prefix: Seq<char>,
    difficulty: u32,
    params: Argon2idParams,
    nonce: u64,
) -> bool {
    leading_bits_zero(argon2id_pow(prefix, nonce, params), difficulty as nat)
}

/// Issues challenges and checks their solutions.
#[derive(Debug)]
pub struct PuzzleEngine {
    pub config: PuzzleConfig,
}

impl PuzzleEngine {
    pub fn new(config: PuzzleConfig) -> (r: Self)
        ensures
            r.config == config,
    {
        PuzzleEngine { config }
    }

    /// A challenge made of the given random parts, issued at `now`, for a visitor
    /// who was first seen at `dwell_since`.
    pub fn assemble(
        &self,
        id: Uuid,
        prefix_bytes: &[u8],
        site_key: Uuid,
        difficulty: u32,
        now: Timestamp,
        dwell_since: Timestamp,
    ) -> (r: Challenge)
        requires
            self.config.ttl_secs <= MAX_LIFETIME_SECS,
        ensures
            r.id == id,
            r.site_key == site_key,
            r.algorithm == self.config.algorithm,
            r.prefix@ == crate::crypto::hex_text(prefix_bytes@),
            r.difficulty == difficulty,
            r.created_at == now,
            r.dwell_since == dwell_since,
            r.expires_at == crate::time::later(now, self.config.ttl_secs),
            r.attempts == 0,
            r.issued_to is None,
    {
        Challenge {
            id,
            site_key,
            algorithm: self.config.algorithm,
            prefix: hex_encode(prefix_bytes),
            difficulty,
            created_at: now,
            dwell_since,
            expires_at: now.plus_secs(self.config.ttl_secs),
            attempts: 0,
            issued_to: None,
        }
    }

    /// A fresh challenge for a site, at the given difficulty. Its prefix is random,
    /// so is its identifier.
    pub fn generate(&self, site_key: Uuid, difficulty: u32) -> (r: Challenge)
        requires
            self.config.ttl_secs <= MAX_LIFETIME_SECS,
        ensures
            crate::ident::is_v4(r.id),
            r.site_key == site_key,
            r.algorithm == self.config.algorithm,
            exists|b: Seq<u8>|
                b.len() == 16 && r.prefix@ == #[trigger] crate::crypto::hex_text(b),
            crate::time::is_clock_time(r.created_at),
            r.difficulty == difficulty,
            r.dwell_since == r.created_at,
            r.expires_at == crate::time::later(r.created_at, self.config.ttl_secs),
            r.attempts == 0,
            r.issued_to is None,
    {
        self.generate_with_dwell(site_key, difficulty, None)
    }

    /// A fresh challenge that takes the place of an earlier one: the dwell time goes
    /// on counting from where it counted there.
    pub fn generate_with_dwell(
        &self,
        site_key: Uuid,
        difficulty: u32,
        inherited: Option<Timestamp>,
    ) -> (r: Challenge)
        requires
            self.config.ttl_secs <= MAX_LIFETIME_SECS,
        ensures
            crate::ident::is_v4(r.id),
            r.site_key == site_key,
            r.algorithm == self.config.algorithm,
            exists|b: Seq<u8>|
                b.len() == 16 && r.prefix@ == #[trigger] crate::crypto::hex_text(b),
            crate::time::is_clock_time(r.created_at),
            r.difficulty == difficulty,
            r.dwell_since == (match inherited {
                Some(since) => since,
                None => r.created_at,
            }),
            r.expires_at == crate::time::later(r.created_at, self.config.ttl_secs),
            r.attempts == 0,
            r.issued_to is None,
    {
        let prefix_bytes = random_bytes::<16>();
        let issued_at = now();
        let dwell_since = match inherited {
            Some(since) => since,
            None => issued_at,
        };
        self.assemble(
            fresh_uuid(),
            &prefix_bytes,
            site_key,
            difficulty,
            issued_at,
            dwell_since,
        )
    }

    /// Whether the nonce solves the challenge. An Argon2id challenge is never solved at
    /// costs that Argon2 does not take.
    pub fn verify(&self, challenge: &Challenge, nonce: u64) -> (r: bool)
        ensures
            r == is_accepted(*challenge, nonce),
            r ==> solves(*challenge, nonce),
            challenge.algorithm is Sha256 ==> r == solves(*challenge, nonce),
            challenge.algorithm matches Algorithm::Argon2id(params) ==> r
                ==> crate::crypto::argon2_costs_valid(params.m_cost, params.t_cost, params.p_cost),
    {
        match challenge.algorithm {
            Algorithm::Sha256 => {
                let hash = compute_sha256(challenge.prefix.as_str(), nonce);
                has_leading_zero_bits(&hash, challenge.difficulty)
            },
            Algorithm::Argon2id(params) => {
                let hash = compute_argon2id(challenge.prefix.as_str(), nonce, params);
                hash_accepted(&hash, challenge.difficulty)
            },
        }
    }

    pub fn default_difficulty(&self) -> (r: u32)
        ensures
            r == self.config.default_difficulty,
    {
        self.config.default_difficulty
    }
}

/// Whether the outcome of hashing a nonce is a solution: a hash with enough leading
/// zero bits. No hash is no solution.
pub fn hash_accepted(hash: &Option<[u8; 32]>, difficulty: u32) -> (r: bool)
    ensures
        r == match *hash {
            Some(h) => leading_bits_zero(h@, difficulty as nat),
            None => false,
        },
{
    match hash {
        Some(h) => has_leading_zero_bits(h, difficulty),
        None => false,
    }
}

/// SHA-256 of the prefix and the little-endian nonce.
pub fn compute_sha256(prefix: &str, nonce: u64) -> (r: [u8; 32])
    ensures
        r@ == sha256_pow(prefix@, nonce),
{
    let mut input: Vec<u8> = Vec::new();
    input.extend_from_slice(prefix.as_bytes());
    let mut tail = u64_le(nonce);
    input.append(&mut tail);
    assert(input@ == sha256_input(prefix@, nonce));
    sha256_digest(input.as_slice())
}

/// Argon2id of the little-endian nonce, salted with the prefix. There is no hash at
/// costs that Argon2 does not take, nor for a prefix shorter than eight bytes or longer
/// than its lengths can tell.
pub fn compute_argon2id(prefix: &str, nonce: u64, params: Argon2idParams) -> (r: Option<[u8; 32]>)
    ensures
        r is Some <==> can_hash(prefix@, params),
        r matches Some(hash) ==> {
            &&& crate::crypto::argon2_costs_valid(params.m_cost, params.t_cost, params.p_cost)
            &&& vstd::utf8::encode_utf8(prefix@).len() >= 8
            &&& hash@ == argon2id_pow(prefix@, nonce, params)
        },
{
    let password = u64_le(nonce);
    proof {
        crate::bytes::lemma_le_bytes_len(nonce as nat, 8);
    }
    argon2id_hash(
        password.as_slice(),
        prefix.as_bytes(),
        params.m_cost,
        params.t_cost,
        params.p_cost,
    )
}

/// Another name for `compute_sha256`.
pub fn compute_hash(prefix: &str, nonce: u64) -> (r: [u8; 32])
    ensures
        r@ == sha256_pow(prefix@, nonce),
{
    compute_sha256(prefix, nonce)
}

proof fn lemma_zero_byte(byte: u8)
    ensures
        byte == 0 <==> (forall|j: u8| j < 8 ==> byte & #[trigger] (0x80u8 >> j) == 0),
{
    if byte == 0 {
        assert forall|j: u8| j < 8 implies byte & #[trigger] (0x80u8 >> j) == 0 by {
            assert(0u8 & (0x80u8 >> j) == 0) by (bit_vector);
        }
    } else {
        let b0 = 0x80u8 >> 0u8;
        let b1 = 0x80u8 >> 1u8;
        let b2 = 0x80u8 >> 2u8;
        let b3 = 0x80u8 >> 3u8;
        let b4 = 0x80u8 >> 4u8;
        let b5 = 0x80u8 >> 5u8;
        let b6 = 0x80u8 >> 6u8;
        let b7 = 0x80u8 >> 7u8;
        assert(byte != 0 ==> byte & (0x80u8 >> 0u8) != 0 || byte & (0x80u8 >> 1u8) != 0 || byte & (
        0x80u8 >> 2u8) != 0 || byte & (0x80u8 >> 3u8) != 0 || byte & (0x80u8 >> 4u8) != 0 || byte & (
        0x80u8 >> 5u8) != 0 || byte & (0x80u8 >> 6u8) != 0 || byte & (0x80u8 >> 7u8) != 0)
            by (bit_vector);
    }
}

proof fn lemma_masked_byte(byte: u8, n: u32)
    requires
        0 < n < 8,
    ensures
        byte & (0xFFu8 << ((8 - n) as u32)) == 0 <==> (forall|j: u8|
            j < n ==> byte & #[trigger] (0x80u8 >> j) == 0),
{
    let mask = 0xFFu8 << ((8 - n) as u32);
    if byte & mask == 0 {
        assert forall|j: u8| j < n implies byte & #[trigger] (0x80u8 >> j) == 0 by {
            assert(byte & (0x80u8 >> j) == 0) by (bit_vector)
                requires
                    byte & (0xFFu8 << ((8 - n) as u32)) == 0,
                    0 < n < 8,
                    j < n,
            ;
        }
    } else {
        let b0 = 0x80u8 >> 0u8;
        let b1 = 0x80u8 >> 1u8;
        let b2 = 0x80u8 >> 2u8;
        let b3 = 0x80u8 >> 3u8;
        let b4 = 0x80u8 >> 4u8;
        let b5 = 0x80u8 >> 5u8;
        let b6 = 0x80u8 >> 6u8;
        assert(byte & (0x80u8 >> 0u8) != 0 || (n > 1 && byte & (0x80u8 >> 1u8) != 0) || (n > 2
            && byte & (0x80u8 >> 2u8) != 0) || (n > 3 && byte & (0x80u8 >> 3u8) != 0) || (n > 4
            && byte & (0x80u8 >> 4u8) != 0) || (n > 5 && byte & (0x80u8 >> 5u8) != 0) || (n > 6
            && byte & (0x80u8 >> 6u8) != 0)) by (bit_vector)
            requires
                byte & (0xFFu8 << ((8 - n) as u32)) != 0,
                0 < n < 8,
        ;
    }
}

/// Whether the first `difficulty` bits of a hash are zero.
pub fn has_leading_zero_bits(hash: &[u8; 32], difficulty: u32) -> (r: bool)
    ensures
        r == leading_bits_zero(hash@, difficulty as nat),
{
    let mut remaining: u32 = difficulty;
    let mut i: usize = 0;
    while i < 32
        invariant
            i <= 32,
            remaining + 8 * i == difficulty,
            forall|k: int| 0 <= k < 8 * i ==> !#[trigger] bit_at(hash@, k),
        decreases 32 - i,
    {
        if remaining == 0 {
            return true;
        }
        let byte = hash[i];
        if remaining >= 8 {
            proof {
                lemma_zero_byte(byte);
            }
            if byte != 0 {
                proof {
                    let j = choose|j: u8| j < 8 && byte & #[trigger] (0x80u8 >> j) != 0;
                    let k = 8 * i + j;
                    assert(k / 8 == i && k % 8 == j);
                    assert(bit_at(hash@, k));
                }
                return false;
            }
            assert forall|k: int| 0 <= k < 8 * (i + 1) implies !#[trigger] bit_at(hash@, k) by {
                if k >= 8 * i {
                    assert(k / 8 == i);
                    let j = (k % 8) as u8;
                    assert(byte & (0x80u8 >> j) == 0);
                }
            }
            remaining -= 8;
        } else {
            let shift: u32 = 8 - remaining;
            let mask: u8 = 0xFFu8 << shift;
            proof {
                lemma_masked_byte(byte, remaining);
                if byte & mask == 0 {
                    assert forall|k: int| 0 <= k < difficulty implies !#[trigger] bit_at(
                        hash@,
                        k,
                    ) by {
                        if k >= 8 * i {
                            assert(k / 8 == i);
                            let j = (k % 8) as u8;
                            assert(byte & (0x80u8 >> j) == 0);
                        }
                    }
                } else {
                    let j = choose|j: u8| j < remaining && byte & #[trigger] (0x80u8 >> j) != 0;
                    let k = 8 * i + j;
                    assert(k / 8 == i && k % 8 == j);
                    assert(bit_at(hash@, k));
                }
            }
            return (byte & mask) == 0;
        }
        i += 1;
    }
    remaining == 0
}

/// The smallest nonce that solves a SHA-256 puzzle, by trying one after the other;
/// none where no nonce does.
pub fn solve_challenge(prefix: &str, difficulty: u32) -> (r: Option<u64>)
    ensures
        match r {
            Some(nonce) => {
                &&& sha256_solution(prefix@, difficulty, nonce)
                &&& forall|n: u64| n < nonce ==> !#[trigger] sha256_solution(prefix@, difficulty, n)
            },
            None => forall|n: u64| !#[trigger] sha256_solution(prefix@, difficulty, n),
        },
{
    let mut nonce: u64 = 0;
    loop
        invariant
            forall|n: u64| n < nonce ==> !#[trigger] sha256_solution(prefix@, difficulty, n),
        decreases u64::MAX - nonce,
    {
        let hash = compute_sha256(prefix, nonce);
        if has_leading_zero_bits(&hash, difficulty) {
            return Some(nonce);
        }
        if nonce == u64::MAX {
            return None;
        }
        nonce += 1;
    }
}

/// The smallest nonce that solves an Argon2id puzzle, by trying one after the other; none
/// where no nonce does. None solves a puzzle at costs that Argon2 does not take, or with a
/// prefix shorter than eight bytes.
pub fn solve_argon2id_challenge(prefix: &str, difficulty: u32, params: Argon2idParams) -> (r:
    Option<u64>)
    ensures
        r matches Some(nonce) ==> argon2id_solution(prefix@, difficulty, params, nonce),
        r is Some ==> crate::crypto::argon2_costs_valid(
            params.m_cost,
            params.t_cost,
            params.p_cost,
        ),
        r is Some ==> vstd::utf8::encode_utf8(prefix@).len() >= 8,
        r is Some ==> can_hash(prefix@, params),
        r matches Some(nonce) ==> forall|n: u64|
            n < nonce ==> !#[trigger] argon2id_solution(prefix@, difficulty, params, n),
        r is None && can_hash(prefix@, params) ==> forall|n: u64|
            !#[trigger] argon2id_solution(prefix@, difficulty, params, n),
{
    let mut nonce: u64 = 0;
    loop
        invariant
            can_hash(prefix@, params) ==> forall|n: u64|
                n < nonce ==> !#[trigger] argon2id_solution(prefix@, difficulty, params, n),
        decreases u64::MAX - nonce,
    {
        let hash = compute_argon2id(prefix, nonce, params);
        if hash_accepted(&hash, difficulty) {
            return Some(nonce);
        }
        if nonce == u64::MAX {
            return None;
        }
        nonce += 1;
    }
}

/// A hash that is good enough for one difficulty is good enough for every lower
/// one.
pub proof fn lemma_leading_bits_monotone(hash: Seq<u8>, lower: nat, higher: nat)
    requires
        lower <= higher,
        leading_bits_zero(hash, higher),
    ensures
        leading_bits_zero(hash, lower),
{
}

/// Every hash is good enough for difficulty zero, and none for a difficulty beyond
/// its length.
pub proof fn lemma_leading_bits_extremes(hash: Seq<u8>, difficulty: nat)
    ensures
        leading_bits_zero(hash, 0),
        difficulty > 8 * hash.len() ==> !leading_bits_zero(hash, difficulty),
{
}

/// What the solver finds for the prefix and difficulty of a challenge solves the
/// challenge.
pub proof fn lemma_solution_solves(challenge: Challenge, nonce: u64)
    ensures
        challenge.algorithm is Sha256 && sha256_solution(
            challenge.prefix@,
            challenge.difficulty,
            nonce,
        ) ==> solves(challenge, nonce),
        challenge.algorithm matches Algorithm::Argon2id(params) ==> argon2id_solution(
            challenge.prefix@,
            challenge.difficulty,
            params,
            nonce,
        ) ==> solves(challenge, nonce),
{
}

/// The bits that a difficulty asks for, byte by byte: whole bytes that are zero, and a byte
/// that is below the power of two that the rest of the bits leaves.
pub proof fn lemma_leading_bits_by_bytes(hash: Seq<u8>, difficulty: nat)
    ensures
        leading_bits_zero(hash, difficulty) <==> {
            &&& difficulty <= 8 * hash.len()
            &&& forall|i: int| 0 <= i < difficulty / 8 ==> #[trigger] hash[i] == 0
            &&& difficulty % 8 == 1 ==> hash[(difficulty / 8) as int] < 128
            &&& difficulty % 8 == 2 ==> hash[(difficulty / 8) as int] < 64
            &&& difficulty % 8 == 3 ==> hash[(difficulty / 8) as int] < 32
            &&& difficulty % 8 == 4 ==> hash[(difficulty / 8) as int] < 16
            &&& difficulty % 8 == 5 ==> hash[(difficulty / 8) as int] < 8
            &&& difficulty % 8 == 6 ==> hash[(difficulty / 8) as int] < 4
            &&& difficulty % 8 == 7 ==> hash[(difficulty / 8) as int] < 2
        },
{
    let q = (difficulty / 8) as int;
    let rest = (difficulty % 8) as u32;
    if difficulty <= 8 * hash.len() {
        if rest > 0 {
            let byte = hash[q];
            lemma_masked_byte(byte, rest);
            assert(byte & (0xFFu8 << ((8 - rest) as u32)) == 0 <==> (rest == 1 && byte < 128) || (
            rest == 2 && byte < 64) || (rest == 3 && byte < 32) || (rest == 4 && byte < 16) || (rest
                == 5 && byte < 8) || (rest == 6 && byte < 4) || (rest == 7 && byte < 2))
                by (bit_vector)
                requires
                    0 < rest < 8,
            ;
        }
        if leading_bits_zero(hash, difficulty) {
            assert forall|i: int| 0 <= i < q implies #[trigger] hash[i] == 0 by {
                lemma_zero_byte(hash[i]);
                assert forall|j: u8| j < 8 implies hash[i] & #[trigger] (0x80u8 >> j) == 0 by {
                    let k = 8 * i + j;
                    assert(k / 8 == i && k % 8 == j);
                    assert(!bit_at(hash, k));
                }
            }
            if rest > 0 {
                assert forall|j: u8| j < rest implies hash[q] & #[trigger] (0x80u8 >> j) == 0 by {
                    let k = 8 * q + j;
                    assert(k / 8 == q && k % 8 == j);
                    assert(!bit_at(hash, k));
                }
            }
        } else {
            let k = choose|k: int| 0 <= k < difficulty && #[trigger] bit_at(hash, k);
            let i = k / 8;
            let j = (k % 8) as u8;
            if i < q {
                lemma_zero_byte(hash[i]);
                assert(hash[i] & (0x80u8 >> j) != 0);
            } else {
                assert(i == q);
                assert(j < rest);
                assert(hash[q] & (0x80u8 >> j) != 0);
            }
        }
    }
}

/// The bytes of a nonce, the lowest first.
proof fn lemma_nonce_bytes(nonce: u64)
    ensures
        crate::bytes::le_bytes(nonce as nat, 8) == seq![
            (nonce % 0x100) as u8,
            (nonce / 0x100 % 0x100) as u8,
            (nonce / 0x1_0000 % 0x100) as u8,
            (nonce / 0x100_0000 % 0x100) as u8,
            (nonce / 0x1_0000_0000 % 0x100) as u8,
            (nonce / 0x100_0000_0000 % 0x100) as u8,
            (nonce / 0x1_0000_0000_0000 % 0x100) as u8,
            (nonce / 0x100_0000_0000_0000) as u8,
        ],
{
    reveal_with_fuel(crate::bytes::le_bytes, 9);
    let n = nonce as nat;
    assert(n / 256 / 256 == n / 0x1_0000);
    assert(n / 0x1_0000 / 256 == n / 0x100_0000);
    assert(n / 0x100_0000 / 256 == n / 0x1_0000_0000);
    assert(n / 0x1_0000_0000 / 256 == n / 0x100_0000_0000);
    assert(n / 0x100_0000_0000 / 256 == n / 0x1_0000_0000_0000);
    assert(n / 0x1_0000_0000_0000 / 256 == n / 0x100_0000_0000_0000);
    assert(n / 0x100_0000_0000_0000 < 256);
    assert(crate::bytes::le_bytes(n, 8) =~= seq![
        (nonce % 0x100) as u8,
        (nonce / 0x100 % 0x100) as u8,
        (nonce / 0x1_0000 % 0x100) as u8,
        (nonce / 0x100_0000 % 0x100) as u8,
        (nonce / 0x1_0000_0000 % 0x100) as u8,
        (nonce / 0x100_0000_0000 % 0x100) as u8,
        (nonce / 0x1_0000_0000_0000 % 0x100) as u8,
        (nonce / 0x100_0000_0000_0000) as u8,
    ]);
}

/// A SHA-256 challenge accepts exactly the nonces whose eight bytes, the lowest first and
/// behind the bytes of the prefix, hash to leading zero bits.
pub proof fn lemma_sha256_challenge_accepts(challenge: Challenge, nonce: u64)
    requires
        challenge.algorithm is Sha256,
    ensures
        is_accepted(challenge, nonce) <==> leading_bits_zero(
            crate::crypto::sha256(
                vstd::utf8::encode_utf8(challenge.prefix@) + seq![
                    (nonce % 0x100) as u8,
                    (nonce / 0x100 % 0x100) as u8,
                    (nonce / 0x1_0000 % 0x100) as u8,
                    (nonce / 0x100_0000 % 0x100) as u8,
                    (nonce / 0x1_0000_0000 % 0x100) as u8,
                    (nonce / 0x100_0000_0000 % 0x100) as u8,
                    (nonce / 0x1_0000_0000_0000 % 0x100) as u8,
                    (nonce / 0x100_0000_0000_0000) as u8,
                ],
            ),
            challenge.difficulty as nat,
        ),
        is_accepted(challenge, nonce) <==> sha256_solution(
            challenge.prefix@,
            challenge.difficulty,
            nonce,
        ),
{
    lemma_nonce_bytes(nonce);
}

/// An Argon2id challenge accepts, at every cost that Argon2 takes and with a prefix of at
/// least eight bytes, exactly the nonces whose Argon2id hash, salted with the prefix, has the
/// leading zero bits; at other costs it accepts none.
pub proof fn lemma_argon2id_challenge_accepts(
    challenge: Challenge,
    params: Argon2idParams,
    nonce: u64,
)
    requires
        challenge.algorithm == Algorithm::Argon2id(params),
    ensures
        is_accepted(challenge, nonce) <==> {
            &&& params.m_cost >= 8
            &&& params.m_cost >= 8 * params.p_cost
            &&& 1 <= params.p_cost < 0x100_0000
            &&& params.t_cost >= 1
            &&& 8 <= vstd::utf8::encode_utf8(challenge.prefix@).len() <= 0xFFFF_FFFF
            &&& leading_bits_zero(
                crate::crypto::argon2id(
                    seq![
                        (nonce % 0x100) as u8,
                        (nonce / 0x100 % 0x100) as u8,
                        (nonce / 0x1_0000 % 0x100) as u8,
                        (nonce / 0x100_0000 % 0x100) as u8,
                        (nonce / 0x1_0000_0000 % 0x100) as u8,
                        (nonce / 0x100_0000_0000 % 0x100) as u8,
                        (nonce / 0x1_0000_0000_0000 % 0x100) as u8,
                        (nonce / 0x100_0000_0000_0000) as u8,
                    ],
                    vstd::utf8::encode_utf8(challenge.prefix@),
                    params.m_cost,
                    params.t_cost,
                    params.p_cost,
                ),
                challenge.difficulty as nat,
            )
        },
        can_hash(challenge.prefix@, params) ==> (is_accepted(challenge, nonce)
            <==> argon2id_solution(challenge.prefix@, challenge.difficulty, params, nonce)),
{
    lemma_nonce_bytes(nonce);
}

/// A nonce that a challenge accepts is accepted at every lower difficulty.
pub proof fn lemma_easier_challenge_accepts(harder: Challenge, easier: Challenge, nonce: u64)
    requires
        harder.algorithm == easier.algorithm,
        harder.prefix@ == easier.prefix@,
        easier.difficulty <= harder.difficulty,
        is_accepted(harder, nonce),
    ensures
        is_accepted(easier, nonce),
{
}

} // verus!
