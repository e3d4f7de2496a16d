//! Reading of request headers.
use axum::http::HeaderMap;
use vstd::prelude::*;
use vstd::string::*;

use crate::error::CaptchaError;
use crate::headers::text_of;
use crate::text::{begins_with_text, chars_of, code_point, cut, is_text, lowered, piece, string_of,
    white_space};

verus! {

/// The token behind a bearer scheme: the scheme in any case, then a space, more white space
/// or none, and a token that is not empty.
pub open spec fn bearer_of(value: Seq<char>) -> Option<Seq<char>> {
    match crate::text::split_once(value, ' ') {
        None => None,
        Some(parts) => {
            let token = crate::text::trim_start(parts.1);
            if crate::text::ascii_lower(parts.0) == "bearer"@ && token.len() > 0 {
                Some(token)
            } else {
                None
            }
        },
    }
}

/// The bearer token of a request.
pub open spec fn request_token(headers: Map<Seq<char>, Seq<u8>>) -> Option<Seq<char>> {
    match crate::headers::header_text(headers, "authorization"@) {
        None => None,
        Some(value) => bearer_of(value),
    }
}

/// The bearer token of a request, if it has one. The scheme may be written in any case; the
/// token is a secret and stays as it is.
pub fn bearer_token(headers: &HeaderMap) -> (r: Option<String>)
    ensures
        match r {
            Some(token) => request_token(crate::headers::fields(*headers)) == Some(token@),
            None => request_token(crate::headers::fields(*headers)) is None,
        },
{
    let value = match text_of(headers, "authorization") {
        None => {
            return None;
        },
        Some(value) => value,
    };
    let cs = chars_of(value.as_str());
    match cut(cs.as_slice(), ' ') {
        None => None,
        Some((scheme, rest)) => {
            if !is_text(lowered(scheme.as_slice()).as_slice(), "bearer") {
                return None;
            }
            let token = without_leading_space(rest.as_slice());
            if token.len() == 0 {
                None
            } else {
                Some(string_of(token.as_slice()))
            }
        },
    }
}

fn without_leading_space(cs: &[char]) -> (r: Vec<char>)
    ensures
        r@ == crate::text::trim_start(cs@),
{
    let n = cs.len();
    let mut i: usize = 0;
    assert(cs@.skip(0) =~= cs@);
    while i < n && white_space(cs[i])
        invariant
            i <= n,
            n == cs@.len(),
            crate::text::trim_start(cs@.skip(i as int)) == crate::text::trim_start(cs@),
        decreases n - i,
    {
        assert(cs@.skip(i as int).skip(1) =~= cs@.skip(i + 1));
        i += 1;
    }
    assert(cs@.skip(i as int) =~= cs@.subrange(i as int, n as int));
    piece(cs, i, n)
}

/// The token behind the literal `Bearer `.
pub fn extract_bearer_token(headers: &HeaderMap) -> (r: Result<String, CaptchaError>)
    ensures
        match r {
            Ok(token) => crate::headers::header_text(crate::headers::fields(*headers), "authorization"@) == Some(
                "Bearer "@ + token@,
            ),
            Err(e) => {
                &&& e == CaptchaError::Unauthorized
                &&& match crate::headers::header_text(crate::headers::fields(*headers), "authorization"@) {
                    None => true,
                    Some(value) => !"Bearer "@.is_prefix_of(value),
                }
            },
        },
{
    let value = match text_of(headers, "authorization") {
        None => {
            return Err(CaptchaError::Unauthorized);
        },
        Some(value) => value,
    };
    let cs = chars_of(value.as_str());
    if !begins_with_text(cs.as_slice(), "Bearer ") {
        return Err(CaptchaError::Unauthorized);
    }
    proof {
        reveal_strlit("Bearer ");
    }
    let n = cs.len();
    let token = string_of(piece(cs.as_slice(), 7, n).as_slice());
    assert(value@ =~= "Bearer "@ + token@);
    Ok(token)
}

/// Whether a text is the expected secret. Of two texts of the same length every character is
/// compared, wherever they differ.
pub fn is_secret(given: &str, expected: &str) -> (r: bool)
    ensures
        r == (given@ == expected@),
{
    let a = chars_of(given);
    let b = chars_of(expected);
    let n = a.len();
    if n != b.len() {
        return false;
    }
    let mut diff: u32 = 0;
    assert(a@.take(0) =~= b@.take(0));
    for i in 0..n
        invariant
            n == a@.len(),
            n == b@.len(),
            diff == 0 <==> a@.take(i as int) == b@.take(i as int),
    {
        let x = code_point(a[i]);
        let y = code_point(b[i]);
        let d = x ^ y;
        assert(d == 0 <==> x == y) by (bit_vector)
            requires
                d == x ^ y,
        ;
        assert((diff | d) == 0 <==> diff == 0 && d == 0) by (bit_vector);
        proof {
            let next_a = a@.take(i + 1);
            let next_b = b@.take(i + 1);
            assert(next_a =~= a@.take(i as int).push(a@[i as int]));
            assert(next_b =~= b@.take(i as int).push(b@[i as int]));
            if next_a == next_b {
                assert(a@.take(i as int) =~= next_a.drop_last());
                assert(b@.take(i as int) =~= next_b.drop_last());
                assert(next_a[i as int] == next_b[i as int]);
            }
        }
        diff = diff | d;
    }
    assert(a@.take(n as int) =~= a@);
    assert(b@.take(n as int) =~= b@);
    diff == 0
}

/// A bearer token is what stands behind the scheme, in any case of its letters, and one or more
/// spaces; it is not empty and keeps the case of its own letters. Another scheme has none.
pub proof fn lemma_bearer_token(scheme: Seq<char>, token: Seq<char>)
    requires
        forall|i: int| 0 <= i < scheme.len() ==> scheme[i] != ' ',
        token.len() > 0,
        !crate::text::is_white_space(token[0]),
    ensures
        crate::text::ascii_lower(scheme) == "bearer"@ ==> bearer_of(scheme + seq![' '] + token)
            == Some(token),
        crate::text::ascii_lower(scheme) != "bearer"@ ==> bearer_of(scheme + seq![' '] + token)
            is None,
        bearer_of(scheme) is None,
        crate::text::ascii_lower(scheme) == "bearer"@ ==> bearer_of(scheme.push(' ')) is None,
{
    let value = scheme + seq![' '] + token;
    crate::text::lemma_index_of(value, ' ');
    assert(value[scheme.len() as int] == ' ');
    let i = crate::text::index_of(value, ' ')->0;
    if i < scheme.len() {
        assert(value[i] == scheme[i]);
    }
    assert(value.take(i) =~= scheme);
    assert(value.skip(i + 1) =~= token);
    crate::text::lemma_index_of(scheme, ' ');
    let bare = scheme.push(' ');
    crate::text::lemma_index_of(bare, ' ');
    assert(bare[scheme.len() as int] == ' ');
    let j = crate::text::index_of(bare, ' ')->0;
    if j < scheme.len() {
        assert(bare[j] == scheme[j]);
    }
    assert(bare.skip(j + 1) =~= Seq::<char>::empty());
}

/// A token comes only from behind the scheme, and what is given is the end of the header
/// without the white space before it.
pub proof fn lemma_bearer_is_end(value: Seq<char>)
    ensures
        bearer_of(value) matches Some(token) ==> {
            &&& token.len() > 0
            &&& !crate::text::is_white_space(token[0])
            &&& value.len() >= token.len() + 7
            &&& value.skip(value.len() - token.len()) == token
            &&& crate::text::ascii_lower(value.take(6)) == "bearer"@
            &&& value[6] == ' '
        },
{
    reveal_strlit("bearer");
    crate::text::lemma_index_of(value, ' ');
    if bearer_of(value) is Some {
        let i = crate::text::index_of(value, ' ')->0;
        let rest = value.skip(i + 1);
        crate::text::lemma_trim_start(rest);
        let token = bearer_of(value)->0;
        assert(crate::text::ascii_lower(value.take(i)).len() == i);
        assert(i == 6);
        assert(value.skip(value.len() - token.len()) =~= rest.skip(rest.len() - token.len()));
    }
}

/// The token of a request is that of its `Authorization` header.
pub proof fn lemma_request_token(headers: Map<Seq<char>, Seq<u8>>)
    ensures
        crate::headers::header_text(headers, "authorization"@) is None ==> request_token(headers)
            is None,
        crate::headers::header_text(headers, "authorization"@) matches Some(value)
            ==> request_token(headers) == bearer_of(value),
{
}

} // verus!
