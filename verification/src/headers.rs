//! The header fields of a request.
use axum::http::{HeaderMap, HeaderValue};
use vstd::prelude::*;
use vstd::string::*;

verus! {

/// A map of header fields, as `axum` hands it over.
#[verifier::external_type_specification]
#[verifier::external_body]
#[verifier::reject_recursive_types(T)]
pub struct ExHeaderMap<T>(HeaderMap<T>);

/// The value of a header field.
#[verifier::external_type_specification]
#[verifier::external_body]
pub struct ExHeaderValue(HeaderValue);

/// What a map of header fields holds: the first value of each field, by the name of the
/// field in lower case.
pub uninterp spec fn fields(headers: HeaderMap<HeaderValue>) -> Map<Seq<char>, Seq<u8>>;

/// A value that need not be there.
pub open spec fn optional_bytes(value: Option<Vec<u8>>) -> Option<Seq<u8>> {
    match value {
        Some(bytes) => Some(bytes@),
        None => None,
    }
}

/// The value of a field. Names are the same whatever the case of their letters.
pub open spec fn field_of(headers: Map<Seq<char>, Seq<u8>>, name: Seq<char>) -> Option<Seq<u8>> {
    if sent(headers, name) {
        Some(headers[crate::text::ascii_lower(name)])
    } else {
        None
    }
}

/// A field of the given name was sent, whatever its value.
pub open spec fn sent(headers: Map<Seq<char>, Seq<u8>>, name: Seq<char>) -> bool {
    headers.contains_key(crate::text::ascii_lower(name))
}

/// `http::HeaderMap::get`, with the bytes of the value. The claim is that it finds the
/// first value of the field, by its name in any case of the letters.
#[verifier::external_body]
fn first_value(headers: &HeaderMap, name: &str) -> (r: Option<Vec<u8>>)
    ensures
        optional_bytes(r) == field_of(fields(*headers), name@),
{
    match headers.get(name) {
        Some(value) => Some(value.as_bytes().to_vec()),
        None => None,
    }
}

/// `http::HeaderMap::contains_key`. The claim is that it tells whether the field is there,
/// by its name in any case of the letters.
#[verifier::external_body]
pub(crate) fn was_sent(headers: &HeaderMap, name: &str) -> (r: bool)
    ensures
        r == sent(fields(*headers), name@),
{
    headers.contains_key(name)
}

/// The bytes that a header value may hold to be read as text: visible ASCII, the
/// space and the tab.
pub open spec fn is_text_byte(b: u8) -> bool {
    b == 9 || 32 <= b < 127
}

/// A header value as text, where every byte of it is.
pub open spec fn value_text(value: Seq<u8>) -> Option<Seq<char>> {
    if forall|i: int| 0 <= i < value.len() ==> is_text_byte(#[trigger] value[i]) {
        Some(value.map_values(|b: u8| b as char))
    } else {
        None
    }
}

/// The text of a header, where it is there and its value is text.
pub open spec fn header_text(headers: Map<Seq<char>, Seq<u8>>, name: Seq<char>) -> Option<
    Seq<char>,
> {
    match field_of(headers, name) {
        Some(value) => value_text(value),
        None => None,
    }
}

/// The value of a field as text.
pub fn text_of(headers: &HeaderMap, name: &str) -> (r: Option<String>)
    ensures
        match r {
            Some(text) => header_text(fields(*headers), name@) == Some(text@),
            None => header_text(fields(*headers), name@) is None,
        },
{
    match first_value(headers, name) {
        None => None,
        Some(value) => {
            let mut out = String::new();
            let n = value.len();
            for i in 0..n
                invariant
                    n == value@.len(),
                    field_of(fields(*headers), name@) == Some(value@),
                    forall|j: int| 0 <= j < i ==> is_text_byte(#[trigger] value@[j]),
                    out@ == value@.take(i as int).map_values(|b: u8| b as char),
            {
                let b = value[i];
                if !(b == 9 || (32 <= b && b < 127)) {
                    assert(!is_text_byte(value@[i as int]));
                    return None;
                }
                out.push(b as char);
                assert(out@ =~= value@.take(i + 1).map_values(|b: u8| b as char));
            }
            assert(value@.take(n as int) =~= value@);
            Some(out)
        },
    }
}

/// A field is found by its name in any case of the letters, and its value is text exactly where
/// every byte is a tab or a visible character of ASCII or the space; then each byte is a
/// character.
pub proof fn lemma_header_text(headers: Map<Seq<char>, Seq<u8>>, name: Seq<char>)
    ensures
        header_text(headers, name) == header_text(headers, crate::text::ascii_lower(name)),
        sent(headers, name) == sent(headers, crate::text::ascii_lower(name)),
        header_text(headers, name) is Some ==> sent(headers, name),
        headers.contains_key(crate::text::ascii_lower(name)) <==> sent(headers, name),
        sent(headers, name) ==> {
            let value = headers[crate::text::ascii_lower(name)];
            &&& header_text(headers, name) is Some <==> forall|i: int|
                0 <= i < value.len() ==> (#[trigger] value[i]) == 9 || (value[i] >= 32 && value[i]
                    <= 126)
            &&& header_text(headers, name) matches Some(text) ==> text.len() == value.len()
                && forall|i: int|
                0 <= i < text.len() ==> (#[trigger] text[i]) as int == value[i]
        },
{
    crate::text::lemma_ascii_lower(name);
    if sent(headers, name) {
        let value = headers[crate::text::ascii_lower(name)];
        if forall|i: int|
            0 <= i < value.len() ==> (#[trigger] value[i]) == 9 || (value[i] >= 32 && value[i]
                <= 126) {
            assert forall|i: int| 0 <= i < value.len() implies is_text_byte(
                #[trigger] value[i],
            ) by {}
        }
    }
}

} // verus!
