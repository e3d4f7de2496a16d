//! Identifiers: sites and challenges carry UUIDs, held as 128-bit numbers.
use vstd::prelude::*;

verus! {

/// A UUID as the number that its 16 bytes write, most significant byte first.
pub type Uuid = u128;

/// The numbers of random UUIDs: version 4, in the variant of RFC 4122.
pub open spec fn is_v4(id: Uuid) -> bool {
    &&& (id >> 76) & 0xF == 4
    &&& (id >> 62) & 0x3 == 2
}

/// A fresh random identifier, by `uuid::Uuid::new_v4`. Claimed are the version
/// and variant bits that the function sets; the other bits are random.
#[verifier::external_body]
pub(crate) fn fresh_uuid() -> (r: Uuid)
    ensures
        is_v4(r),
{
    uuid::Uuid::new_v4().as_u128()
}

/// What `uuid::Uuid::parse_str` makes of a text: the identifier that it writes,
/// in any of the notations that the function knows, or what is wrong with it.
pub uninterp spec fn uuid_of_text(text: Seq<char>) -> Result<u128, Seq<char>>;

/// `uuid::Uuid::parse_str`: the claim is that the result, and the text of the error, depend
/// on the text alone, and that the notation with hyphens is read.
#[verifier::external_body]
fn parse_uuid_text(text: &str) -> (r: Result<u128, String>)
    ensures
        match r {
            Ok(id) => uuid_of_text(text@) == Ok::<u128, Seq<char>>(id),
            Err(e) => uuid_of_text(text@) == Err::<u128, Seq<char>>(e@),
        },
        forall|id: u128| text@ == #[trigger] hyphenated(id) ==> r is Ok && r->Ok_0 == id,
{
    uuid::Uuid::parse_str(text).map(|id| id.as_u128()).map_err(|e| e.to_string())
}

/// The identifier that a text writes. What `uuid_text` wrote is read back.
pub fn parse_uuid(text: &str) -> (r: Result<Uuid, String>)
    ensures
        match r {
            Ok(id) => uuid_of_text(text@) == Ok::<u128, Seq<char>>(id),
            Err(e) => uuid_of_text(text@) == Err::<u128, Seq<char>>(e@),
        },
        forall|id: u128| text@ == #[trigger] hyphenated(id) ==> r is Ok && r->Ok_0 == id,
{
    parse_uuid_text(text)
}

/// The usual notation: 32 hexadecimal digits in groups of 8, 4, 4, 4 and 12, with hyphens
/// between the groups.
pub open spec fn hyphenated(id: Uuid) -> Seq<char> {
    let digits = crate::crypto::hex_text(crate::bytes::be_bytes(id as nat, 16));
    digits.subrange(0, 8) + seq!['-'] + digits.subrange(8, 12) + seq!['-'] + digits.subrange(
        12,
        16,
    ) + seq!['-'] + digits.subrange(16, 20) + seq!['-'] + digits.subrange(20, 32)
}

/// The text of an identifier by `Display` of `uuid::Uuid`: in lower case, with hyphens.
#[verifier::external_body]
fn write_uuid(id: Uuid) -> (r: String)
    ensures
        r@ == hyphenated(id),
{
    uuid::Uuid::from_u128(id).to_string()
}

/// The text of an identifier.
pub fn uuid_text(id: Uuid) -> (r: String)
    ensures
        r@ == hyphenated(id),
{
    write_uuid(id)
}

} // verus!
