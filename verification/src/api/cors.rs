//! The origins whose scripts may ask for puzzles.
use vstd::prelude::*;

use crate::text::{chars_of, code_point, pieces, string_of, Separator};

verus! {

/// A character that may stand in the value of a header: no control character.
pub open spec fn is_header_char(c: char) -> bool {
    c as int >= 32 && c as int != 127
}

/// An origin that may stand in the value of a header.
pub open spec fn is_sendable(origin: Seq<char>) -> bool {
    origin.len() > 0 && forall|i: int|
        0 <= i < origin.len() ==> is_header_char(#[trigger] origin[i])
}

/// The parts of a list that may stand in the value of a header, in their order.
pub open spec fn sendable(parts: Seq<Seq<char>>) -> Seq<Seq<char>>
    decreases parts.len(),
{
    if parts.len() == 0 {
        Seq::empty()
    } else if is_sendable(parts.last()) {
        sendable(parts.drop_last()).push(parts.last())
    } else {
        sendable(parts.drop_last())
    }
}

fn can_send(origin: &[char]) -> (r: bool)
    ensures
        r == is_sendable(origin@),
{
    let n = origin.len();
    if n == 0 {
        return false;
    }
    for i in 0..n
        invariant
            n == origin@.len(),
            forall|j: int| 0 <= j < i ==> is_header_char(#[trigger] origin@[j]),
    {
        let p = code_point(origin[i]);
        if p < 32 || p == 127 {
            assert(!is_header_char(origin@[i as int]));
            return false;
        }
    }
    true
}

/// The origins of a list that can be sent, in their order.
pub open spec fn listed_origins(list: Seq<char>) -> Seq<Seq<char>> {
    sendable(crate::text::split(list, Separator::CommaOrWhiteSpace))
}

/// The origins of a list that is separated by commas or white space. What cannot be sent in
/// a header is left out.
pub fn parse_origins(list: &str) -> (r: Vec<String>)
    ensures
        crate::text::string_views(r@) == listed_origins(list@),
        crate::text::string_views(r@) == sendable(
            crate::text::split(list@, Separator::CommaOrWhiteSpace),
        ),
{
    let parts = pieces(chars_of(list).as_slice(), Separator::CommaOrWhiteSpace);
    let ghost views = crate::text::views(parts@);
    let mut out: Vec<String> = Vec::new();
    let n = parts.len();
    assert(crate::text::string_views(out@) =~= sendable(views.take(0)));
    for i in 0..n
        invariant
            n == parts@.len(),
            views == crate::text::views(parts@),
            crate::text::string_views(out@) == sendable(views.take(i as int)),
    {
        let ghost next = views.take(i + 1);
        assert(next.drop_last() =~= views.take(i as int));
        assert(next.last() == parts@[i as int]@);
        if can_send(parts[i].as_slice()) {
            let ghost before = out@;
            let origin = string_of(parts[i].as_slice());
            out.push(origin);
            assert(crate::text::string_views(out@) =~= crate::text::string_views(before).push(
                parts@[i as int]@,
            ));
        }
    }
    assert(views.take(n as int) =~= views);
    out
}

/// The origins whose scripts may ask for puzzles: any, where nothing is set; else those that
/// the setting lists and no others, also where it lists none that can be sent.
pub fn allowed_origins(setting: &Option<String>) -> (r: Option<Vec<String>>)
    ensures
        match setting {
            None => r is None,
            Some(list) => r matches Some(origins) && crate::text::string_views(origins@)
                == sendable(crate::text::split(list@, Separator::CommaOrWhiteSpace)),
        },
{
    match setting {
        None => None,
        Some(list) => Some(parse_origins(list.as_str())),
    }
}

/// Of a list the parts that can be sent are kept, in their order, and no others: those that are
/// not empty and hold no control character.
pub proof fn lemma_sendable(parts: Seq<Seq<char>>, part: Seq<char>)
    ensures
        sendable(Seq::empty()).len() == 0,
        part.len() > 0 && (forall|i: int|
            0 <= i < part.len() ==> (#[trigger] part[i]) as int >= 32 && part[i] as int != 127)
            ==> sendable(parts.push(part)) == sendable(parts).push(part),
        part.len() == 0 ==> sendable(parts.push(part)) == sendable(parts),
        (exists|i: int|
            0 <= i < part.len() && ((#[trigger] part[i]) as int) < 32 || part[i] as int == 127 && 0
                <= i < part.len()) ==> sendable(parts.push(part)) == sendable(parts),
{
    assert(parts.push(part).drop_last() =~= parts);
    if exists|i: int|
        0 <= i < part.len() && ((#[trigger] part[i]) as int) < 32 || part[i] as int == 127 && 0 <= i
            < part.len() {
        let i = choose|i: int|
            0 <= i < part.len() && ((#[trigger] part[i]) as int) < 32 || part[i] as int == 127 && 0
                <= i < part.len();
        assert(!is_header_char(part[i]));
    }
    if part.len() > 0 && (forall|i: int|
        0 <= i < part.len() ==> (#[trigger] part[i]) as int >= 32 && part[i] as int != 127) {
        assert forall|i: int| 0 <= i < part.len() implies is_header_char(#[trigger] part[i]) by {}
    }
}

proof fn lemma_sendable_concat(a: Seq<Seq<char>>, b: Seq<Seq<char>>)
    ensures
        sendable(a + b) == sendable(a) + sendable(b),
    decreases b.len(),
{
    if b.len() == 0 {
        assert(a + b =~= a);
        assert(sendable(a) + sendable(b) =~= sendable(a));
    } else {
        lemma_sendable_concat(a, b.drop_last());
        assert((a + b).drop_last() =~= a + b.drop_last());
        assert((a + b).last() == b.last());
        assert(sendable(a + b) =~= sendable(a) + sendable(b));
    }
}

/// A comma and any white space separate the origins of a list: two lists with one of them in
/// between have the origins of both, and an origin without either is a list of one.
pub proof fn lemma_origin_list(a: Seq<char>, c: char, b: Seq<char>)
    requires
        c == ',' || crate::text::is_white_space(c),
    ensures
        listed_origins(a.push(c) + b) == listed_origins(a) + listed_origins(b),
        a.len() > 0 && (forall|i: int|
            0 <= i < a.len() ==> (#[trigger] a[i]) as int > 32 && a[i] as int != 127 && a[i] != ','
                && !crate::text::is_white_space(a[i])) ==> listed_origins(a) == seq![a],
        listed_origins(Seq::empty()).len() == 0,
{
    let sep = Separator::CommaOrWhiteSpace;
    crate::text::lemma_split_at_separator(a, c, b, sep);
    lemma_sendable_concat(crate::text::split(a, sep), crate::text::split(b, sep));
    let none = Seq::<Seq<char>>::empty();
    assert(sendable(none).len() == 0);
    assert(seq![Seq::<char>::empty()].drop_last() =~= none);
    if a.len() > 0 && (forall|i: int|
        0 <= i < a.len() ==> (#[trigger] a[i]) as int > 32 && a[i] as int != 127 && a[i] != ','
            && !crate::text::is_white_space(a[i])) {
        crate::text::lemma_one_piece(a, sep);
        assert(seq![a].drop_last() =~= none);
        assert forall|i: int| 0 <= i < a.len() implies is_header_char(#[trigger] a[i]) by {}
        assert(none.push(a) =~= seq![a]);
        assert(sendable(none) =~= none);
    }
}

} // verus!
