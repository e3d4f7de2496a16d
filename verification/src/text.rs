//! Text handling: the few string operations that the rest of the crate is
//! written with, over the characters of a text as a sequence.
use vstd::prelude::*;
use vstd::string::*;

verus! {

/// `String::push` appends one character.
pub assume_specification[ String::push ](s: &mut String, c: char)
    ensures
        final(s)@ == old(s)@.push(c),
;

/// The characters with the Unicode property `White_Space`.
pub open spec fn is_white_space(c: char) -> bool {
    let p = c as int;
    ||| 0x9 <= p <= 0xD
    ||| p == 0x20
    ||| p == 0x85
    ||| p == 0xA0
    ||| p == 0x1680
    ||| 0x2000 <= p <= 0x200A
    ||| p == 0x2028
    ||| p == 0x2029
    ||| p == 0x202F
    ||| p == 0x205F
    ||| p == 0x3000
}

/// A text without its leading white space.
pub open spec fn trim_start(s: Seq<char>) -> Seq<char>
    decreases s.len(),
{
    if s.len() > 0 && is_white_space(s[0]) {
        trim_start(s.skip(1))
    } else {
        s
    }
}

/// A text without its trailing white space.
pub open spec fn trim_end(s: Seq<char>) -> Seq<char>
    decreases s.len(),
{
    if s.len() > 0 && is_white_space(s.last()) {
        trim_end(s.drop_last())
    } else {
        s
    }
}

/// A text without the white space at either end.
pub open spec fn trim(s: Seq<char>) -> Seq<char> {
    trim_end(trim_start(s))
}

/// The lower-case form of an ASCII letter; every other character is itself.
pub open spec fn ascii_lower_char(c: char) -> char {
    if 'A' as int <= c as int <= 'Z' as int {
        ((c as int) + 32) as char
    } else {
        c
    }
}

/// A text with its ASCII letters in lower case.
pub open spec fn ascii_lower(s: Seq<char>) -> Seq<char> {
    s.map_values(|c: char| ascii_lower_char(c))
}

/// What separates the pieces of a list.
#[derive(Clone, Copy)]
pub enum Separator {
    /// One given character.
    Char(char),
    /// Any white space.
    WhiteSpace,
    /// A comma, or any white space.
    CommaOrWhiteSpace,
}

impl Separator {
    pub open spec fn separates(self, c: char) -> bool {
        match self {
            Separator::Char(sep) => c == sep,
            Separator::WhiteSpace => is_white_space(c),
            Separator::CommaOrWhiteSpace => c == ',' || is_white_space(c),
        }
    }
}

/// The pieces of a text between separators. A text with n separators has
/// n + 1 pieces, some of them possibly empty.
pub open spec fn split(s: Seq<char>, sep: Separator) -> Seq<Seq<char>>
    decreases s.len(),
{
    if s.len() == 0 {
        seq![Seq::<char>::empty()]
    } else {
        let before = split(s.drop_last(), sep);
        if sep.separates(s.last()) {
            before.push(Seq::empty())
        } else {
            before.drop_last().push(before.last().push(s.last()))
        }
    }
}

/// The texts that a list of character vectors holds.
pub open spec fn views(v: Seq<Vec<char>>) -> Seq<Seq<char>> {
    Seq::new(v.len(), |i: int| v[i]@)
}

/// `needle` stands in `hay` at position `i`.
pub open spec fn occurs_at(hay: Seq<char>, needle: Seq<char>, i: int) -> bool {
    &&& 0 <= i
    &&& i + needle.len() <= hay.len()
    &&& hay.subrange(i, i + needle.len()) == needle
}

/// `needle` stands somewhere in `hay`.
pub open spec fn contains(hay: Seq<char>, needle: Seq<char>) -> bool {
    exists|i: int| #[trigger] occurs_at(hay, needle, i)
}

pub open spec fn is_digit(c: char) -> bool {
    '0' as int <= c as int <= '9' as int
}

/// The number that a sequence of decimal digits writes.
pub open spec fn digits_value(s: Seq<char>) -> nat
    decreases s.len(),
{
    if s.len() == 0 {
        0
    } else {
        digits_value(s.drop_last()) * 10 + (s.last() as int - '0' as int) as nat
    }
}

/// The text behind an optional leading plus sign.
pub open spec fn unsigned_body(s: Seq<char>) -> Seq<char> {
    if s.len() > 0 && s[0] == '+' {
        s.skip(1)
    } else {
        s
    }
}

/// The unsigned number that a text writes: decimal digits, at least one, behind
/// an optional plus sign, with a value of at most `max`.
pub open spec fn parse_unsigned(s: Seq<char>, max: nat) -> Option<nat> {
    let body = unsigned_body(s);
    if body.len() > 0 && (forall|i: int| 0 <= i < body.len() ==> is_digit(#[trigger] body[i]))
        && digits_value(body) <= max {
        Some(digits_value(body))
    } else {
        None
    }
}

pub open spec fn digit_char(d: nat) -> char {
    (('0' as int) + d) as char
}

/// A number in decimal digits, without leading zeros.
pub open spec fn decimal(n: nat) -> Seq<char>
    decreases n,
{
    if n < 10 {
        seq![digit_char(n)]
    } else {
        decimal(n / 10).push(digit_char(n % 10))
    }
}

/// The characters of a text.
pub fn chars_of(s: &str) -> (r: Vec<char>)
    ensures
        r@ == s@,
{
    let mut out: Vec<char> = Vec::new();
    for c in iter: s.chars()
        invariant
            out@ == s@.take(iter.index()),
            iter.seq() == s@,
    {
        out.push(c);
    }
    out
}

/// The text made of the given characters.
pub fn string_of(cs: &[char]) -> (r: String)
    ensures
        r@ == cs@,
{
    let mut out = String::new();
    let n = cs.len();
    for i in 0..n
        invariant
            n == cs@.len(),
            out@ == cs@.take(i as int),
    {
        out.push(cs[i]);
        assert(out@ == cs@.take(i + 1));
    }
    assert(cs@.take(n as int) == cs@);
    out
}

/// The characters from position `from` up to, not including, `to`.
pub fn piece(cs: &[char], from: usize, to: usize) -> (r: Vec<char>)
    requires
        from <= to <= cs@.len(),
    ensures
        r@ == cs@.subrange(from as int, to as int),
{
    let mut out: Vec<char> = Vec::new();
    let mut i = from;
    while i < to
        invariant
            from <= i <= to <= cs@.len(),
            out@ == cs@.subrange(from as int, i as int),
        decreases to - i,
    {
        out.push(cs[i]);
        i += 1;
    }
    out
}

/// The number of a character.
pub fn code_point(c: char) -> (r: u32)
    ensures
        r == c as int,
{
    c as u32
}

pub fn white_space(c: char) -> (r: bool)
    ensures
        r == is_white_space(c),
{
    let p = c as u32;
    (0x9 <= p && p <= 0xD) || p == 0x20 || p == 0x85 || p == 0xA0 || p == 0x1680 || (0x2000 <= p
        && p <= 0x200A) || p == 0x2028 || p == 0x2029 || p == 0x202F || p == 0x205F || p == 0x3000
}

proof fn lemma_trim_start_skip(s: Seq<char>, i: int)
    requires
        0 <= i <= s.len(),
        forall|j: int| 0 <= j < i ==> is_white_space(#[trigger] s[j]),
    ensures
        trim_start(s) == trim_start(s.skip(i)),
    decreases i,
{
    if i > 0 {
        lemma_trim_start_skip(s.skip(1), i - 1);
        assert(s.skip(1).skip(i - 1) == s.skip(i));
    } else {
        assert(s.skip(0) == s);
    }
}

/// `trim` on characters.
pub fn trimmed(cs: &[char]) -> (r: Vec<char>)
    ensures
        r@ == trim(cs@),
{
    let n = cs.len();
    let mut lo: usize = 0;
    while lo < n && white_space(cs[lo])
        invariant
            n == cs@.len(),
            lo <= n,
            forall|j: int| 0 <= j < lo ==> is_white_space(#[trigger] cs@[j]),
        decreases n - lo,
    {
        lo += 1;
    }
    proof {
        lemma_trim_start_skip(cs@, lo as int);
    }
    let ghost rest = cs@.skip(lo as int);
    assert(trim_start(cs@) == rest);
    let mut hi: usize = n;
    assert(rest.take(hi - lo) == rest);
    while hi > lo && white_space(cs[hi - 1])
        invariant
            n == cs@.len(),
            lo <= hi <= n,
            rest == cs@.skip(lo as int),
            trim_end(rest.take(hi - lo)) == trim_end(rest),
        decreases hi,
    {
        assert(rest.take(hi - lo).drop_last() == rest.take(hi - 1 - lo));
        hi -= 1;
    }
    assert(rest.take(hi - lo) == cs@.subrange(lo as int, hi as int));
    piece(cs, lo, hi)
}

pub fn lower_char(c: char) -> (r: char)
    ensures
        r == ascii_lower_char(c),
{
    let p = c as u32;
    if 65 <= p && p <= 90 {
        (p as u8 + 32) as char
    } else {
        c
    }
}

/// `ascii_lower` on characters.
pub fn lowered(cs: &[char]) -> (r: Vec<char>)
    ensures
        r@ == ascii_lower(cs@),
{
    let mut out: Vec<char> = Vec::new();
    let n = cs.len();
    for i in 0..n
        invariant
            n == cs@.len(),
            out@ == ascii_lower(cs@.take(i as int)),
    {
        out.push(lower_char(cs[i]));
        assert(out@ == ascii_lower(cs@.take(i + 1)));
    }
    assert(cs@.take(n as int) == cs@);
    out
}

impl Separator {
    pub fn cuts(&self, c: char) -> (r: bool)
        ensures
            r == self.separates(c),
    {
        match self {
            Separator::Char(sep) => c == *sep,
            Separator::WhiteSpace => white_space(c),
            Separator::CommaOrWhiteSpace => c == ',' || white_space(c),
        }
    }
}

/// `split` on characters.
pub fn pieces(cs: &[char], sep: Separator) -> (r: Vec<Vec<char>>)
    ensures
        views(r@) == split(cs@, sep),
        r@.len() > 0,
{
    let mut done: Vec<Vec<char>> = Vec::new();
    let mut current: Vec<char> = Vec::new();
    let n = cs.len();
    assert(views(done@).push(current@) == split(cs@.take(0), sep));
    for i in 0..n
        invariant
            n == cs@.len(),
            views(done@).push(current@) == split(cs@.take(i as int), sep),
    {
        let c = cs[i];
        assert(cs@.take(i + 1).drop_last() == cs@.take(i as int));
        let ghost before = views(done@).push(current@);
        assert(before.drop_last() == views(done@));
        if sep.cuts(c) {
            done.push(current);
            current = Vec::new();
            assert(views(done@) == before);
        } else {
            current.push(c);
        }
        assert(views(done@).push(current@) == split(cs@.take(i + 1), sep));
    }
    assert(cs@.take(n as int) == cs@);
    let ghost before = views(done@).push(current@);
    done.push(current);
    assert(views(done@) == before);
    done
}

fn matches_at(hay: &[char], needle: &[char], at: usize) -> (r: bool)
    requires
        at + needle@.len() <= hay@.len(),
    ensures
        r == occurs_at(hay@, needle@, at as int),
{
    let n = needle.len();
    let m = hay.len();
    for i in 0..n
        invariant
            n == needle@.len(),
            m == hay@.len(),
            at + n <= m,
            forall|j: int| 0 <= j < i ==> hay@[at + j] == needle@[j],
    {
        if hay[at + i] != needle[i] {
            assert(hay@.subrange(at as int, at + n)[i as int] != needle@[i as int]);
            return false;
        }
    }
    assert(hay@.subrange(at as int, at + n) == needle@);
    true
}

/// Whether `needle` stands somewhere in `hay`.
pub fn has(hay: &[char], needle: &[char]) -> (r: bool)
    ensures
        r == contains(hay@, needle@),
{
    if needle.len() > hay.len() {
        return false;
    }
    let last = hay.len() - needle.len();
    let mut i: usize = 0;
    while i <= last
        invariant
            last + needle@.len() == hay@.len(),
            i <= last + 1,
            forall|j: int| 0 <= j < i ==> !occurs_at(hay@, needle@, j),
        decreases last + 1 - i,
    {
        if matches_at(hay, needle, i) {
            return true;
        }
        if i == last {
            assert forall|j: int| !occurs_at(hay@, needle@, j) by {
                if 0 <= j < i {
                }
            }
            return false;
        }
        i += 1;
    }
    false
}

/// Whether `hay` begins with `needle`.
pub fn begins_with(hay: &[char], needle: &[char]) -> (r: bool)
    ensures
        r == needle@.is_prefix_of(hay@),
{
    needle.len() <= hay.len() && matches_at(hay, needle, 0)
}

/// Whether two texts are the same.
pub fn same(a: &str, b: &str) -> (r: bool)
    ensures
        r == (a@ == b@),
{
    a.to_owned() == b.to_owned()
}

/// Whether two sequences of characters are the same.
pub fn same_chars(a: &[char], b: &[char]) -> (r: bool)
    ensures
        r == (a@ == b@),
{
    let r = a.len() == b.len() && matches_at(a, b, 0);
    proof {
        if a@.len() == b@.len() {
            assert(a@.subrange(0, b@.len() as int) == a@);
        }
    }
    r
}

proof fn lemma_digits_value_grows(s: Seq<char>, k: int)
    requires
        0 <= k <= s.len(),
    ensures
        digits_value(s.take(k)) <= digits_value(s),
    decreases s.len(),
{
    if k < s.len() {
        lemma_digits_value_grows(s.drop_last(), k);
        assert(s.drop_last().take(k) == s.take(k));
    } else {
        assert(s.take(k) == s);
    }
}

/// `parse_unsigned` on characters.
pub fn unsigned(cs: &[char], max: u64) -> (r: Option<u64>)
    ensures
        match r {
            Some(n) => parse_unsigned(cs@, max as nat) == Some(n as nat),
            None => parse_unsigned(cs@, max as nat) is None,
        },
{
    let n = cs.len();
    let start: usize = if n > 0 && cs[0] == '+' {
        1
    } else {
        0
    };
    let ghost body = unsigned_body(cs@);
    assert(body == cs@.skip(start as int));
    if start == n {
        return None;
    }
    let mut value: u64 = 0;
    let mut i: usize = start;
    assert(body.take(0) == Seq::<char>::empty());
    while i < n
        invariant
            n == cs@.len(),
            start <= i <= n,
            body == cs@.skip(start as int),
            body == unsigned_body(cs@),
            forall|j: int| 0 <= j < i - start ==> is_digit(#[trigger] body[j]),
            value == digits_value(body.take(i - start)),
            value <= max,
        decreases n - i,
    {
        let p = code_point(cs[i]);
        assert(body[i - start] == cs@[i as int]);
        if p < 48 || 57 < p {
            return None;
        }
        let d: u64 = (p - 48) as u64;
        assert(body.take(i - start + 1).drop_last() == body.take(i - start));
        assert(digits_value(body.take(i - start + 1)) == value * 10 + d);
        proof {
            lemma_digits_value_grows(body, i - start + 1);
        }
        if value > max / 10 || d > max - value * 10 {
            return None;
        }
        value = value * 10 + d;
        i += 1;
    }
    assert(body.take(n - start) == body);
    Some(value)
}

/// `decimal` as a text.
pub fn decimal_text(n: u64) -> (r: String)
    ensures
        r@ == decimal(n as nat),
    decreases n,
{
    let d: u8 = (n % 10) as u8;
    if n < 10 {
        let mut out = String::new();
        out.push((48 + d) as char);
        assert(out@ == decimal(n as nat));
        out
    } else {
        let mut out = decimal_text(n / 10);
        out.push((48 + d) as char);
        out
    }
}

/// The length of a text in bytes, as UTF-8.
pub fn byte_len(s: &str) -> (r: usize)
    ensures
        r == s.spec_bytes().len(),
{
    s.as_bytes().len()
}

/// The texts that a list of string slices holds.
pub open spec fn str_views(v: Seq<&str>) -> Seq<Seq<char>> {
    Seq::new(v.len(), |i: int| v[i]@)
}

/// Texts, one behind the other, with a separator between each two.
pub open spec fn join(parts: Seq<Seq<char>>, sep: Seq<char>) -> Seq<char>
    decreases parts.len(),
{
    if parts.len() == 0 {
        Seq::empty()
    } else if parts.len() == 1 {
        parts[0]
    } else {
        join(parts.drop_last(), sep) + sep + parts.last()
    }
}

/// `join` on string slices.
pub fn join_texts(parts: &Vec<&str>, sep: &str) -> (r: String)
    ensures
        r@ == join(str_views(parts@), sep@),
{
    let mut out = String::new();
    let n = parts.len();
    let ghost views = str_views(parts@);
    for i in 0..n
        invariant
            n == parts@.len(),
            views == str_views(parts@),
            out@ == join(views.take(i as int), sep@),
    {
        assert(views.take(i + 1).drop_last() == views.take(i as int));
        if i > 0 {
            out.append(sep);
        }
        out.append(parts[i]);
        assert(out@ =~= join(views.take(i + 1), sep@));
    }
    assert(views.take(n as int) == views);
    out
}

/// The parts that are not empty, in their order.
pub open spec fn nonempty(parts: Seq<Seq<char>>) -> Seq<Seq<char>>
    decreases parts.len(),
{
    if parts.len() == 0 {
        Seq::empty()
    } else if parts.last().len() == 0 {
        nonempty(parts.drop_last())
    } else {
        nonempty(parts.drop_last()).push(parts.last())
    }
}

/// The words of a text: its longest stretches without white space.
pub open spec fn words(s: Seq<char>) -> Seq<Seq<char>> {
    nonempty(split(s, Separator::WhiteSpace))
}

/// `words` on characters.
pub fn words_of(cs: &[char]) -> (r: Vec<Vec<char>>)
    ensures
        views(r@) == words(cs@),
{
    let parts = pieces(cs, Separator::WhiteSpace);
    let mut out: Vec<Vec<char>> = Vec::new();
    let n = parts.len();
    let ghost all = views(parts@);
    assert(views(out@) =~= nonempty(all.take(0)));
    for i in 0..n
        invariant
            n == parts@.len(),
            all == views(parts@),
            views(out@) == nonempty(all.take(i as int)),
    {
        assert(all.take(i + 1).drop_last() == all.take(i as int));
        let part = &parts[i];
        if part.len() > 0 {
            let ghost before = views(out@);
            out.push(piece(part.as_slice(), 0, part.len()));
            assert(part@.subrange(0, part@.len() as int) =~= part@);
            assert(views(out@) =~= before.push(part@));
        }
    }
    assert(all.take(n as int) == all);
    out
}

/// The position of the first occurrence of a character.
pub open spec fn index_of(s: Seq<char>, c: char) -> Option<int>
    decreases s.len(),
{
    if s.len() == 0 {
        None
    } else if s[0] == c {
        Some(0)
    } else {
        match index_of(s.skip(1), c) {
            Some(i) => Some(i + 1),
            None => None,
        }
    }
}

/// The position of the first occurrence is that of one, and there is none before it.
pub proof fn lemma_index_of(s: Seq<char>, c: char)
    ensures
        match index_of(s, c) {
            Some(i) => 0 <= i < s.len() && s[i] == c && (forall|j: int| 0 <= j < i ==> s[j] != c),
            None => forall|j: int| 0 <= j < s.len() ==> s[j] != c,
        },
    decreases s.len(),
{
    if s.len() > 0 && s[0] != c {
        lemma_index_of(s.skip(1), c);
        assert forall|j: int| 1 <= j < s.len() implies s[j] == s.skip(1)[j - 1] by {}
    }
}

/// The position of the first occurrence of a character.
pub fn position(cs: &[char], c: char) -> (r: Option<usize>)
    ensures
        match r {
            Some(i) => index_of(cs@, c) == Some(i as int) && i < cs@.len(),
            None => index_of(cs@, c) is None,
        },
{
    proof {
        lemma_index_of(cs@, c);
    }
    let n = cs.len();
    for i in 0..n
        invariant
            n == cs@.len(),
            forall|j: int| 0 <= j < i ==> cs@[j] != c,
            match index_of(cs@, c) {
                Some(i) => 0 <= i < cs@.len() && cs@[i] == c && (forall|j: int|
                    0 <= j < i ==> cs@[j] != c),
                None => forall|j: int| 0 <= j < cs@.len() ==> cs@[j] != c,
            },
    {
        if cs[i] == c {
            return Some(i);
        }
    }
    None
}

/// The text before and the text behind the first occurrence of a character.
pub open spec fn split_once(s: Seq<char>, c: char) -> Option<(Seq<char>, Seq<char>)> {
    match index_of(s, c) {
        Some(i) => Some((s.take(i), s.skip(i + 1))),
        None => None,
    }
}

/// `split_once` on characters.
pub fn cut(cs: &[char], c: char) -> (r: Option<(Vec<char>, Vec<char>)>)
    ensures
        match r {
            Some((a, b)) => split_once(cs@, c) == Some((a@, b@)),
            None => split_once(cs@, c) is None,
        },
{
    match position(cs, c) {
        None => None,
        Some(i) => {
            let a = piece(cs, 0, i);
            let n = cs.len();
            let b = piece(cs, i + 1, n);
            assert(a@ =~= cs@.take(i as int));
            assert(b@ =~= cs@.skip(i + 1));
            Some((a, b))
        },
    }
}

/// The text before the first occurrence of a character; all of it where there is
/// none.
pub open spec fn before_char(s: Seq<char>, c: char) -> Seq<char> {
    match index_of(s, c) {
        Some(i) => s.take(i),
        None => s,
    }
}

/// `before_char` on characters.
pub fn up_to(cs: &[char], c: char) -> (r: Vec<char>)
    ensures
        r@ == before_char(cs@, c),
{
    match position(cs, c) {
        None => {
            assert(cs@.subrange(0, cs@.len() as int) =~= cs@);
            piece(cs, 0, cs.len())
        },
        Some(i) => piece(cs, 0, i),
    }
}

/// The lines of a text, with any carriage return at their ends.
pub open spec fn lines(s: Seq<char>) -> Seq<Seq<char>> {
    split(s, Separator::Char('\n'))
}

/// A text in quotes, with what cannot be shown escaped, as std's `Debug` writes it.
pub uninterp spec fn quoted(text: Seq<char>) -> Seq<char>;

/// `Debug` of a `str`, by `format!`. The claim is that the result depends on the text
/// alone.
#[verifier::external_body]
pub(crate) fn quoted_text(text: &str) -> (r: String)
    ensures
        r@ == quoted(text@),
{
    format!("{text:?}")
}

/// Whether characters are those of a text.
pub fn is_text(cs: &[char], text: &str) -> (r: bool)
    ensures
        r == (cs@ == text@),
{
    let other = chars_of(text);
    same_chars(cs, other.as_slice())
}

/// Whether the characters of a text stand somewhere in `hay`.
pub fn has_text(hay: &[char], text: &str) -> (r: bool)
    ensures
        r == contains(hay@, text@),
{
    let needle = chars_of(text);
    has(hay, needle.as_slice())
}

/// Whether `hay` begins with the characters of a text.
pub fn begins_with_text(hay: &[char], text: &str) -> (r: bool)
    ensures
        r == text@.is_prefix_of(hay@),
{
    let needle = chars_of(text);
    begins_with(hay, needle.as_slice())
}

/// The texts that a list of strings holds.
pub open spec fn string_views(v: Seq<String>) -> Seq<Seq<char>> {
    Seq::new(v.len(), |i: int| v[i]@)
}

/// A copy of a list of texts.
pub fn clone_texts(v: &Vec<String>) -> (r: Vec<String>)
    ensures
        string_views(r@) == string_views(v@),
{
    let mut out: Vec<String> = Vec::new();
    let n = v.len();
    for i in 0..n
        invariant
            n == v@.len(),
            string_views(out@) == string_views(v@).take(i as int),
    {
        let ghost before = string_views(out@);
        out.push(v[i].clone());
        assert(string_views(out@) =~= before.push(v@[i as int]@));
        assert(string_views(v@).take(i + 1) =~= string_views(v@).take(i as int).push(v@[i as int]@));
    }
    assert(string_views(v@).take(n as int) =~= string_views(v@));
    out
}

/// A copy of a text that need not be there.
pub fn clone_text(v: &Option<String>) -> (r: Option<String>)
    ensures
        r == *v,
{
    match v {
        Some(s) => Some(s.clone()),
        None => None,
    }
}

/// Appends a number in decimal digits.
pub fn append_number(s: &mut String, n: u64)
    ensures
        final(s)@ == old(s)@ + decimal(n as nat),
{
    let digits = decimal_text(n);
    s.append(digits.as_str());
}

proof fn lemma_trim_start_form(s: Seq<char>)
    ensures
        trim_start(s).len() <= s.len(),
        trim_start(s) == s.skip(s.len() - trim_start(s).len()),
        trim_start(s).len() > 0 ==> !is_white_space(trim_start(s)[0]),
    decreases s.len(),
{
    if s.len() > 0 && is_white_space(s[0]) {
        lemma_trim_start_form(s.skip(1));
        let t = trim_start(s.skip(1));
        assert(s.skip(1).skip(s.len() - 1 - t.len()) =~= s.skip(s.len() - t.len()));
    } else {
        assert(s.skip(0) =~= s);
    }
}

proof fn lemma_trim_end_form(s: Seq<char>)
    ensures
        trim_end(s).len() <= s.len(),
        trim_end(s) == s.take(trim_end(s).len() as int),
        trim_end(s).len() > 0 ==> !is_white_space(trim_end(s).last()),
    decreases s.len(),
{
    if s.len() > 0 && is_white_space(s.last()) {
        lemma_trim_end_form(s.drop_last());
        let t = trim_end(s.drop_last());
        assert(s.drop_last().take(t.len() as int) =~= s.take(t.len() as int));
    } else {
        assert(s.take(s.len() as int) =~= s);
    }
}

/// Trimming twice is trimming once, and a trimmed text has no white space at either end.
pub proof fn lemma_trim(s: Seq<char>)
    ensures
        trim(trim(s)) == trim(s),
        trim(s).len() <= s.len(),
        trim(s).len() > 0 ==> !is_white_space(trim(s)[0]) && !is_white_space(trim(s).last()),
{
    lemma_trim_start_form(s);
    lemma_trim_end_form(trim_start(s));
    let t = trim(s);
    if t.len() > 0 {
        assert(t[0] == trim_start(s)[0]);
    }
}

/// Lowering the letters of a text twice is lowering them once.
pub proof fn lemma_ascii_lower(s: Seq<char>)
    ensures
        ascii_lower(ascii_lower(s)) == ascii_lower(s),
        ascii_lower(s).len() == s.len(),
        forall|i: int|
            0 <= i < s.len() ==> is_white_space(#[trigger] ascii_lower(s)[i]) == is_white_space(
                s[i],
            ),
{
    let t = ascii_lower(s);
    assert forall|i: int| 0 <= i < s.len() implies #[trigger] ascii_lower(t)[i] == t[i] by {
        let c = s[i];
        assert(t[i] == ascii_lower_char(c));
        assert(ascii_lower_char(ascii_lower_char(c)) == ascii_lower_char(c));
    }
    assert(ascii_lower(t) =~= t);
    assert forall|i: int| 0 <= i < s.len() implies is_white_space(#[trigger] t[i])
        == is_white_space(s[i]) by {
        assert(t[i] == ascii_lower_char(s[i]));
    }
}

/// A separator parts the pieces before it from those behind it, and there is always a
/// piece.
pub proof fn lemma_split_at_separator(a: Seq<char>, c: char, b: Seq<char>, sep: Separator)
    requires
        sep.separates(c),
    ensures
        split(b, sep).len() > 0,
        split(a.push(c) + b, sep) == split(a, sep) + split(b, sep),
    decreases b.len(),
{
    let whole = a.push(c) + b;
    if b.len() == 0 {
        assert(whole =~= a.push(c));
        assert(whole.drop_last() =~= a);
        assert(split(whole, sep) =~= split(a, sep) + split(b, sep));
    } else {
        let front = b.drop_last();
        lemma_split_at_separator(a, c, front, sep);
        assert(whole.drop_last() =~= a.push(c) + front);
        assert(whole.last() == b.last());
        assert(split(whole, sep) =~= split(a, sep) + split(b, sep));
    }
}

/// A text without separators is its only piece.
pub proof fn lemma_one_piece(s: Seq<char>, sep: Separator)
    requires
        forall|i: int| 0 <= i < s.len() ==> !sep.separates(#[trigger] s[i]),
    ensures
        split(s, sep) == seq![s],
    decreases s.len(),
{
    if s.len() == 0 {
        assert(s =~= Seq::<char>::empty());
    } else {
        let front = s.drop_last();
        assert forall|i: int| 0 <= i < front.len() implies !sep.separates(#[trigger] front[i]) by {
            assert(front[i] == s[i]);
        }
        lemma_one_piece(front, sep);
        assert(front.push(s.last()) =~= s);
        assert(s.last() == s[s.len() - 1]);
        assert(split(s, sep) =~= seq![s]);
    }
}

/// Trimming takes white space from both ends and nothing else: the text is white space, what
/// is left, and white space, and what is left is empty exactly where the text has nothing but
/// white space.
pub proof fn lemma_trim_is_middle(s: Seq<char>)
    ensures
        exists|a: int, b: int|
            {
                &&& 0 <= a <= b <= s.len()
                &&& #[trigger] s.subrange(a, b) == trim(s)
                &&& forall|i: int| 0 <= i < a ==> is_white_space(#[trigger] s[i])
                &&& forall|i: int| b <= i < s.len() ==> is_white_space(#[trigger] s[i])
            },
        trim(s).len() == 0 <==> forall|i: int|
            0 <= i < s.len() ==> is_white_space(#[trigger] s[i]),
        trim(s).len() > 0 ==> !is_white_space(trim(s)[0]) && !is_white_space(trim(s).last()),
{
    lemma_trim_start_white(s);
    let t = trim_start(s);
    lemma_trim_end_white(t);
    lemma_trim_start_form(s);
    lemma_trim_end_form(t);
    lemma_trim(s);
    let a = s.len() - t.len();
    let b = a + trim(s).len();
    assert(s.subrange(a, b) =~= trim(s));
    assert forall|i: int| b <= i < s.len() implies is_white_space(#[trigger] s[i]) by {
        assert(t[i - a] == s[i]);
    }
    if trim(s).len() > 0 {
        assert(s[a] == trim(s)[0]);
    }
}

proof fn lemma_trim_start_white(s: Seq<char>)
    ensures
        forall|i: int| 0 <= i < s.len() - trim_start(s).len() ==> is_white_space(#[trigger] s[i]),
    decreases s.len(),
{
    if s.len() > 0 && is_white_space(s[0]) {
        lemma_trim_start_white(s.skip(1));
        assert forall|i: int| 0 <= i < s.len() - trim_start(s).len() implies is_white_space(
            #[trigger] s[i],
        ) by {
            if i > 0 {
                assert(s.skip(1)[i - 1] == s[i]);
            }
        }
    }
}

proof fn lemma_trim_end_white(s: Seq<char>)
    ensures
        forall|i: int| trim_end(s).len() <= i < s.len() ==> is_white_space(#[trigger] s[i]),
    decreases s.len(),
{
    if s.len() > 0 && is_white_space(s.last()) {
        lemma_trim_end_white(s.drop_last());
        assert forall|i: int| trim_end(s).len() <= i < s.len() implies is_white_space(
            #[trigger] s[i],
        ) by {
            if i < s.len() - 1 {
                assert(s.drop_last()[i] == s[i]);
            }
        }
    }
}

/// The white space of Unicode: tabs, line ends, spaces of every width, and no letter, digit or
/// mark of ASCII.
pub proof fn lemma_white_space(c: char)
    ensures
        is_white_space(' '),
        is_white_space('\t'),
        is_white_space('\n'),
        is_white_space('\r'),
        is_white_space(c) && (c as int) < 128 ==> c == ' ' || 9 <= c as int <= 13,
        is_white_space(c) && c as int >= 128 ==> {
            let p = c as int;
            p == 0x85 || p == 0xA0 || p == 0x1680 || 0x2000 <= p <= 0x200A || 0x2028 <= p <= 0x2029
                || p == 0x202F || p == 0x205F || p == 0x3000
        },
        9 <= c as int <= 13 ==> is_white_space(c),
        0x2000 <= c as int <= 0x200A ==> is_white_space(c),
        c as int == 0x85 || c as int == 0xA0 || c as int == 0x1680 || c as int == 0x2028
            || c as int == 0x2029 || c as int == 0x202F || c as int == 0x205F || c as int == 0x3000
            ==> is_white_space(c),
{
}

/// A text stands in another exactly where the other is something, the text, and something.
pub proof fn lemma_contains(hay: Seq<char>, needle: Seq<char>)
    ensures
        contains(hay, needle) <==> exists|a: Seq<char>, b: Seq<char>| hay == #[trigger] (a + needle
            + b),
{
    if contains(hay, needle) {
        let i = choose|i: int| #[trigger] occurs_at(hay, needle, i);
        let a = hay.take(i);
        let b = hay.skip(i + needle.len());
        assert(hay =~= a + needle + b);
    }
    if exists|a: Seq<char>, b: Seq<char>| hay == #[trigger] (a + needle + b) {
        let (a, b) = choose|a: Seq<char>, b: Seq<char>| hay == #[trigger] (a + needle + b);
        assert(hay.subrange(a.len() as int, (a.len() + needle.len()) as int) =~= needle);
        assert(occurs_at(hay, needle, a.len() as int));
    }
}

/// The letters A to Z become a to z, and every other character stays.
pub proof fn lemma_ascii_lower_letters(s: Seq<char>, i: int)
    requires
        0 <= i < s.len(),
    ensures
        65 <= s[i] as int <= 90 ==> ascii_lower(s)[i] as int == s[i] as int + 32,
        !(65 <= s[i] as int <= 90) ==> ascii_lower(s)[i] == s[i],
{
}

/// Joining the pieces of a text with the separator between them gives the text back, and no
/// piece holds a separator.
pub proof fn lemma_split_joins(s: Seq<char>, c: char)
    ensures
        join(split(s, Separator::Char(c)), seq![c]) == s,
        split(s, Separator::Char(c)).len() >= 1,
        forall|i: int, j: int|
            0 <= i < split(s, Separator::Char(c)).len() && 0 <= j < split(
                s,
                Separator::Char(c),
            )[i].len() ==> (#[trigger] split(s, Separator::Char(c))[i][j]) != c,
    decreases s.len(),
{
    let sep = Separator::Char(c);
    let parts = split(s, sep);
    if s.len() == 0 {
        assert(join(parts, seq![c]) =~= s);
    } else {
        let before = split(s.drop_last(), sep);
        lemma_split_joins(s.drop_last(), c);
        let joined = join(before, seq![c]);
        if s.last() == c {
            assert(parts.drop_last() =~= before);
            assert(join(parts, seq![c]) =~= joined + seq![c] + Seq::<char>::empty());
            assert(join(parts, seq![c]) =~= s);
        } else {
            assert(parts.drop_last() =~= before.drop_last());
            assert(s =~= s.drop_last().push(s.last()));
            if before.len() == 1 {
                assert(joined == before[0]);
                assert(parts[0] == before[0].push(s.last()));
                assert(join(parts, seq![c]) == parts[0]);
            } else {
                assert(join(parts, seq![c]) =~= join(before.drop_last(), seq![c]) + seq![c]
                    + before.last().push(s.last()));
                assert(join(parts, seq![c]) =~= s);
            }
        }
        assert forall|i: int, j: int|
            0 <= i < parts.len() && 0 <= j < parts[i].len() implies (#[trigger] parts[i][j])
            != c by {
            if i < parts.len() - 1 {
                assert(parts[i] == before[i]);
                assert(before[i][j] != c);
            } else if s.last() != c {
                if j < before.last().len() {
                    assert(before[before.len() - 1][j] != c);
                    assert(parts[i][j] == before.last()[j]);
                }
            }
        }
    }
}

/// A decimal text is read back as the number that it was written for, with or without a plus
/// sign, up to the largest that is asked for.
pub proof fn lemma_decimal_is_read_back(n: nat, max: nat)
    ensures
        n <= max ==> parse_unsigned(decimal(n), max) == Some(n),
        n <= max ==> parse_unsigned(seq!['+'] + decimal(n), max) == Some(n),
        n > max ==> parse_unsigned(decimal(n), max) is None,
{
    lemma_decimal_digits(n);
    let d = decimal(n);
    assert(d[0] != '+');
    assert(unsigned_body(d) == d);
    assert((seq!['+'] + d).skip(1) =~= d);
    assert(unsigned_body(seq!['+'] + d) == d);
}

proof fn lemma_decimal_digits(n: nat)
    ensures
        decimal(n).len() > 0,
        forall|i: int| 0 <= i < decimal(n).len() ==> is_digit(#[trigger] decimal(n)[i]),
        digits_value(decimal(n)) == n,
    decreases n,
{
    let d = decimal(n);
    if n < 10 {
        assert(d.drop_last() =~= Seq::<char>::empty());
        assert(digits_value(d.drop_last()) == 0);
        assert(d.last() as int == '0' as int + n);
    } else {
        lemma_decimal_digits(n / 10);
        assert(d.drop_last() =~= decimal(n / 10));
        assert(d.last() as int == '0' as int + n % 10);
    }
}

/// What writes a number is not empty and has nothing but digits behind an optional plus sign;
/// the last digit counts once and what stands before it ten times.
pub proof fn lemma_parse_unsigned(s: Seq<char>, max: nat)
    ensures
        parse_unsigned(s, max) matches Some(n) ==> {
            &&& n <= max
            &&& s.len() > 0
            &&& forall|i: int| 1 <= i < s.len() ==> 48 <= (#[trigger] s[i]) as int <= 57
            &&& s[0] == '+' || 48 <= s[0] as int <= 57
            &&& 48 <= s.last() as int <= 57
            &&& n % 10 == s.last() as int - 48
        },
        s.len() > 1 && parse_unsigned(s, max) is Some && s[s.len() - 2] != '+' ==> parse_unsigned(
            s.drop_last(),
            max,
        ) == Some(parse_unsigned(s, max)->0 / 10),
{
    let body = unsigned_body(s);
    if parse_unsigned(s, max) is Some {
        assert forall|i: int| 1 <= i < s.len() implies 48 <= (#[trigger] s[i]) as int <= 57 by {
            if s[0] == '+' {
                assert(body[i - 1] == s[i]);
            } else {
                assert(body[i] == s[i]);
            }
        }
        assert(body.last() == s.last());
        assert(is_digit(body[body.len() - 1]));
        if s[0] != '+' {
            assert(is_digit(body[0]));
        }
        if s.len() > 1 && s[s.len() - 2] != '+' {
            let shorter = s.drop_last();
            assert(shorter.len() > 0);
            if s[0] == '+' {
                assert(s.len() > 2);
                assert(unsigned_body(shorter) =~= body.drop_last());
            } else {
                assert(unsigned_body(shorter) =~= body.drop_last());
            }
            let b2 = body.drop_last();
            assert forall|i: int| 0 <= i < b2.len() implies is_digit(#[trigger] b2[i]) by {
                assert(b2[i] == body[i]);
            }
        }
    }
}

/// The words of a text are what stands between white space, none of them empty.
pub proof fn lemma_words(s: Seq<char>)
    ensures
        forall|i: int| 0 <= i < words(s).len() ==> (#[trigger] words(s)[i]).len() > 0,
        words(s).len() == 0 <==> forall|i: int|
            0 <= i < s.len() ==> is_white_space(#[trigger] s[i]),
        s.len() > 0 && (forall|i: int| 0 <= i < s.len() ==> !is_white_space(#[trigger] s[i]))
            ==> words(s) == seq![s],
    decreases s.len(),
{
    lemma_nonempty(split(s, Separator::WhiteSpace));
    lemma_split_blank(s);
    if s.len() > 0 && (forall|i: int| 0 <= i < s.len() ==> !is_white_space(#[trigger] s[i])) {
        lemma_one_piece(s, Separator::WhiteSpace);
        let one = seq![s];
        assert(one.drop_last() =~= Seq::<Seq<char>>::empty());
        assert(nonempty(one.drop_last()) =~= Seq::<Seq<char>>::empty());
        assert(nonempty(one) =~= one);
    }
}

proof fn lemma_nonempty(parts: Seq<Seq<char>>)
    ensures
        forall|i: int| 0 <= i < nonempty(parts).len() ==> (#[trigger] nonempty(parts)[i]).len() > 0,
        nonempty(parts).len() == 0 <==> forall|i: int|
            0 <= i < parts.len() ==> (#[trigger] parts[i]).len() == 0,
    decreases parts.len(),
{
    if parts.len() > 0 {
        let before = parts.drop_last();
        lemma_nonempty(before);
        if nonempty(parts).len() == 0 {
            assert forall|i: int| 0 <= i < parts.len() implies (#[trigger] parts[i]).len() == 0 by {
                if i < parts.len() - 1 {
                    assert(before[i] == parts[i]);
                }
            }
        }
        if forall|i: int| 0 <= i < parts.len() ==> (#[trigger] parts[i]).len() == 0 {
            assert(parts[parts.len() - 1].len() == 0);
            assert forall|i: int| 0 <= i < before.len() implies (#[trigger] before[i]).len()
                == 0 by {
                assert(before[i] == parts[i]);
            }
        }
    }
}

proof fn lemma_split_blank(s: Seq<char>)
    ensures
        (forall|i: int|
            0 <= i < split(s, Separator::WhiteSpace).len() ==> (#[trigger] split(
                s,
                Separator::WhiteSpace,
            )[i]).len() == 0) <==> forall|i: int|
            0 <= i < s.len() ==> is_white_space(#[trigger] s[i]),
        split(s, Separator::WhiteSpace).len() > 0,
    decreases s.len(),
{
    let sep = Separator::WhiteSpace;
    let parts = split(s, sep);
    if s.len() > 0 {
        let before = split(s.drop_last(), sep);
        lemma_split_blank(s.drop_last());
        if forall|i: int| 0 <= i < parts.len() ==> (#[trigger] parts[i]).len() == 0 {
            assert(parts[parts.len() - 1].len() == 0);
            assert(is_white_space(s.last()));
            assert forall|i: int| 0 <= i < before.len() implies (#[trigger] before[i]).len()
                == 0 by {
                assert(parts[i] == before[i]);
            }
            assert forall|i: int| 0 <= i < s.len() implies is_white_space(#[trigger] s[i]) by {
                if i < s.len() - 1 {
                    assert(s.drop_last()[i] == s[i]);
                }
            }
        }
        if forall|i: int| 0 <= i < s.len() ==> is_white_space(#[trigger] s[i]) {
            assert(is_white_space(s[s.len() - 1]));
            assert forall|i: int| 0 <= i < s.drop_last().len() implies is_white_space(
                #[trigger] s.drop_last()[i],
            ) by {
                assert(s.drop_last()[i] == s[i]);
            }
            assert forall|i: int| 0 <= i < parts.len() implies (#[trigger] parts[i]).len()
                == 0 by {
                if i < before.len() {
                    assert(parts[i] == before[i]);
                }
            }
        }
    }
}

/// Trimming the start takes the leading white space and nothing else.
pub proof fn lemma_trim_start(s: Seq<char>)
    ensures
        trim_start(s).len() <= s.len(),
        trim_start(s) == s.skip(s.len() - trim_start(s).len()),
        trim_start(s).len() > 0 ==> !is_white_space(trim_start(s)[0]),
        forall|i: int| 0 <= i < s.len() - trim_start(s).len() ==> is_white_space(#[trigger] s[i]),
{
    lemma_trim_start_form(s);
    lemma_trim_start_white(s);
}

/// A number is written in digits and nothing else, without a zero in front of any other digit.
pub proof fn lemma_decimal_text(n: nat)
    ensures
        decimal(n).len() > 0,
        forall|i: int| 0 <= i < decimal(n).len() ==> 48 <= (#[trigger] decimal(n)[i]) as int <= 57,
        n > 0 ==> decimal(n)[0] != '0',
        n == 0 ==> decimal(n) == seq!['0'],
        n < 10 ==> decimal(n).len() == 1,
        n >= 10 ==> decimal(n) == decimal(n / 10).push(((48 + n % 10) as int) as char),
    decreases n,
{
    lemma_decimal_digits(n);
    if n >= 10 {
        lemma_decimal_text(n / 10);
        assert(decimal(n)[0] == decimal(n / 10)[0]);
    } else {
        assert(decimal(n)[0] as int == 48 + n);
        if n == 0 {
            assert(decimal(0)[0] == '0');
            assert(decimal(n) =~= seq!['0']);
        }
    }
}

/// What separates: the character that is given; any white space; a comma or any white space.
pub proof fn lemma_separators(a: char, c: char)
    ensures
        Separator::Char(a).separates(c) <==> c == a,
        Separator::WhiteSpace.separates(c) <==> is_white_space(c),
        Separator::CommaOrWhiteSpace.separates(c) <==> c == ',' || is_white_space(c),
{
}

/// The text before a character is all up to its first occurrence, and all of it where there is
/// none; the two parts around the first occurrence make up the text with it.
pub proof fn lemma_around_char(s: Seq<char>, c: char)
    ensures
        (forall|i: int| 0 <= i < s.len() ==> s[i] != c) ==> before_char(s, c) == s && split_once(
            s,
            c,
        ) is None,
        (exists|i: int| 0 <= i < s.len() && s[i] == c) ==> {
            &&& split_once(s, c) matches Some((a, b))
            &&& s == a.push(c) + b
            &&& before_char(s, c) == a
            &&& forall|i: int| 0 <= i < a.len() ==> a[i] != c
        },
{
    lemma_index_of(s, c);
    if exists|i: int| 0 <= i < s.len() && s[i] == c {
        let i = index_of(s, c)->0;
        assert(s =~= s.take(i).push(c) + s.skip(i + 1));
    }
}

/// Joined texts stand one behind the other with the separator between each two.
pub proof fn lemma_join(parts: Seq<Seq<char>>, part: Seq<char>, sep: Seq<char>)
    ensures
        join(Seq::empty(), sep).len() == 0,
        join(seq![part], sep) == part,
        parts.len() > 0 ==> join(parts.push(part), sep) == join(parts, sep) + sep + part,
{
    assert(parts.push(part).drop_last() =~= parts);
}

/// The parts that are not empty stay in their order, and only empty ones are left out.
pub proof fn lemma_nonempty_parts(parts: Seq<Seq<char>>, part: Seq<char>)
    ensures
        part.len() > 0 ==> nonempty(parts.push(part)) == nonempty(parts).push(part),
        part.len() == 0 ==> nonempty(parts.push(part)) == nonempty(parts),
        nonempty(Seq::empty()).len() == 0,
{
    assert(parts.push(part).drop_last() =~= parts);
}

/// Lines end at line feeds.
pub proof fn lemma_lines(a: Seq<char>, b: Seq<char>)
    ensures
        lines(a.push('\n') + b) == lines(a) + lines(b),
        (forall|i: int| 0 <= i < a.len() ==> a[i] != '\n') ==> lines(a) == seq![a],
{
    lemma_split_at_separator(a, '\n', b, Separator::Char('\n'));
    if forall|i: int| 0 <= i < a.len() ==> a[i] != '\n' {
        lemma_one_piece(a, Separator::Char('\n'));
    }
}

/// Words are parted by white space: those of two texts with white space in between are the
/// words of both.
pub proof fn lemma_words_of_both(a: Seq<char>, c: char, b: Seq<char>)
    requires
        is_white_space(c),
    ensures
        words(a.push(c) + b) == words(a) + words(b),
{
    lemma_split_at_separator(a, c, b, Separator::WhiteSpace);
    lemma_nonempty_concat(split(a, Separator::WhiteSpace), split(b, Separator::WhiteSpace));
}

proof fn lemma_nonempty_concat(a: Seq<Seq<char>>, b: Seq<Seq<char>>)
    ensures
        nonempty(a + b) == nonempty(a) + nonempty(b),
    decreases b.len(),
{
    if b.len() == 0 {
        assert(a + b =~= a);
        assert(nonempty(a) + nonempty(b) =~= nonempty(a));
    } else {
        lemma_nonempty_concat(a, b.drop_last());
        assert((a + b).drop_last() =~= a + b.drop_last());
        assert((a + b).last() == b.last());
        assert(nonempty(a + b) =~= nonempty(a) + nonempty(b));
    }
}

} // verus!
