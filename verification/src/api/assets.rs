//! The widget's files under an address that names their contents.
//!
//! The widget is several files that have to agree with each other. One address, which
//! integrators embed, points at a directory that is named by a hash over all of them: any
//! change to a file moves all of them together, and nothing in the directory ever changes.
use vstd::prelude::*;
use vstd::string::*;

use crate::bytes::u64_le;
use crate::crypto::{hex_encode, sha256_digest};
use crate::text::{begins_with, chars_of, string_of};

verus! {

/// The files that the hash is over: everything that the widget loads.
pub open spec fn hashed_names() -> Seq<Seq<char>> {
    seq![
        "captcha-widget.js"@,
        "captcha-worker.js"@,
        "captcha-widget.css"@,
        "vendor/argon2.umd.min.js"@,
    ]
}

/// The files that the hash is over.
pub fn hashed_assets() -> (r: Vec<&'static str>)
    ensures
        crate::text::str_views(r@) == hashed_names(),
{
    let r: Vec<&'static str> = vec![
        "captcha-widget.js",
        "captcha-worker.js",
        "captcha-widget.css",
        "vendor/argon2.umd.min.js",
    ];
    assert(crate::text::str_views(r@) =~= hashed_names());
    r
}

/// What stands in the widget for the directory of its files.
pub const ASSET_BASE_PLACEHOLDER: &'static str = "__BOLLWARK_ASSET_BASE__";

/// Where the directories of the widget's files are.
pub const ASSET_MOUNT: &'static str = "/assets";

/// How long the embedded address may be cached.
pub const ENTRY_CACHE_CONTROL: &'static str = "public, max-age=300";

/// How long what never changes may be cached.
pub const IMMUTABLE_CACHE_CONTROL: &'static str = "public, max-age=31536000, immutable";

/// How long the files may be cached under addresses that do not name their contents.
pub const LEGACY_CACHE_CONTROL: &'static str = "public, max-age=300";

/// The text with every occurrence of `from` replaced, from left to right.
pub open spec fn replaced(s: Seq<char>, from: Seq<char>, to: Seq<char>) -> Seq<char>
    decreases s.len(),
{
    if s.len() == 0 || from.len() == 0 {
        s
    } else if from.is_prefix_of(s) {
        to + replaced(s.skip(from.len() as int), from, to)
    } else {
        seq![s[0]] + replaced(s.skip(1), from, to)
    }
}

/// `replaced` on characters.
fn replace(s: &[char], from: &[char], to: &[char]) -> (r: Vec<char>)
    requires
        from@.len() > 0,
    ensures
        r@ == replaced(s@, from@, to@),
{
    let mut out: Vec<char> = Vec::new();
    let n = s.len();
    let k = from.len();
    let mut i: usize = 0;
    assert(s@.skip(0) =~= s@);
    assert(out@ + replaced(s@.skip(0), from@, to@) =~= replaced(s@, from@, to@));
    while i < n
        invariant
            i <= n,
            n == s@.len(),
            k == from@.len(),
            k > 0,
            out@ + replaced(s@.skip(i as int), from@, to@) == replaced(s@, from@, to@),
        decreases n - i,
    {
        let ghost rest = s@.skip(i as int);
        let ghost before = out@;
        let tail = crate::text::piece(s, i, n);
        assert(tail@ =~= rest);
        if begins_with(tail.as_slice(), from) {
            let m = to.len();
            for j in 0..m
                invariant
                    m == to@.len(),
                    out@ == before + to@.take(j as int),
            {
                out.push(to[j]);
                assert(out@ =~= before + to@.take(j + 1));
            }
            assert(to@.take(m as int) =~= to@);
            assert(rest.skip(k as int) =~= s@.skip(i + k));
            i += k;
            assert(out@ + replaced(s@.skip(i as int), from@, to@) =~= before + (to@ + replaced(
                s@.skip(i as int),
                from@,
                to@,
            )));
        } else {
            out.push(s[i]);
            assert(rest.skip(1) =~= s@.skip(i + 1));
            i += 1;
            assert(out@ + replaced(s@.skip(i as int), from@, to@) =~= before + (seq![rest[0]]
                + replaced(s@.skip(i as int), from@, to@)));
        }
    }
    assert(s@.skip(n as int).len() == 0);
    assert(out@ + replaced(s@.skip(n as int), from@, to@) =~= out@);
    out
}

/// The bytes that the hash is over: for each file its name, its length and its contents. The
/// length keeps two divisions of the same bytes apart.
pub open spec fn bundle_bytes(names: Seq<Seq<u8>>, contents: Seq<Seq<u8>>) -> Seq<u8>
    decreases names.len(),
{
    if names.len() == 0 || contents.len() == 0 {
        Seq::empty()
    } else {
        bundle_bytes(names.drop_last(), contents.drop_last()) + names.last()
            + crate::bytes::le_bytes(contents.last().len(), 8) + contents.last()
    }
}

/// Names as bytes.
pub open spec fn name_bytes(names: Seq<&'static str>) -> Seq<Seq<u8>> {
    Seq::new(names.len(), |i: int| names[i].spec_bytes())
}

pub open spec fn byte_views(contents: Seq<Vec<u8>>) -> Seq<Seq<u8>> {
    Seq::new(contents.len(), |i: int| contents[i]@)
}

/// The version of a bundle: the first eight bytes of the hash, as text.
pub open spec fn bundle_version(names: Seq<&'static str>, contents: Seq<Vec<u8>>) -> Seq<char> {
    crate::crypto::hex_text(
        crate::crypto::sha256(bundle_bytes(name_bytes(names), byte_views(contents))).take(8),
    )
}

/// The directory of a version.
pub open spec fn mount_of(version: Seq<char>) -> Seq<char> {
    ASSET_MOUNT@ + "/"@ + version
}

/// A file could be read, and these are its contents.
pub open spec fn was_read(file: Option<Vec<u8>>, contents: Vec<u8>) -> bool {
    file matches Some(bytes) && bytes@ == contents@
}

/// The widget under its embedded address.
#[derive(Debug)]
pub struct WidgetBundle {
    pub version: String,
    /// The widget, with the directory of its files in place of the placeholder.
    pub source: String,
}

/// What is sent for the embedded address.
#[derive(Debug)]
pub struct WidgetReply {
    pub content_type: &'static str,
    pub cache_control: &'static str,
    pub body: String,
}

fn extend(out: &mut Vec<u8>, more: &[u8])
    ensures
        final(out)@ == old(out)@ + more@,
{
    let n = more.len();
    for i in 0..n
        invariant
            n == more@.len(),
            out@ == old(out)@ + more@.take(i as int),
    {
        out.push(more[i]);
        assert(out@ =~= old(out)@ + more@.take(i + 1));
    }
    assert(more@.take(n as int) =~= more@);
}

fn bundled(names: &Vec<&'static str>, contents: &Vec<Vec<u8>>) -> (r: Vec<u8>)
    requires
        names@.len() == contents@.len(),
    ensures
        r@ == bundle_bytes(name_bytes(names@), byte_views(contents@)),
{
    let ghost all_names = name_bytes(names@);
    let ghost all = byte_views(contents@);
    let mut out: Vec<u8> = Vec::new();
    let n = names.len();
    assert(out@ =~= bundle_bytes(all_names.take(0), all.take(0)));
    for i in 0..n
        invariant
            n == names@.len(),
            n == contents@.len(),
            all_names == name_bytes(names@),
            all == byte_views(contents@),
            out@ == bundle_bytes(all_names.take(i as int), all.take(i as int)),
    {
        let ghost next_names = all_names.take(i + 1);
        let ghost next = all.take(i + 1);
        assert(next_names.drop_last() =~= all_names.take(i as int));
        assert(next.drop_last() =~= all.take(i as int));
        assert(next_names.last() == names@[i as int].spec_bytes());
        assert(next.last() == contents@[i as int]@);
        extend(&mut out, names[i].as_bytes_vec().as_slice());
        let len = contents[i].len();
        extend(&mut out, u64_le(len as u64).as_slice());
        extend(&mut out, contents[i].as_slice());
    }
    assert(all_names.take(n as int) =~= all_names);
    assert(all.take(n as int) =~= all);
    out
}

impl WidgetBundle {
    /// The bundle of the files with the given names and contents, where the widget itself is
    /// text.
    pub fn of(names: &Vec<&'static str>, contents: &Vec<Vec<u8>>, widget: &str) -> (r: Self)
        requires
            names@.len() == contents@.len(),
        ensures
            r.version@ == bundle_version(names@, contents@),
            r.source@ == replaced(
                widget@,
                ASSET_BASE_PLACEHOLDER@,
                mount_of(bundle_version(names@, contents@)),
            ),
    {
        let bytes = bundled(names, contents);
        let digest = sha256_digest(bytes.as_slice());
        let mut head: Vec<u8> = Vec::new();
        for i in 0..8
            invariant
                digest@.len() == 32,
                head@ == digest@.take(i as int),
        {
            head.push(digest[i]);
            assert(head@ =~= digest@.take(i + 1));
        }
        let version = hex_encode(head.as_slice());
        let mount = mount_text(version.as_str());
        proof {
            reveal_strlit("__BOLLWARK_ASSET_BASE__");
        }
        let source = replace(
            chars_of(widget).as_slice(),
            chars_of(ASSET_BASE_PLACEHOLDER).as_slice(),
            chars_of(mount.as_str()).as_slice(),
        );
        WidgetBundle { version, source: string_of(source.as_slice()) }
    }

    /// The bundle of the widget's files, in the order of `hashed_assets`. Where one of them
    /// could not be read, or the widget is no text, there is no bundle.
    pub fn load(contents: &Vec<Option<Vec<u8>>>, widget: &Option<String>) -> (r: Option<Self>)
        requires
            contents@.len() == hashed_names().len(),
        ensures
            r is Some <==> widget is Some && forall|i: int|
                0 <= i < contents@.len() ==> (#[trigger] contents@[i]) is Some,
            r matches Some(bundle) ==> exists|names: Seq<&'static str>, found: Seq<Vec<u8>>|
                {
                    &&& crate::text::str_views(names) == hashed_names()
                    &&& found.len() == contents@.len()
                    &&& forall|i: int|
                        0 <= i < found.len() ==> was_read(contents@[i], #[trigger] found[i])
                    &&& bundle.version@ == #[trigger] bundle_version(names, found)
                    &&& bundle.source@ == replaced(
                        widget->0@,
                        ASSET_BASE_PLACEHOLDER@,
                        mount_of(bundle.version@),
                    )
                },
    {
        let names = hashed_assets();
        assert(crate::text::str_views(names@).len() == names@.len());
        let mut found: Vec<Vec<u8>> = Vec::new();
        let n = contents.len();
        let mut i: usize = 0;
        while i < n
            invariant
                i <= n,
                n == contents@.len(),
                found@.len() == i,
                forall|j: int| 0 <= j < i ==> was_read(contents@[j], #[trigger] found@[j]),
            decreases n - i,
        {
            let ghost before = found@;
            match &contents[i] {
                None => {
                    assert(contents@[i as int] is None);
                    return None;
                },
                Some(bytes) => {
                    let mut copy: Vec<u8> = Vec::new();
                    extend(&mut copy, bytes.as_slice());
                    assert(copy@ =~= bytes@);
                    assert(was_read(contents@[i as int], copy));
                    found.push(copy);
                    assert(found@ =~= before.push(copy));
                },
            }
            assert forall|j: int| 0 <= j < i + 1 implies was_read(
                contents@[j],
                #[trigger] found@[j],
            ) by {
                if j < i {
                    assert(found@[j] == before[j]);
                }
            }
            i += 1;
        }
        assert forall|i: int| 0 <= i < contents@.len() implies (#[trigger] contents@[i]) is Some by {
            assert(was_read(contents@[i], found@[i]));
        }
        match widget {
            None => None,
            Some(text) => {
                let bundle = Self::of(&names, &found, text.as_str());
                assert(bundle.version@ == bundle_version(names@, found@));
                Some(bundle)
            },
        }
    }

    /// Where the files of this version are.
    pub fn mount_path(&self) -> (r: String)
        ensures
            r@ == mount_of(self.version@),
    {
        mount_text(self.version.as_str())
    }

    /// What is sent for the embedded address.
    pub fn respond(&self) -> (r: WidgetReply)
        ensures
            r.content_type@ == "text/javascript; charset=utf-8"@,
            r.cache_control@ == ENTRY_CACHE_CONTROL@,
            r.body@ == self.source@,
    {
        WidgetReply {
            content_type: "text/javascript; charset=utf-8",
            cache_control: ENTRY_CACHE_CONTROL,
            body: self.source.clone(),
        }
    }
}

fn mount_text(version: &str) -> (r: String)
    ensures
        r@ == mount_of(version@),
{
    let mut s = ASSET_MOUNT.to_owned();
    s.append("/");
    s.append(version);
    s
}

/// What is sent for the embedded address where there is no bundle: the address is right, the
/// service just cannot serve it.
pub fn unavailable() -> (r: (u16, &'static str))
    ensures
        r.0 == 503,
        r.1@ == "widget assets unavailable; check STATIC_DIR"@,
{
    (503, "widget assets unavailable; check STATIC_DIR")
}

/// No character of the one text occurs in the other.
pub open spec fn shares_no_char(a: Seq<char>, b: Seq<char>) -> bool {
    forall|i: int, j: int| 0 <= i < a.len() && 0 <= j < b.len() ==> #[trigger] a[i] != #[trigger] b[j]
}

proof fn lemma_untouched_prefix(s: Seq<char>, from: Seq<char>, to: Seq<char>, n: int)
    requires
        from.len() > 0,
        to.len() > 0,
        0 <= n <= replaced(s, from, to).len(),
        forall|i: int, j: int|
            0 <= i < n && 0 <= j < to.len() ==> #[trigger] replaced(s, from, to)[i]
                != #[trigger] to[j],
    ensures
        n <= s.len(),
        s.take(n) == replaced(s, from, to).take(n),
    decreases n,
{
    let r = replaced(s, from, to);
    if n > 0 {
        if s.len() == 0 {
        } else if from.is_prefix_of(s) {
            assert(r[0] == to[0]);
        } else {
            let rest = replaced(s.skip(1), from, to);
            assert(r == seq![s[0]] + rest);
            assert forall|i: int, j: int|
                0 <= i < n - 1 && 0 <= j < to.len() implies #[trigger] rest[i]
                != #[trigger] to[j] by {
                assert(rest[i] == r[i + 1]);
            }
            lemma_untouched_prefix(s.skip(1), from, to, n - 1);
            assert(s.take(n) =~= seq![s[0]] + s.skip(1).take(n - 1));
            assert(r.take(n) =~= seq![s[0]] + rest.take(n - 1));
        }
    } else {
        assert(s.take(n) =~= r.take(n));
    }
}

proof fn lemma_no_occurrence(s: Seq<char>, from: Seq<char>, to: Seq<char>, i: int)
    requires
        from.len() > 0,
        to.len() > 0,
        shares_no_char(from, to),
    ensures
        !crate::text::occurs_at(replaced(s, from, to), from, i),
    decreases s.len(),
{
    let r = replaced(s, from, to);
    if crate::text::occurs_at(r, from, i) {
        let found = r.subrange(i, i + from.len());
        assert(found == from);
        assert(r[i] == from[0]) by {
            assert(found[0] == r[i]);
        }
        if s.len() == 0 {
        } else if from.is_prefix_of(s) {
            let rest = replaced(s.skip(from.len() as int), from, to);
            if i < to.len() {
                assert(r[i] == to[i]);
            } else {
                assert(rest.subrange(i - to.len(), i - to.len() + from.len()) =~= found);
                lemma_no_occurrence(s.skip(from.len() as int), from, to, i - to.len());
            }
        } else {
            let rest = replaced(s.skip(1), from, to);
            assert(r == seq![s[0]] + rest);
            if i > 0 {
                assert(rest.subrange(i - 1, i - 1 + from.len()) =~= found);
                lemma_no_occurrence(s.skip(1), from, to, i - 1);
            } else {
                assert forall|a: int, b: int|
                    0 <= a < from.len() && 0 <= b < to.len() implies #[trigger] r[a]
                    != #[trigger] to[b] by {
                    assert(found[a] == r[a]);
                    assert(from[a] != to[b]);
                }
                lemma_untouched_prefix(s, from, to, from.len() as int);
                assert(r.take(from.len() as int) =~= found);
                assert(from.is_prefix_of(s)) by {
                    assert(s.subrange(0, from.len() as int) =~= s.take(from.len() as int));
                }
            }
        }
    }
}

/// A text that shares no character with its replacement is gone once it is replaced.
pub proof fn lemma_replaced_is_gone(s: Seq<char>, from: Seq<char>, to: Seq<char>)
    requires
        from.len() > 0,
        to.len() > 0,
        shares_no_char(from, to),
    ensures
        !crate::text::contains(replaced(s, from, to), from),
{
    assert forall|i: int| !crate::text::occurs_at(replaced(s, from, to), from, i) by {
        lemma_no_occurrence(s, from, to, i);
    }
}

/// The widget as it is sent no longer holds the placeholder: every version is written in
/// digits and lower-case letters, of which the placeholder has none.
pub proof fn lemma_placeholder_is_gone(widget: Seq<char>, hash: Seq<u8>)
    ensures
        !crate::text::contains(
            replaced(
                widget,
                ASSET_BASE_PLACEHOLDER@,
                mount_of(crate::crypto::hex_text(hash)),
            ),
            ASSET_BASE_PLACEHOLDER@,
        ),
{
    let from = ASSET_BASE_PLACEHOLDER@;
    let version = crate::crypto::hex_text(hash);
    let to = mount_of(version);
    reveal_strlit("__BOLLWARK_ASSET_BASE__");
    reveal_strlit("/assets");
    reveal_strlit("/");
    assert forall|i: int, j: int| 0 <= i < from.len() && 0 <= j < to.len() implies #[trigger] from[i]
        != #[trigger] to[j] by {
        assert(from[i] == '_' || 'A' as int <= from[i] as int <= 'Z' as int);
        if j >= 8 {
            assert(to[j] == version[j - 8]);
        }
    }
    lemma_replaced_is_gone(widget, from, to);
}

/// What is hashed of one file.
pub open spec fn entry_bytes(name: Seq<u8>, contents: Seq<u8>) -> Seq<u8> {
    name + crate::bytes::le_bytes(contents.len(), 8) + contents
}

proof fn lemma_bundle_from_front(names: Seq<Seq<u8>>, contents: Seq<Seq<u8>>)
    requires
        names.len() == contents.len(),
        names.len() > 0,
    ensures
        bundle_bytes(names, contents) == entry_bytes(names[0], contents[0]) + bundle_bytes(
            names.skip(1),
            contents.skip(1),
        ),
    decreases names.len(),
{
    if names.len() == 1 {
        assert(bundle_bytes(names.drop_last(), contents.drop_last()) =~= Seq::<u8>::empty());
        assert(bundle_bytes(names.skip(1), contents.skip(1)) =~= Seq::<u8>::empty());
        assert(bundle_bytes(names, contents) =~= entry_bytes(names[0], contents[0]) + bundle_bytes(
            names.skip(1),
            contents.skip(1),
        ));
    } else {
        lemma_bundle_from_front(names.drop_last(), contents.drop_last());
        assert(names.drop_last().skip(1) =~= names.skip(1).drop_last());
        assert(contents.drop_last().skip(1) =~= contents.skip(1).drop_last());
        assert(names.skip(1).last() == names.last());
        assert(contents.skip(1).last() == contents.last());
        assert(bundle_bytes(names, contents) =~= entry_bytes(names[0], contents[0]) + bundle_bytes(
            names.skip(1),
            contents.skip(1),
        ));
    }
}

/// No change to a file is lost on the hash: under the same names, what is hashed is the same
/// only where the contents of every file are.
pub proof fn lemma_bundle_bytes_injective(
    names: Seq<Seq<u8>>,
    a: Seq<Seq<u8>>,
    b: Seq<Seq<u8>>,
)
    requires
        a.len() == names.len(),
        b.len() == names.len(),
        forall|i: int| 0 <= i < a.len() ==> (#[trigger] a[i]).len() <= u64::MAX,
        forall|i: int| 0 <= i < b.len() ==> (#[trigger] b[i]).len() <= u64::MAX,
        bundle_bytes(names, a) == bundle_bytes(names, b),
    ensures
        a == b,
    decreases names.len(),
{
    if names.len() > 0 {
        lemma_bundle_from_front(names, a);
        lemma_bundle_from_front(names, b);
        let whole = bundle_bytes(names, a);
        let n = names[0].len() as int;
        crate::bytes::lemma_le_bytes_len(a[0].len(), 8);
        crate::bytes::lemma_le_bytes_len(b[0].len(), 8);
        assert(whole.subrange(n, n + 8) =~= crate::bytes::le_bytes(a[0].len(), 8));
        assert(whole.subrange(n, n + 8) =~= crate::bytes::le_bytes(b[0].len(), 8));
        reveal_with_fuel(crate::bytes::pow256, 9);
        crate::bytes::lemma_le_bytes_injective(a[0].len(), b[0].len(), 8);
        let m = a[0].len() as int;
        assert(whole.subrange(n + 8, n + 8 + m) =~= a[0]);
        assert(whole.subrange(n + 8, n + 8 + m) =~= b[0]);
        let rest_a = bundle_bytes(names.skip(1), a.skip(1));
        let rest_b = bundle_bytes(names.skip(1), b.skip(1));
        assert(whole.skip(n + 8 + m) =~= rest_a);
        assert(whole.skip(n + 8 + m) =~= rest_b);
        assert forall|i: int| 0 <= i < a.skip(1).len() implies (#[trigger] a.skip(1)[i]).len()
            <= u64::MAX by {
            assert(a.skip(1)[i] == a[i + 1]);
        }
        assert forall|i: int| 0 <= i < b.skip(1).len() implies (#[trigger] b.skip(1)[i]).len()
            <= u64::MAX by {
            assert(b.skip(1)[i] == b[i + 1]);
        }
        lemma_bundle_bytes_injective(names.skip(1), a.skip(1), b.skip(1));
        assert forall|i: int| 0 <= i < a.len() implies a[i] == b[i] by {
            if i > 0 {
                assert(a.skip(1)[i - 1] == b.skip(1)[i - 1]);
            }
        }
    }
    assert(a =~= b);
}

/// Where the placeholder stands it is replaced, what stands around it stays, and a text without
/// it is left as it is.
pub proof fn lemma_replaced(before: Seq<char>, from: Seq<char>, to: Seq<char>, behind: Seq<char>)
    requires
        from.len() > 0,
        forall|i: int| 0 <= i <= before.len() ==> !from.is_prefix_of(#[trigger] before.skip(i)),
        forall|i: int|
            0 <= i < before.len() ==> !from.is_prefix_of((#[trigger] before.skip(i)) + from
                + behind),
    ensures
        replaced(before + from + behind, from, to) == before + to + replaced(behind, from, to),
        replaced(before, from, to) == before,
    decreases before.len(),
{
    let s = before + from + behind;
    if before.len() == 0 {
        assert(s =~= from + behind);
        assert(s.skip(from.len() as int) =~= behind);
        assert(before + to + replaced(behind, from, to) =~= to + replaced(behind, from, to));
    } else {
        let rest = before.skip(1);
        assert(before.skip(0) =~= before);
        assert(before.skip(0) + from + behind =~= s);
        assert(s.skip(1) =~= rest + from + behind);
        assert forall|i: int| 0 <= i <= rest.len() implies !from.is_prefix_of(
            #[trigger] rest.skip(i),
        ) by {
            assert(rest.skip(i) =~= before.skip(i + 1));
        }
        assert forall|i: int| 0 <= i < rest.len() implies !from.is_prefix_of(
            (#[trigger] rest.skip(i)) + from + behind,
        ) by {
            assert(rest.skip(i) =~= before.skip(i + 1));
        }
        lemma_replaced(rest, from, to, behind);
        assert(seq![s[0]] + (rest + to + replaced(behind, from, to)) =~= before + to + replaced(
            behind,
            from,
            to,
        ));
        assert(seq![before[0]] + rest =~= before);
    }
}

/// The files that make up the widget, and where a version of them is.
pub proof fn lemma_bundle(version: Seq<char>)
    ensures
        hashed_names() == seq![
            "captcha-widget.js"@,
            "captcha-worker.js"@,
            "captcha-widget.css"@,
            "vendor/argon2.umd.min.js"@,
        ],
        mount_of(version) == "/assets"@ + "/"@ + version,
        ASSET_BASE_PLACEHOLDER@ == "__BOLLWARK_ASSET_BASE__"@,
        ENTRY_CACHE_CONTROL@ == "public, max-age=300"@,
        IMMUTABLE_CACHE_CONTROL@ == "public, max-age=31536000, immutable"@,
        LEGACY_CACHE_CONTROL@ == "public, max-age=300"@,
{
}

/// A version is the first eight bytes of the hash, in sixteen digits; it is of all files, each
/// with its name and its length before its contents.
pub proof fn lemma_bundle_version(names: Seq<&'static str>, contents: Seq<Vec<u8>>)
    requires
        crate::crypto::sha256(bundle_bytes(name_bytes(names), byte_views(contents))).len() == 32,
    ensures
        bundle_version(names, contents).len() == 16,
        bundle_version(names, contents) == crate::crypto::hex_text(
            crate::crypto::sha256(bundle_bytes(name_bytes(names), byte_views(contents))),
        ).take(16),
{
    let hash = crate::crypto::sha256(bundle_bytes(name_bytes(names), byte_views(contents)));
    assert(crate::crypto::hex_text(hash.take(8)) =~= crate::crypto::hex_text(hash).take(16));
}

/// What is hashed of the files: of one more its name, its length in eight bytes and its
/// contents come behind what was hashed before.
pub proof fn lemma_bundle_bytes(
    names: Seq<Seq<u8>>,
    contents: Seq<Seq<u8>>,
    name: Seq<u8>,
    file: Seq<u8>,
)
    requires
        names.len() == contents.len(),
    ensures
        bundle_bytes(names.push(name), contents.push(file)) == bundle_bytes(names, contents) + name
            + crate::bytes::le_bytes(file.len(), 8) + file,
        bundle_bytes(Seq::empty(), Seq::empty()).len() == 0,
{
    assert(names.push(name).drop_last() =~= names);
    assert(contents.push(file).drop_last() =~= contents);
}

} // verus!
