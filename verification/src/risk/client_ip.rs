//! The address of the client behind reverse proxies, and the forms of an address that
//! are counted and stored.
use axum::http::HeaderMap;
use vstd::prelude::*;
use vstd::string::*;

use crate::headers::text_of;
use crate::net::{parse_ip, IpAddr};
use crate::risk::tls_fingerprint::TrustedProxies;
use crate::text::{chars_of, piece, pieces, position, string_of, trimmed, Separator};

verus! {

/// A hop without its port: what stands in square brackets, or what stands before the
/// only colon. An IPv6 address without brackets has more than one colon and is itself.
pub open spec fn without_port(s: Seq<char>) -> Seq<char> {
    if s.len() > 0 && s[0] == '[' && crate::text::index_of(s.skip(1), ']') is Some {
        s.skip(1).take(crate::text::index_of(s.skip(1), ']')->0)
    } else if crate::text::split(s, Separator::Char(':')).len() == 2 {
        crate::text::split(s, Separator::Char(':'))[0]
    } else {
        s
    }
}

/// The addresses of a list of hops, in their order. Blank hops, and those that write no
/// address, are skipped.
pub open spec fn hop_addresses(hops: Seq<Seq<char>>) -> Seq<IpAddr>
    decreases hops.len(),
{
    if hops.len() == 0 {
        Seq::empty()
    } else {
        let before = hop_addresses(hops.drop_last());
        let hop = crate::text::trim(hops.last());
        if hop.len() == 0 {
            before
        } else {
            match crate::net::ip_of_text(without_port(hop)) {
                Some(ip) => before.push(ip),
                None => before,
            }
        }
    }
}

/// The rightmost address that is not trusted; the leftmost where all of them are.
pub open spec fn rightmost_untrusted(
    hops: Seq<IpAddr>,
    trusted: Seq<crate::net::IpNet>,
) -> IpAddr
    recommends
        hops.len() > 0,
    decreases hops.len(),
{
    if hops.len() <= 1 || !crate::net::any_covers(trusted, hops.last()) {
        hops.last()
    } else {
        rightmost_untrusted(hops.drop_last(), trusted)
    }
}

/// The address of the client: that of the peer, unless the peer is a trusted proxy that
/// names others.
pub open spec fn resolved_client(
    peer: IpAddr,
    headers: Map<Seq<char>, Seq<u8>>,
    trusted: Seq<crate::net::IpNet>,
) -> IpAddr {
    match crate::headers::header_text(headers, "x-forwarded-for"@) {
        Some(value) if crate::net::any_covers(trusted, peer) => {
            let hops = hop_addresses(crate::text::split(value, Separator::Char(',')));
            if hops.len() == 0 {
                peer
            } else {
                rightmost_untrusted(hops, trusted)
            }
        },
        _ => peer,
    }
}

fn strip_port(s: &[char]) -> (r: Vec<char>)
    ensures
        r@ == without_port(s@),
{
    let n = s.len();
    if n > 0 && s[0] == '[' {
        let rest = piece(s, 1, n);
        assert(rest@ =~= s@.skip(1));
        if let Some(end) = position(rest.as_slice(), ']') {
            let inner = piece(rest.as_slice(), 0, end);
            assert(inner@ =~= rest@.take(end as int));
            return inner;
        }
    }
    let mut parts = pieces(s, Separator::Char(':'));
    if parts.len() == 2 {
        assert(crate::text::views(parts@)[0] == parts@[0]@);
        parts.swap_remove(0)
    } else {
        assert(s@.subrange(0, s@.len() as int) =~= s@);
        piece(s, 0, n)
    }
}

fn forwarded_hops(value: &str) -> (r: Vec<IpAddr>)
    ensures
        r@ == hop_addresses(crate::text::split(value@, Separator::Char(','))),
{
    let cs = chars_of(value);
    let parts = pieces(cs.as_slice(), Separator::Char(','));
    let ghost all = crate::text::views(parts@);
    let mut hops: Vec<IpAddr> = Vec::new();
    let n = parts.len();
    assert(hops@ =~= hop_addresses(all.take(0)));
    for i in 0..n
        invariant
            n == parts@.len(),
            all == crate::text::views(parts@),
            hops@ == hop_addresses(all.take(i as int)),
    {
        assert(all.take(i + 1).drop_last() == all.take(i as int));
        assert(all.take(i + 1).last() == parts@[i as int]@);
        let hop = trimmed(parts[i].as_slice());
        if hop.len() > 0 {
            let host = string_of(strip_port(hop.as_slice()).as_slice());
            if let Some(ip) = parse_ip(host.as_str()) {
                hops.push(ip);
            }
        }
    }
    assert(all.take(n as int) == all);
    hops
}

/// The address of the client. `X-Forwarded-For` counts only where the peer is a trusted
/// proxy: then its hops are walked from the right, past the trusted ones, to the first
/// that is not.
pub fn client_ip(peer: IpAddr, headers: &HeaderMap, trusted: &TrustedProxies) -> (r: IpAddr)
    ensures
        r == resolved_client(peer, crate::headers::fields(*headers), trusted.nets@),
{
    if trusted.is_empty() || !trusted.contains(peer) {
        return peer;
    }
    let value = match text_of(headers, "x-forwarded-for") {
        None => {
            return peer;
        },
        Some(value) => value,
    };
    let hops = forwarded_hops(value.as_str());
    if hops.len() == 0 {
        return peer;
    }
    let mut n = hops.len();
    assert(hops@.take(n as int) == hops@);
    while n > 1
        invariant
            1 <= n <= hops@.len(),
            rightmost_untrusted(hops@.take(n as int), trusted.nets@) == rightmost_untrusted(
                hops@,
                trusted.nets@,
            ),
        ensures
            n == 1 || !crate::net::any_covers(trusted.nets@, hops@[n - 1]),
            1 <= n <= hops@.len(),
            rightmost_untrusted(hops@.take(n as int), trusted.nets@) == rightmost_untrusted(
                hops@,
                trusted.nets@,
            ),
        decreases n,
    {
        if !trusted.contains(hops[n - 1]) {
            break ;
        }
        assert(hops@.take(n as int).drop_last() == hops@.take(n - 1));
        n -= 1;
    }
    assert(hops@.take(n as int).last() == hops@[n - 1]);
    hops[n - 1]
}

/// An address without its host part: an IPv4 address keeps 24 bits, an IPv6 address 48.
pub open spec fn anonymized(ip: IpAddr) -> IpAddr {
    match ip {
        IpAddr::V4(x) => IpAddr::V4((x - x % 0x100) as u32),
        IpAddr::V6(x) => IpAddr::V6((x - x % 0x1_0000_0000_0000_0000_0000) as u128),
    }
}

/// The form of an address that is stored: enough for telling networks apart, not for
/// telling hosts apart.
pub fn anonymize_ip(ip: IpAddr) -> (r: IpAddr)
    ensures
        r == anonymized(ip),
{
    match ip {
        IpAddr::V4(x) => IpAddr::V4(x - x % 0x100),
        IpAddr::V6(x) => IpAddr::V6(x - x % 0x1_0000_0000_0000_0000_0000),
    }
}

/// An IPv4 address that was written as an IPv6 address, as the former.
pub open spec fn canonical(ip: IpAddr) -> IpAddr {
    match ip {
        IpAddr::V6(x) if x / 0x1_0000_0000 == 0xFFFF => IpAddr::V4((x % 0x1_0000_0000) as u32),
        _ => ip,
    }
}

/// The form of an address under which its requests are counted: an IPv4 address itself,
/// the first 64 bits of an IPv6 address.
pub open spec fn counted_as(ip: IpAddr) -> IpAddr {
    match canonical(ip) {
        IpAddr::V4(x) => IpAddr::V4(x),
        IpAddr::V6(x) => IpAddr::V6((x - x % 0x1_0000_0000_0000_0000) as u128),
    }
}

/// The form of an address under which its requests are counted. One host is routinely
/// given 64 bits of IPv6 addresses; they share one count. An IPv4 address that comes as
/// an IPv6 one is counted as what it is.
pub fn rate_key(ip: IpAddr) -> (r: IpAddr)
    ensures
        r == counted_as(ip),
{
    match ip {
        IpAddr::V4(x) => IpAddr::V4(x),
        IpAddr::V6(x) => if x / 0x1_0000_0000 == 0xFFFF {
            IpAddr::V4((x % 0x1_0000_0000) as u32)
        } else {
            IpAddr::V6(x - x % 0x1_0000_0000_0000_0000)
        },
    }
}

/// A peer that is not trusted is the client, whatever its headers say.
pub proof fn lemma_untrusted_peer_is_client(
    peer: IpAddr,
    headers: Map<Seq<char>, Seq<u8>>,
    trusted: Seq<crate::net::IpNet>,
)
    requires
        !crate::net::any_covers(trusted, peer),
    ensures
        resolved_client(peer, headers, trusted) == peer,
{
}

/// What stands to the left of the hop that is chosen has no say: a forged hop that a
/// client prepends does not change who the client is.
pub proof fn lemma_prepended_hops_ignored(
    forged: Seq<IpAddr>,
    hops: Seq<IpAddr>,
    trusted: Seq<crate::net::IpNet>,
)
    requires
        exists|i: int|
            0 <= i < hops.len() && !crate::net::any_covers(trusted, #[trigger] hops[i]),
    ensures
        rightmost_untrusted(forged + hops, trusted) == rightmost_untrusted(hops, trusted),
    decreases hops.len(),
{
    let all = forged + hops;
    assert(all.last() == hops.last());
    if crate::net::any_covers(trusted, hops.last()) {
        let i = choose|i: int|
            0 <= i < hops.len() && !crate::net::any_covers(trusted, #[trigger] hops[i]);
        assert(hops.drop_last()[i] == hops[i]);
        assert(all.drop_last() =~= forged + hops.drop_last());
        lemma_prepended_hops_ignored(forged, hops.drop_last(), trusted);
    }
}

proof fn lemma_hop_addresses_concat(a: Seq<Seq<char>>, b: Seq<Seq<char>>)
    ensures
        hop_addresses(a + b) == hop_addresses(a) + hop_addresses(b),
    decreases b.len(),
{
    if b.len() == 0 {
        assert(a + b =~= a);
        assert(hop_addresses(a + b) =~= hop_addresses(a) + hop_addresses(b));
    } else {
        lemma_hop_addresses_concat(a, b.drop_last());
        assert((a + b).drop_last() =~= a + b.drop_last());
        assert((a + b).last() == b.last());
        assert(hop_addresses(a + b) =~= hop_addresses(a) + hop_addresses(b));
    }
}

/// A client gains nothing by sending hops of its own, which the trusted proxies in front of
/// the service keep and put theirs behind: as long as they name a hop that is not trusted,
/// that decides.
pub proof fn lemma_forged_hops_ignored(
    peer: IpAddr,
    honest: Map<Seq<char>, Seq<u8>>,
    forged: Map<Seq<char>, Seq<u8>>,
    made_up: Seq<char>,
    trusted: Seq<crate::net::IpNet>,
)
    requires
        crate::headers::header_text(honest, "x-forwarded-for"@) is Some,
        crate::headers::header_text(forged, "x-forwarded-for"@) == Some(
            made_up.push(',') + crate::headers::header_text(honest, "x-forwarded-for"@)->0,
        ),
        ({
            let hops = hop_addresses(
                crate::text::split(
                    crate::headers::header_text(honest, "x-forwarded-for"@)->0,
                    Separator::Char(','),
                ),
            );
            exists|i: int|
                0 <= i < hops.len() && !crate::net::any_covers(trusted, #[trigger] hops[i])
        }),
    ensures
        resolved_client(peer, forged, trusted) == resolved_client(peer, honest, trusted),
{
    let sep = Separator::Char(',');
    let value = crate::headers::header_text(honest, "x-forwarded-for"@)->0;
    crate::text::lemma_split_at_separator(made_up, ',', value, sep);
    let before = crate::text::split(made_up, sep);
    let behind = crate::text::split(value, sep);
    lemma_hop_addresses_concat(before, behind);
    lemma_prepended_hops_ignored(hop_addresses(before), hop_addresses(behind), trusted);
}

/// Anonymizing twice is anonymizing once.
pub proof fn lemma_anonymize(ip: IpAddr)
    ensures
        anonymized(anonymized(ip)) == anonymized(ip),
{
}

/// What is stored of two addresses is the same exactly where they belong to one network: of
/// 24 bits for IPv4, of 48 bits for IPv6.
pub proof fn lemma_anonymized_networks(a: u32, b: u32, c: u128, d: u128)
    ensures
        anonymized(IpAddr::V4(a)) == anonymized(IpAddr::V4(b)) <==> a / 0x100 == b / 0x100,
        anonymized(IpAddr::V6(c)) == anonymized(IpAddr::V6(d)) <==> c
            / 0x1_0000_0000_0000_0000_0000 == d / 0x1_0000_0000_0000_0000_0000,
        anonymized(IpAddr::V4(a)) != anonymized(IpAddr::V6(c)),
{
}

/// The address under which an address is counted is counted under itself.
pub proof fn lemma_rate_key_idempotent(ip: IpAddr)
    ensures
        counted_as(counted_as(ip)) == counted_as(ip),
{
    match canonical(ip) {
        IpAddr::V4(x) => {},
        IpAddr::V6(x) => {
            let y = (x - x % 0x1_0000_0000_0000_0000) as u128;
            let q = x / 0x1_0000_0000_0000_0000;
            assert(y == q * 0x1_0000_0000_0000_0000);
            assert(y / 0x1_0000_0000 == q * 0x1_0000_0000);
        },
    }
}

/// Hosts that share the first 64 bits of their IPv6 addresses are counted together, and
/// only they: an IPv4 client never shares a count with an IPv6 one.
pub proof fn lemma_rate_key_buckets(a: u128, b: u128)
    requires
        a / 0x1_0000_0000 != 0xFFFF,
        b / 0x1_0000_0000 != 0xFFFF,
    ensures
        counted_as(IpAddr::V6(a)) == counted_as(IpAddr::V6(b)) <==> a / 0x1_0000_0000_0000_0000
            == b / 0x1_0000_0000_0000_0000,
        counted_as(IpAddr::V6(a)) is V6,
{
}

/// The host of a hop that does not begin with a bracket: all of it where it has no colon or
/// more than one, as an IPv6 address has, and what stands before the colon where it has
/// exactly one.
pub proof fn lemma_host_without_brackets(s: Seq<char>, i: int, j: int)
    requires
        s.len() == 0 || s[0] != '[',
    ensures
        (forall|k: int| 0 <= k < s.len() ==> s[k] != ':') ==> without_port(s) == s,
        0 <= i < j < s.len() && s[i] == ':' && s[j] == ':' ==> without_port(s) == s,
        0 <= i < s.len() && s[i] == ':' && (forall|k: int|
            0 <= k < s.len() && k != i ==> s[k] != ':') ==> without_port(s) == s.subrange(0, i),
{
    lemma_colons(s, i, j);
}

proof fn lemma_colons(s: Seq<char>, i: int, j: int)
    ensures
        (forall|k: int| 0 <= k < s.len() ==> s[k] != ':') ==> crate::text::split(
            s,
            Separator::Char(':'),
        ).len() == 1,
        0 <= i < j < s.len() && s[i] == ':' && s[j] == ':' ==> crate::text::split(
            s,
            Separator::Char(':'),
        ).len() >= 3,
        0 <= i < s.len() && s[i] == ':' && (forall|k: int|
            0 <= k < s.len() && k != i ==> s[k] != ':') ==> crate::text::split(
            s,
            Separator::Char(':'),
        ) == seq![s.subrange(0, i), s.skip(i + 1)],
{
    let sep = Separator::Char(':');
    if forall|k: int| 0 <= k < s.len() ==> s[k] != ':' {
        crate::text::lemma_one_piece(s, sep);
    }
    if 0 <= i < j < s.len() && s[i] == ':' && s[j] == ':' {
        let a = s.take(i);
        let b = s.skip(i + 1);
        assert(s =~= a.push(':') + b);
        crate::text::lemma_split_at_separator(a, ':', b, sep);
        let c = b.take(j - i - 1);
        let d = b.skip(j - i);
        assert(b =~= c.push(':') + d);
        crate::text::lemma_split_at_separator(c, ':', d, sep);
        crate::text::lemma_split_at_separator(Seq::empty(), ':', a, sep);
        crate::text::lemma_split_at_separator(Seq::empty(), ':', c, sep);
    }
    if 0 <= i < s.len() && s[i] == ':' && (forall|k: int|
        0 <= k < s.len() && k != i ==> s[k] != ':') {
        let a = s.take(i);
        let b = s.skip(i + 1);
        assert(s =~= a.push(':') + b);
        crate::text::lemma_split_at_separator(a, ':', b, sep);
        assert forall|k: int| 0 <= k < b.len() implies !sep.separates(#[trigger] b[k]) by {
            assert(b[k] == s[k + i + 1]);
        }
        assert forall|k: int| 0 <= k < a.len() implies !sep.separates(#[trigger] a[k]) by {
            assert(a[k] == s[k]);
        }
        crate::text::lemma_one_piece(a, sep);
        crate::text::lemma_one_piece(b, sep);
        assert(a =~= s.subrange(0, i));
        assert(crate::text::split(s, sep) =~= seq![s.subrange(0, i), s.skip(i + 1)]);
    }
}

/// The host of a hop in brackets is what stands between them, whatever follows.
pub proof fn lemma_host_in_brackets(host: Seq<char>, rest: Seq<char>)
    requires
        forall|k: int| 0 <= k < host.len() ==> host[k] != ']',
    ensures
        without_port(seq!['['] + host + seq![']'] + rest) == host,
{
    let s = seq!['['] + host + seq![']'] + rest;
    let inner = s.skip(1);
    crate::text::lemma_index_of(inner, ']');
    assert(inner[host.len() as int] == ']');
    let end = crate::text::index_of(inner, ']')->0;
    if end < host.len() {
        assert(inner[end] == host[end]);
    }
    assert(s.skip(1).take(end) =~= host);
}

proof fn lemma_single_hop(value: Seq<char>, ip: IpAddr)
    requires
        value.len() > 0,
        !crate::text::is_white_space(value[0]),
        !crate::text::is_white_space(value.last()),
        forall|k: int| 0 <= k < value.len() ==> value[k] != ',',
        crate::net::ip_of_text(without_port(value)) == Some(ip),
    ensures
        hop_addresses(crate::text::split(value, Separator::Char(','))) == seq![ip],
{
    crate::text::lemma_one_piece(value, Separator::Char(','));
    let hops = seq![value];
    assert(crate::text::trim_start(value) == value);
    assert(crate::text::trim_end(value) == value);
    assert(hops.drop_last() =~= Seq::<Seq<char>>::empty());
    assert(hop_addresses(hops.drop_last()) =~= Seq::<IpAddr>::empty());
    assert(hop_addresses(hops) =~= seq![ip]);
}

/// A trusted proxy that names one address, and writes nothing but its text, names the client.
/// That holds of IPv4 addresses, which have no colon, and of IPv6 addresses, which have more
/// than one.
pub proof fn lemma_bare_address_is_client(
    peer: IpAddr,
    headers: Map<Seq<char>, Seq<u8>>,
    trusted: Seq<crate::net::IpNet>,
    value: Seq<char>,
    ip: IpAddr,
    i: int,
    j: int,
)
    requires
        crate::net::any_covers(trusted, peer),
        crate::headers::header_text(headers, "x-forwarded-for"@) == Some(value),
        crate::net::ip_of_text(value) == Some(ip),
        value.len() > 0,
        value[0] != '[',
        !crate::text::is_white_space(value[0]),
        !crate::text::is_white_space(value.last()),
        forall|k: int| 0 <= k < value.len() ==> value[k] != ',',
        (forall|k: int| 0 <= k < value.len() ==> value[k] != ':') || (0 <= i < j < value.len()
            && value[i] == ':' && value[j] == ':'),
    ensures
        resolved_client(peer, headers, trusted) == ip,
{
    lemma_host_without_brackets(value, i, j);
    lemma_single_hop(value, ip);
}

/// A trusted proxy that names one address with its port, as `address:port` or as
/// `[address]:port`, names the client by the address.
pub proof fn lemma_address_with_port_is_client(
    peer: IpAddr,
    headers: Map<Seq<char>, Seq<u8>>,
    trusted: Seq<crate::net::IpNet>,
    host: Seq<char>,
    port: Seq<char>,
    bracketed: bool,
    ip: IpAddr,
)
    requires
        crate::net::any_covers(trusted, peer),
        crate::net::ip_of_text(host) == Some(ip),
        host.len() > 0,
        port.len() > 0,
        forall|k: int|
            0 <= k < host.len() ==> host[k] != ',' && host[k] != '[' && host[k] != ']'
                && !crate::text::is_white_space(#[trigger] host[k]),
        forall|k: int| 0 <= k < port.len() ==> 48 <= (#[trigger] port[k]) as int <= 57,
        !bracketed ==> forall|k: int| 0 <= k < host.len() ==> host[k] != ':',
        crate::headers::header_text(headers, "x-forwarded-for"@) == Some(
            if bracketed {
                seq!['['] + host + seq![']'] + (seq![':'] + port)
            } else {
                host + seq![':'] + port
            },
        ),
    ensures
        resolved_client(peer, headers, trusted) == ip,
{
    let value = if bracketed {
        seq!['['] + host + seq![']'] + (seq![':'] + port)
    } else {
        host + seq![':'] + port
    };
    assert(value.last() == port[port.len() - 1]);
    if bracketed {
        lemma_host_in_brackets(host, seq![':'] + port);
        assert forall|k: int| 0 <= k < value.len() implies value[k] != ',' by {
            if 1 <= k < 1 + host.len() {
                assert(value[k] == host[k - 1]);
            } else if k >= host.len() + 3 {
                assert(value[k] == port[k - host.len() - 3]);
            }
        }
    } else {
        let n = host.len() as int;
        assert(value[0] == host[0]);
        assert(value[n] == ':');
        assert forall|k: int| 0 <= k < value.len() && k != n implies value[k] != ':' by {
            if k < n {
                assert(value[k] == host[k]);
            } else {
                assert(value[k] == port[k - n - 1]);
            }
        }
        assert forall|k: int| 0 <= k < value.len() implies value[k] != ',' by {
            if k < n {
                assert(value[k] == host[k]);
            } else if k > n {
                assert(value[k] == port[k - n - 1]);
            }
        }
        lemma_host_without_brackets(value, n, n);
        assert(value.subrange(0, n) =~= host);
    }
    lemma_single_hop(value, ip);
}

/// Of the hops of trusted proxies the client is the last that is not trusted; where all are,
/// it is the first.
pub proof fn lemma_last_untrusted_hop(
    hops: Seq<IpAddr>,
    trusted: Seq<crate::net::IpNet>,
    k: int,
)
    requires
        0 <= k < hops.len(),
        forall|i: int| k < i < hops.len() ==> crate::net::any_covers(trusted, #[trigger] hops[i]),
        k == 0 || !crate::net::any_covers(trusted, hops[k]),
    ensures
        rightmost_untrusted(hops, trusted) == hops[k],
    decreases hops.len(),
{
    if k < hops.len() - 1 {
        assert(crate::net::any_covers(trusted, hops[hops.len() - 1]));
        let before = hops.drop_last();
        assert forall|i: int| k < i < before.len() implies crate::net::any_covers(
            trusted,
            #[trigger] before[i],
        ) by {
            assert(before[i] == hops[i]);
        }
        lemma_last_untrusted_hop(before, trusted, k);
    }
}

/// The hops of two lists, one behind the other, are the hops of the first and then those of
/// the second; blank hops and hops that write no address add none.
pub proof fn lemma_hops_in_order(a: Seq<Seq<char>>, b: Seq<Seq<char>>, hop: Seq<char>)
    ensures
        hop_addresses(a + b) == hop_addresses(a) + hop_addresses(b),
        (forall|i: int| 0 <= i < hop.len() ==> crate::text::is_white_space(#[trigger] hop[i]))
            ==> hop_addresses(seq![hop]) == Seq::<IpAddr>::empty(),
        crate::net::ip_of_text(without_port(crate::text::trim(hop))) is None ==> hop_addresses(
            seq![hop],
        ) == Seq::<IpAddr>::empty(),
        crate::text::trim(hop).len() > 0 ==> (crate::net::ip_of_text(
            without_port(crate::text::trim(hop)),
        ) matches Some(ip) ==> hop_addresses(seq![hop]) == seq![ip]),
{
    lemma_hop_addresses_concat(a, b);
    crate::text::lemma_trim_is_middle(hop);
    let one = seq![hop];
    assert(one.drop_last() =~= Seq::<Seq<char>>::empty());
    assert(hop_addresses(one.drop_last()) =~= Seq::<IpAddr>::empty());
    if crate::net::ip_of_text(without_port(crate::text::trim(hop))) is Some {
        assert(Seq::<IpAddr>::empty().push(
            crate::net::ip_of_text(without_port(crate::text::trim(hop)))->0,
        ) =~= seq![crate::net::ip_of_text(without_port(crate::text::trim(hop)))->0]);
    }
}

/// Without the header, and with one that names no address, a trusted proxy is the client
/// itself.
pub proof fn lemma_unnamed_client_is_peer(
    peer: IpAddr,
    headers: Map<Seq<char>, Seq<u8>>,
    trusted: Seq<crate::net::IpNet>,
)
    ensures
        crate::headers::header_text(headers, "x-forwarded-for"@) is None ==> resolved_client(
            peer,
            headers,
            trusted,
        ) == peer,
        crate::headers::header_text(headers, "x-forwarded-for"@) matches Some(value) ==> (
        hop_addresses(crate::text::split(value, Separator::Char(','))).len() == 0
            ==> resolved_client(peer, headers, trusted) == peer),
        trusted.len() == 0 ==> resolved_client(peer, headers, trusted) == peer,
{
}

/// What is stored of an address is the first address of its network of 24 or 48 bits: the
/// rest of its bits is zero.
pub proof fn lemma_anonymized_address(a: u32, x: u128)
    ensures
        anonymized(IpAddr::V4(a)) matches IpAddr::V4(b) && b % 0x100 == 0 && b <= a && a - b
            < 0x100,
        anonymized(IpAddr::V6(x)) matches IpAddr::V6(y) && y % 0x1_0000_0000_0000_0000_0000 == 0
            && y <= x && x - y < 0x1_0000_0000_0000_0000_0000,
{
}

/// An IPv4 address is counted under itself, and so is one that is written as an IPv6 address;
/// any other IPv6 address is counted under the first address of its 64 bits.
pub proof fn lemma_counted_address(a: u32, x: u128)
    ensures
        counted_as(IpAddr::V4(a)) == IpAddr::V4(a),
        counted_as(IpAddr::V6((0xFFFF_0000_0000 + a) as u128)) == IpAddr::V4(a),
        !(0xFFFF_0000_0000 <= x <= 0xFFFF_FFFF_FFFF) ==> (counted_as(IpAddr::V6(x)) matches
            IpAddr::V6(y) && y % 0x1_0000_0000_0000_0000 == 0 && y <= x && x - y
            < 0x1_0000_0000_0000_0000),
{
}

/// Behind trusted proxies the client is the last hop of the header that is not trusted, and the
/// first hop where all are.
pub proof fn lemma_client_behind_proxies(
    peer: IpAddr,
    headers: Map<Seq<char>, Seq<u8>>,
    trusted: Seq<crate::net::IpNet>,
    value: Seq<char>,
    k: int,
)
    requires
        crate::net::any_covers(trusted, peer),
        crate::headers::header_text(headers, "x-forwarded-for"@) == Some(value),
        ({
            let hops = hop_addresses(crate::text::split(value, Separator::Char(',')));
            &&& 0 <= k < hops.len()
            &&& forall|i: int|
                k < i < hops.len() ==> crate::net::any_covers(trusted, #[trigger] hops[i])
            &&& k == 0 || !crate::net::any_covers(trusted, hops[k])
        }),
    ensures
        resolved_client(peer, headers, trusted) == hop_addresses(
            crate::text::split(value, Separator::Char(',')),
        )[k],
{
    lemma_last_untrusted_hop(
        hop_addresses(crate::text::split(value, Separator::Char(','))),
        trusted,
        k,
    );
}

/// Two hops, a client and a trusted proxy behind it: the client is the client.
pub proof fn lemma_client_and_proxy(
    peer: IpAddr,
    headers: Map<Seq<char>, Seq<u8>>,
    trusted: Seq<crate::net::IpNet>,
    first: Seq<char>,
    second: Seq<char>,
    client: IpAddr,
    proxy: IpAddr,
)
    requires
        crate::net::any_covers(trusted, peer),
        crate::net::any_covers(trusted, proxy),
        crate::headers::header_text(headers, "x-forwarded-for"@) == Some(
            first.push(',') + (seq![' '] + second),
        ),
        first.len() > 0 && second.len() > 0,
        forall|i: int|
            0 <= i < first.len() ==> first[i] != ',' && first[i] != ':' && first[i] != '['
                && !crate::text::is_white_space(#[trigger] first[i]),
        forall|i: int|
            0 <= i < second.len() ==> second[i] != ',' && second[i] != ':' && second[i] != '['
                && !crate::text::is_white_space(#[trigger] second[i]),
        crate::net::ip_of_text(first) == Some(client),
        crate::net::ip_of_text(second) == Some(proxy),
    ensures
        resolved_client(peer, headers, trusted) == client,
{
    let sep = Separator::Char(',');
    let padded = seq![' '] + second;
    crate::text::lemma_split_at_separator(first, ',', padded, sep);
    assert forall|i: int| 0 <= i < padded.len() implies !sep.separates(#[trigger] padded[i]) by {
        if i > 0 {
            assert(padded[i] == second[i - 1]);
        }
    }
    crate::text::lemma_one_piece(first, sep);
    crate::text::lemma_one_piece(padded, sep);
    lemma_hop_addresses_concat(seq![first], seq![padded]);
    lemma_host_without_brackets(first, 0, 0);
    lemma_host_without_brackets(second, 0, 0);
    assert(!crate::text::is_white_space(first[0]));
    assert(!crate::text::is_white_space(first[first.len() - 1]));
    assert(crate::text::trim_start(first) == first);
    assert(crate::text::trim_end(first) == first);
    assert(padded.skip(1) =~= second);
    assert(!crate::text::is_white_space(second[0]));
    assert(!crate::text::is_white_space(second[second.len() - 1]));
    assert(crate::text::is_white_space(padded[0]));
    assert(crate::text::trim_start(second) == second);
    assert(crate::text::trim_start(padded) == second);
    assert(crate::text::trim_end(second) == second);
    lemma_hops_in_order(Seq::empty(), Seq::empty(), first);
    lemma_hops_in_order(Seq::empty(), Seq::empty(), padded);
    let hops = hop_addresses(seq![first] + seq![padded]);
    assert(hops =~= seq![client, proxy]);
    lemma_last_untrusted_hop(hops, trusted, 0);
}

} // verus!
