//! IP addresses and networks.
use vstd::arithmetic::power2::*;
use vstd::bits::*;
use vstd::prelude::*;

verus! {

/// An IP address, as the number that its bytes write, most significant first.
#[derive(Debug, Clone, Copy, PartialEq, Eq, Structural)]
pub enum IpAddr {
    V4(u32),
    V6(u128),
}

/// The leading bits of a number of the given width: the number without its lowest
/// `width - keep` bits.
pub open spec fn leading_bits(x: int, keep: int, width: int) -> int {
    if keep >= width {
        x
    } else {
        x / (pow2((width - keep) as nat) as int)
    }
}

/// A network: an address, and the number of its leading bits that all addresses of
/// the network share.
#[derive(Debug, Clone, Copy, PartialEq, Eq, Structural)]
pub enum IpNet {
    V4(u32, u8),
    V6(u128, u8),
}

impl IpNet {
    /// The address belongs to the network: it is of the same family, and its leading
    /// bits are those of the network.
    pub open spec fn covers(self, ip: IpAddr) -> bool {
        match (self, ip) {
            (IpNet::V4(addr, keep), IpAddr::V4(x)) => leading_bits(addr as int, keep as int, 32)
                == leading_bits(x as int, keep as int, 32),
            (IpNet::V6(addr, keep), IpAddr::V6(x)) => leading_bits(addr as int, keep as int, 128)
                == leading_bits(x as int, keep as int, 128),
            _ => false,
        }
    }

    /// Whether an address belongs to the network.
    pub fn contains(&self, ip: &IpAddr) -> (r: bool)
        ensures
            r == self.covers(*ip),
    {
        match (self, ip) {
            (IpNet::V4(addr, keep), IpAddr::V4(x)) => {
                if *keep >= 32 {
                    *addr == *x
                } else {
                    let low: u64 = 32 - *keep as u64;
                    let a: u64 = *addr as u64;
                    let b: u64 = *x as u64;
                    proof {
                        lemma_u64_shr_is_div(a, low);
                        lemma_u64_shr_is_div(b, low);
                    }
                    a >> low == b >> low
                }
            },
            (IpNet::V6(addr, keep), IpAddr::V6(x)) => {
                if *keep >= 128 {
                    *addr == *x
                } else if *keep == 0 {
                    proof {
                        lemma_pow2_128();
                        vstd::arithmetic::div_mod::lemma_basic_div(*addr as int, pow2(128) as int);
                        vstd::arithmetic::div_mod::lemma_basic_div(*x as int, pow2(128) as int);
                    }
                    true
                } else {
                    let low: u128 = 128 - *keep as u128;
                    let a: u128 = *addr;
                    let b: u128 = *x;
                    proof {
                        lemma_u128_shr_is_div(a, low);
                        lemma_u128_shr_is_div(b, low);
                    }
                    a >> low == b >> low
                }
            },
            _ => false,
        }
    }
}

proof fn lemma_pow2_128()
    ensures
        pow2(128) == 0x1_0000_0000_0000_0000_0000_0000_0000_0000int,
{
    lemma2_to64();
    lemma_pow2_adds(64, 64);
    assert(pow2(64) == 0x1_0000_0000_0000_0000int);
    assert(0x1_0000_0000_0000_0000int * 0x1_0000_0000_0000_0000int
        == 0x1_0000_0000_0000_0000_0000_0000_0000_0000int) by (nonlinear_arith);
}

/// The address that a text writes, as `str::parse` reads it into an IP address.
pub uninterp spec fn ip_of_text(text: Seq<char>) -> Option<IpAddr>;

/// `str::parse` into the IP address type that `ipnet::IpNet::new` takes. The claim is
/// that the result depends on the text alone.
#[verifier::external_body]
fn parse_ip_text(text: &str) -> (r: Option<IpAddr>)
    ensures
        r == ip_of_text(text@),
{
    match ipnet::IpNet::new(text.parse().ok()?, 0).ok()? {
        ipnet::IpNet::V4(net) => Some(IpAddr::V4(u32::from(net.addr()))),
        ipnet::IpNet::V6(net) => Some(IpAddr::V6(u128::from(net.addr()))),
    }
}

/// The IP address that a text writes.
pub fn parse_ip(text: &str) -> (r: Option<IpAddr>)
    ensures
        r == ip_of_text(text@),
{
    parse_ip_text(text)
}

/// The text writes an address and a port, as `str::parse` reads them into the address that
/// a listener has.
pub uninterp spec fn writes_listen_address(text: Seq<char>) -> bool;

/// `str::parse` into the address type of `axum`'s listener on `tokio`. The claim is that
/// whether it succeeds depends on the text alone.
#[verifier::external_body]
pub(crate) fn is_listen_address(text: &str) -> (r: bool)
    ensures
        r == writes_listen_address(text@),
{
    text.parse::<<tokio::net::TcpListener as axum::serve::Listener>::Addr>().is_ok()
}

/// The network that a text writes in CIDR notation, as `ipnet` reads it, or the
/// message of its error.
pub uninterp spec fn net_of_text(text: Seq<char>) -> Result<IpNet, Seq<char>>;

/// `str::parse` into `ipnet::IpNet`. The claim is that the result depends on the text
/// alone.
#[verifier::external_body]
pub(crate) fn parse_net(text: &str) -> (r: Result<IpNet, String>)
    ensures
        match r {
            Ok(net) => net_of_text(text@) == Ok::<IpNet, Seq<char>>(net),
            Err(e) => net_of_text(text@) == Err::<IpNet, Seq<char>>(e@),
        },
{
    match text.parse::<ipnet::IpNet>() {
        Ok(ipnet::IpNet::V4(n)) => {
            Ok(IpNet::V4(u32::from(n.addr()), n.prefix_len()))
        },
        Ok(ipnet::IpNet::V6(n)) => {
            Ok(IpNet::V6(u128::from(n.addr()), n.prefix_len()))
        },
        Err(e) => Err(e.to_string()),
    }
}

/// One of the networks covers the address.
pub open spec fn any_covers(nets: Seq<IpNet>, ip: IpAddr) -> bool {
    exists|i: int| 0 <= i < nets.len() && (#[trigger] nets[i]).covers(ip)
}

/// Every address belongs to the network of prefix length zero of its family, and an
/// address belongs to the network that it alone makes up.
pub proof fn lemma_net_extremes(a: u32, x: u32, b: u128, y: u128)
    ensures
        IpNet::V4(a, 0).covers(IpAddr::V4(x)),
        IpNet::V6(b, 0).covers(IpAddr::V6(y)),
        IpNet::V4(a, 32).covers(IpAddr::V4(x)) <==> a == x,
        IpNet::V6(b, 128).covers(IpAddr::V6(y)) <==> b == y,
{
    lemma2_to64();
    lemma_pow2_128();
    vstd::arithmetic::div_mod::lemma_basic_div(a as int, pow2(32) as int);
    vstd::arithmetic::div_mod::lemma_basic_div(x as int, pow2(32) as int);
    vstd::arithmetic::div_mod::lemma_basic_div(b as int, pow2(128) as int);
    vstd::arithmetic::div_mod::lemma_basic_div(y as int, pow2(128) as int);
}

/// A network has the addresses of one block: as many as the bits leave that are not shared,
/// and the block starts at a multiple of their number. Its own address is among them.
pub proof fn lemma_network_is_block(a: u32, x: u32, keep: u8)
    requires
        keep <= 32,
    ensures
        IpNet::V4(a, keep).covers(IpAddr::V4(a)),
        ({
            let size = pow2((32 - keep) as nat) as int;
            let first = (a as int / size) * size;
            &&& first <= a < first + size
            &&& IpNet::V4(a, keep).covers(IpAddr::V4(x)) <==> first <= x < first + size
        }),
{
    let size = pow2((32 - keep) as nat) as int;
    lemma_pow2_pos((32 - keep) as nat);
    if keep == 32 {
        vstd::arithmetic::power2::lemma2_to64();
        assert(size == 1);
    }
    lemma_block(a as int, x as int, size);
}

/// As `lemma_network_is_block`, of IPv6.
pub proof fn lemma_network_is_block_v6(a: u128, x: u128, keep: u8)
    requires
        keep <= 128,
    ensures
        IpNet::V6(a, keep).covers(IpAddr::V6(a)),
        ({
            let size = pow2((128 - keep) as nat) as int;
            let first = (a as int / size) * size;
            &&& first <= a < first + size
            &&& IpNet::V6(a, keep).covers(IpAddr::V6(x)) <==> first <= x < first + size
        }),
{
    let size = pow2((128 - keep) as nat) as int;
    lemma_pow2_pos((128 - keep) as nat);
    if keep == 128 {
        vstd::arithmetic::power2::lemma2_to64();
        assert(size == 1);
    }
    lemma_block(a as int, x as int, size);
}

proof fn lemma_block(a: int, x: int, size: int)
    requires
        size > 0,
    ensures
        (a / size) * size <= a < (a / size) * size + size,
        a / size == x / size <==> (a / size) * size <= x < (a / size) * size + size,
{
    vstd::arithmetic::div_mod::lemma_fundamental_div_mod(a, size);
    vstd::arithmetic::div_mod::lemma_fundamental_div_mod(x, size);
    vstd::arithmetic::div_mod::lemma_mod_bound(a, size);
    vstd::arithmetic::div_mod::lemma_mod_bound(x, size);
    let q = a / size;
    let p = x / size;
    assert(size * q == q * size && size * p == p * size) by (nonlinear_arith);
    if q < p {
        assert(p * size >= q * size + size) by (nonlinear_arith)
            requires
                q < p,
                size > 0,
        ;
    } else if p < q {
        assert(q * size >= p * size + size) by (nonlinear_arith)
            requires
                p < q,
                size > 0,
        ;
    }
}

/// The two families of addresses have no network in common.
pub proof fn lemma_families_apart(a: u32, x: u128, keep: u8)
    ensures
        !IpNet::V4(a, keep).covers(IpAddr::V6(x)),
        !IpNet::V6(x, keep).covers(IpAddr::V4(a)),
{
}

/// An address is covered by a list of networks exactly where one of them covers it: one more
/// network covers what it covers and uncovers nothing.
pub proof fn lemma_any_covers(nets: Seq<IpNet>, net: IpNet, ip: IpAddr)
    ensures
        any_covers(nets.push(net), ip) <==> any_covers(nets, ip) || net.covers(ip),
        !any_covers(Seq::empty(), ip),
{
    let more = nets.push(net);
    if any_covers(nets, ip) {
        let i = choose|i: int| 0 <= i < nets.len() && (#[trigger] nets[i]).covers(ip);
        assert(more[i].covers(ip));
    }
    if net.covers(ip) {
        assert(more[nets.len() as int].covers(ip));
    }
    if any_covers(more, ip) {
        let i = choose|i: int| 0 <= i < more.len() && (#[trigger] more[i]).covers(ip);
        if i < nets.len() {
            assert(nets[i].covers(ip));
        }
    }
}

} // verus!
