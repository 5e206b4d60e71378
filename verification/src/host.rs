//! Addresses of hosts and their networks.

use vstd::prelude::*;

verus! {

/// An address of a host, by its number.
#[derive(Clone, Copy, Debug, PartialEq, Eq, Structural)]
pub enum Ip {
    V4(u32),
    V6(u128),
}

/// A network: an address in it, and the number of leading bits that its addresses share.
#[derive(Clone, Copy, Debug, PartialEq, Eq, Structural)]
pub struct Network {
    pub address: Ip,
    pub prefix: u8,
}

/// The address that a text stands for, as std reads it.
pub uninterp spec fn ip_of(value: Seq<char>) -> Option<Ip>;

/// Reads an address: `str::parse` into the address type that `ipnet::IpNet::new` takes, which depends
/// on the text alone.
#[verifier::external_body]
pub(crate) fn ip(value: &str) -> (result: Option<Ip>)
    ensures
        result == ip_of(value@),
{
    match ipnet::IpNet::new(value.parse().ok()?, 0).ok()? {
        ipnet::IpNet::V4(net) => Some(Ip::V4(u32::from(net.addr()))),
        ipnet::IpNet::V6(net) => Some(Ip::V6(u128::from(net.addr()))),
    }
}

/// The network that a text stands for, as `ipnet` reads it.
pub uninterp spec fn network_of(value: Seq<char>) -> Option<Network>;

/// Reads a network: `str::parse` into `ipnet::IpNet`, which depends on the text alone; a prefix is no
/// longer than an address.
#[verifier::external_body]
pub(crate) fn network(value: &str) -> (result: Option<Network>)
    ensures
        result == network_of(value@),
        result matches Some(found) ==> found.wf(),
{
    match value.parse::<ipnet::IpNet>().ok()? {
        ipnet::IpNet::V4(net) => {
            Some(Network { address: Ip::V4(u32::from(net.addr())), prefix: net.prefix_len() })
        },
        ipnet::IpNet::V6(net) => {
            Some(Network { address: Ip::V6(u128::from(net.addr())), prefix: net.prefix_len() })
        },
    }
}

/// The number without its last binary digits.
pub open spec fn halved(value: nat, times: nat) -> nat
    decreases times,
{
    if times == 0 {
        value
    } else {
        halved(value / 2, (times - 1) as nat)
    }
}

fn halve(value: u128, times: u8) -> (result: u128)
    ensures
        result == halved(value as nat, times as nat),
    decreases times,
{
    if times == 0 {
        value
    } else {
        halve(value / 2, times - 1)
    }
}

impl Network {
    /// Whether the prefix is no longer than an address.
    pub open spec fn wf(self) -> bool {
        match self.address {
            Ip::V4(_) => self.prefix <= 32,
            Ip::V6(_) => self.prefix <= 128,
        }
    }

    /// Whether the address is in the network: it shares the leading bits.
    pub open spec fn holds(self, address: Ip) -> bool {
        match (self.address, address) {
            (Ip::V4(own), Ip::V4(other)) => halved(own as nat, (32 - self.prefix) as nat) == halved(
                other as nat,
                (32 - self.prefix) as nat,
            ),
            (Ip::V6(own), Ip::V6(other)) => halved(own as nat, (128 - self.prefix) as nat)
                == halved(other as nat, (128 - self.prefix) as nat),
            _ => false,
        }
    }

    /// Whether the address is in the network.
    pub fn contains(&self, address: Ip) -> (result: bool)
        requires
            self.wf(),
        ensures
            result == self.holds(address),
    {
        match (self.address, address) {
            (Ip::V4(own), Ip::V4(other)) => halve(own as u128, 32 - self.prefix) == halve(
                other as u128,
                32 - self.prefix,
            ),
            (Ip::V6(own), Ip::V6(other)) => halve(own, 128 - self.prefix) == halve(
                other,
                128 - self.prefix,
            ),
            _ => false,
        }
    }
}

/// A network holds the address that it was made from.
pub proof fn lemma_network_holds_own(network: Network)
    ensures
        network.holds(network.address),
{
}

impl Ip {
    /// The address of version four that stands in one of version six, or the address itself.
    pub open spec fn unmapped(self) -> Ip {
        match self {
            Ip::V6(value) => if value / 0x1_0000_0000 == 0xffff {
                Ip::V4((value % 0x1_0000_0000) as u32)
            } else {
                self
            },
            Ip::V4(_) => self,
        }
    }

    /// The address of version four that stands in one of version six, or the address itself.
    pub fn unmap(self) -> (result: Ip)
        ensures
            result == self.unmapped(),
    {
        match self {
            Ip::V6(value) => if value / 0x1_0000_0000 == 0xffff {
                Ip::V4((value % 0x1_0000_0000) as u32)
            } else {
                self
            },
            Ip::V4(_) => self,
        }
    }

    /// Whether the address is one of this host: 127.0.0.0/8, or ::1.
    pub open spec fn is_loopback(self) -> bool {
        match self {
            Ip::V4(value) => value / 0x100_0000 == 127,
            Ip::V6(value) => value == 1,
        }
    }

    /// Whether the address is one of this host.
    pub fn loopback(self) -> (result: bool)
        ensures
            result == self.is_loopback(),
    {
        match self {
            Ip::V4(value) => value / 0x100_0000 == 127,
            Ip::V6(value) => value == 1,
        }
    }

    /// Whether the address is one of a private network: 10.0.0.0/8, 172.16.0.0/12, 192.168.0.0/16, or
    /// fc00::/7.
    pub open spec fn is_private(self) -> bool {
        match self {
            Ip::V4(value) => value / 0x100_0000 == 10 || value / 0x10_0000 == 0xac1 || value
                / 0x1_0000 == 0xc0a8,
            Ip::V6(value) => value / 0x0200_0000_0000_0000_0000_0000_0000_0000 == 0x7e,
        }
    }

    /// Whether the address is one of a private network.
    pub fn private(self) -> (result: bool)
        ensures
            result == self.is_private(),
    {
        match self {
            Ip::V4(value) => value / 0x100_0000 == 10 || value / 0x10_0000 == 0xac1 || value
                / 0x1_0000 == 0xc0a8,
            Ip::V6(value) => value / 0x0200_0000_0000_0000_0000_0000_0000_0000 == 0x7e,
        }
    }
}

impl Ip {
    /// Whether the address stands for all addresses of a host.
    pub open spec fn is_unspecified(self) -> bool {
        match self {
            Ip::V4(value) => value == 0,
            Ip::V6(value) => value == 0,
        }
    }

    /// Whether the address stands for all addresses of a host.
    pub fn unspecified(self) -> (result: bool)
        ensures
            result == self.is_unspecified(),
    {
        match self {
            Ip::V4(value) => value == 0,
            Ip::V6(value) => value == 0,
        }
    }
}

/// Taking the last binary digits off is to divide by a power of two.
pub proof fn lemma_halved(value: nat, times: nat)
    ensures
        halved(value, times) == value / vstd::arithmetic::power2::pow2(times),
    decreases times,
{
    vstd::arithmetic::power2::lemma2_to64();
    if times > 0 {
        let rest = (times - 1) as nat;
        lemma_halved(value / 2, rest);
        vstd::arithmetic::power2::lemma_pow2_unfold(times);
        vstd::arithmetic::power2::lemma_pow2_pos(rest);
        vstd::arithmetic::div_mod::lemma_div_denominator(
            value as int,
            2,
            vstd::arithmetic::power2::pow2(rest) as int,
        );
        let share = vstd::arithmetic::power2::pow2(rest);
        assert(halved(value, times) == (value / 2) / share);
        assert((value as int / 2) / share as int == value as int / (2 * share as int));
        assert(vstd::arithmetic::power2::pow2(times) == 2 * share);
        assert(2 * share as int == vstd::arithmetic::power2::pow2(times) as int);
    } else {
        assert(vstd::arithmetic::power2::pow2(0) == 1);
        assert(value / 1 == value) by (nonlinear_arith);
    }
}

/// An address is in a network exactly where both are of one version and the numbers before the free bits
/// are the same.
pub proof fn lemma_network_shares_bits(network: Network, address: Ip)
    requires
        network.wf(),
    ensures
        match (network.address, address) {
            (Ip::V4(own), Ip::V4(other)) => {
                let free = vstd::arithmetic::power2::pow2((32 - network.prefix) as nat);
                network.holds(address) <==> own as nat / free == other as nat / free
            },
            (Ip::V6(own), Ip::V6(other)) => {
                let free = vstd::arithmetic::power2::pow2((128 - network.prefix) as nat);
                network.holds(address) <==> own as nat / free == other as nat / free
            },
            _ => !network.holds(address),
        },
{
    match (network.address, address) {
        (Ip::V4(own), Ip::V4(other)) => {
            lemma_halved(own as nat, (32 - network.prefix) as nat);
            lemma_halved(other as nat, (32 - network.prefix) as nat);
        },
        (Ip::V6(own), Ip::V6(other)) => {
            lemma_halved(own as nat, (128 - network.prefix) as nat);
            lemma_halved(other as nat, (128 - network.prefix) as nat);
        },
        _ => {},
    }
}

/// The ranges of addresses of version four: those of this host from 127.0.0.0 to 127.255.255.255, the
/// private ones from 10.0.0.0 to 10.255.255.255, 172.16.0.0 to 172.31.255.255, and 192.168.0.0 to
/// 192.168.255.255.
pub proof fn lemma_four_ranges(value: u32)
    ensures
        Ip::V4(value).is_loopback() <==> 0x7f00_0000 <= value <= 0x7fff_ffff,
        Ip::V4(value).is_private() <==> 0x0a00_0000 <= value <= 0x0aff_ffff || 0xac10_0000 <= value
            <= 0xac1f_ffff || 0xc0a8_0000 <= value <= 0xc0a8_ffff,
        Ip::V4(value).is_unspecified() <==> value == 0,
        Ip::V4(value).unmapped() == Ip::V4(value),
{
}

/// The ranges of addresses of version six: ::1 of this host, the private ones from fc00:: to
/// fdff:ffff:ffff:ffff:ffff:ffff:ffff:ffff, and those from ::ffff:0:0 on that stand for version four.
pub proof fn lemma_six_ranges(value: u128)
    ensures
        Ip::V6(value).is_loopback() <==> value == 1,
        Ip::V6(value).is_private() <==> 0xfc00_0000_0000_0000_0000_0000_0000_0000 <= value
            <= 0xfdff_ffff_ffff_ffff_ffff_ffff_ffff_ffff,
        Ip::V6(value).is_unspecified() <==> value == 0,
        0xffff_0000_0000 <= value <= 0xffff_ffff_ffff ==> Ip::V6(value).unmapped() == Ip::V4(
            (value - 0xffff_0000_0000) as u32,
        ),
        !(0xffff_0000_0000 <= value <= 0xffff_ffff_ffff) ==> Ip::V6(value).unmapped() == Ip::V6(value),
{
}

} // verus!
