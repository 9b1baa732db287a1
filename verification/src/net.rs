//! Addresses as plain values.

use vstd::prelude::*;

use crate::text::{copy_text, decimal, decimal_reads_back, push_number};

verus! {

/// An IP address, as the number that its bytes write in network order.
#[derive(Debug, Clone, Copy, PartialEq, Eq, Structural)]
pub enum IpAddress {
    V4(u32),
    V6(u128),
}

/// Where a peer receives: the text of an address, and a port.
#[derive(Debug)]
pub struct PeerAddress {
    pub ip: String,
    pub port: u16,
}

impl View for PeerAddress {
    type V = (Seq<char>, u16);

    open spec fn view(&self) -> (Seq<char>, u16) {
        (self.ip@, self.port)
    }
}

impl PeerAddress {
    /// A copy of the address.
    pub fn copy(&self) -> (r: Self)
        ensures
            r@ == self@,
    {
        PeerAddress { ip: copy_text(self.ip.as_str()), port: self.port }
    }
}

/// The four bytes of an IPv4 address in decimal, with dots between them.
pub open spec fn dotted(n: u32) -> Seq<char> {
    decimal((n / 0x100_0000) as nat) + seq!['.'] + decimal((n / 0x1_0000 % 256) as nat) + seq!['.']
        + decimal((n / 0x100 % 256) as nat) + seq!['.'] + decimal((n % 256) as nat)
}

proof fn dotted_chars(n: u32)
    ensures
        forall|i: int| 0 <= i < dotted(n).len() ==> is_address_char(#[trigger] dotted(n)[i]),
{
    decimal_reads_back((n / 0x100_0000) as nat, u32::MAX as nat);
    decimal_reads_back((n / 0x1_0000 % 256) as nat, u32::MAX as nat);
    decimal_reads_back((n / 0x100 % 256) as nat, u32::MAX as nat);
    decimal_reads_back((n % 256) as nat, u32::MAX as nat);
}

/// The characters that addresses are written in.
pub open spec fn is_address_char(c: char) -> bool {
    '0' <= c <= '9' || 'a' <= c <= 'f' || c == ':' || c == '.'
}

/// The standard text of an IPv6 address, with its longest run of zero groups
/// left out.
pub uninterp spec fn ipv6_text(n: u128) -> Seq<char>;

/// Writes an IPv6 address.
///
/// The `Display` form of sdp-rs's `ConnectionAddress` with nothing but a base
/// address: std's text of that address. Claimed: it depends on the address
/// alone, and is written in hexadecimal digits, colons and dots.
#[verifier::external_body]
fn format_ipv6(n: u128) -> (s: String)
    ensures
        s@ == ipv6_text(n),
        forall|i: int| 0 <= i < s@.len() ==> is_address_char(#[trigger] s@[i]),
{
    let base = n.to_be_bytes().into();
    sdp_rs::lines::connection::ConnectionAddress { base, ttl: None, numaddr: None }.to_string()
}

impl IpAddress {
    /// The text of the address.
    pub open spec fn text(self) -> Seq<char> {
        match self {
            IpAddress::V4(n) => dotted(n),
            IpAddress::V6(n) => ipv6_text(n),
        }
    }

    /// The text of the address.
    pub fn to_string(&self) -> (s: String)
        ensures
            s@ == self.text(),
            forall|i: int| 0 <= i < s@.len() ==> is_address_char(#[trigger] s@[i]),
    {
        match *self {
            IpAddress::V4(n) => {
                let mut s = String::new();
                push_number(&mut s, (n / 0x100_0000) as u64);
                s.push('.');
                push_number(&mut s, (n / 0x1_0000 % 256) as u64);
                s.push('.');
                push_number(&mut s, (n / 0x100 % 256) as u64);
                s.push('.');
                push_number(&mut s, (n % 256) as u64);
                assert(s@ =~= dotted(n));
                proof {
                    dotted_chars(n);
                }
                s
            },
            IpAddress::V6(n) => format_ipv6(n),
        }
    }
}

} // verus!
