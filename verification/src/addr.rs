//! IP addresses as plain values, with their canonical text forms.
//!
//! The service only carries addresses between the resolver, the DNS
//! updater and the status snapshot, so an address is held as its raw
//! octets or groups. IPv4 text is the usual dotted quad; IPv6 text is the
//! full eight-group lowercase hexadecimal form, without zero compression.

use vstd::prelude::*;
use crate::text::{decimal_text, hex_text, push_decimal, push_hex, string_from_chars};

verus! {

/// An IPv4 or IPv6 address as plain values.
#[derive(Clone, Copy, Debug, PartialEq, Eq)]
pub enum IpAddress {
    V4 { a: u8, b: u8, c: u8, d: u8 },
    V6 { g0: u16, g1: u16, g2: u16, g3: u16, g4: u16, g5: u16, g6: u16, g7: u16 },
}

/// The text form of an address: dotted decimal quad for IPv4, eight
/// colon-separated lowercase hexadecimal groups for IPv6.
pub open spec fn ip_text(ip: IpAddress) -> Seq<char> {
    match ip {
        IpAddress::V4 { a, b, c, d } => decimal_text(a as nat) + seq!['.'] + decimal_text(
            b as nat,
        ) + seq!['.'] + decimal_text(c as nat) + seq!['.'] + decimal_text(d as nat),
        IpAddress::V6 { g0, g1, g2, g3, g4, g5, g6, g7 } => hex_text(g0 as nat) + seq![':']
            + hex_text(g1 as nat) + seq![':'] + hex_text(g2 as nat) + seq![':'] + hex_text(
            g3 as nat,
        ) + seq![':'] + hex_text(g4 as nat) + seq![':'] + hex_text(g5 as nat) + seq![':']
            + hex_text(g6 as nat) + seq![':'] + hex_text(g7 as nat),
    }
}

/// Appends the text form of `ip` to `out`.
pub fn push_ip_text(out: &mut Vec<char>, ip: &IpAddress)
    ensures
        final(out)@ == old(out)@ + ip_text(*ip),
{
    match ip {
        IpAddress::V4 { a, b, c, d } => {
            push_decimal(out, *a as u64);
            out.push('.');
            push_decimal(out, *b as u64);
            out.push('.');
            push_decimal(out, *c as u64);
            out.push('.');
            push_decimal(out, *d as u64);
            assert(out@ =~= old(out)@ + ip_text(*ip));
        },
        IpAddress::V6 { g0, g1, g2, g3, g4, g5, g6, g7 } => {
            push_hex(out, *g0 as u64);
            out.push(':');
            push_hex(out, *g1 as u64);
            out.push(':');
            push_hex(out, *g2 as u64);
            out.push(':');
            push_hex(out, *g3 as u64);
            out.push(':');
            push_hex(out, *g4 as u64);
            out.push(':');
            push_hex(out, *g5 as u64);
            out.push(':');
            push_hex(out, *g6 as u64);
            out.push(':');
            push_hex(out, *g7 as u64);
            assert(out@ =~= old(out)@ + ip_text(*ip));
        },
    }
}

/// The text form of `ip` as an owned string.
pub fn ip_string(ip: &IpAddress) -> (s: String)
    ensures
        s@ == ip_text(*ip),
{
    let mut out: Vec<char> = Vec::new();
    push_ip_text(&mut out, ip);
    string_from_chars(&out)
}

} // verus!
