//! The texts of IP addresses, by the type `IpAddr` of the core library.

use crate::text::{
    decimal, is_number, joined, lacks, law_canonical_digits_are_decimal, law_pieces_are_joined,
    number_value, pieces,
};
use vstd::prelude::*;

verus! {

/// The octets of an IP address.
pub enum IpOctets {
    V4([u8; 4]),
    V6([u8; 16]),
}

/// The octets of the IP address that a text writes: four, or sixteen.
pub uninterp spec fn ip_octets(text: Seq<char>) -> Option<Seq<u8>>;

/// A number from 0 to 255 in decimal, without leading zeros.
pub open spec fn is_octet_text(s: Seq<char>) -> bool {
    is_number(s) && number_value(s) <= 255 && (s.len() == 1 || s[0] != '0')
}

/// The four octets that a text writes in decimal, with dots between them.
pub open spec fn dotted_octets(text: Seq<char>) -> Option<Seq<u8>> {
    let parts = pieces(text, '.');
    if parts.len() == 4 && forall|i: int| 0 <= i < 4 ==> is_octet_text(#[trigger] parts[i]) {
        Some(parts.map_values(|s: Seq<char>| number_value(s) as u8))
    } else {
        None
    }
}

/// The sixteen octets of the IPv6 address that a text writes. In such a text a `:` parts the
/// groups; the rest of the notation is left to the name.
pub open spec fn ipv6_octets(text: Seq<char>) -> Option<Seq<u8>> {
    if dotted_octets(text) is Some || lacks(text, ':') {
        None
    } else {
        ip_octets(text)
    }
}

/// The octets of an IP address that may be missing.
pub open spec fn octets_view(r: Option<IpOctets>) -> Option<Seq<u8>> {
    match r {
        Some(IpOctets::V4(ip)) => Some(ip@),
        Some(IpOctets::V6(ip)) => Some(ip@),
        None => None,
    }
}

/// `str::parse` to an `IpAddr`: the address that the text writes, if it writes one. It is an IPv4
/// address where the text is in dot-decimal notation, octets with leading zeros not allowed, and
/// nowhere else. The text of an IPv6 address has groups with `:` between them.
#[verifier::external_body]
pub(crate) fn parse_ip(text: &str) -> (r: Option<IpOctets>)
    ensures
        octets_view(r) == ip_octets(text@),
        match r {
            Some(IpOctets::V4(ip)) => dotted_octets(text@) == Some(ip@),
            Some(IpOctets::V6(_)) => dotted_octets(text@) is None && !lacks(text@, ':'),
            None => dotted_octets(text@) is None,
        },
{
    match text.parse::<core::net::IpAddr>() {
        Ok(core::net::IpAddr::V4(ip)) => Some(IpOctets::V4(ip.octets())),
        Ok(core::net::IpAddr::V6(ip)) => Some(IpOctets::V6(ip.octets())),
        Err(_) => None,
    }
}

/// What is read as four octets is their dot-decimal notation and nothing else.
pub proof fn law_dotted_is_canonical(text: Seq<char>, octets: Seq<u8>)
    requires
        dotted_octets(text) == Some(octets),
    ensures
        octets.len() == 4,
        text == joined(octets.map_values(|o: u8| decimal(o as nat)), '.'),
{
    let parts = pieces(text, '.');
    law_pieces_are_joined(text, '.');
    assert forall|i: int| 0 <= i < 4 implies decimal(octets[i] as nat) == parts[i] by {
        assert(is_octet_text(parts[i]));
        law_canonical_digits_are_decimal(parts[i]);
    }
    assert(octets.map_values(|o: u8| decimal(o as nat)) == parts);
}

/// A text with a `:` is an IPv6 address where it writes one; a text without, or in dot-decimal
/// notation, is none.
pub proof fn law_ipv6_has_a_colon(text: Seq<char>)
    ensures
        lacks(text, ':') || dotted_octets(text) is Some ==> ipv6_octets(text) is None,
        !lacks(text, ':') && dotted_octets(text) is None ==> ipv6_octets(text) == ip_octets(text),
{
}

} // verus!
