//! The address at which the server can be reached, as text.
use crate::text::{decimal, decimal_text, law_decimal_stands_for_number, number};
use vstd::prelude::*;
use vstd::string::*;

verus! {

/// A host and a port as they stand in a URL: an IPv6 address goes into brackets.
pub open spec fn host_text(hostname: Seq<char>, port: u16, is_ipv6: bool) -> Seq<char> {
    if is_ipv6 {
        "["@ + hostname + "]:"@ + decimal(port as nat)
    } else {
        hostname + ":"@ + decimal(port as nat)
    }
}

/// Formats the host address (host and port) for printing. `is_ipv6` says whether the host is the
/// text of an IPv6 address.
pub fn format_host(hostname: &str, port: u16, is_ipv6: bool) -> (r: String)
    ensures
        r@ == host_text(hostname@, port, is_ipv6),
{
    let number = decimal_text(port);
    if is_ipv6 {
        let mut r = "[".to_string();
        r.append(hostname);
        r.append("]:");
        r.append(number.as_str());
        r
    } else {
        let mut r = hostname.to_string();
        r.append(":");
        r.append(number.as_str());
        r
    }
}

/// The host and the port can be read back from the address: the host comes first, an IPv6 address between
/// brackets, and what follows the colon after it stands for the port.
pub proof fn law_address_holds_host_and_port(hostname: Seq<char>, port: u16, is_ipv6: bool)
    ensures
        ({
            let address = host_text(hostname, port, is_ipv6);
            let n = hostname.len() as int;
            if is_ipv6 {
                &&& address.len() > n + 3
                &&& address[0] == '['
                &&& address.subrange(1, n + 1) == hostname
                &&& address[n + 1] == ']' && address[n + 2] == ':'
                &&& number(address.skip(n + 3)) == port
                &&& address.skip(n + 3) == decimal(port as nat)
            } else {
                &&& address.len() > n + 1
                &&& address.take(n) == hostname
                &&& address[n] == ':'
                &&& number(address.skip(n + 1)) == port
                &&& address.skip(n + 1) == decimal(port as nat)
            }
        }),
{
    reveal_strlit("[");
    reveal_strlit("]:");
    reveal_strlit(":");
    let address = host_text(hostname, port, is_ipv6);
    let n = hostname.len() as int;
    let digits = decimal(port as nat);
    law_decimal_stands_for_number(port as nat);
    if is_ipv6 {
        assert(address.subrange(1, n + 1) =~= hostname);
        assert(address.skip(n + 3) =~= digits);
    } else {
        assert(address.take(n) =~= hostname);
        assert(address.skip(n + 1) =~= digits);
    }
}

} // verus!
