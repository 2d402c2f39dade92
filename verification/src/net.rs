//! Peer-address parsing: host and optional port, extracted from a URL-like
//! address string.

use vstd::prelude::*;

verus! {

/// The host text and optional explicit port that URL parsing extracts from
/// an address string; `None` when the string is not a parseable URL or has
/// no host. The value is fixed by the address text alone.
pub uninterp spec fn host_port_parts_of(addr: Seq<char>) -> Option<(Seq<char>, Option<u16>)>;

/// Relies on url::Url::parse, url::Url::host_str and url::Url::port:
/// parse gives `Err` exactly on strings that are not absolute URLs,
/// host_str gives the host text when the URL has one, and port gives the
/// explicit port, with a port equal to the scheme's default omitted.
#[verifier::external_body]
pub(crate) fn parse_host_port(addr: &str) -> (r: Option<(String, Option<u16>)>)
    ensures
        r is Some <==> host_port_parts_of(addr@) is Some,
        r matches Some((h, p)) ==> host_port_parts_of(addr@) == Some((h@, p)),
{
    match url::Url::parse(addr) {
        Ok(u) => match u.host_str() {
            Some(h) => {
                let host = h.to_owned();
                let port = u.port();
                Some((host, port))
            },
            None => None,
        },
        Err(_) => None,
    }
}

} // verus!
