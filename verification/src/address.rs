//! Which URLs count as local: what the server's local-only mode lets through.
use vstd::prelude::*;
use crate::text::{ends_with, ends_with_str, starts_with, starts_with_str, str_eq};

verus! {

/// The host that the `url` crate reads from a text: `None` when the text is
/// not a URL or the URL has no host.
pub uninterp spec fn url_host(text: Seq<char>) -> Option<Seq<char>>;

/// Parses a URL with `url::Url::parse` and reads its host with `host_str`.
/// How the parser reads hosts (IPv6 brackets, normalisation) is left to the
/// name `url_host`.
#[verifier::external_body]
fn parse_url_host(text: &str) -> (r: Option<String>)
    ensures
        match r {
            Some(h) => url_host(text@) == Some(h@),
            None => url_host(text@) is None,
        },
{
    url::Url::parse(text).ok().and_then(|u| u.host_str().map(|h| h.to_owned()))
}

/// A host counts as local: `localhost`, `127.0.0.1`, `::1` (bare or in
/// brackets), a name under `.local`, or an address under `192.168.`.
pub open spec fn is_local_host_name(h: Seq<char>) -> bool {
    ||| h == "localhost"@
    ||| h == "127.0.0.1"@
    ||| h == "::1"@
    ||| h == "[::1]"@
    ||| ends_with(h, ".local"@)
    ||| starts_with(h, "192.168."@)
}

/// A URL counts as local when it parses and its host counts as local.
pub open spec fn is_local_url(text: Seq<char>) -> bool {
    match url_host(text) {
        Some(h) => is_local_host_name(h),
        None => false,
    }
}

/// Whether a URL points at a local address.
pub fn is_local_address(url_str: &str) -> (b: bool)
    ensures
        b == is_local_url(url_str@),
{
    let host = match parse_url_host(url_str) {
        Some(h) => h,
        None => return false,
    };
    is_local_host(host.as_str())
}

/// Whether a host counts as local.
pub fn is_local_host(h: &str) -> (b: bool)
    ensures
        b == is_local_host_name(h@),
{
    str_eq(h, "localhost")
        || str_eq(h, "127.0.0.1")
        || str_eq(h, "::1")
        || str_eq(h, "[::1]")
        || ends_with_str(h, ".local")
        || starts_with_str(h, "192.168.")
}

} // verus!
