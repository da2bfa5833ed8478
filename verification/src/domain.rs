use vstd::prelude::*;
use crate::errors::ReceiveError;

verus! {

/// The authority components of a parsed URL: scheme, host, and explicit
/// port.  The parser drops a known scheme's default port, so an explicit
/// `:443` on an `https` URL and no port at all compare equal.
pub struct Authority {
    pub scheme: String,
    pub host: String,
    pub port: Option<u16>,
}

/// What parsing a URL string yields as its authority: scheme, host and port,
/// or `None` when the string does not parse as a URL with a host.
/// The value is a function of the string alone.
pub uninterp spec fn url_authority(s: Seq<char>) -> Option<(Seq<char>, Seq<char>, Option<u16>)>;

/// Relies on `url::Url::parse` and the accessors `scheme`, `host_str` and
/// `port`: the authority of a URL string is a function of that string alone.
/// A string that does not parse, or parses without a host, yields `None`.
#[verifier::external_body]
fn parse_authority(s: &str) -> (r: Option<Authority>)
    ensures
        match r {
            Some(a) => url_authority(s@) == Some((a.scheme@, a.host@, a.port)),
            None => url_authority(s@) is None,
        },
{
    match url::Url::parse(s) {
        Ok(u) => match u.host_str() {
            Some(h) => Some(Authority {
                scheme: u.scheme().to_string(),
                host: h.to_string(),
                port: u.port(),
            }),
            None => None,
        },
        Err(_) => None,
    }
}

/// Case-insensitive equality of two characters, folding only the ASCII range.
pub open spec fn chars_eq_ci(a: char, b: char) -> bool {
    ||| a == b
    ||| (65 <= a as u32 <= 90 && a as u32 + 32 == b as u32)
    ||| (65 <= b as u32 <= 90 && b as u32 + 32 == a as u32)
}

/// Case-insensitive equality of two host names.
pub open spec fn hosts_eq_ci(x: Seq<char>, y: Seq<char>) -> bool {
    x.len() == y.len() && (forall|i: int| 0 <= i < x.len() ==> chars_eq_ci(x[i], y[i]))
}

/// Whether two URL strings share an authority: both parse, with equal scheme,
/// case-insensitively equal host, and equal port.  A parse failure on either
/// side counts as a mismatch (fail closed).
pub open spec fn domains_match(a: Seq<char>, b: Seq<char>) -> bool {
    match (url_authority(a), url_authority(b)) {
        (Some(x), Some(y)) => x.0 == y.0 && hosts_eq_ci(x.1, y.1) && x.2 == y.2,
        _ => false,
    }
}

fn chars_ci(a: char, b: char) -> (r: bool)
    ensures
        r == chars_eq_ci(a, b),
{
    let x = a as u32;
    let y = b as u32;
    x == y || (65 <= x && x <= 90 && x + 32 == y) || (65 <= y && y <= 90 && y + 32 == x)
}

fn hosts_match(a: &String, b: &String) -> (r: bool)
    ensures
        r == hosts_eq_ci(a@, b@),
{
    let alen = a.as_str().unicode_len();
    let blen = b.as_str().unicode_len();
    if alen != blen {
        return false;
    }
    let mut i: usize = 0;
    while i < alen
        invariant
            alen == a@.len(),
            blen == b@.len(),
            alen == blen,
            i <= alen,
            forall|j: int| 0 <= j < i ==> chars_eq_ci(a@[j], b@[j]),
        decreases alen - i,
    {
        if !chars_ci(a.as_str().get_char(i), b.as_str().get_char(i)) {
            return false;
        }
        i = i + 1;
    }
    true
}

/// Check that the actor URL and the object URL share an authority
/// (scheme, host and port, case-insensitively on host).  Any parse failure
/// on either URL is treated as a mismatch, so that no field of an untrusted
/// payload is ever trusted on the strength of an unparsable identifier.
pub fn verify_domains_match(actor: &str, object: &str) -> (r: Result<(), ReceiveError>)
    ensures
        r is Ok <==> domains_match(actor@, object@),
        r is Err ==> r->Err_0 == ReceiveError::DomainMismatch,
{
    let pa = parse_authority(actor);
    let pb = parse_authority(object);
    match (pa, pb) {
        (Some(x), Some(y)) => {
            let ports_equal = match (x.port, y.port) {
                (None, None) => true,
                (Some(p), Some(q)) => p == q,
                _ => false,
            };
            if x.scheme == y.scheme && hosts_match(&x.host, &y.host) && ports_equal {
                Ok(())
            } else {
                Err(ReceiveError::DomainMismatch)
            }
        },
        _ => Err(ReceiveError::DomainMismatch),
    }
}

} // verus!
