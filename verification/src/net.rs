//! What the metadata chain needs from the network, and the one piece of it
//! that is pure: percent-encoding a URL path segment.

use crate::text::{digit_char, fixed, fixed_digits, push_chars};
use vstd::prelude::*;
use vstd::string::*;

verus! {

/// Byte cap on a response body.
pub const MAX_BODY: u64 = 10485760;

/// Why a fetch produced nothing.
#[derive(Debug, Clone, PartialEq, Eq)]
pub enum Error {
    /// The server answered that there is no such thing: a legitimate outcome.
    NotFound,
    /// Anything else, with a message for the log.
    Failed(String),
}

impl Error {
    /// The message a log line shows.
    pub fn to_text(&self) -> (r: String)
        ensures
            r@ == (match self {
                Error::NotFound => "not found"@,
                Error::Failed(e) => e@,
            }),
    {
        match self {
            Error::NotFound => String::from_str("not found"),
            Error::Failed(e) => e.clone(),
        }
    }
}

/// The network as the metadata chain sees it: one GET, answered with the
/// body or with why there is none. Implemented over HTTP by the application
/// and over a table of canned answers by the tests.
pub trait Fetch {
    fn get(&self, url: &str) -> Result<Vec<u8>, Error>;
}

/// What an HTTP status says of a fetch: nothing wrong for a 2xx, "no such
/// thing" for 404 and 410, a failure naming the URL and the status for
/// anything else.
pub open spec fn spec_status_error(url: Seq<char>, status: u16) -> Option<Result<(), Seq<char>>> {
    if status == 404 || status == 410 {
        Some(Ok(()))
    } else if 200 <= status < 300 {
        None
    } else {
        Some(Err(url + ": HTTP "@ + crate::text::dec(status as nat)))
    }
}

pub open spec fn error_view(e: Error) -> Result<(), Seq<char>> {
    match e {
        Error::NotFound => Ok(()),
        Error::Failed(m) => Err(m@),
    }
}

/// The error a response with `status` is, or `None` when its body is the
/// answer (see `spec_status_error`).
pub fn status_error(url: &str, status: u16) -> (r: Option<Error>)
    ensures
        (match r { Some(e) => Some(error_view(e)), None => None }) == spec_status_error(url@, status),
{
    if status == 404 || status == 410 {
        Some(Error::NotFound)
    } else if 200 <= status && status < 300 {
        None
    } else {
        let mut m = String::from_str(url);
        crate::text::push_str(&mut m, ": HTTP ");
        let d = crate::text::decimal(status as u64);
        push_chars(&mut m, d.as_slice());
        Some(Error::Failed(m))
    }
}

/// RFC 3986's unreserved bytes, left as they are in a path segment.
pub open spec fn unreserved(b: u8) -> bool {
    (0x41 <= b <= 0x5A) || (0x61 <= b <= 0x7A) || (0x30 <= b <= 0x39) || b == 0x2D || b == 0x5F
        || b == 0x2E || b == 0x7E
}

/// Percent-encoding of a byte string: unreserved bytes as themselves, every
/// other byte as `%XX`.
pub open spec fn percent_encoded(b: Seq<u8>) -> Seq<char>
    decreases b.len(),
{
    if b.len() == 0 {
        Seq::empty()
    } else {
        let x = b.last();
        percent_encoded(b.drop_last()) + (if unreserved(x) {
            seq![x as char]
        } else {
            seq!['%'] + fixed_digits(x as nat, 16, 2)
        })
    }
}

/// Percent-encode one path segment: its UTF-8 bytes, everything outside the
/// unreserved set escaped, `/` included.
pub fn encode_segment(segment: &str) -> (r: String)
    ensures
        r@ == percent_encoded(segment.spec_bytes()),
{
    let bytes = segment.as_bytes();
    let mut out: Vec<char> = Vec::new();
    let mut i: usize = 0;
    while i < bytes.len()
        invariant
            bytes@ == segment.spec_bytes(),
            i <= bytes@.len(),
            out@ == percent_encoded(bytes@.take(i as int)),
        decreases bytes@.len() - i,
    {
        proof {
            assert(bytes@.take(i + 1).drop_last() =~= bytes@.take(i as int));
            assert(bytes@.take(i + 1).last() == bytes@[i as int]);
        }
        let b = bytes[i];
        if (0x41 <= b && b <= 0x5A) || (0x61 <= b && b <= 0x7A) || (0x30 <= b && b <= 0x39) || b == 0x2D
            || b == 0x5F || b == 0x2E || b == 0x7E {
            out.push(b as char);
        } else {
            let ghost before = out@;
            out.push('%');
            let d = fixed(b as u64, 16, 2);
            assert(d@.len() == 2) by {
                reveal_with_fuel(fixed_digits, 3);
            }
            out.push(d[0]);
            out.push(d[1]);
            assert(out@ =~= before + (seq!['%'] + d@));
        }
        i = i + 1;
    }
    assert(bytes@.take(bytes@.len() as int) =~= bytes@);
    let mut r = String::new();
    push_chars(&mut r, out.as_slice());
    r
}

} // verus!
