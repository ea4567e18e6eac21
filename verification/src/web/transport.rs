//! The connection to the server.
use vstd::prelude::*;

verus! {

/// Whether a message of this many bytes goes over a stream of its own: it does not fit a
/// datagram, of which `max_datagram_size` is the first size that is too large.
pub fn needs_stream(len: usize, max_datagram_size: u64) -> (r: bool)
    ensures
        r == (len >= max_datagram_size),
{
    len as u64 >= max_datagram_size
}

/// The address of the WebTransport session: that of the page, with the token.
pub fn session_url(href: &str, token: &str) -> (s: String)
    ensures
        s@ == href@ + "?token="@ + token@,
{
    let mut s = href.to_owned();
    s.append("?token=");
    s.append(token);
    s
}

} // verus!
