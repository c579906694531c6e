use vstd::prelude::*;
use vstd::utf8::{decode_utf8, valid_utf8};

verus! {

/// Whether `c` has the Unicode `White_Space` property.
pub open spec fn is_white_space(c: char) -> bool {
    let u = c as u32;
    ||| 0x09 <= u <= 0x0d
    ||| u == 0x20
    ||| u == 0x85
    ||| u == 0xa0
    ||| u == 0x1680
    ||| 0x2000 <= u <= 0x200a
    ||| u == 0x2028
    ||| u == 0x2029
    ||| u == 0x202f
    ||| u == 0x205f
    ||| u == 0x3000
}

/// `s` without its leading white space.
pub open spec fn trim_start(s: Seq<char>) -> Seq<char>
    decreases s.len(),
{
    if s.len() > 0 && is_white_space(s[0]) {
        trim_start(s.drop_first())
    } else {
        s
    }
}

/// `s` without its trailing white space.
pub open spec fn trim_end(s: Seq<char>) -> Seq<char>
    decreases s.len(),
{
    if s.len() > 0 && is_white_space(s.last()) {
        trim_end(s.drop_last())
    } else {
        s
    }
}

/// `s` without leading or trailing white space.
pub open spec fn trimmed(s: Seq<char>) -> Seq<char> {
    trim_end(trim_start(s))
}

/// Relies on `std::str::from_utf8`: the text that the bytes encode when they
/// are well-formed UTF-8, and an error exactly when they are not.
#[verifier::external_body]
pub(crate) fn utf8_text(bytes: &[u8]) -> (r: Option<&str>)
    ensures
        r is Some <==> valid_utf8(bytes@),
        r matches Some(s) ==> s@ == decode_utf8(bytes@),
{
    std::str::from_utf8(bytes).ok()
}

/// Relies on `str::trim`: the slice without leading and trailing characters
/// that have the Unicode `White_Space` property.
#[verifier::external_body]
fn trim_text(s: &str) -> (r: &str)
    ensures
        r@ == trimmed(s@),
{
    s.trim()
}

/// The host that local endpoints are bound to.
pub open spec fn loopback_host() -> Seq<char> {
    "127.0.0.1:"@
}

/// The local address to bind for a port typed by the user: the loopback
/// host and the port text with surrounding white space removed.
pub fn local_address(port_text: &str) -> (r: String)
    ensures
        r@ == loopback_host() + trimmed(port_text@),
{
    let mut r = String::from_str("127.0.0.1:");
    r.append(trim_text(port_text));
    r
}

/// The server address typed by the user, with surrounding white space
/// removed.
pub fn remote_address(address_text: &str) -> (r: String)
    ensures
        r@ == trimmed(address_text@),
{
    String::from_str(trim_text(address_text))
}

} // verus!
