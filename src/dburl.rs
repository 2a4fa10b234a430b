//! The address of the database that holds chats and feeds.

use vstd::prelude::*;
use vstd::utf8::encode_utf8;

verus! {

/// A byte that percent-encoding leaves as it is: ASCII letters and digits,
/// `-`, `.`, `_` and `~`.
pub open spec fn url_safe(b: u8) -> bool {
    (48 <= b <= 57) || (65 <= b <= 90) || (97 <= b <= 122) || b == 45 || b == 46 || b == 95 || b == 126
}

/// The upper-case hexadecimal digit of `d < 16`.
pub open spec fn hex_digit(d: u8) -> char {
    if d < 10 {
        (48 + d) as u8 as char
    } else {
        (55 + d) as u8 as char
    }
}

/// The percent-encoding of `bytes`: each safe byte as its character, every
/// other byte as `%` and two upper-case hexadecimal digits.
pub open spec fn percent_encoding(bytes: Seq<u8>) -> Seq<char>
    decreases bytes.len(),
{
    if bytes.len() == 0 {
        Seq::empty()
    } else {
        let b = bytes.last();
        percent_encoding(bytes.drop_last()) + if url_safe(b) {
            seq![b as char]
        } else {
            seq!['%', hex_digit(b / 16), hex_digit(b % 16)]
        }
    }
}

/// Relies on `urlencoding::encode`: percent-encodes the UTF-8 bytes of a
/// text, every byte but ASCII letters, digits, `-`, `.`, `_` and `~`, as `%`
/// and two upper-case hexadecimal digits.
#[verifier::external_body]
fn url_encode(s: &str) -> (r: String)
    ensures
        r@ == percent_encoding(encode_utf8(s@)),
{
    urlencoding::encode(s).into_owned()
}

/// The PostgreSQL address of database `name` on `host`, port 5432, for
/// `user` with `password`; the password is percent-encoded.
pub open spec fn database_url_spec(
    user: Seq<char>,
    password: Seq<char>,
    host: Seq<char>,
    name: Seq<char>,
) -> Seq<char> {
    "postgres://"@ + user + ":"@ + percent_encoding(encode_utf8(password)) + "@"@ + host + ":5432/"@
        + name
}

/// Writes the address of the database.
pub fn database_url(user: &str, password: &str, host: &str, name: &str) -> (r: String)
    ensures
        r@ == database_url_spec(user@, password@, host@, name@),
{
    let mut s = String::new();
    s.append("postgres://");
    s.append(user);
    s.append(":");
    let encoded = url_encode(password);
    s.append(encoded.as_str());
    s.append("@");
    s.append(host);
    s.append(":5432/");
    s.append(name);
    proof {
        assert(s@ =~= database_url_spec(user@, password@, host@, name@));
    }
    s
}

} // verus!
