use vstd::prelude::*;
use vstd::string::*;
use crate::error::{CookieHeaderError, Error};

verus! {

/// The name of the cookie that carries the session token.
pub open spec fn session_cookie_name() -> Seq<char> {
    seq!['P', 'H', 'P', 'S', 'E', 'S', 'S', 'I', 'D']
}

/// The name and the value that a `Set-Cookie` header value parses to, names
/// and values percent-decoded; `None` if it does not parse.
pub uninterp spec fn parsed_cookie(header: Seq<char>) -> Option<(Seq<char>, Seq<char>)>;

/// Relies on `cookie::Cookie::parse_encoded`, with `Cookie::name` and
/// `Cookie::value`: the result depends on the header text alone.
#[verifier::external_body]
fn parse_set_cookie(header: &str) -> (r: Option<(String, String)>)
    ensures
        match r {
            Some((n, v)) => parsed_cookie(header@) == Some((n@, v@)),
            None => parsed_cookie(header@) is None,
        },
{
    match cookie::Cookie::parse_encoded(header) {
        Ok(c) => Some((c.name().to_string(), c.value().to_string())),
        Err(_) => None,
    }
}

/// Relies on `cookie::Cookie::new` and its `Display`: a new cookie without
/// attributes is written as `name=value`, without encoding.
#[verifier::external_body]
fn cookie_pair(name: &str, value: &str) -> (r: String)
    ensures
        r@ == name@ + seq!['='] + value@,
{
    cookie::Cookie::new(name.to_owned(), value.to_owned()).to_string()
}

/// The first session token among the `Set-Cookie` header values of the
/// bootstrap response, from index `i` on. A value that is not valid text
/// (`None`) or does not parse is passed over, and so is a session cookie
/// with an empty value.
pub open spec fn session_from(headers: Seq<Option<String>>, i: int) -> Option<Seq<char>>
    decreases headers.len() - i,
{
    if i < 0 || i >= headers.len() {
        None
    } else {
        match headers[i] {
            Some(h) => match parsed_cookie(h@) {
                Some((n, v)) => if n == session_cookie_name() && v.len() > 0 {
                    Some(v)
                } else {
                    session_from(headers, i + 1)
                },
                None => session_from(headers, i + 1),
            },
            None => session_from(headers, i + 1),
        }
    }
}

fn is_session_name(s: &String) -> (r: bool)
    ensures
        r == (s@ == session_cookie_name()),
{
    let name = String::from_str("PHPSESSID");
    proof {
        reveal_strlit("PHPSESSID");
    }
    assert(name@ =~= session_cookie_name());
    *s == name
}

/// Takes the session token from the bootstrap response's `Set-Cookie`
/// header values.
pub fn session_token(headers: &Vec<Option<String>>) -> (r: Result<String, Error>)
    ensures
        r is Ok <==> session_from(headers@, 0) is Some,
        r is Ok ==> r->Ok_0@ == session_from(headers@, 0)->0,
        r is Ok ==> r->Ok_0@.len() > 0,
        r is Err ==> r->Err_0 == Error::Cookie(CookieHeaderError::MissingCookie),
{
    let mut i: usize = 0;
    while i < headers.len()
        invariant
            i <= headers.len(),
            session_from(headers@, 0) == session_from(headers@, i as int),
        decreases headers.len() - i,
    {
        match &headers[i] {
            Some(h) => {
                match parse_set_cookie(h.as_str()) {
                    Some((n, v)) => {
                        if is_session_name(&n) && v.as_str().unicode_len() > 0 {
                            return Ok(v);
                        }
                    },
                    None => {},
                }
            },
            None => {},
        }
        i = i + 1;
    }
    Err(Error::Cookie(CookieHeaderError::MissingCookie))
}

/// The `Cookie` header value that carries a session token.
pub fn session_cookie_header(token: &str) -> (r: String)
    ensures
        r@ == session_cookie_name() + seq!['='] + token@,
{
    proof {
        reveal_strlit("PHPSESSID");
    }
    let r = cookie_pair("PHPSESSID", token);
    assert("PHPSESSID"@ =~= session_cookie_name());
    r
}

} // verus!
