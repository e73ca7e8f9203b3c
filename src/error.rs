use vstd::prelude::*;

verus! {

/// A piece of markup that extraction expects to find in a fetched page.
#[derive(Debug, Clone, Copy, PartialEq, Eq, Structural)]
pub enum Element {
    /// The "X-Y/Z" pagination summary of a listing page.
    CountSummary,
    /// The entry list of a listing page.
    EntryList,
    /// The anchor of one entry of a listing page.
    EntryAnchor,
    /// The container of a word's definition body.
    Definition,
}

/// Why the session cookie could not be taken from the bootstrap response.
#[derive(Debug, Clone, Copy, PartialEq, Eq, Structural)]
pub enum CookieHeaderError {
    /// A `Set-Cookie` header did not parse as a cookie.
    InvalidCookie,
    /// A `Set-Cookie` header was not valid visible text.
    InvalidString,
    /// No cookie carried the session identifier.
    MissingCookie,
}

/// Everything that can go wrong while fetching and extracting a page.
#[derive(Debug, Clone, Copy, PartialEq, Eq, Structural)]
pub enum Error {
    /// The request could not be built or the protocol failed.
    Http,
    /// The transport failed (connection, timeout).
    Isahc,
    /// Reading the response body failed.
    Io,
    /// The session cookie could not be obtained.
    Cookie(CookieHeaderError),
    /// The body is not valid text.
    String,
    /// Expected markup is absent.
    MissingElement(Element),
    /// Markup is present but its text has not the expected shape.
    Malformed(Element),
}

/// An error together with the decision whether retrying may help.
#[derive(Debug, Clone, Copy, PartialEq, Eq, Structural)]
pub enum Classified {
    Transient(Error),
    Permanent(Error),
}

/// Network, protocol and I/O failures are worth retrying; markup mismatches,
/// encoding problems and a missing session are not.
pub open spec fn is_transient_spec(e: Error) -> bool {
    match e {
        Error::Http | Error::Isahc | Error::Io => true,
        _ => false,
    }
}

impl Error {
    pub fn is_transient(&self) -> (r: bool)
        ensures
            r == is_transient_spec(*self),
    {
        match self {
            Error::Http | Error::Isahc | Error::Io => true,
            _ => false,
        }
    }

    /// Tags the error as transient or permanent.
    pub fn into_backoff_error(self) -> (r: Classified)
        ensures
            is_transient_spec(self) ==> r == Classified::Transient(self),
            !is_transient_spec(self) ==> r == Classified::Permanent(self),
    {
        if self.is_transient() {
            Classified::Transient(self)
        } else {
            Classified::Permanent(self)
        }
    }
}

pub open spec fn classified_error(c: Classified) -> Error {
    match c {
        Classified::Transient(e) => e,
        Classified::Permanent(e) => e,
    }
}

impl From<Classified> for Error {
    fn from(c: Classified) -> (r: Error)
        ensures
            r == classified_error(c),
    {
        match c {
            Classified::Transient(e) => e,
            Classified::Permanent(e) => e,
        }
    }
}

impl vstd::std_specs::convert::FromSpecImpl<Classified> for Error {
    open spec fn obeys_from_spec() -> bool {
        true
    }

    open spec fn from_spec(c: Classified) -> Error {
        classified_error(c)
    }
}

impl From<CookieHeaderError> for Error {
    fn from(c: CookieHeaderError) -> (r: Error)
        ensures
            r == Error::Cookie(c),
    {
        Error::Cookie(c)
    }
}

impl vstd::std_specs::convert::FromSpecImpl<CookieHeaderError> for Error {
    open spec fn obeys_from_spec() -> bool {
        true
    }

    open spec fn from_spec(c: CookieHeaderError) -> Error {
        Error::Cookie(c)
    }
}

} // verus!
