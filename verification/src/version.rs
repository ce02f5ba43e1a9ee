//! The protocol versions that a request line can name.

use vstd::prelude::*;
use crate::text::text_eq;

verus! {

/// The protocol version of a request.
#[derive(Clone, Copy, Debug, PartialEq, Eq, Structural)]
pub enum HttpVersion {
    /// HTTP/0.9, also assumed where the request names no known version.
    Http09,
    /// HTTP/1.0.
    Http10,
    /// HTTP/1.1.
    Http11,
    /// HTTP/2.0.
    Http20,
    /// HTTP/3.0.
    Http30,
}

/// The version that the token `name` of a request line stands for.
pub open spec fn version_named(name: Seq<char>) -> HttpVersion {
    if name == "HTTP/3.0"@ {
        HttpVersion::Http30
    } else if name == "HTTP/2.0"@ {
        HttpVersion::Http20
    } else if name == "HTTP/1.1"@ {
        HttpVersion::Http11
    } else if name == "HTTP/1.0"@ {
        HttpVersion::Http10
    } else {
        HttpVersion::Http09
    }
}

impl HttpVersion {
    /// The version as a status line writes it: the version number in its
    /// shortest form, so `1` for 1.0 and `1.1` for 1.1.
    pub open spec fn label(self) -> Seq<char> {
        match self {
            HttpVersion::Http09 => "0.9"@,
            HttpVersion::Http10 => "1"@,
            HttpVersion::Http11 => "1.1"@,
            HttpVersion::Http20 => "2"@,
            HttpVersion::Http30 => "3"@,
        }
    }

    /// The version that the token `name` of a request line stands for.
    pub fn named(name: &str) -> (r: HttpVersion)
        ensures
            r == version_named(name@),
    {
        if text_eq(name, "HTTP/3.0") {
            HttpVersion::Http30
        } else if text_eq(name, "HTTP/2.0") {
            HttpVersion::Http20
        } else if text_eq(name, "HTTP/1.1") {
            HttpVersion::Http11
        } else if text_eq(name, "HTTP/1.0") {
            HttpVersion::Http10
        } else {
            HttpVersion::Http09
        }
    }

    /// The version as a status line writes it.
    pub fn text(&self) -> (r: &'static str)
        ensures
            r@ == self.label(),
    {
        match self {
            HttpVersion::Http09 => "0.9",
            HttpVersion::Http10 => "1",
            HttpVersion::Http11 => "1.1",
            HttpVersion::Http20 => "2",
            HttpVersion::Http30 => "3",
        }
    }
}

} // verus!
