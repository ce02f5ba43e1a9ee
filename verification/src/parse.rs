//! Reading a request: the request line, the header lines and the query
//! string.
//!
//! The raw text of a request is its request line, up to the first line feed,
//! followed by header lines. The extractors below read the same text
//! independently of each other. A carriage return before a line feed needs
//! no care of its own: it is whitespace, and lines are read token by token.

use vstd::prelude::*;
use crate::pairs::{put, set_vec, Pairs};
use crate::text::{
    after, before, fields, join, join_from, lowercase, split_fields, split_once, strip_trailing,
    to_lowercase, without_trailing, Delimiter,
};
use crate::version::{version_named, HttpVersion};

verus! {

/// The whitespace-separated tokens of the request line of `text`.
pub open spec fn request_tokens(text: Seq<char>) -> Seq<Seq<char>> {
    fields(before(text, '\n'), Delimiter::Whitespace)
}

/// The method of the request: the first token of its request line, or the
/// empty text where the line has none.
pub open spec fn method_of(text: Seq<char>) -> Seq<char> {
    if request_tokens(text).len() > 0 {
        request_tokens(text)[0]
    } else {
        Seq::empty()
    }
}

/// The target of the request: the second token of its request line, or `/`
/// where the line has none.
pub open spec fn target_of(text: Seq<char>) -> Seq<char> {
    if request_tokens(text).len() > 1 {
        request_tokens(text)[1]
    } else {
        "/"@
    }
}

/// The version of the request: the one that the third token of its request
/// line names, or HTTP/0.9 where the line has none.
pub open spec fn version_of(text: Seq<char>) -> HttpVersion {
    if request_tokens(text).len() > 2 {
        version_named(request_tokens(text)[2])
    } else {
        HttpVersion::Http09
    }
}

/// The entry that a header line gives, if any.
///
/// The key is the line's first token without a trailing colon, in
/// lowercase; the value is the remaining tokens with one space between
/// neighbours. A line without tokens or with an empty key gives nothing.
pub open spec fn header_entry(line: Seq<char>) -> Option<(Seq<char>, Seq<char>)> {
    let tokens = fields(line, Delimiter::Whitespace);
    if tokens.len() == 0 {
        None
    } else {
        let key = lowercase(without_trailing(tokens[0], ':'));
        if key.len() == 0 {
            None
        } else {
            Some((key, join(tokens.skip(1), ' ')))
        }
    }
}

/// The entries that `lines` give, each set in turn, so that of two lines
/// with the same key the later one stays.
pub open spec fn collect_headers(lines: Seq<Seq<char>>) -> Seq<(Seq<char>, Seq<char>)>
    decreases lines.len(),
{
    if lines.len() == 0 {
        Seq::empty()
    } else {
        let rest = collect_headers(lines.drop_last());
        match header_entry(lines.last()) {
            Some((key, value)) => put(rest, key, value),
            None => rest,
        }
    }
}

/// The headers of the request `text`: what the lines after its request line
/// give.
pub open spec fn header_entries(text: Seq<char>) -> Seq<(Seq<char>, Seq<char>)> {
    collect_headers(fields(after(text, '\n'), Delimiter::Char('\n')))
}

/// The entry that one piece of a query string gives, if any.
///
/// The key is the part before the first `=`, the value the part after it,
/// further `=` included. A piece with an empty key gives nothing.
pub open spec fn query_entry(piece: Seq<char>) -> Option<(Seq<char>, Seq<char>)> {
    if before(piece, '=').len() == 0 {
        None
    } else {
        Some((before(piece, '='), after(piece, '=')))
    }
}

/// The entries that `pieces` give, each set in turn.
pub open spec fn collect_query(pieces: Seq<Seq<char>>) -> Seq<(Seq<char>, Seq<char>)>
    decreases pieces.len(),
{
    if pieces.len() == 0 {
        Seq::empty()
    } else {
        let rest = collect_query(pieces.drop_last());
        match query_entry(pieces.last()) {
            Some((key, value)) => put(rest, key, value),
            None => rest,
        }
    }
}

/// The parameters of the query string `query`: what its pieces between `&`
/// give.
pub open spec fn query_entries(query: Seq<char>) -> Seq<(Seq<char>, Seq<char>)> {
    collect_query(fields(query, Delimiter::Char('&')))
}

/// The tokens of the request line of `header`.
fn tokens_of(header: &str) -> (r: Vec<String>)
    ensures
        r.deep_view() == request_tokens(header@),
{
    let (line, _) = split_once(header, '\n');
    split_fields(line.as_str(), Delimiter::Whitespace)
}

/// The method of the request `header`.
pub fn parse_method(header: &str) -> (r: String)
    ensures
        r@ == method_of(header@),
{
    let tokens = tokens_of(header);
    if tokens.len() > 0 {
        assert(tokens.deep_view()[0] == tokens@[0]@);
        tokens[0].clone()
    } else {
        String::new()
    }
}

/// The target of the request `header`, then the target's path and query
/// string: the parts before and after its first `?`.
pub fn parse_path(header: &str) -> (r: (String, String, String))
    ensures
        r.0@ == target_of(header@),
        r.1@ == before(target_of(header@), '?'),
        r.2@ == after(target_of(header@), '?'),
{
    let tokens = tokens_of(header);
    let url = if tokens.len() > 1 {
        assert(tokens.deep_view()[1] == tokens@[1]@);
        tokens[1].clone()
    } else {
        "/".to_owned()
    };
    let (path, query) = split_once(url.as_str(), '?');
    (url, path, query)
}

/// The version of the request `header`.
pub fn parse_http_version(header: &str) -> (r: HttpVersion)
    ensures
        r == version_of(header@),
{
    let tokens = tokens_of(header);
    if tokens.len() > 2 {
        assert(tokens.deep_view()[2] == tokens@[2]@);
        HttpVersion::named(tokens[2].as_str())
    } else {
        HttpVersion::Http09
    }
}

/// The headers of the request `header`.
pub fn parse(header: &str) -> (r: Pairs)
    ensures
        r@ == header_entries(header@),
{
    let (_, rest) = split_once(header, '\n');
    let lines = split_fields(rest.as_str(), Delimiter::Char('\n'));
    let n: usize = lines.len();
    let mut headers = Pairs::new();
    let mut i: usize = 0;
    while i < n
        invariant
            n == lines@.len(),
            i <= n,
            headers@ == collect_headers(lines.deep_view().take(i as int)),
        decreases n - i,
    {
        assert(lines.deep_view().take(i + 1).drop_last() == lines.deep_view().take(i as int));
        assert(lines.deep_view().take(i + 1).last() == lines@[i as int]@);
        let tokens = split_fields(lines[i].as_str(), Delimiter::Whitespace);
        if tokens.len() > 0 {
            assert(tokens.deep_view()[0] == tokens@[0]@);
            let name = strip_trailing(tokens[0].as_str(), ':');
            let key = to_lowercase(name.as_str());
            if !key.as_str().is_empty() {
                let value = join_from(&tokens, 1, ' ');
                headers = set_vec(&headers, key, value);
            }
        }
        i += 1;
    }
    assert(lines.deep_view().take(n as int) == lines.deep_view());
    headers
}

/// The parameters of the query string `query`.
pub fn parse_query(query: &str) -> (r: Pairs)
    ensures
        r@ == query_entries(query@),
{
    let pieces = split_fields(query, Delimiter::Char('&'));
    let n: usize = pieces.len();
    let mut parameters = Pairs::new();
    let mut i: usize = 0;
    while i < n
        invariant
            n == pieces@.len(),
            i <= n,
            parameters@ == collect_query(pieces.deep_view().take(i as int)),
        decreases n - i,
    {
        assert(pieces.deep_view().take(i + 1).drop_last() == pieces.deep_view().take(i as int));
        assert(pieces.deep_view().take(i + 1).last() == pieces@[i as int]@);
        let (key, value) = split_once(pieces[i].as_str(), '=');
        if !key.as_str().is_empty() {
            parameters = set_vec(&parameters, key, value);
        }
        i += 1;
    }
    assert(pieces.deep_view().take(n as int) == pieces.deep_view());
    parameters
}

} // verus!
