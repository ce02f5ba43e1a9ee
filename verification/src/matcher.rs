//! Matching a request path against a registered path pattern.
//!
//! A path and a pattern are compared segment by segment, a segment being a
//! maximal run of characters other than `/`. A pattern segment that starts
//! with `:` is dynamic: it accepts any segment and binds it to a parameter
//! named by the segment without its colons. Any other pattern segment
//! accepts only itself.

use vstd::prelude::*;
use crate::pairs::{lookup, put, set_vec, law_set_then_get, Pairs};
use crate::text::{
    fields, lemma_fields, lowercase, push_char, remove_char, same_key, scan, split_fields,
    starts_with, text_eq, to_lowercase, unbroken, without, Delimiter,
};

verus! {

/// The segments of a path or of a pattern.
pub open spec fn segments(path: Seq<char>) -> Seq<Seq<char>> {
    fields(path, Delimiter::Char('/'))
}

/// Whether a pattern segment binds a parameter.
pub open spec fn is_dynamic(segment: Seq<char>) -> bool {
    segment.len() > 0 && segment[0] == ':'
}

/// The name of the parameter that a dynamic segment binds.
pub open spec fn parameter_name(segment: Seq<char>) -> Seq<char> {
    without(segment, ':')
}

/// Whether a pattern segment accepts a segment of the path.
pub open spec fn accepts(pattern: Seq<char>, actual: Seq<char>) -> bool {
    is_dynamic(pattern) || pattern == actual
}

/// The pattern as its first `n` segments rebuild it: for each of them that
/// accepts the path's segment at the same position, `/` and the segment.
pub open spec fn rebuilt(pattern: Seq<Seq<char>>, actual: Seq<Seq<char>>, n: nat) -> Seq<char>
    decreases n,
{
    if n == 0 {
        Seq::empty()
    } else {
        let rest = rebuilt(pattern, actual, (n - 1) as nat);
        if accepts(pattern[n - 1], actual[n - 1]) {
            rest.push('/') + pattern[n - 1]
        } else {
            rest
        }
    }
}

/// The parameters that the first `n` segments of the pattern bind: each
/// dynamic segment sets its name to the path's segment at the same position.
pub open spec fn bindings(pattern: Seq<Seq<char>>, actual: Seq<Seq<char>>, n: nat) -> Seq<
    (Seq<char>, Seq<char>),
>
    decreases n,
{
    if n == 0 {
        Seq::empty()
    } else {
        let rest = bindings(pattern, actual, (n - 1) as nat);
        if is_dynamic(pattern[n - 1]) {
            put(rest, parameter_name(pattern[n - 1]), actual[n - 1])
        } else {
            rest
        }
    }
}

/// Whether `path` matches `pattern`, segment by segment.
///
/// It does when both have the same number of segments and the pattern,
/// rebuilt from the segments that accept their counterpart, is the pattern
/// as it was written.
pub open spec fn matches_pattern(path: Seq<char>, pattern: Seq<char>) -> bool {
    let actual = segments(path);
    let wanted = segments(pattern);
    actual.len() == wanted.len() && rebuilt(wanted, actual, wanted.len()) == pattern
}

/// The parameters that `pattern` binds in `path`; none where they do not
/// match.
pub open spec fn pattern_parameters(path: Seq<char>, pattern: Seq<char>) -> Seq<
    (Seq<char>, Seq<char>),
> {
    if matches_pattern(path, pattern) {
        bindings(segments(pattern), segments(path), segments(pattern).len())
    } else {
        Seq::empty()
    }
}

/// Whether a request path matches a registered pattern.
///
/// The pattern counts in lowercase. The path matches when it matches the
/// pattern segment by segment, or when its own lowercase form is the
/// pattern's, letter for letter.
pub open spec fn route_found(path: Seq<char>, pattern: Seq<char>) -> bool {
    matches_pattern(path, lowercase(pattern)) || lowercase(path) == lowercase(pattern)
}

/// The parameters that a registered pattern binds in a request path.
pub open spec fn route_parameters(path: Seq<char>, pattern: Seq<char>) -> Seq<
    (Seq<char>, Seq<char>),
> {
    pattern_parameters(path, lowercase(pattern))
}

/// The outcome of matching a path against a pattern segment by segment.
#[derive(Debug)]
pub struct IsFind {
    /// Whether the path matches.
    pub find: bool,
    /// The parameters bound by the pattern's dynamic segments.
    pub param: Pairs,
}

/// The outcome of matching a request path against a registered pattern.
#[derive(Debug)]
pub struct IsFound {
    /// Whether the path matches.
    pub found: bool,
    /// The pattern in lowercase where the path matches, else empty.
    pub path: String,
    /// The parameters bound by the pattern's dynamic segments.
    pub params: Pairs,
}

/// Matches `path` against `callback_path` segment by segment.
pub fn find_callback(path: &str, callback_path: &str) -> (r: IsFind)
    ensures
        r.find == matches_pattern(path@, callback_path@),
        r.param@ == pattern_parameters(path@, callback_path@),
{
    let actual = split_fields(path, Delimiter::Char('/'));
    let wanted = split_fields(callback_path, Delimiter::Char('/'));
    if wanted.len() != actual.len() {
        return IsFind { find: false, param: Pairs::new() };
    }
    let n: usize = wanted.len();
    let mut prepare_path = String::new();
    let mut param = Pairs::new();
    let mut i: usize = 0;
    while i < n
        invariant
            n == wanted@.len(),
            n == actual@.len(),
            wanted.deep_view() == segments(callback_path@),
            actual.deep_view() == segments(path@),
            i <= n,
            prepare_path@ == rebuilt(wanted.deep_view(), actual.deep_view(), i as nat),
            param@ == bindings(wanted.deep_view(), actual.deep_view(), i as nat),
        decreases n - i,
    {
        let element = wanted[i].as_str();
        assert(wanted.deep_view()[i as int] == element@);
        assert(actual.deep_view()[i as int] == actual@[i as int]@);
        if starts_with(element, ':') {
            push_char(&mut prepare_path, '/');
            prepare_path.append(element);
            param = set_vec(&param, remove_char(element, ':'), actual[i].clone());
        } else if wanted[i] == actual[i] {
            push_char(&mut prepare_path, '/');
            prepare_path.append(element);
        }
        i += 1;
    }
    if text_eq(prepare_path.as_str(), callback_path) {
        IsFind { find: true, param }
    } else {
        IsFind { find: false, param: Pairs::new() }
    }
}

/// Matches the request path `path` against the registered pattern
/// `path_curr`.
pub fn found_callback(path: &str, path_curr: &str) -> (r: IsFound)
    ensures
        r.found == route_found(path@, path_curr@),
        r.params@ == route_parameters(path@, path_curr@),
        r.path@ == if r.found {
            lowercase(path_curr@)
        } else {
            Seq::empty()
        },
{
    let pattern = to_lowercase(path_curr);
    let matched = find_callback(path, pattern.as_str());
    if matched.find {
        IsFound { found: true, path: pattern, params: matched.param }
    } else if to_lowercase(path) == pattern {
        IsFound { found: true, path: pattern, params: matched.param }
    } else {
        IsFound { found: false, path: String::new(), params: matched.param }
    }
}

/// A path whose number of segments differs from the pattern's never matches
/// it.
pub proof fn law_segment_count(path: Seq<char>, pattern: Seq<char>)
    requires
        segments(path).len() != segments(pattern).len(),
    ensures
        !matches_pattern(path, pattern),
        pattern_parameters(path, pattern).len() == 0,
{
}

/// The parameter that a dynamic segment binds, among the first `n` segments,
/// where no later one of them binds the same name.
pub proof fn lemma_bindings(pattern: Seq<Seq<char>>, actual: Seq<Seq<char>>, n: nat, i: int)
    requires
        0 <= i < n,
        is_dynamic(pattern[i]),
        forall|j: int|
            i < j < n && is_dynamic(#[trigger] pattern[j]) ==> !same_key(
                parameter_name(pattern[j]),
                parameter_name(pattern[i]),
            ),
    ensures
        lookup(bindings(pattern, actual, n), parameter_name(pattern[i])) == Some(actual[i]),
    decreases n,
{
    let rest = bindings(pattern, actual, (n - 1) as nat);
    let name = parameter_name(pattern[i]);
    if i == n - 1 {
        law_set_then_get(rest, name, actual[i], name);
    } else {
        lemma_bindings(pattern, actual, (n - 1) as nat, i);
        if is_dynamic(pattern[n - 1]) {
            law_set_then_get(rest, parameter_name(pattern[n - 1]), actual[n - 1], name);
        }
    }
}

/// Where a path matches a pattern, each dynamic segment of the pattern binds
/// its name to the segment that the path has at the same position, as the
/// path spells it. Where several dynamic segments bind the same name, the
/// last of them does.
pub proof fn law_dynamic_binding(path: Seq<char>, pattern: Seq<char>, i: int)
    requires
        matches_pattern(path, pattern),
        0 <= i < segments(pattern).len(),
        is_dynamic(segments(pattern)[i]),
        forall|j: int|
            i < j < segments(pattern).len() && is_dynamic(#[trigger] segments(pattern)[j])
                ==> !same_key(
                parameter_name(segments(pattern)[j]),
                parameter_name(segments(pattern)[i]),
            ),
    ensures
        segments(path).len() == segments(pattern).len(),
        lookup(pattern_parameters(path, pattern), parameter_name(segments(pattern)[i])) == Some(
            segments(path)[i],
        ),
{
    lemma_bindings(segments(pattern), segments(path), segments(pattern).len(), i);
}

/// A path that equals a pattern but for letter case matches it.
pub proof fn law_static_match(path: Seq<char>, pattern: Seq<char>)
    requires
        lowercase(path) == lowercase(pattern),
    ensures
        route_found(path, pattern),
{
}

/// The pattern that the segments `wanted` spell: for each of them, `/` and
/// the segment.
pub open spec fn written(wanted: Seq<Seq<char>>) -> Seq<char>
    decreases wanted.len(),
{
    if wanted.len() == 0 {
        Seq::empty()
    } else {
        written(wanted.drop_last()).push('/') + wanted.last()
    }
}

/// Whether each of the first `n` segments of the pattern accepts the path's
/// segment at the same position.
pub open spec fn all_accept(pattern: Seq<Seq<char>>, actual: Seq<Seq<char>>, n: nat) -> bool {
    forall|i: int| 0 <= i < n ==> accepts(#[trigger] pattern[i], actual[i])
}

/// The number of characters of `s` other than `/`.
pub open spec fn letters(s: Seq<char>) -> nat
    decreases s.len(),
{
    if s.len() == 0 {
        0
    } else if s.last() == '/' {
        letters(s.drop_last())
    } else {
        letters(s.drop_last()) + 1
    }
}

/// The number of characters in all of `parts`.
pub open spec fn total(parts: Seq<Seq<char>>) -> nat
    decreases parts.len(),
{
    if parts.len() == 0 {
        0
    } else {
        total(parts.drop_last()) + parts.last().len()
    }
}

/// The characters other than `/` of a text in two parts are those of the
/// parts.
proof fn lemma_letters_add(a: Seq<char>, b: Seq<char>)
    ensures
        letters(a + b) == letters(a) + letters(b),
    decreases b.len(),
{
    if b.len() == 0 {
        assert(a + b == a);
    } else {
        assert((a + b).drop_last() == a + b.drop_last());
        assert((a + b).last() == b.last());
        lemma_letters_add(a, b.drop_last());
    }
}

/// In a text without `/` every character counts.
proof fn lemma_letters_unbroken(t: Seq<char>)
    requires
        unbroken(t, Delimiter::Char('/')),
    ensures
        letters(t) == t.len(),
    decreases t.len(),
{
    if t.len() > 0 {
        let u = t.drop_last();
        assert forall|j: int| 0 <= j < u.len() implies !Delimiter::Char('/').separates(
            #[trigger] u[j],
        ) by {
            assert(u[j] == t[j]);
        }
        lemma_letters_unbroken(u);
        assert(!Delimiter::Char('/').separates(t[t.len() - 1]));
    }
}

/// A text has as many characters other than `/` as the segments read from
/// it, complete or open, have characters.
proof fn lemma_letters_scan(s: Seq<char>)
    ensures
        letters(s) == total(scan(s, Delimiter::Char('/')).0) + scan(s, Delimiter::Char('/')).1.len(),
    decreases s.len(),
{
    if s.len() > 0 {
        lemma_letters_scan(s.drop_last());
        let (done, open) = scan(s.drop_last(), Delimiter::Char('/'));
        if s.last() == '/' && open.len() > 0 {
            assert(done.push(open).drop_last() == done);
        }
    }
}

/// A text has as many characters other than `/` as its segments have
/// characters.
proof fn lemma_letters_segments(s: Seq<char>)
    ensures
        letters(s) == total(segments(s)),
{
    lemma_letters_scan(s);
    let (done, open) = scan(s, Delimiter::Char('/'));
    if open.len() > 0 {
        assert(done.push(open).drop_last() == done);
    }
}

/// What the first `n` segments rebuild: the pattern that they spell where
/// each accepts its counterpart, and a text with fewer characters than they
/// have where one does not.
proof fn lemma_rebuilt(pattern: Seq<Seq<char>>, actual: Seq<Seq<char>>, n: nat)
    requires
        n <= pattern.len(),
        forall|i: int|
            0 <= i < pattern.len() ==> (#[trigger] pattern[i]).len() > 0 && unbroken(
                pattern[i],
                Delimiter::Char('/'),
            ),
    ensures
        all_accept(pattern, actual, n) ==> rebuilt(pattern, actual, n) == written(
            pattern.take(n as int),
        ),
        all_accept(pattern, actual, n) ==> letters(rebuilt(pattern, actual, n)) == total(
            pattern.take(n as int),
        ),
        !all_accept(pattern, actual, n) ==> letters(rebuilt(pattern, actual, n)) < total(
            pattern.take(n as int),
        ),
    decreases n,
{
    if n > 0 {
        let m = (n - 1) as nat;
        lemma_rebuilt(pattern, actual, m);
        let rest = rebuilt(pattern, actual, m);
        let segment = pattern[n - 1];
        assert(pattern.take(n as int).drop_last() == pattern.take(m as int));
        assert(pattern.take(n as int).last() == segment);
        lemma_letters_unbroken(segment);
        if accepts(segment, actual[n - 1]) {
            lemma_letters_add(rest.push('/'), segment);
            assert(rest.push('/').drop_last() == rest);
            if all_accept(pattern, actual, m) {
                assert(all_accept(pattern, actual, n));
            } else {
                assert(!all_accept(pattern, actual, n));
            }
        } else {
            assert(!all_accept(pattern, actual, n));
            if all_accept(pattern, actual, m) {
            }
        }
    }
}

/// What matching means: a path matches a pattern exactly when they have the
/// same number of segments, each segment of the pattern accepts the path's
/// segment at the same position, and the pattern is written the plain way,
/// as `/` and a segment for each of its segments.
pub proof fn law_match_means(path: Seq<char>, pattern: Seq<char>)
    ensures
        matches_pattern(path, pattern) <==> (segments(path).len() == segments(pattern).len()
            && all_accept(segments(pattern), segments(path), segments(pattern).len())
            && pattern == written(segments(pattern))),
{
    let wanted = segments(pattern);
    let actual = segments(path);
    lemma_fields(pattern, Delimiter::Char('/'));
    lemma_rebuilt(wanted, actual, wanted.len());
    lemma_letters_segments(pattern);
    assert(wanted.take(wanted.len() as int) == wanted);
}

} // verus!
