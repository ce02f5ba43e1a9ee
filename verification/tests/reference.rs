//! The library against plain renderings of the same rules with the standard
//! library, on every short text over a small alphabet.

use oxidy::matcher::{find_callback, found_callback};
use oxidy::pairs::Pairs;
use oxidy::parse::{parse, parse_http_version, parse_method, parse_path, parse_query};
use oxidy::server::route_patterns;
use oxidy::text::{split_fields, split_once, Delimiter};
use oxidy::version::HttpVersion;

/// Every text of at most `max` characters of `alphabet`.
fn texts(alphabet: &[char], max: usize) -> Vec<String> {
    let mut all = vec![String::new()];
    let mut last = vec![String::new()];
    for _ in 0..max {
        let mut next = Vec::new();
        for t in &last {
            for c in alphabet {
                let mut longer = t.clone();
                longer.push(*c);
                next.push(longer);
            }
        }
        all.extend(next.iter().cloned());
        last = next;
    }
    all
}

fn entries(p: &Pairs) -> Vec<(String, String)> {
    let mut out = Vec::new();
    let mut i = 0;
    while let Some((k, v)) = p.entry(i) {
        out.push((k.to_string(), v.to_string()));
        i += 1;
    }
    out
}

/// Sets `key` to `value` in a plain list.
fn set(list: &mut Vec<(String, String)>, key: String, value: String) {
    list.retain(|(k, _)| k.to_lowercase() != key.to_lowercase());
    list.push((key, value));
}

fn segments(path: &str) -> Vec<&str> {
    path.split('/').filter(|s| !s.is_empty()).collect()
}

/// Matching by the book: the outcome and the parameters.
fn matched(path: &str, pattern: &str) -> (bool, Vec<(String, String)>) {
    let actual = segments(path);
    let wanted = segments(pattern);
    if actual.len() != wanted.len() {
        return (false, Vec::new());
    }
    let mut rebuilt = String::new();
    let mut params = Vec::new();
    for (w, a) in wanted.iter().zip(actual.iter()) {
        if w.starts_with(':') {
            rebuilt.push('/');
            rebuilt.push_str(w);
            set(&mut params, w.replace(':', ""), a.to_string());
        } else if w == a {
            rebuilt.push('/');
            rebuilt.push_str(w);
        }
    }
    if rebuilt == pattern {
        (true, params)
    } else {
        (false, Vec::new())
    }
}

#[test]
fn matching_agrees_with_the_rules() {
    let all = texts(&['/', 'a', 'B', ':'], 4);
    for path in &all {
        for pattern in &all {
            let expected = matched(path, pattern);
            let got = find_callback(path, pattern);
            assert_eq!(got.find, expected.0, "{:?} against {:?}", path, pattern);
            assert_eq!(entries(&got.param), expected.1, "{:?} against {:?}", path, pattern);
        }
    }
}

#[test]
fn a_match_is_a_plain_pattern_whose_segments_all_accept() {
    let all = texts(&['/', 'a', 'b', ':'], 4);
    for path in &all {
        for pattern in &all {
            let actual = segments(path);
            let wanted = segments(pattern);
            let plain: String = wanted.iter().map(|s| format!("/{}", s)).collect();
            let expected = actual.len() == wanted.len()
                && wanted.iter().zip(actual.iter()).all(|(w, a)| w.starts_with(':') || w == a)
                && *pattern == plain;
            assert_eq!(find_callback(path, pattern).find, expected, "{:?} against {:?}", path, pattern);
        }
    }
}

#[test]
fn route_matching_agrees_with_the_rules() {
    let all = texts(&['/', 'a', 'A', ':'], 4);
    for path in &all {
        for pattern in &all {
            let lowered = pattern.to_lowercase();
            let (found, params) = matched(path, &lowered);
            let expected = found || path.to_lowercase() == lowered;
            let got = found_callback(path, pattern);
            assert_eq!(got.found, expected, "{:?} against {:?}", path, pattern);
            assert_eq!(entries(&got.params), params, "{:?} against {:?}", path, pattern);
            assert_eq!(got.path, if expected { lowered } else { String::new() });
        }
    }
}

#[test]
fn fields_agree_with_split_and_filter() {
    for s in texts(&['/', 'a', ' ', '\n'], 6) {
        let by_slash: Vec<String> =
            s.split('/').filter(|p| !p.is_empty()).map(|p| p.to_string()).collect();
        assert_eq!(split_fields(&s, Delimiter::Char('/')), by_slash, "{:?}", s);
        let by_space: Vec<String> = s.split_whitespace().map(|p| p.to_string()).collect();
        assert_eq!(split_fields(&s, Delimiter::Whitespace), by_space, "{:?}", s);
        let (head, tail) = match s.split_once('/') {
            Some((h, t)) => (h.to_string(), t.to_string()),
            None => (s.clone(), String::new()),
        };
        assert_eq!(split_once(&s, '/'), (head, tail), "{:?}", s);
    }
}

#[test]
fn the_request_line_agrees_with_lines_and_tokens() {
    for s in texts(&[' ', '\n', '\r', 'a', '?'], 6) {
        let line = s.lines().next().unwrap_or("");
        let tokens: Vec<&str> = line.split_whitespace().collect();
        let method = tokens.first().copied().unwrap_or("");
        assert_eq!(parse_method(&s), method, "{:?}", s);
        let url = tokens.get(1).copied().unwrap_or("/");
        let (path, query) = url.split_once('?').unwrap_or((url, ""));
        assert_eq!(
            parse_path(&s),
            (url.to_string(), path.to_string(), query.to_string()),
            "{:?}",
            s
        );
        assert_eq!(parse_http_version(&s), HttpVersion::Http09);
        let patterns = route_patterns(&s);
        let words: Vec<&str> = s.split_whitespace().collect();
        assert_eq!(patterns.0, words.first().copied().unwrap_or("*"));
        assert_eq!(patterns.1, words.get(1).copied().unwrap_or("*"));
    }
}

#[test]
fn headers_agree_with_lines_and_tokens() {
    for s in texts(&[' ', '\n', '\r', 'a', 'B', ':'], 6) {
        let mut expected = Vec::new();
        for line in s.lines().skip(1) {
            let tokens: Vec<&str> = line.split_whitespace().collect();
            if tokens.is_empty() {
                continue;
            }
            let name = tokens[0].strip_suffix(':').unwrap_or(tokens[0]);
            let key = name.to_lowercase();
            if key.is_empty() {
                continue;
            }
            set(&mut expected, key, tokens[1..].join(" "));
        }
        assert_eq!(entries(&parse(&s)), expected, "{:?}", s);
    }
}

#[test]
fn query_parameters_agree_with_split() {
    for s in texts(&['&', '=', 'a', 'A', 'b'], 6) {
        let mut expected = Vec::new();
        for piece in s.split('&') {
            let (key, value) = piece.split_once('=').unwrap_or((piece, ""));
            if key.is_empty() {
                continue;
            }
            set(&mut expected, key.to_string(), value.to_string());
        }
        assert_eq!(entries(&parse_query(&s)), expected, "{:?}", s);
    }
}
