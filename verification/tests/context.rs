use oxidy::context::default_context;
use oxidy::pairs::Pairs;
use oxidy::request::Request;
use oxidy::response::Response;
use oxidy::version::HttpVersion;

fn entries(p: &Pairs) -> Vec<(String, String)> {
    let mut out = Vec::new();
    let mut i = 0;
    while let Some((k, v)) = p.entry(i) {
        out.push((k.to_string(), v.to_string()));
        i += 1;
    }
    out
}

fn pair(k: &str, v: &str) -> (String, String) {
    (k.to_string(), v.to_string())
}

const REQUEST: &str = "POST /items/7?Sort=asc&page=2 HTTP/1.0\r\nHost: example.org\r\nX-Token: abc def\r\n\r\n";

#[test]
fn a_context_starts_with_the_request_and_the_default_response() {
    let c = default_context("10.0.0.1:5000".to_string(), REQUEST.to_string());
    assert!(c.next);
    assert_eq!(c.state.len(), 0);
    assert_eq!(c.request.address, "10.0.0.1:5000");
    assert_eq!(c.request.header, REQUEST);
    assert_eq!(c.request.method, "POST");
    assert_eq!(c.request.url, "/items/7?Sort=asc&page=2");
    assert_eq!(c.request.path, "/items/7");
    assert_eq!(c.request.query, "Sort=asc&page=2");
    assert_eq!(c.request.http_version, HttpVersion::Http10);
    assert!(c.request.header_store.is_none());
    assert!(c.request.query_store.is_none());
    assert_eq!(c.request.param_store.len(), 0);
    assert_eq!(c.response.header.len(), 0);
    assert_eq!(c.response.body, "");
    assert_eq!(c.response.status, 200);
    assert_eq!(c.response.content_type, "text/html");
}

#[test]
fn state_is_set_read_and_deleted_whatever_the_case() {
    let mut c = default_context(String::new(), REQUEST.to_string());
    assert_eq!(c.get_state("user"), None);
    c.set_state("User", "John");
    c.set_state("role", "admin");
    assert_eq!(c.get_state("user"), Some("John".to_string()));
    assert_eq!(c.get_state("USER"), Some("John".to_string()));
    c.set_state("USER", "Jane");
    assert_eq!(entries(&c.state), vec![pair("role", "admin"), pair("USER", "Jane")]);
    c.del_state("Role");
    assert_eq!(entries(&c.state), vec![pair("USER", "Jane")]);
    assert_eq!(c.get_state("role"), None);
    assert!(c.next);
    assert_eq!(c.request.method, "POST");
    assert_eq!(c.response.status, 200);
}

#[test]
fn headers_are_parsed_on_first_use_and_kept() {
    let mut r = Request::new("a".to_string(), REQUEST.to_string());
    assert!(r.header_store.is_none());
    assert_eq!(r.header("host"), Some("example.org".to_string()));
    assert_eq!(
        entries(r.header_store.as_ref().unwrap()),
        vec![pair("host", "example.org"), pair("x-token", "abc def")]
    );
    assert_eq!(r.header("X-TOKEN"), Some("abc def".to_string()));
    assert_eq!(r.header("missing"), None);
    r.header = "GET / HTTP/1.1\r\nHost: changed\r\n".to_string();
    assert_eq!(r.header("Host"), Some("example.org".to_string()));
    assert!(r.query_store.is_none());
    assert_eq!(r.method, "POST");
}

#[test]
fn query_parameters_are_parsed_on_first_use_and_kept() {
    let mut r = Request::new("a".to_string(), REQUEST.to_string());
    assert_eq!(r.query("sort"), Some("asc".to_string()));
    assert_eq!(r.query("PAGE"), Some("2".to_string()));
    assert_eq!(r.query("none"), None);
    assert_eq!(
        entries(r.query_store.as_ref().unwrap()),
        vec![pair("Sort", "asc"), pair("page", "2")]
    );
    r.query = "sort=desc".to_string();
    assert_eq!(r.query("sort"), Some("asc".to_string()));
    assert!(r.header_store.is_none());
}

#[test]
fn a_request_without_query_has_no_parameters() {
    let mut r = Request::new("a".to_string(), "GET /x HTTP/1.1\r\n".to_string());
    assert_eq!(r.query, "");
    assert_eq!(r.query("a"), None);
    assert_eq!(r.query_store.as_ref().unwrap().len(), 0);
}

#[test]
fn a_missing_route_parameter_is_empty() {
    let r = Request::new("a".to_string(), REQUEST.to_string());
    assert_eq!(r.param("id"), "");
}

#[test]
fn a_response_starts_with_its_defaults() {
    let r = Response::new();
    assert_eq!(r.status, 200);
    assert_eq!(r.content_type, "text/html");
    assert_eq!(r.body, "");
    assert_eq!(r.header.len(), 0);
}

#[test]
fn response_headers_are_set_read_and_deleted_whatever_the_case() {
    let mut r = Response::new();
    r.body = "kept".to_string();
    r.status = 201;
    r.set_header("Authorization", "Basic abcd");
    r.set_header("X-A", "1");
    assert_eq!(r.get_header("authorization"), Some("Basic abcd".to_string()));
    r.set_header("AUTHORIZATION", "Bearer x");
    assert_eq!(entries(&r.header), vec![pair("X-A", "1"), pair("AUTHORIZATION", "Bearer x")]);
    r.del_header("x-a");
    assert_eq!(entries(&r.header), vec![pair("AUTHORIZATION", "Bearer x")]);
    assert_eq!(r.get_header("X-A"), None);
    assert_eq!(r.body, "kept");
    assert_eq!(r.status, 201);
    assert_eq!(r.content_type, "text/html");
}

#[test]
fn json_sets_body_and_content_type() {
    let mut r = Response::new();
    r.status = 202;
    r.set_header("X-A", "1");
    r.json(serde_json::to_string(&vec![1, 2, 3]));
    assert_eq!(r.body, "[1,2,3]");
    assert_eq!(r.content_type, "application/json");
    assert_eq!(r.status, 202);
    assert_eq!(entries(&r.header), vec![pair("X-A", "1")]);
    r.json(Ok("{\"name\":\"John\"}".to_string()));
    assert_eq!(r.body, "{\"name\":\"John\"}");
}

#[test]
fn json_that_fails_gives_an_empty_object() {
    let mut keyed = std::collections::HashMap::new();
    keyed.insert((1, 2), 3);
    let failed = serde_json::to_string(&keyed);
    assert!(failed.is_err());
    let mut r = Response::new();
    r.body = "before".to_string();
    r.json(failed);
    assert_eq!(r.body, "{}");
    assert_eq!(r.content_type, "application/json");
    assert_eq!(r.status, 200);
}

#[test]
fn a_clone_is_a_context_of_its_own() {
    let mut c = default_context("1.2.3.4:5".to_string(), REQUEST.to_string());
    c.set_state("a", "1");
    c.response.set_header("X-A", "1");
    assert_eq!(c.request.header("host"), Some("example.org".to_string()));
    let mut d = c.clone();
    assert_eq!(d.next, c.next);
    assert_eq!(entries(&d.state), entries(&c.state));
    assert_eq!(d.request.address, "1.2.3.4:5");
    assert_eq!(d.request.header, REQUEST);
    assert_eq!(d.request.method, "POST");
    assert_eq!(d.request.url, c.request.url);
    assert_eq!(d.request.path, "/items/7");
    assert_eq!(d.request.query, c.request.query);
    assert_eq!(d.request.http_version, HttpVersion::Http10);
    assert!(d.request.header_store.is_some());
    assert!(d.request.query_store.is_none());
    assert_eq!(entries(&d.response.header), entries(&c.response.header));
    assert_eq!(d.response.status, 200);
    d.set_state("a", "2");
    d.response.body = "changed".to_string();
    assert_eq!(c.get_state("a"), Some("1".to_string()));
    assert_eq!(c.response.body, "");
}
