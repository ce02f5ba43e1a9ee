use oxidy::matcher::{find_callback, found_callback};
use oxidy::pairs::{get_vec, Pairs};

fn entries(p: &Pairs) -> Vec<(String, String)> {
    let mut out = Vec::new();
    let mut i = 0;
    while let Some((k, v)) = p.entry(i) {
        out.push((k.to_string(), v.to_string()));
        i += 1;
    }
    out
}

#[test]
fn a_dynamic_segment_binds_the_actual_segment() {
    let m = find_callback("/users/42", "/users/:id");
    assert!(m.find);
    assert_eq!(entries(&m.param), vec![("id".to_string(), "42".to_string())]);
    assert_eq!(get_vec(&m.param, "id"), Some("42".to_string()));
}

#[test]
fn a_longer_path_does_not_match() {
    let m = find_callback("/a/b/c", "/a/b");
    assert!(!m.find);
    assert_eq!(m.param.len(), 0);
    let r = found_callback("/a/b/c", "/a/b");
    assert!(!r.found);
    assert_eq!(r.path, "");
    assert_eq!(r.params.len(), 0);
}

#[test]
fn a_shorter_path_does_not_match() {
    assert!(!find_callback("/a", "/a/:b").find);
    assert!(!find_callback("/", "/:b").find);
    assert!(!found_callback("/a", "/a/:b").found);
}

#[test]
fn static_segments_must_be_equal() {
    assert!(find_callback("/a/b", "/a/b").find);
    assert!(!find_callback("/a/c", "/a/b").find);
    assert!(!find_callback("/A/b", "/a/b").find);
    let m = find_callback("/a/x", "/b/:id");
    assert!(!m.find);
    assert_eq!(m.param.len(), 0);
}

#[test]
fn the_bound_text_is_raw() {
    let m = find_callback("/files/My%20File.TXT", "/files/:name");
    assert!(m.find);
    assert_eq!(get_vec(&m.param, "name"), Some("My%20File.TXT".to_string()));
    let r = found_callback("/Files/My%20File.TXT", "/files/:name");
    assert!(!r.found);
    let r = found_callback("/files/My%20File.TXT", "/Files/:Name");
    assert!(r.found);
    assert_eq!(r.path, "/files/:name");
    assert_eq!(get_vec(&r.params, "NAME"), Some("My%20File.TXT".to_string()));
    assert_eq!(entries(&r.params), vec![("name".to_string(), "My%20File.TXT".to_string())]);
}

#[test]
fn several_dynamic_segments_bind_in_order() {
    let m = find_callback("/u/7/posts/9", "/u/:user/posts/:post");
    assert!(m.find);
    assert_eq!(
        entries(&m.param),
        vec![("user".to_string(), "7".to_string()), ("post".to_string(), "9".to_string())]
    );
}

#[test]
fn a_name_bound_twice_keeps_the_last_segment() {
    let m = find_callback("/1/2", "/:id/:ID");
    assert!(m.find);
    assert_eq!(entries(&m.param), vec![("ID".to_string(), "2".to_string())]);
    assert_eq!(get_vec(&m.param, "id"), Some("2".to_string()));
}

#[test]
fn a_dynamic_segment_binds_even_an_equal_segment() {
    let m = find_callback("/:id", "/:id");
    assert!(m.find);
    assert_eq!(entries(&m.param), vec![("id".to_string(), ":id".to_string())]);
    let r = found_callback("/:ID", "/:id");
    assert!(r.found);
    assert_eq!(entries(&r.params), vec![("id".to_string(), ":ID".to_string())]);
}

#[test]
fn the_name_is_the_segment_without_colons() {
    let m = find_callback("/x", "/:a:b");
    assert!(m.find);
    assert_eq!(entries(&m.param), vec![("ab".to_string(), "x".to_string())]);
}

#[test]
fn a_pattern_must_be_written_as_it_is_rebuilt() {
    assert!(!find_callback("/a/", "/a/").find);
    assert!(!find_callback("a", "a").find);
    assert!(!find_callback("/", "/").find);
    assert!(!find_callback("//a", "//a").find);
    assert!(find_callback("//a/", "/a").find);
}

#[test]
fn a_path_equal_to_the_pattern_but_for_case_is_found() {
    let r = found_callback("/", "/");
    assert!(r.found);
    assert_eq!(r.path, "/");
    assert_eq!(r.params.len(), 0);
    assert!(found_callback("/Users", "/users").found);
    assert!(found_callback("/users", "/USERS").found);
    assert!(found_callback("/a/", "/A/").found);
    assert!(!found_callback("/users", "/user").found);
    assert!(!found_callback("/Users/1", "/users/:id").found);
    assert_eq!(found_callback("/users/1", "/USERS/:id").path, "/users/:id");
}

#[test]
fn a_pattern_counts_in_lowercase() {
    let r = found_callback("/école/x", "/ÉCOLE/:Id");
    assert!(r.found);
    assert_eq!(r.path, "/école/:id");
    assert_eq!(get_vec(&r.params, "id"), Some("x".to_string()));
    assert_eq!(found_callback("/Content-Type", "/CONTENT-TYPE").path, "/content-type");
}
