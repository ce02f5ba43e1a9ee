use oxidy::status::{http_status_string, status_string};

const TABLE: [(usize, &str); 20] = [
    (101, "Switching Protocols"),
    (200, "OK"),
    (201, "Created"),
    (202, "Accepted"),
    (301, "Moved Permanently"),
    (302, "Found"),
    (304, "Not Modified"),
    (305, "Use Proxy"),
    (306, "Switch Proxy"),
    (307, "Temporary Redirect"),
    (308, "Permanent Redirect"),
    (400, "Bad Request"),
    (401, "Unauthorized"),
    (403, "Forbidden"),
    (404, "Not Found"),
    (405, "Method Not Allowed"),
    (410, "Gone"),
    (413, "Payload Too Large"),
    (414, "URI Too Long"),
    (426, "Upgrade Required"),
];

#[test]
fn known_codes_have_their_phrase() {
    for (code, text) in TABLE {
        assert_eq!(status_string(code), text);
        assert_eq!(http_status_string(code.to_string()), text);
    }
}

#[test]
fn other_codes_have_no_phrase() {
    for code in 0..600usize {
        if TABLE.iter().all(|(c, _)| *c != code) {
            assert_eq!(status_string(code), "");
            assert_eq!(http_status_string(code.to_string()), "");
        }
    }
    assert_eq!(status_string(usize::MAX), "");
}

#[test]
fn a_code_must_be_written_plainly() {
    assert_eq!(http_status_string("0200".to_string()), "");
    assert_eq!(http_status_string(" 200".to_string()), "");
    assert_eq!(http_status_string("+200".to_string()), "");
    assert_eq!(http_status_string("".to_string()), "");
    assert_eq!(http_status_string("OK".to_string()), "");
}
