//! The reason phrases of the status codes that the server knows.

use vstd::prelude::*;
use crate::text::{decimal, lemma_decimal_injective, text_eq};

verus! {

/// The reason phrase of the status `code`; empty for a code that the server
/// does not know.
pub open spec fn status_text(code: nat) -> Seq<char> {
    if code == 426 {
        "Upgrade Required"@
    } else if code == 414 {
        "URI Too Long"@
    } else if code == 413 {
        "Payload Too Large"@
    } else if code == 410 {
        "Gone"@
    } else if code == 405 {
        "Method Not Allowed"@
    } else if code == 404 {
        "Not Found"@
    } else if code == 403 {
        "Forbidden"@
    } else if code == 401 {
        "Unauthorized"@
    } else if code == 400 {
        "Bad Request"@
    } else if code == 308 {
        "Permanent Redirect"@
    } else if code == 307 {
        "Temporary Redirect"@
    } else if code == 306 {
        "Switch Proxy"@
    } else if code == 305 {
        "Use Proxy"@
    } else if code == 304 {
        "Not Modified"@
    } else if code == 302 {
        "Found"@
    } else if code == 301 {
        "Moved Permanently"@
    } else if code == 202 {
        "Accepted"@
    } else if code == 201 {
        "Created"@
    } else if code == 200 {
        "OK"@
    } else if code == 101 {
        "Switching Protocols"@
    } else {
        Seq::empty()
    }
}

/// The reason phrase of the status whose code is written `code`; empty
/// where `code` is not a known code written as three digits.
pub open spec fn status_text_of(code: Seq<char>) -> Seq<char> {
    if code == "426"@ {
        status_text(426)
    } else if code == "414"@ {
        status_text(414)
    } else if code == "413"@ {
        status_text(413)
    } else if code == "410"@ {
        status_text(410)
    } else if code == "405"@ {
        status_text(405)
    } else if code == "404"@ {
        status_text(404)
    } else if code == "403"@ {
        status_text(403)
    } else if code == "401"@ {
        status_text(401)
    } else if code == "400"@ {
        status_text(400)
    } else if code == "308"@ {
        status_text(308)
    } else if code == "307"@ {
        status_text(307)
    } else if code == "306"@ {
        status_text(306)
    } else if code == "305"@ {
        status_text(305)
    } else if code == "304"@ {
        status_text(304)
    } else if code == "302"@ {
        status_text(302)
    } else if code == "301"@ {
        status_text(301)
    } else if code == "202"@ {
        status_text(202)
    } else if code == "201"@ {
        status_text(201)
    } else if code == "200"@ {
        status_text(200)
    } else if code == "101"@ {
        status_text(101)
    } else {
        Seq::empty()
    }
}

/// The reason phrase of the status `code`.
pub fn status_string(code: usize) -> (r: String)
    ensures
        r@ == status_text(code as nat),
{
    if code == 426 {
        "Upgrade Required".to_owned()
    } else if code == 414 {
        "URI Too Long".to_owned()
    } else if code == 413 {
        "Payload Too Large".to_owned()
    } else if code == 410 {
        "Gone".to_owned()
    } else if code == 405 {
        "Method Not Allowed".to_owned()
    } else if code == 404 {
        "Not Found".to_owned()
    } else if code == 403 {
        "Forbidden".to_owned()
    } else if code == 401 {
        "Unauthorized".to_owned()
    } else if code == 400 {
        "Bad Request".to_owned()
    } else if code == 308 {
        "Permanent Redirect".to_owned()
    } else if code == 307 {
        "Temporary Redirect".to_owned()
    } else if code == 306 {
        "Switch Proxy".to_owned()
    } else if code == 305 {
        "Use Proxy".to_owned()
    } else if code == 304 {
        "Not Modified".to_owned()
    } else if code == 302 {
        "Found".to_owned()
    } else if code == 301 {
        "Moved Permanently".to_owned()
    } else if code == 202 {
        "Accepted".to_owned()
    } else if code == 201 {
        "Created".to_owned()
    } else if code == 200 {
        "OK".to_owned()
    } else if code == 101 {
        "Switching Protocols".to_owned()
    } else {
        String::new()
    }
}

/// The reason phrase of the status whose code is written `code`.
pub fn http_status_string(code: String) -> (r: String)
    ensures
        r@ == status_text_of(code@),
{
    let code = code.as_str();
    if text_eq(code, "426") {
        status_string(426)
    } else if text_eq(code, "414") {
        status_string(414)
    } else if text_eq(code, "413") {
        status_string(413)
    } else if text_eq(code, "410") {
        status_string(410)
    } else if text_eq(code, "405") {
        status_string(405)
    } else if text_eq(code, "404") {
        status_string(404)
    } else if text_eq(code, "403") {
        status_string(403)
    } else if text_eq(code, "401") {
        status_string(401)
    } else if text_eq(code, "400") {
        status_string(400)
    } else if text_eq(code, "308") {
        status_string(308)
    } else if text_eq(code, "307") {
        status_string(307)
    } else if text_eq(code, "306") {
        status_string(306)
    } else if text_eq(code, "305") {
        status_string(305)
    } else if text_eq(code, "304") {
        status_string(304)
    } else if text_eq(code, "302") {
        status_string(302)
    } else if text_eq(code, "301") {
        status_string(301)
    } else if text_eq(code, "202") {
        status_string(202)
    } else if text_eq(code, "201") {
        status_string(201)
    } else if text_eq(code, "200") {
        status_string(200)
    } else if text_eq(code, "101") {
        status_string(101)
    } else {
        String::new()
    }
}

/// A status has the same reason phrase whether its code is given as a
/// number or written in decimal.
pub proof fn law_written_code(n: nat)
    ensures
        status_text_of(decimal(n)) == status_text(n),
{
    let code = decimal(n);
    assert(decimal(426) == "426"@) by {
        reveal_with_fuel(decimal, 3);
        reveal_strlit("426");
    }
    if code == "426"@ {
        lemma_decimal_injective(n, 426);
    }
    assert(decimal(414) == "414"@) by {
        reveal_with_fuel(decimal, 3);
        reveal_strlit("414");
    }
    if code == "414"@ {
        lemma_decimal_injective(n, 414);
    }
    assert(decimal(413) == "413"@) by {
        reveal_with_fuel(decimal, 3);
        reveal_strlit("413");
    }
    if code == "413"@ {
        lemma_decimal_injective(n, 413);
    }
    assert(decimal(410) == "410"@) by {
        reveal_with_fuel(decimal, 3);
        reveal_strlit("410");
    }
    if code == "410"@ {
        lemma_decimal_injective(n, 410);
    }
    assert(decimal(405) == "405"@) by {
        reveal_with_fuel(decimal, 3);
        reveal_strlit("405");
    }
    if code == "405"@ {
        lemma_decimal_injective(n, 405);
    }
    assert(decimal(404) == "404"@) by {
        reveal_with_fuel(decimal, 3);
        reveal_strlit("404");
    }
    if code == "404"@ {
        lemma_decimal_injective(n, 404);
    }
    assert(decimal(403) == "403"@) by {
        reveal_with_fuel(decimal, 3);
        reveal_strlit("403");
    }
    if code == "403"@ {
        lemma_decimal_injective(n, 403);
    }
    assert(decimal(401) == "401"@) by {
        reveal_with_fuel(decimal, 3);
        reveal_strlit("401");
    }
    if code == "401"@ {
        lemma_decimal_injective(n, 401);
    }
    assert(decimal(400) == "400"@) by {
        reveal_with_fuel(decimal, 3);
        reveal_strlit("400");
    }
    if code == "400"@ {
        lemma_decimal_injective(n, 400);
    }
    assert(decimal(308) == "308"@) by {
        reveal_with_fuel(decimal, 3);
        reveal_strlit("308");
    }
    if code == "308"@ {
        lemma_decimal_injective(n, 308);
    }
    assert(decimal(307) == "307"@) by {
        reveal_with_fuel(decimal, 3);
        reveal_strlit("307");
    }
    if code == "307"@ {
        lemma_decimal_injective(n, 307);
    }
    assert(decimal(306) == "306"@) by {
        reveal_with_fuel(decimal, 3);
        reveal_strlit("306");
    }
    if code == "306"@ {
        lemma_decimal_injective(n, 306);
    }
    assert(decimal(305) == "305"@) by {
        reveal_with_fuel(decimal, 3);
        reveal_strlit("305");
    }
    if code == "305"@ {
        lemma_decimal_injective(n, 305);
    }
    assert(decimal(304) == "304"@) by {
        reveal_with_fuel(decimal, 3);
        reveal_strlit("304");
    }
    if code == "304"@ {
        lemma_decimal_injective(n, 304);
    }
    assert(decimal(302) == "302"@) by {
        reveal_with_fuel(decimal, 3);
        reveal_strlit("302");
    }
    if code == "302"@ {
        lemma_decimal_injective(n, 302);
    }
    assert(decimal(301) == "301"@) by {
        reveal_with_fuel(decimal, 3);
        reveal_strlit("301");
    }
    if code == "301"@ {
        lemma_decimal_injective(n, 301);
    }
    assert(decimal(202) == "202"@) by {
        reveal_with_fuel(decimal, 3);
        reveal_strlit("202");
    }
    if code == "202"@ {
        lemma_decimal_injective(n, 202);
    }
    assert(decimal(201) == "201"@) by {
        reveal_with_fuel(decimal, 3);
        reveal_strlit("201");
    }
    if code == "201"@ {
        lemma_decimal_injective(n, 201);
    }
    assert(decimal(200) == "200"@) by {
        reveal_with_fuel(decimal, 3);
        reveal_strlit("200");
    }
    if code == "200"@ {
        lemma_decimal_injective(n, 200);
    }
    assert(decimal(101) == "101"@) by {
        reveal_with_fuel(decimal, 3);
        reveal_strlit("101");
    }
    if code == "101"@ {
        lemma_decimal_injective(n, 101);
    }
}

} // verus!
