//! Hot reloading: what the hot-reload plugin does to the responses it sees, and how it
//! turns a route's pattern into the URL prefix of the files it watches.

use vstd::prelude::*;
use vstd::utf8::encode_utf8;

use crate::http::header_map::{insert_entry, lookup, HeaderKey};
use crate::http::headers::ResponseHeader;
use crate::http::response::Response;
use crate::http::status::StatusCode;
use crate::text::{
    chars_of, extend_bytes, has_prefix, owned_string, starts_with, str_eq, string_push_str,
    trim_end_char, trim_end_matches,
};

verus! {

/// Whether `needle` occurs in `hay` at position `i`.
pub open spec fn occurs_at<T>(hay: Seq<T>, needle: Seq<T>, i: int) -> bool {
    0 <= i && i + needle.len() <= hay.len() && hay.subrange(i, i + needle.len()) == needle
}

/// The first position at or after `start` where `needle` occurs in `hay`.
pub open spec fn first_occurrence_from<T>(hay: Seq<T>, needle: Seq<T>, start: int) -> Option<int>
    decreases hay.len() + 1 - start,
{
    if start < 0 || start + needle.len() > hay.len() {
        None
    } else if hay.subrange(start, start + needle.len()) == needle {
        Some(start)
    } else {
        first_occurrence_from(hay, needle, start + 1)
    }
}

/// The first position where `needle` occurs in `hay`.
pub open spec fn first_occurrence<T>(hay: Seq<T>, needle: Seq<T>) -> Option<int> {
    first_occurrence_from(hay, needle, 0)
}

/// The first occurrence found from `start` is an occurrence, at or after `start`.
pub proof fn lemma_first_occurrence_from<T>(hay: Seq<T>, needle: Seq<T>, start: int)
    ensures
        first_occurrence_from(hay, needle, start) matches Some(i) ==> start <= i && occurs_at(
            hay,
            needle,
            i,
        ),
    decreases hay.len() + 1 - start,
{
    if start < 0 || start + needle.len() > hay.len() {
    } else if hay.subrange(start, start + needle.len()) == needle {
    } else {
        lemma_first_occurrence_from(hay, needle, start + 1);
    }
}

/// The bytes of the closing body tag.
pub open spec fn body_end_tag() -> Seq<u8> {
    seq![60u8, 47u8, 98u8, 111u8, 100u8, 121u8, 62u8]
}

/// The position of the first `</body>` in some bytes.
pub fn find_body_end(body: &[u8]) -> (r: Option<usize>)
    ensures
        match first_occurrence(body@, body_end_tag()) {
            Some(i) => r matches Some(x) && x as int == i,
            None => r is None,
        },
{
    let tag: [u8; 7] = [60, 47, 98, 111, 100, 121, 62];
    assert(tag@ =~= body_end_tag());
    let n: usize = body.len();
    if n < 7 {
        return None;
    }
    let last: usize = n - 7;
    let mut i: usize = 0;
    while i <= last
        invariant
            n == body@.len(),
            last + 7 == n,
            tag@ == body_end_tag(),
            first_occurrence_from(body@, body_end_tag(), 0) == first_occurrence_from(
                body@,
                body_end_tag(),
                i as int,
            ),
        decreases last + 1 - i,
    {
        let mut j: usize = 0;
        let mut same = true;
        while j < 7
            invariant
                i <= last,
                n == body@.len(),
                last + 7 == n,
                j <= 7,
                tag@ == body_end_tag(),
                same == (forall|k: int| 0 <= k < j ==> body@[i + k] == tag@[k]),
            decreases 7 - j,
        {
            if body[i + j] != tag[j] {
                same = false;
            }
            j = j + 1;
        }
        if same {
            assert(body@.subrange(i as int, i + 7) =~= tag@);
            return Some(i);
        }
        assert(body@.subrange(i as int, i + 7) != tag@) by {
            let k = choose|k: int| 0 <= k < 7 && body@[i + k] != tag@[k];
            assert(body@.subrange(i as int, i + 7)[k] != tag@[k]);
        }
        i = i + 1;
    }
    None
}

/// The body with `inserted` put in before the first `</body>`; unchanged when it has
/// none.
pub open spec fn insert_before_body_end(body: Seq<u8>, inserted: Seq<u8>) -> Seq<u8> {
    match first_occurrence(body, body_end_tag()) {
        Some(i) => body.take(i) + inserted + body.skip(i),
        None => body,
    }
}

/// Puts bytes into a body at a position.
fn splice_at(body: &mut Vec<u8>, index: usize, inserted: &[u8])
    requires
        index <= old(body)@.len(),
    ensures
        final(body)@ == old(body)@.take(index as int) + inserted@ + old(body)@.skip(index as int),
{
    let mut out: Vec<u8> = Vec::new();
    let mut i: usize = 0;
    while i < index
        invariant
            i <= index <= body@.len(),
            out@ == body@.take(i as int),
        decreases index - i,
    {
        out.push(body[i]);
        assert(body@.take(i + 1) =~= body@.take(i as int).push(body@[i as int]));
        i = i + 1;
    }
    extend_bytes(&mut out, inserted);
    let mut k: usize = index;
    while k < body.len()
        invariant
            index <= k <= body@.len(),
            out@ == body@.take(index as int) + inserted@ + body@.subrange(index as int, k as int),
        decreases body.len() - k,
    {
        out.push(body[k]);
        assert(body@.subrange(index as int, k + 1) =~= body@.subrange(index as int, k as int).push(
            body@[k as int],
        ));
        k = k + 1;
    }
    assert(body@.subrange(index as int, body@.len() as int) =~= body@.skip(index as int));
    *body = out;
}

/// The bytes put into a page for a script: `<script>`, the script and `</script>`.
pub open spec fn script_bytes(js: Seq<u8>) -> Seq<u8> {
    encode_utf8("<script>"@) + js + encode_utf8("</script>"@)
}

/// Injects a script into an HTML response, before the first `</body>` of its body; a
/// body without `</body>` is left as it is.
pub fn inject_js(response: &mut Response, js: &[u8])
    ensures
        final(response).version == old(response).version,
        final(response).status_code == old(response).status_code,
        final(response).headers == old(response).headers,
        final(response).cookies == old(response).cookies,
        final(response).body@ == insert_before_body_end(old(response).body@, script_bytes(js@)),
{
    let ghost before = response.body@;
    match find_body_end(response.body.as_slice()) {
        Some(index) => {
            proof {
                lemma_first_occurrence_from(before, body_end_tag(), 0);
            }
            let mut to_inject: Vec<u8> = Vec::new();
            let open = "<script>";
            let close = "</script>";
            extend_bytes(&mut to_inject, open.as_bytes());
            extend_bytes(&mut to_inject, js);
            extend_bytes(&mut to_inject, close.as_bytes());
            proof {
                vstd::utf8::encode_utf8_decode_utf8(open@);
                vstd::utf8::encode_utf8_decode_utf8(close@);
            }
            assert(to_inject@ =~= script_bytes(js@));
            splice_at(&mut response.body, index, to_inject.as_slice());
            assert(response.body@ == before.take(index as int) + script_bytes(js@) + before.skip(
                index as int,
            ));
        },
        None => {},
    }
}

/// The number of times a character occurs in a text.
pub open spec fn count_char(s: Seq<char>, c: char) -> nat
    decreases s.len(),
{
    if s.len() == 0 {
        0
    } else {
        count_char(s.drop_last(), c) + if s.last() == c {
            1nat
        } else {
            0nat
        }
    }
}

/// The URL prefix of a route pattern: the pattern itself when it has no `*`, the pattern
/// without its trailing `*` when that is its only `*`, and an error otherwise.
pub open spec fn url_prefix_spec(s: Seq<char>) -> Option<Seq<char>> {
    let ends_with_wildcard = s.len() > 0 && s.last() == '*';
    let n = count_char(s, '*');
    if ends_with_wildcard && n == 1 {
        Some(trim_end_char(s, '*'))
    } else if n == 0 {
        Some(s)
    } else {
        None
    }
}

/// The URL prefix of the files that a route serves, from its pattern (see
/// `url_prefix_spec`); the error is `Invalid URL prefix`.
pub fn get_url_prefix(s: &str) -> (r: Result<String, String>)
    ensures
        match url_prefix_spec(s@) {
            Some(p) => r matches Ok(x) && x@ == p,
            None => r matches Err(e) && e@ == "Invalid URL prefix"@,
        },
{
    let v = chars_of(s);
    let mut n: usize = 0;
    let mut i: usize = 0;
    while i < v.len()
        invariant
            i <= v@.len(),
            n <= i,
            n == count_char(v@.take(i as int), '*'),
        decreases v.len() - i,
    {
        assert(v@.take(i + 1).drop_last() =~= v@.take(i as int));
        if v[i] == '*' {
            n = n + 1;
        }
        i = i + 1;
    }
    assert(v@.take(v@.len() as int) =~= v@);
    let ends_with_wildcard = v.len() > 0 && v[v.len() - 1] == '*';
    if ends_with_wildcard && n == 1 {
        Ok(trim_end_matches(&v, '*'))
    } else if n == 0 {
        Ok(owned_string(s))
    } else {
        Err(owned_string("Invalid URL prefix"))
    }
}

/// The script that tells the page its route and the WebSocket route of the plugin.
pub open spec fn variables_script(route_path: Seq<char>, url_prefix: Seq<char>, ws_route: Seq<char>) -> Seq<char> {
    "<script>\n                    if (typeof __HUMPHREY_INIT === \"undefined\" || __HUMPHREY_INIT !== true) {\n                        var __HUMPHREY_ROUTE_PATH = \""@ + route_path + "\";\n                        var __HUMPHREY_ROUTE_URL_PREFIX = \""@ + url_prefix + "\";\n                        var __HUMPHREY_WS_ROUTE = \""@ + ws_route + "\"\n                    }\n                </script>"@
}

/// Injects the route's variables into an HTML response, before the first `</body>` of
/// its body: the route's path, the URL prefix of its pattern and the WebSocket route. A
/// body without `</body>` is left as it is; one with it needs the route's path and a
/// pattern that has a URL prefix.
pub fn inject_variables(response: &mut Response, route_path: Option<&str>, route_matches: &str, ws_route: &str)
    requires
        first_occurrence(old(response).body@, body_end_tag()) is Some ==> route_path is Some
            && url_prefix_spec(route_matches@) is Some,
    ensures
        final(response).version == old(response).version,
        final(response).status_code == old(response).status_code,
        final(response).headers == old(response).headers,
        final(response).cookies == old(response).cookies,
        final(response).body@ == match route_path {
            Some(p) => match url_prefix_spec(route_matches@) {
                Some(u) => insert_before_body_end(
                    old(response).body@,
                    encode_utf8(variables_script(p@, u, ws_route@)),
                ),
                None => old(response).body@,
            },
            None => old(response).body@,
        },
{
    let ghost before = response.body@;
    match find_body_end(response.body.as_slice()) {
        Some(index) => {
            proof {
                lemma_first_occurrence_from(before, body_end_tag(), 0);
            }
            let path = match route_path {
                Some(p) => p,
                None => return,
            };
            let prefix = match get_url_prefix(route_matches) {
                Ok(p) => p,
                Err(_) => return,
            };
            let mut script = String::new();
            string_push_str(&mut script, "<script>\n                    if (typeof __HUMPHREY_INIT === \"undefined\" || __HUMPHREY_INIT !== true) {\n                        var __HUMPHREY_ROUTE_PATH = \"");
            string_push_str(&mut script, path);
            string_push_str(&mut script, "\";\n                        var __HUMPHREY_ROUTE_URL_PREFIX = \"");
            string_push_str(&mut script, prefix.as_str());
            string_push_str(&mut script, "\";\n                        var __HUMPHREY_WS_ROUTE = \"");
            string_push_str(&mut script, ws_route);
            string_push_str(&mut script, "\"\n                    }\n                </script>");
            assert(script@ =~= variables_script(path@, prefix@, ws_route@));
            let bytes = script.as_str().as_bytes();
            proof {
                vstd::utf8::encode_utf8_decode_utf8(script@);
            }
            splice_at(&mut response.body, index, bytes);
            assert(response.body@ == before.take(index as int) + encode_utf8(
                variables_script(path@, prefix@, ws_route@),
            ) + before.skip(index as int));
        },
        None => {},
    }
}

/// Whether a content type is one whose responses must not be cached while hot reloading:
/// an image, JavaScript or CSS.
pub open spec fn uncached_type(t: Seq<char>) -> bool {
    has_prefix(t, "image/"@) || t == "text/javascript"@ || t == "text/css"@
}

/// What the hot-reload plugin does to a response of a route: a `200 OK` HTML response
/// gets the route's variables and then the reload script injected; an image, JavaScript
/// or CSS response gets `Cache-Control: no-store`; any other response is left alone.
pub fn hot_reload_response(
    response: &mut Response,
    route_path: Option<&str>,
    route_matches: &str,
    ws_route: &str,
    js: &[u8],
)
    requires
        old(response).status_code == StatusCode::OK && lookup::<ResponseHeader>(
            old(response).headers@,
            ResponseHeader::key_of(ResponseHeader::ContentType@),
        ) == Some("text/html"@) && first_occurrence(old(response).body@, body_end_tag()) is Some
            ==> route_path is Some && url_prefix_spec(route_matches@) is Some,
    ensures
        final(response).version == old(response).version,
        final(response).status_code == old(response).status_code,
        match lookup::<ResponseHeader>(
            old(response).headers@,
            ResponseHeader::key_of(ResponseHeader::ContentType@),
        ) {
            Some(t) => if old(response).status_code == StatusCode::OK && t == "text/html"@ {
                &&& final(response).headers@ == old(response).headers@
                &&& final(response).body@ == insert_before_body_end(
                    match route_path {
                        Some(p) => match url_prefix_spec(route_matches@) {
                            Some(u) => insert_before_body_end(
                                old(response).body@,
                                encode_utf8(variables_script(p@, u, ws_route@)),
                            ),
                            None => old(response).body@,
                        },
                        None => old(response).body@,
                    },
                    script_bytes(js@),
                )
            } else if uncached_type(t) {
                &&& final(response).headers@ == insert_entry::<ResponseHeader>(
                    old(response).headers@,
                    ResponseHeader::CacheControl@,
                    "no-store"@,
                )
                &&& final(response).body == old(response).body
            } else {
                &&& final(response).headers@ == old(response).headers@
                &&& final(response).body == old(response).body
            },
            None => {
                &&& final(response).headers@ == old(response).headers@
                &&& final(response).body == old(response).body
            },
        },
{
    let content_type = match response.headers.get(&ResponseHeader::ContentType) {
        Some(t) => t.clone(),
        None => return,
    };
    proof {
        reveal_strlit("text/html");
        reveal_strlit("image/");
        reveal_strlit("text/javascript");
        reveal_strlit("text/css");
    }
    if response.status_code == StatusCode::OK && str_eq(content_type.as_str(), "text/html") {
        inject_variables(response, route_path, route_matches, ws_route);
        inject_js(response, js);
    } else if starts_with(content_type.as_str(), "image/") || str_eq(content_type.as_str(), "text/javascript")
        || str_eq(content_type.as_str(), "text/css") {
        response.headers.insert(ResponseHeader::CacheControl, owned_string("no-store"));
    }
}

} // verus!
