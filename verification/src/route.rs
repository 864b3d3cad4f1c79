//! Routes: wildcard matching of hosts and paths, choosing the handler for a request, and
//! resolving a request path inside a served directory.

use vstd::prelude::*;
use vstd::string::StringSliceAdditionalSpecFns;
use vstd::utf8::{decode_utf8, valid_utf8};

use crate::percent::{percent_decode_bytes, percent_decode_spec};
use crate::http::response::utf8_string;
use crate::text::{
    chars_of, has_prefix, starts_with, string_of_range, string_push, string_push_str, trim_end_char,
    trim_end_matches, trim_start_char, trim_start_matches,
};

verus! {

/// Whether a text matches a pattern in which `*` stands for any sequence of characters
/// (the empty one too) and every other character stands for itself.
pub open spec fn wildcard_matches(pattern: Seq<char>, text: Seq<char>) -> bool
    decreases pattern.len() + text.len(),
{
    if pattern.len() == 0 {
        text.len() == 0
    } else if pattern[0] == '*' {
        wildcard_matches(pattern.drop_first(), text) || (text.len() > 0 && wildcard_matches(
            pattern,
            text.drop_first(),
        ))
    } else {
        text.len() > 0 && text[0] == pattern[0] && wildcard_matches(
            pattern.drop_first(),
            text.drop_first(),
        )
    }
}

proof fn lemma_skip_first<A>(s: Seq<A>, i: int)
    requires
        0 <= i < s.len(),
    ensures
        s.skip(i).drop_first() == s.skip(i + 1),
        s.skip(i)[0] == s[i],
{
    assert(s.skip(i).drop_first() =~= s.skip(i + 1));
}

/// The pattern `*` matches every text.
pub proof fn lemma_star_matches_all(text: Seq<char>)
    ensures
        wildcard_matches(seq!['*'], text),
    decreases text.len(),
{
    let star = seq!['*'];
    assert(star.drop_first() =~= Seq::<char>::empty());
    assert(star.len() == 1 && star[0] == '*');
    if text.len() > 0 {
        lemma_star_matches_all(text.drop_first());
    } else {
        assert(wildcard_matches(star.drop_first(), text));
    }
}

/// A pattern without `*` matches exactly the text equal to it.
pub proof fn lemma_literal_pattern(pattern: Seq<char>, text: Seq<char>)
    requires
        !pattern.contains('*'),
    ensures
        wildcard_matches(pattern, text) <==> pattern == text,
    decreases pattern.len(),
{
    if pattern.len() == 0 {
        if text.len() == 0 {
            assert(pattern =~= text);
        }
    } else {
        assert(pattern[0] != '*') by {
            if pattern[0] == '*' {
                assert(pattern.contains('*'));
            }
        }
        let rest = pattern.drop_first();
        assert(!rest.contains('*')) by {
            if rest.contains('*') {
                let i = choose|i: int| 0 <= i < rest.len() && rest[i] == '*';
                assert(pattern[i + 1] == '*');
            }
        }
        if text.len() > 0 {
            lemma_literal_pattern(rest, text.drop_first());
            if text[0] == pattern[0] && rest == text.drop_first() {
                assert(pattern =~= text) by {
                    assert forall|i: int| 0 <= i < pattern.len() implies pattern[i] == text[i] by {
                        if i > 0 {
                            assert(rest[i - 1] == text.drop_first()[i - 1]);
                        }
                    }
                }
            }
            if pattern == text {
                assert(rest =~= text.drop_first());
            }
        }
    }
}

/// A pattern made of a text without `*` followed by one `*` matches exactly the texts
/// that begin with that text: `/blog/*` matches `/blog/my-first-post` and `/blog/`, not
/// `/blog`.
pub proof fn lemma_prefix_pattern(prefix: Seq<char>, text: Seq<char>)
    requires
        !prefix.contains('*'),
    ensures
        wildcard_matches(prefix + seq!['*'], text) <==> has_prefix(text, prefix),
    decreases prefix.len(),
{
    let pattern = prefix + seq!['*'];
    if prefix.len() == 0 {
        assert(pattern =~= seq!['*']);
        lemma_star_matches_all(text);
        assert(text.take(0) =~= prefix);
    } else {
        assert(pattern[0] == prefix[0]);
        assert(prefix[0] != '*') by {
            if prefix[0] == '*' {
                assert(prefix.contains('*'));
            }
        }
        let rest = prefix.drop_first();
        assert(!rest.contains('*')) by {
            if rest.contains('*') {
                let i = choose|i: int| 0 <= i < rest.len() && rest[i] == '*';
                assert(prefix[i + 1] == '*');
            }
        }
        assert(pattern.drop_first() =~= rest + seq!['*']);
        if text.len() > 0 {
            lemma_prefix_pattern(rest, text.drop_first());
            if has_prefix(text, prefix) {
                assert(text[0] == prefix[0]) by {
                    assert(text.take(prefix.len() as int)[0] == text[0]);
                }
                assert(text.drop_first().take(rest.len() as int) =~= rest) by {
                    assert forall|i: int| 0 <= i < rest.len() implies text.drop_first().take(
                        rest.len() as int,
                    )[i] == rest[i] by {
                        assert(text.take(prefix.len() as int)[i + 1] == prefix[i + 1]);
                    }
                }
            }
            if text[0] == prefix[0] && has_prefix(text.drop_first(), rest) {
                assert(text.take(prefix.len() as int) =~= prefix) by {
                    assert forall|i: int| 0 <= i < prefix.len() implies text.take(
                        prefix.len() as int,
                    )[i] == prefix[i] by {
                        if i > 0 {
                            assert(text.drop_first().take(rest.len() as int)[i - 1] == rest[i - 1]);
                        }
                    }
                }
            }
        }
    }
}

/// Whether `text` matches `pattern`, where `*` in the pattern matches any sequence of
/// characters. For example, `/blog/*` matches `/blog/my-first-post`.
pub fn wildcard_match(pattern: &str, text: &str) -> (r: bool)
    ensures
        r == wildcard_matches(pattern@, text@),
{
    let p = chars_of(pattern);
    let t = chars_of(text);
    let plen = p.len();
    let tlen = t.len();
    // For the pattern from position `i`: `row[k]` tells whether it matches the text from
    // `k` (for `k < tlen`), and `row_end` whether it matches the empty rest of the text.
    let mut row: Vec<bool> = Vec::new();
    let mut k: usize = 0;
    while k < tlen
        invariant
            k <= tlen,
            tlen == t@.len(),
            plen == p@.len(),
            row@.len() == k,
            forall|x: int| 0 <= x < k ==> row@[x] == wildcard_matches(p@.skip(plen as int), #[trigger] t@.skip(x)),
        decreases tlen - k,
    {
        assert(p@.skip(plen as int).len() == 0);
        row.push(false);
        k = k + 1;
    }
    let mut row_end = true;
    assert(p@.skip(plen as int).len() == 0);
    assert(t@.skip(tlen as int).len() == 0);
    let mut i = plen;
    while i > 0
        invariant
            i <= plen,
            tlen == t@.len(),
            plen == p@.len(),
            row@.len() == tlen,
            forall|x: int| 0 <= x < tlen ==> row@[x] == wildcard_matches(p@.skip(i as int), #[trigger] t@.skip(x)),
            row_end == wildcard_matches(p@.skip(i as int), t@.skip(tlen as int)),
        decreases i,
    {
        let c = p[i - 1];
        proof {
            lemma_skip_first(p@, i - 1);
            assert(t@.skip(tlen as int).len() == 0);
        }
        let new_end = c == '*' && row_end;
        // The new row is built from the end of the text backwards, in reverse order.
        let mut rev: Vec<bool> = Vec::new();
        let mut m = tlen;
        while m > 0
            invariant
                m <= tlen,
                0 < i <= plen,
                c == p@[i - 1],
                tlen == t@.len(),
                plen == p@.len(),
                row@.len() == tlen,
                forall|x: int| 0 <= x < tlen ==> row@[x] == wildcard_matches(p@.skip(i as int), #[trigger] t@.skip(x)),
                row_end == wildcard_matches(p@.skip(i as int), t@.skip(tlen as int)),
                new_end == wildcard_matches(p@.skip(i - 1), t@.skip(tlen as int)),
                rev@.len() == tlen - m,
                forall|x: int| m <= x < tlen ==> rev@[tlen - 1 - x] == wildcard_matches(p@.skip(i - 1), #[trigger] t@.skip(x)),
            decreases m,
        {
            let x = m - 1;
            proof {
                lemma_skip_first(t@, x as int);
            }
            let after_p = if x + 1 < tlen {
                row[x + 1]
            } else {
                row_end
            };
            let after_both = if x + 1 < tlen {
                rev[tlen - 1 - (x + 1)]
            } else {
                new_end
            };
            let v = if c == '*' {
                row[x] || after_both
            } else {
                t[x] == c && after_p
            };
            proof {
                let pat = p@.skip(i - 1);
                let txt = t@.skip(x as int);
                assert(pat.len() > 0 && pat[0] == c && pat.drop_first() == p@.skip(i as int));
                assert(txt.len() > 0 && txt[0] == t@[x as int] && txt.drop_first() == t@.skip(x + 1));
                assert(after_p == wildcard_matches(p@.skip(i as int), t@.skip(x + 1)));
                assert(after_both == wildcard_matches(p@.skip(i - 1), t@.skip(x + 1)));
                assert(v == wildcard_matches(pat, txt));
            }
            let ghost old_rev = rev@;
            rev.push(v);
            assert(forall|z: int| 0 <= z < old_rev.len() ==> rev@[z] == old_rev[z]);
            m = x;
        }
        let mut next: Vec<bool> = Vec::new();
        let mut y: usize = 0;
        while y < tlen
            invariant
                y <= tlen,
                0 < i,
                tlen == t@.len(),
                rev@.len() == tlen,
                forall|x: int| 0 <= x < tlen ==> rev@[tlen - 1 - x] == wildcard_matches(p@.skip(i - 1), #[trigger] t@.skip(x)),
                next@.len() == y,
                forall|x: int| 0 <= x < y ==> next@[x] == wildcard_matches(p@.skip(i - 1), #[trigger] t@.skip(x)),
            decreases tlen - y,
        {
            next.push(rev[tlen - 1 - y]);
            y = y + 1;
        }
        row = next;
        row_end = new_end;
        i = i - 1;
    }
    assert(p@.skip(0) =~= pattern@);
    assert(t@.skip(0) =~= text@);
    if tlen == 0 {
        row_end
    } else {
        row[0]
    }
}

/// An object that can represent a route.
pub trait Route {
    /// Returns true if the given route matches the path.
    fn route_matches(&self, route: &str) -> bool;
}

impl Route for String {
    /// Whether this route matches the given one, respecting its own wildcards only: for
    /// example, `/blog/*` matches `/blog/my-first-post` but not the other way around.
    fn route_matches(&self, route: &str) -> (r: bool)
        ensures
            r == wildcard_matches(self@, route@),
    {
        wildcard_match(self.as_str(), route)
    }
}

/// The position of the first pattern that the text matches.
pub open spec fn first_match(patterns: Seq<Seq<char>>, text: Seq<char>) -> Option<int>
    decreases patterns.len(),
{
    if patterns.len() == 0 {
        None
    } else if wildcard_matches(patterns[0], text) {
        Some(0)
    } else {
        match first_match(patterns.drop_first(), text) {
            Some(i) => Some(i + 1),
            None => None,
        }
    }
}

/// Finds the first pattern that the text matches.
pub fn find_match(patterns: &[String], text: &str) -> (r: Option<usize>)
    ensures
        match first_match(patterns@.map_values(|p: String| p@), text@) {
            Some(i) => r == Some(i as usize) && 0 <= i < patterns@.len(),
            None => r is None,
        },
        r matches Some(k) ==> first_match(patterns@.map_values(|p: String| p@), text@) == Some(
            k as int,
        ),
{
    let ghost ps = patterns@.map_values(|p: String| p@);
    let mut i: usize = 0;
    assert(ps.skip(0) =~= ps);
    while i < patterns.len()
        invariant
            i <= patterns@.len(),
            ps == patterns@.map_values(|p: String| p@),
            first_match(ps, text@) == match first_match(ps.skip(i as int), text@) {
                Some(k) => Some(k + i),
                None => None,
            },
        decreases patterns.len() - i,
    {
        proof {
            lemma_skip_first(ps, i as int);
        }
        if wildcard_match(patterns[i].as_str(), text) {
            assert(ps.skip(i as int)[0] == ps[i as int]);
            return Some(i);
        }
        i = i + 1;
    }
    proof {
        assert(ps.skip(i as int).len() == 0);
    }
    None
}

/// The route chosen for a request.
#[derive(Clone, Copy, Debug, PartialEq, Eq, Structural)]
pub enum RouteChoice {
    /// The route at this position in the sub-app at that position.
    SubApp(usize, usize),
    /// The route at this position in the default sub-app.
    Default(usize),
}

/// The route chosen for a request: in the first sub-app whose host pattern matches the
/// request's host, the first route that matches its URI; failing that, the first route of
/// the default sub-app that matches its URI.
pub open spec fn route_choice(
    host: Option<Seq<char>>,
    uri: Seq<char>,
    hosts: Seq<Seq<char>>,
    routes: Seq<Seq<Seq<char>>>,
    default_routes: Seq<Seq<char>>,
) -> Option<RouteChoice> {
    let in_subapp = match host {
        Some(h) => match first_match(hosts, h) {
            Some(s) => if s < routes.len() {
                match first_match(routes[s], uri) {
                    Some(r) => Some(RouteChoice::SubApp(s as usize, r as usize)),
                    None => None,
                }
            } else {
                None
            },
            None => None,
        },
        None => None,
    };
    match in_subapp {
        Some(c) => Some(c),
        None => match first_match(default_routes, uri) {
            Some(r) => Some(RouteChoice::Default(r as usize)),
            None => None,
        },
    }
}

/// Chooses the route that serves a request, given the request's `Host` header and URI,
/// the host pattern and route patterns of each sub-app, and the default sub-app's routes.
pub fn select_route(
    host: Option<&str>,
    uri: &str,
    hosts: &[String],
    routes: &[Vec<String>],
    default_routes: &[String],
) -> (r: Option<RouteChoice>)
    ensures
        r == route_choice(
            match host {
                Some(h) => Some(h@),
                None => None,
            },
            uri@,
            hosts@.map_values(|p: String| p@),
            routes@.map_values(|v: Vec<String>| v@.map_values(|p: String| p@)),
            default_routes@.map_values(|p: String| p@),
        ),
{
    let ghost hs = hosts@.map_values(|p: String| p@);
    let ghost rs = routes@.map_values(|v: Vec<String>| v@.map_values(|p: String| p@));
    if let Some(h) = host {
        if let Some(s) = find_match(hosts, h) {
            if s < routes.len() {
                let candidates = routes[s].as_slice();
                assert(rs[s as int] == candidates@.map_values(|p: String| p@));
                if let Some(r) = find_match(candidates, uri) {
                    assert(first_match(hs, h@) == Some(s as int));
                    assert(s < rs.len());
                    assert(first_match(rs[s as int], uri@) == Some(r as int));
                    return Some(RouteChoice::SubApp(s, r));
                }
            }
        }
    }
    match find_match(default_routes, uri) {
        Some(r) => Some(RouteChoice::Default(r)),
        None => None,
    }
}

} // verus!
verus! {

/// A located file or directory path.
#[derive(Clone, Debug, PartialEq, Eq)]
pub enum LocatedPath {
    /// A directory was located.
    Directory,
    /// A file was located at the given path.
    File(String),
}

/// Where to look for the file that a request path names.
#[derive(Clone, Debug, PartialEq, Eq)]
pub enum PathLookup {
    /// The path names a directory: the first of these index files that exists is served.
    Index(Vec<String>),
    /// The path names this file, or a directory.
    Exact(String),
}

/// Whether the text has `..` at position `i`.
pub open spec fn dot_dot_at(s: Seq<char>, i: int) -> bool {
    s[i] == '.' && s[i + 1] == '.'
}

/// Whether a text holds `..`.
pub open spec fn has_dot_dot(s: Seq<char>) -> bool {
    exists|i: int| 0 <= i < s.len() - 1 && #[trigger] dot_dot_at(s, i)
}

/// Where to look for the file that a request path names inside a directory, or `None`
/// when the path is refused: the path is percent-decoded and must be UTF-8 without `..`
/// or `:`; its leading `/`s and the directory's trailing `/`s are dropped; a path that is
/// empty or ends in `/` names a directory, whose index files are looked for in order.
pub open spec fn path_lookup_spec(
    directory: Seq<char>,
    request_path: Seq<u8>,
    index_files: Seq<Seq<char>>,
) -> Option<(bool, Seq<Seq<char>>)> {
    match percent_decode_spec(request_path) {
        None => None,
        Some(decoded) => if !valid_utf8(decoded) {
            None
        } else {
            let p = decode_utf8(decoded);
            if has_dot_dot(p) || p.contains(':') {
                None
            } else {
                let q = trim_start_char(p, '/');
                let d = trim_end_char(directory, '/');
                if (q.len() > 0 && q.last() == '/') || q.len() == 0 {
                    Some((true, index_files.map_values(|f: Seq<char>| d + seq!['/'] + q + f)))
                } else {
                    Some((false, seq![d + seq!['/'] + q]))
                }
            }
        },
    }
}

fn has_forbidden(v: &Vec<char>) -> (r: bool)
    ensures
        r == (has_dot_dot(v@) || v@.contains(':')),
{
    let mut i: usize = 0;
    while i < v.len()
        invariant
            i <= v@.len(),
            forall|j: int| 0 <= j < i ==> v@[j] != ':',
            forall|j: int| 0 <= j < i && j + 1 < v@.len() ==> !#[trigger] dot_dot_at(v@, j),
        decreases v.len() - i,
    {
        if v[i] == ':' {
            return true;
        }
        if i + 1 < v.len() && v[i] == '.' && v[i + 1] == '.' {
            assert(dot_dot_at(v@, i as int));
            return true;
        }
        i = i + 1;
    }
    false
}

/// Dropping leading characters leaves a suffix of the text.
proof fn lemma_trim_start_char_suffix(s: Seq<char>, c: char) -> (k: int)
    ensures
        0 <= k <= s.len(),
        trim_start_char(s, c) == s.skip(k),
    decreases s.len(),
{
    if s.len() > 0 && s[0] == c {
        let k = lemma_trim_start_char_suffix(s.drop_first(), c);
        assert(s.drop_first().skip(k) =~= s.skip(k + 1));
        k + 1
    } else {
        assert(s.skip(0) =~= s);
        0
    }
}

/// A suffix of a text without `..` has none either.
proof fn lemma_no_dot_dot_skip(s: Seq<char>, k: int)
    requires
        0 <= k <= s.len(),
        !has_dot_dot(s),
    ensures
        !has_dot_dot(s.skip(k)),
{
    let t = s.skip(k);
    if has_dot_dot(t) {
        let i = choose|i: int| 0 <= i < t.len() - 1 && #[trigger] dot_dot_at(t, i);
        assert(dot_dot_at(s, i + k));
    }
}

/// Two texts without `..`, the first of which does not end with `.`, make a text without
/// `..`.
proof fn lemma_no_dot_dot_concat(a: Seq<char>, b: Seq<char>)
    requires
        !has_dot_dot(a),
        !has_dot_dot(b),
        a.len() == 0 || a.last() != '.',
    ensures
        !has_dot_dot(a + b),
{
    let t = a + b;
    if has_dot_dot(t) {
        let i = choose|i: int| 0 <= i < t.len() - 1 && #[trigger] dot_dot_at(t, i);
        if i + 1 < a.len() {
            assert(dot_dot_at(a, i));
        } else if i >= a.len() {
            assert(dot_dot_at(b, i - a.len()));
        } else {
            assert(t[i] == a.last());
        }
    }
}

/// Every path that a request path is looked up at lies inside the directory: it is the
/// directory (without trailing `/`s), a `/`, and a rest that holds no `..`, when the index
/// files hold none.
pub proof fn lemma_lookup_stays_in_directory(
    directory: Seq<char>,
    request_path: Seq<u8>,
    index_files: Seq<Seq<char>>,
)
    requires
        forall|i: int| 0 <= i < index_files.len() ==> !has_dot_dot(#[trigger] index_files[i]),
    ensures
        path_lookup_spec(directory, request_path, index_files) matches Some((_, paths)) ==> forall|
            i: int,
        |
            0 <= i < paths.len() ==> exists|rest: Seq<char>|
                #[trigger] paths[i] == trim_end_char(directory, '/') + seq!['/'] + rest && !has_dot_dot(
                    rest,
                ),
{
    match percent_decode_spec(request_path) {
        None => {},
        Some(decoded) => {
            if valid_utf8(decoded) {
                let p = decode_utf8(decoded);
                if !(has_dot_dot(p) || p.contains(':')) {
                    let q = trim_start_char(p, '/');
                    let d = trim_end_char(directory, '/');
                    let k = lemma_trim_start_char_suffix(p, '/');
                    lemma_no_dot_dot_skip(p, k);
                    if (q.len() > 0 && q.last() == '/') || q.len() == 0 {
                        let paths = index_files.map_values(|f: Seq<char>| d + seq!['/'] + q + f);
                        assert forall|i: int| 0 <= i < paths.len() implies exists|rest: Seq<char>|
                            #[trigger] paths[i] == d + seq!['/'] + rest && !has_dot_dot(rest) by {
                            lemma_no_dot_dot_concat(q, index_files[i]);
                            assert(paths[i] =~= d + seq!['/'] + (q + index_files[i]));
                        }
                    } else {
                        let paths = seq![d + seq!['/'] + q];
                        assert forall|i: int| 0 <= i < paths.len() implies exists|rest: Seq<char>|
                            #[trigger] paths[i] == d + seq!['/'] + rest && !has_dot_dot(rest) by {
                            assert(paths[i] == d + seq!['/'] + q);
                        }
                    }
                }
            }
        },
    }
}

/// Works out where to look for the file that a request path names inside a directory.
pub fn path_lookup(directory: &str, request_path: &str, index_files: &[&str]) -> (r: Option<PathLookup>)
    ensures
        match path_lookup_spec(
            directory@,
            request_path.spec_bytes(),
            index_files@.map_values(|f: &str| f@),
        ) {
            None => r is None,
            Some((true, paths)) => r matches Some(PathLookup::Index(v)) && v@.map_values(
                |s: String| s@,
            ) == paths,
            Some((false, paths)) => r matches Some(PathLookup::Exact(s)) && s@ == paths[0],
        },
{
    let decoded = match percent_decode_bytes(request_path.as_bytes()) {
        Some(d) => d,
        None => return None,
    };
    let text = match utf8_string(decoded.as_slice()) {
        Some(t) => t,
        None => return None,
    };
    let pv = chars_of(text.as_str());
    if has_forbidden(&pv) {
        return None;
    }
    let q = trim_start_matches(&pv, '/');
    let dv = chars_of(directory);
    let d = trim_end_matches(&dv, '/');
    let qv = chars_of(q.as_str());
    let ghost files = index_files@.map_values(|f: &str| f@);
    if qv.len() == 0 || qv[qv.len() - 1] == '/' {
        let mut paths: Vec<String> = Vec::new();
        let mut i: usize = 0;
        while i < index_files.len()
            invariant
                i <= index_files@.len(),
                files == index_files@.map_values(|f: &str| f@),
                paths@.len() == i,
                forall|j: int|
                    0 <= j < i ==> (#[trigger] paths@[j])@ == d@ + seq!['/'] + q@ + files[j],
            decreases index_files.len() - i,
        {
            let mut path = String::new();
            string_push_str(&mut path, d.as_str());
            string_push(&mut path, '/');
            string_push_str(&mut path, q.as_str());
            string_push_str(&mut path, index_files[i]);
            paths.push(path);
            i = i + 1;
        }
        assert(paths@.map_values(|s: String| s@) =~= files.map_values(
            |f: Seq<char>| d@ + seq!['/'] + q@ + f,
        ));
        Some(PathLookup::Index(paths))
    } else {
        let mut path = String::new();
        string_push_str(&mut path, d.as_str());
        string_push(&mut path, '/');
        string_push_str(&mut path, q.as_str());
        Some(PathLookup::Exact(path))
    }
}

/// The request URI with the route's text before any trailing `*` removed from its start,
/// when it starts with it; otherwise the URI itself.
pub open spec fn uri_within_route(route: Seq<char>, uri: Seq<char>) -> Seq<char> {
    let base = if route.len() > 0 && route.last() == '*' {
        route.drop_last()
    } else {
        route
    };
    if has_prefix(uri, base) {
        uri.skip(base.len() as int)
    } else {
        uri
    }
}

/// The part of a request URI below the route that matched it, as a served directory
/// sees it.
pub fn strip_route(route: &str, uri: &str) -> (r: String)
    ensures
        r@ == uri_within_route(route@, uri@),
{
    let rv = chars_of(route);
    let base = if rv.len() > 0 && rv[rv.len() - 1] == '*' {
        string_of_range(&rv, 0, rv.len() - 1)
    } else {
        string_of_range(&rv, 0, rv.len())
    };
    assert(rv@.subrange(0, rv@.len() as int) =~= rv@);
    proof {
        if rv@.len() > 0 {
            assert(rv@.subrange(0, rv@.len() - 1) =~= rv@.drop_last());
        }
    }
    let uv = chars_of(uri);
    if starts_with(uri, base.as_str()) {
        let bv = chars_of(base.as_str());
        let r = string_of_range(&uv, bv.len(), uv.len());
        assert(uv@.subrange(bv@.len() as int, uv@.len() as int) =~= uv@.skip(bv@.len() as int));
        r
    } else {
        assert(uv@.subrange(0, uv@.len() as int) =~= uv@);
        string_of_range(&uv, 0, uv.len())
    }
}

/// The path of the file that a request URI names when it is read as a path relative
/// to a directory: the directory without one trailing `/`, a `/`, and the URI without one
/// leading `/`.
pub open spec fn file_path_spec(directory: Seq<char>, uri: Seq<char>) -> Seq<char> {
    let d = if directory.len() > 0 && directory.last() == '/' {
        directory.drop_last()
    } else {
        directory
    };
    let u = if uri.len() > 0 && uri[0] == '/' {
        uri.drop_first()
    } else {
        uri
    };
    d + seq!['/'] + u
}

/// The path of the file that a request URI names inside a directory (see
/// `file_path_spec`).
pub fn file_path_in(directory: &str, uri: &str) -> (r: String)
    ensures
        r@ == file_path_spec(directory@, uri@),
{
    let dv = chars_of(directory);
    let uv = chars_of(uri);
    let d = if dv.len() > 0 && dv[dv.len() - 1] == '/' {
        string_of_range(&dv, 0, dv.len() - 1)
    } else {
        string_of_range(&dv, 0, dv.len())
    };
    let u = if uv.len() > 0 && uv[0] == '/' {
        string_of_range(&uv, 1, uv.len())
    } else {
        string_of_range(&uv, 0, uv.len())
    };
    proof {
        assert(dv@.subrange(0, dv@.len() as int) =~= dv@);
        assert(uv@.subrange(0, uv@.len() as int) =~= uv@);
        if dv@.len() > 0 {
            assert(dv@.subrange(0, dv@.len() - 1) =~= dv@.drop_last());
        }
        if uv@.len() > 0 {
            assert(uv@.subrange(1, uv@.len() as int) =~= uv@.drop_first());
        }
    }
    let mut path = String::new();
    string_push_str(&mut path, d.as_str());
    string_push(&mut path, '/');
    string_push_str(&mut path, u.as_str());
    assert(path@ =~= file_path_spec(directory@, uri@));
    path
}

} // verus!
