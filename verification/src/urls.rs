//! Small URL and version-string rules: the host of a template, the origin
//! of a URL, the `GetCapabilities` URL of a WMTS service, and the comparison
//! of `major.minor.patch` versions.

use vstd::prelude::*;
use crate::text::{
    chars_of, concat_chars, contains_chars, contains_sub, find_char, find_chars, find_first,
    lower_text, parse_unsigned, parse_unsigned_chars, replace_all, slice_chars, split_chars, split_on, string_of,
    to_lowercase_chars, views,
};

verus! {

/// The host part of a URL: between `://` and the next `/`.
pub open spec fn host_of(url: Seq<char>) -> Option<Seq<char>> {
    match find_first(url, "://"@) {
        Some(i) => {
            let rest = url.subrange(i + 3, url.len() as int);
            Some(
                match find_first(rest, seq!['/']) {
                    Some(e) => rest.subrange(0, e),
                    None => rest,
                },
            )
        },
        None => None,
    }
}

fn host_parts(u: &Vec<char>) -> (r: Option<(usize, Vec<char>)>)
    ensures
        match r {
            Some((i, h)) => find_first(u@, "://"@) == Some(i as int) && host_of(u@) == Some(h@),
            None => find_first(u@, "://"@) is None && host_of(u@) is None,
        },
        r matches Some((i, _)) ==> i + 3 <= u@.len(),
{
    let sep = chars_of("://");
    proof {
        reveal_strlit("://");
    }
    assert(sep@.len() == 3);
    match find_chars(u, &sep) {
        Some(i) => {
            let n = u.len();
            let rest = slice_chars(u, i + 3, n);
            let h = match find_char(&rest, '/') {
                Some(e) => slice_chars(&rest, 0, e),
                None => rest,
            };
            Some((i, h))
        },
        None => None,
    }
}

/// The host of a URL template (a `{s}` placeholder stays in it).
pub fn extract_host(url_template: &str) -> (r: Option<String>)
    ensures
        match r {
            Some(h) => host_of(url_template@) == Some(h@),
            None => host_of(url_template@) is None,
        },
{
    match host_parts(&chars_of(url_template)) {
        Some((_, h)) => Some(string_of(&h)),
        None => None,
    }
}

/// The origin of a URL (scheme and host), used as `Referer`: the text
/// before `://`, then `://` and the host; the URL itself without `://`.
pub open spec fn origin_of(url: Seq<char>) -> Seq<char> {
    match find_first(url, "://"@) {
        Some(i) => url.subrange(0, i) + "://"@ + host_of(url).unwrap(),
        None => url,
    }
}

/// The origin (scheme and host) of a URL.
pub fn extract_origin(url: &str) -> (r: String)
    ensures
        r@ == origin_of(url@),
{
    let u = chars_of(url);
    match host_parts(&u) {
        Some((i, h)) => {
            let scheme = slice_chars(&u, 0, i);
            let with_sep = concat_chars(&scheme, &chars_of("://"));
            string_of(&concat_chars(&with_sep, &h))
        },
        None => String::from_str(url),
    }
}

/// A WMTS service URL with the `GetCapabilities` request: unchanged when it
/// already asks for it (compared lower-cased), else with the request
/// parameters appended after `?` (or `&` when it has a query).
pub open spec fn capabilities_url(url: Seq<char>) -> Seq<char> {
    if contains_sub(lower_text(url), "request=getcapabilities"@) {
        url
    } else {
        url + (if contains_sub(url, seq!['?']) {
            seq!['&']
        } else {
            seq!['?']
        }) + "SERVICE=WMTS&REQUEST=GetCapabilities&VERSION=1.0.0"@
    }
}

/// Makes sure a WMTS URL asks for the capabilities document.
pub fn build_capabilities_url(url: &str) -> (r: String)
    ensures
        r@ == capabilities_url(url@),
{
    let u = chars_of(url);
    let lower = to_lowercase_chars(&u);
    if contains_chars(&lower, &chars_of("request=getcapabilities")) {
        return String::from_str(url);
    }
    let q = vec!['?'];
    assert(q@ =~= seq!['?']);
    let sep = if contains_chars(&u, &q) {
        vec!['&']
    } else {
        vec!['?']
    };
    let head = concat_chars(&u, &sep);
    let r = concat_chars(&head, &chars_of("SERVICE=WMTS&REQUEST=GetCapabilities&VERSION=1.0.0"));
    assert(sep@ =~= (if contains_sub(u@, seq!['?']) {
        seq!['&']
    } else {
        seq!['?']
    }));
    string_of(&r)
}

/// The number in part `i` of a version's `.`-separated parts: 0 where the
/// part is missing or does not read as a `u64`.
pub open spec fn version_part(parts: Seq<Seq<char>>, i: int) -> nat {
    if 0 <= i < parts.len() {
        match parse_unsigned(parts[i], 0xffff_ffff_ffff_ffff) {
            Some(n) => n,
            None => 0,
        }
    } else {
        0
    }
}

/// `(major, minor, patch)` of a version text.
pub open spec fn version_of(v: Seq<char>) -> (nat, nat, nat) {
    let parts = split_on(v, '.');
    (version_part(parts, 0), version_part(parts, 1), version_part(parts, 2))
}

/// Lexicographic order of version triples.
pub open spec fn triple_gt(a: (nat, nat, nat), b: (nat, nat, nat)) -> bool {
    a.0 > b.0 || (a.0 == b.0 && (a.1 > b.1 || (a.1 == b.1 && a.2 > b.2)))
}

fn part_value(parts: &Vec<Vec<char>>, i: usize) -> (r: u64)
    ensures
        r == version_part(views(parts@), i as int),
{
    if i < parts.len() {
        assert(views(parts@)[i as int] == parts@[i as int]@);
        match parse_unsigned_chars(&parts[i], 0xffff_ffff_ffff_ffff) {
            Some(n) => n,
            None => 0,
        }
    } else {
        0
    }
}

fn version_exec(v: &str) -> (r: (u64, u64, u64))
    ensures
        (r.0 as nat, r.1 as nat, r.2 as nat) == version_of(v@),
{
    let parts = split_chars(&chars_of(v), '.');
    (part_value(&parts, 0), part_value(&parts, 1), part_value(&parts, 2))
}

/// Whether version `latest` is newer than `current`, comparing
/// `major.minor.patch` numerically.
pub fn is_newer(latest: &str, current: &str) -> (r: bool)
    ensures
        r == triple_gt(version_of(latest@), version_of(current@)),
{
    let a = version_exec(latest);
    let b = version_exec(current);
    a.0 > b.0 || (a.0 == b.0 && (a.1 > b.1 || (a.1 == b.1 && a.2 > b.2)))
}

/// "Newer" is a strict order: never both ways, and transitive.
pub proof fn lemma_newer_strict_order(a: Seq<char>, b: Seq<char>, c: Seq<char>)
    ensures
        !(triple_gt(version_of(a), version_of(b)) && triple_gt(version_of(b), version_of(a))),
        triple_gt(version_of(a), version_of(b)) && triple_gt(version_of(b), version_of(c))
            ==> triple_gt(version_of(a), version_of(c)),
        !triple_gt(version_of(a), version_of(a)),
{
}

/// The URL a template is probed with: tile 1/0/0 on sub-domain `a`, when
/// the result is an http(s) URL.
pub open spec fn probe_url_of(template: Seq<char>) -> Option<Seq<char>> {
    let u = replace_all(
        replace_all(replace_all(replace_all(template, "{z}"@, "1"@), "{x}"@, "0"@), "{y}"@, "0"@),
        "{s}"@,
        "a"@,
    );
    if crate::text::has_prefix(u, "http://"@) || crate::text::has_prefix(u, "https://"@) {
        Some(u)
    } else {
        None
    }
}

/// The URL to probe a tile template with; `None` when it is not http(s).
pub fn probe_url(template: &str) -> (r: Option<String>)
    ensures
        match r {
            Some(u) => probe_url_of(template@) == Some(u@),
            None => probe_url_of(template@) is None,
        },
{
    proof {
        reveal_strlit("{z}");
        reveal_strlit("{x}");
        reveal_strlit("{y}");
        reveal_strlit("{s}");
    }
    let a = crate::text::replace_str(template, "{z}", "1");
    let b = crate::text::replace_str(a.as_str(), "{x}", "0");
    let c = crate::text::replace_str(b.as_str(), "{y}", "0");
    let d = crate::text::replace_str(c.as_str(), "{s}", "a");
    let dv = chars_of(d.as_str());
    if crate::text::starts_with_chars(&dv, &chars_of("http://")) || crate::text::starts_with_chars(&dv, &chars_of("https://")) {
        Some(d)
    } else {
        None
    }
}

} // verus!
