//! Turning a concrete tile URL captured from a web page into a
//! `{z}/{x}/{y}` URL template, and keeping one source per template of those a
//! capture session reports.

use vstd::prelude::*;
use crate::text::{
    chars_of, concat_chars, eq_chars, find_char, find_chars, find_first, has_suffix, join,
    join_chars, lower_text, opt_index, parse_unsigned, parse_unsigned_chars, push_all, rfind_char,
    find_last_char, slice_chars, split_chars, split_on, string_of, strip_prefix, strip_prefix_chars,
    to_lowercase_chars, trim, trim_chars, views, contains_sub, contains_chars, ends_with_chars, str_eq,
};
use crate::types::{CrsType, SourceKind, TileSource};

verus! {

/// Largest value of `u64`, the type coordinates are parsed into.
pub open spec fn u64_max() -> nat {
    0xffff_ffff_ffff_ffff
}

// ─── path form ──────────────────────────────────────────────────────────────

/// `raw` split at its first `?`: the part before, and the query including the `?`.
pub open spec fn split_at_query(raw: Seq<char>) -> (Seq<char>, Seq<char>) {
    match find_first(raw, seq!['?']) {
        Some(i) => (raw.subrange(0, i), raw.subrange(i, raw.len() as int)),
        None => (raw, Seq::<char>::empty()),
    }
}

/// The stem of a path segment: before its last `.`, or all of it.
pub open spec fn seg_stem(seg: Seq<char>) -> Seq<char> {
    match find_last_char(seg, '.') {
        Some(d) => seg.subrange(0, d),
        None => seg,
    }
}

/// The extension of a path segment: from its last `.` on, or empty.
pub open spec fn seg_ext(seg: Seq<char>) -> Seq<char> {
    match find_last_char(seg, '.') {
        Some(d) => seg.subrange(d, seg.len() as int),
        None => Seq::<char>::empty(),
    }
}

/// Segments `i`, `i+1`, `i+2` read as zoom, column and row: three decimal
/// numbers (the row may carry an extension) with zoom at most 24.
pub open spec fn is_tile_triple(segs: Seq<Seq<char>>, i: int) -> bool {
    &&& parse_unsigned(segs[i], u64_max()) matches Some(z) && z <= 24
    &&& parse_unsigned(segs[i + 1], u64_max()) is Some
    &&& parse_unsigned(seg_stem(segs[i + 2]), u64_max()) is Some
}

/// First `i >= from` with `i + 2 < segs.len()` that starts a tile triple.
pub open spec fn first_tile_triple(segs: Seq<Seq<char>>, from: int) -> Option<int>
    decreases segs.len() - from,
{
    if from < 0 || from + 2 >= segs.len() {
        None
    } else if is_tile_triple(segs, from) {
        Some(from)
    } else {
        first_tile_triple(segs, from + 1)
    }
}

/// Index where the host part of `base` ends: the first `/` after `://`
/// (given at `scheme_end`), or the end of `base`.
pub open spec fn host_end(base: Seq<char>, scheme_end: int) -> int {
    let after = scheme_end + 3;
    match find_first(base.subrange(after, base.len() as int), seq!['/']) {
        Some(j) => after + j,
        None => base.len() as int,
    }
}

/// What `tile_url_to_template` returns.
pub open spec fn url_template_of(raw: Seq<char>) -> Option<Seq<char>> {
    let base = split_at_query(raw).0;
    let query = split_at_query(raw).1;
    match find_first(base, "://"@) {
        None => None,
        Some(se) => {
            let he = host_end(base, se);
            let segs = split_on(base.subrange(he, base.len() as int), '/');
            match first_tile_triple(segs, 0) {
                Some(i) => Some(
                    base.subrange(0, he) + join(segs.subrange(0, i), "/"@) + "/{z}/{x}/{y}"@
                        + seg_ext(segs[i + 2]) + query,
                ),
                None => query_template_of(raw),
            }
        },
    }
}

// ─── query form ─────────────────────────────────────────────────────────────

/// One `key=value` item of a query string: the trimmed text before the first
/// `=` and the trimmed text after it; items with an empty key are dropped.
pub open spec fn query_param(kv: Seq<char>) -> Option<(Seq<char>, Seq<char>)> {
    let k = match find_first(kv, seq!['=']) {
        Some(i) => kv.subrange(0, i),
        None => kv,
    };
    let v = match find_first(kv, seq!['=']) {
        Some(i) => kv.subrange(i + 1, kv.len() as int),
        None => Seq::<char>::empty(),
    };
    if trim(k).len() == 0 {
        None
    } else {
        Some((trim(k), trim(v)))
    }
}

/// The parameters of the `&`-separated items, in order.
pub open spec fn collect_params(items: Seq<Seq<char>>) -> Seq<(Seq<char>, Seq<char>)>
    decreases items.len(),
{
    if items.len() == 0 {
        Seq::empty()
    } else {
        match query_param(items.last()) {
            Some(p) => collect_params(items.drop_last()).push(p),
            None => collect_params(items.drop_last()),
        }
    }
}

/// First parameter at or after `j` whose lower-cased key is `name`.
pub open spec fn find_key(ps: Seq<(Seq<char>, Seq<char>)>, name: Seq<char>, j: int) -> Option<int>
    decreases ps.len() - j,
{
    if j < 0 || j >= ps.len() {
        None
    } else if lower_text(ps[j].0) == name {
        Some(j)
    } else {
        find_key(ps, name, j + 1)
    }
}

/// Tries `names[i..]` in turn: the first name whose first matching
/// parameter has an integer value gives that parameter's index and value.
pub open spec fn find_int(ps: Seq<(Seq<char>, Seq<char>)>, names: Seq<Seq<char>>, i: int) -> Option<(int, nat)>
    decreases names.len() - i,
{
    if i < 0 || i >= names.len() {
        None
    } else {
        match find_key(ps, names[i], 0) {
            Some(j) => match parse_unsigned(ps[j].1, u64_max()) {
                Some(n) => Some((j, n)),
                None => find_int(ps, names, i + 1),
            },
            None => find_int(ps, names, i + 1),
        }
    }
}

pub open spec fn z_names() -> Seq<Seq<char>> {
    seq!["z"@, "l"@, "level"@, "zoom"@, "tilematrix"@, "lev"@, "zoomlevel"@]
}

pub open spec fn x_names() -> Seq<Seq<char>> {
    seq!["x"@, "col"@, "tilecol"@, "tilecolumn"@, "column"@]
}

pub open spec fn y_names() -> Seq<Seq<char>> {
    seq!["y"@, "row"@, "tilerow"@]
}

/// The keys of the zoom, column and row parameters, when all three are
/// found, the zoom is at most 24 and the three keys differ.
pub open spec fn zxy_params(ps: Seq<(Seq<char>, Seq<char>)>) -> Option<(Seq<char>, Seq<char>, Seq<char>)> {
    match (find_int(ps, z_names(), 0), find_int(ps, x_names(), 0), find_int(ps, y_names(), 0)) {
        (Some((zi, zv)), Some((xi, _)), Some((yi, _))) => {
            let zk = ps[zi].0;
            let xk = ps[xi].0;
            let yk = ps[yi].0;
            if zv > 24 || zk == xk || zk == yk || xk == yk {
                None
            } else {
                Some((zk, xk, yk))
            }
        },
        _ => None,
    }
}

/// A rebuilt query item: the coordinate keys get their placeholder as value.
pub open spec fn query_item(p: (Seq<char>, Seq<char>), zk: Seq<char>, xk: Seq<char>, yk: Seq<char>) -> Seq<char> {
    if p.0 == zk {
        p.0 + "={z}"@
    } else if p.0 == xk {
        p.0 + "={x}"@
    } else if p.0 == yk {
        p.0 + "={y}"@
    } else {
        p.0 + "="@ + p.1
    }
}

/// What `tile_url_to_template_query` returns.
pub open spec fn query_template_of(raw: Seq<char>) -> Option<Seq<char>> {
    match find_first(raw, seq!['?']) {
        None => None,
        Some(q) => {
            let ps = collect_params(split_on(raw.subrange(q + 1, raw.len() as int), '&'));
            match zxy_params(ps) {
                None => None,
                Some((zk, xk, yk)) => Some(
                    raw.subrange(0, q) + "?"@ + join(
                        ps.map_values(|p: (Seq<char>, Seq<char>)| query_item(p, zk, xk, yk)),
                        "&"@,
                    ),
                ),
            }
        },
    }
}

pub open spec fn param_views(v: Seq<(Vec<char>, Vec<char>)>) -> Seq<(Seq<char>, Seq<char>)> {
    v.map_values(|p: (Vec<char>, Vec<char>)| (p.0@, p.1@))
}

// ─── executable ─────────────────────────────────────────────────────────────

fn parse_query_param(kv: &Vec<char>) -> (r: Option<(Vec<char>, Vec<char>)>)
    ensures
        r matches Some(p) ==> query_param(kv@) == Some((p.0@, p.1@)),
        r is None ==> query_param(kv@) is None,
{
    let pos = find_char(kv, '=');
    let (k0, v0) = if let Some(i) = pos {
        assert(i < kv@.len());
        (slice_chars(kv, 0, i), slice_chars(kv, i + 1, kv.len()))
    } else {
        (kv.clone(), Vec::new())
    };
    proof {
        assert(v0@ =~= (match find_first(kv@, seq!['=']) {
            Some(i) => kv@.subrange(i + 1, kv@.len() as int),
            None => Seq::<char>::empty(),
        }));
    }
    let k = trim_chars(&k0);
    let v = trim_chars(&v0);
    if k.len() == 0 {
        None
    } else {
        Some((k, v))
    }
}

fn collect_query_params(qs: &Vec<char>) -> (r: Vec<(Vec<char>, Vec<char>)>)
    ensures
        param_views(r@) == collect_params(split_on(qs@, '&')),
{
    let items = split_chars(qs, '&');
    let mut r: Vec<(Vec<char>, Vec<char>)> = Vec::new();
    let mut i: usize = 0;
    assert(views(items@).subrange(0, 0) =~= Seq::<Seq<char>>::empty());
    assert(param_views(r@) =~= Seq::<(Seq<char>, Seq<char>)>::empty());
    while i < items.len()
        invariant
            i <= items.len(),
            param_views(r@) == collect_params(views(items@).subrange(0, i as int)),
        decreases items.len() - i,
    {
        let ghost v = views(items@);
        assert(v.subrange(0, i + 1).drop_last() =~= v.subrange(0, i as int));
        assert(v.subrange(0, i + 1).last() == items@[i as int]@);
        let ghost old_r = param_views(r@);
        match parse_query_param(&items[i]) {
            Some(p) => {
                r.push(p);
                assert(param_views(r@) =~= old_r.push((p.0@, p.1@)));
            },
            None => {},
        }
        i += 1;
    }
    assert(views(items@).subrange(0, items@.len() as int) =~= views(items@));
    r
}

fn find_key_exec(ps: &Vec<(Vec<char>, Vec<char>)>, name: &Vec<char>) -> (r: Option<usize>)
    ensures
        opt_index(r) == find_key(param_views(ps@), name@, 0),
        r matches Some(j) ==> j < ps.len(),
{
    let mut j: usize = 0;
    while j < ps.len()
        invariant
            j <= ps.len(),
            find_key(param_views(ps@), name@, 0) == find_key(param_views(ps@), name@, j as int),
        decreases ps.len() - j,
    {
        let low = to_lowercase_chars(&ps[j].0);
        if eq_chars(&low, name) {
            return Some(j);
        }
        j += 1;
    }
    None
}

fn find_int_exec(ps: &Vec<(Vec<char>, Vec<char>)>, names: &Vec<Vec<char>>) -> (r: Option<(usize, u64)>)
    ensures
        r matches Some((j, n)) ==> find_int(param_views(ps@), views(names@), 0) == Some((j as int, n as nat)) && j < ps.len(),
        r is None ==> find_int(param_views(ps@), views(names@), 0) is None,
{
    let mut i: usize = 0;
    while i < names.len()
        invariant
            i <= names.len(),
            find_int(param_views(ps@), views(names@), 0) == find_int(param_views(ps@), views(names@), i as int),
        decreases names.len() - i,
    {
        match find_key_exec(ps, &names[i]) {
            Some(j) => match parse_unsigned_chars(&ps[j].1, 0xffff_ffff_ffff_ffff) {
                Some(n) => {
                    return Some((j, n));
                },
                None => {},
            },
            None => {},
        }
        i += 1;
    }
    None
}

fn names_vec(which: u8) -> (r: Vec<Vec<char>>)
    ensures
        which == 0 ==> views(r@) == z_names(),
        which == 1 ==> views(r@) == x_names(),
        which != 0 && which != 1 ==> views(r@) == y_names(),
{
    if which == 0 {
        let r = vec![chars_of("z"), chars_of("l"), chars_of("level"), chars_of("zoom"),
            chars_of("tilematrix"), chars_of("lev"), chars_of("zoomlevel")];
        assert(views(r@) =~= z_names());
        r
    } else if which == 1 {
        let r = vec![chars_of("x"), chars_of("col"), chars_of("tilecol"), chars_of("tilecolumn"),
            chars_of("column")];
        assert(views(r@) =~= x_names());
        r
    } else {
        let r = vec![chars_of("y"), chars_of("row"), chars_of("tilerow")];
        assert(views(r@) =~= y_names());
        r
    }
}

/// Finds the zoom, column and row parameters among `ps`; returns their
/// indices.
pub fn find_zxy_params(ps: &Vec<(Vec<char>, Vec<char>)>) -> (r: Option<(usize, usize, usize)>)
    ensures
        r matches Some((zi, xi, yi)) ==> zi < ps.len() && xi < ps.len() && yi < ps.len()
            && zxy_params(param_views(ps@)) == Some((ps@[zi as int].0@, ps@[xi as int].0@, ps@[yi as int].0@)),
        r is None ==> zxy_params(param_views(ps@)) is None,
{
    let zn = names_vec(0);
    let xn = names_vec(1);
    let yn = names_vec(2);
    let (zi, zv) = match find_int_exec(ps, &zn) {
        Some(p) => p,
        None => return None,
    };
    let (xi, _) = match find_int_exec(ps, &xn) {
        Some(p) => p,
        None => return None,
    };
    let (yi, _) = match find_int_exec(ps, &yn) {
        Some(p) => p,
        None => return None,
    };
    if zv > 24 {
        return None;
    }
    if eq_chars(&ps[zi].0, &ps[xi].0) || eq_chars(&ps[zi].0, &ps[yi].0) || eq_chars(&ps[xi].0, &ps[yi].0) {
        return None;
    }
    Some((zi, xi, yi))
}

/// Converts a query-parameter tile URL into a template.
///
/// e.g. `https://t6.tianditu.gov.cn/DataServer?T=img_w&x=849&y=419&l=10&tk=abc`
/// becomes `https://t6.tianditu.gov.cn/DataServer?T=img_w&x={x}&y={y}&l={z}&tk=abc`.
pub fn tile_url_to_template_query(raw: &str) -> (r: Option<String>)
    ensures
        r matches Some(t) ==> query_template_of(raw@) == Some(t@),
        r is None ==> query_template_of(raw@) is None,
{
    let rv = chars_of(raw);
    let q = match find_char(&rv, '?') {
        Some(q) => q,
        None => return None,
    };
    proof {
        crate::text::lemma_find_from(rv@, seq!['?'], 0);
    }
    let base = slice_chars(&rv, 0, q);
    let qs = slice_chars(&rv, q + 1, rv.len());
    let ps = collect_query_params(&qs);
    let (zi, xi, yi) = match find_zxy_params(&ps) {
        Some(t) => t,
        None => return None,
    };
    let ghost zk = ps@[zi as int].0@;
    let ghost xk = ps@[xi as int].0@;
    let ghost yk = ps@[yi as int].0@;
    let mut items: Vec<Vec<char>> = Vec::new();
    let mut j: usize = 0;
    while j < ps.len()
        invariant
            j <= ps.len(),
            zi < ps.len() && xi < ps.len() && yi < ps.len(),
            zk == ps@[zi as int].0@,
            xk == ps@[xi as int].0@,
            yk == ps@[yi as int].0@,
            views(items@) == param_views(ps@).subrange(0, j as int).map_values(
                |p: (Seq<char>, Seq<char>)| query_item(p, zk, xk, yk),
            ),
        decreases ps.len() - j,
    {
        let k = &ps[j].0;
        let item = if eq_chars(k, &ps[zi].0) {
            concat_chars(k, &chars_of("={z}"))
        } else if eq_chars(k, &ps[xi].0) {
            concat_chars(k, &chars_of("={x}"))
        } else if eq_chars(k, &ps[yi].0) {
            concat_chars(k, &chars_of("={y}"))
        } else {
            let a = concat_chars(k, &chars_of("="));
            concat_chars(&a, &ps[j].1)
        };
        let ghost old_items = views(items@);
        items.push(item);
        assert(views(items@) =~= old_items.push(item@));
        j += 1;
        assert(views(items@) =~= param_views(ps@).subrange(0, j as int).map_values(
            |p: (Seq<char>, Seq<char>)| query_item(p, zk, xk, yk),
        ));
    }
    assert(param_views(ps@).subrange(0, ps@.len() as int) =~= param_views(ps@));
    assert(items@.subrange(0, items@.len() as int) =~= items@);
    let amp = chars_of("&");
    let joined = join_chars(&items, 0, items.len(), &amp);
    let qm = chars_of("?");
    let mut out = base;
    push_all(&mut out, &qm);
    push_all(&mut out, &joined);
    proof {
        let pv = param_views(ps@);
        assert(find_first(rv@, seq!['?']) == Some(q as int));
        assert(rv@.subrange(q + 1, rv@.len() as int) == qs@);
        assert(pv == collect_params(split_on(qs@, '&')));
        assert(zxy_params(pv) == Some((zk, xk, yk)));
        assert(views(items@).subrange(0, items@.len() as int) =~= views(items@));
        assert(joined@ == join(views(items@), "&"@));
        assert(views(items@) =~= pv.map_values(|p: (Seq<char>, Seq<char>)| query_item(p, zk, xk, yk)));
        assert(out@ =~= rv@.subrange(0, q as int) + "?"@ + join(
            pv.map_values(|p: (Seq<char>, Seq<char>)| query_item(p, zk, xk, yk)), "&"@));
    }
    Some(string_of(&out))
}

fn parse_u64_ok(s: &Vec<char>) -> (r: Option<u64>)
    ensures
        r matches Some(v) ==> parse_unsigned(s@, u64_max()) == Some(v as nat),
        r is None ==> parse_unsigned(s@, u64_max()) is None,
{
    parse_unsigned_chars(s, 0xffff_ffff_ffff_ffff)
}

fn tile_triple_at(segs: &Vec<Vec<char>>, i: usize) -> (r: bool)
    requires
        i + 2 < segs.len(),
    ensures
        r == is_tile_triple(views(segs@), i as int),
{
    let z = match parse_u64_ok(&segs[i]) {
        Some(z) => z,
        None => return false,
    };
    if parse_u64_ok(&segs[i + 1]).is_none() {
        return false;
    }
    let y_raw = &segs[i + 2];
    let stem = match rfind_char(y_raw, '.') {
        Some(d) => slice_chars(y_raw, 0, d),
        None => y_raw.clone(),
    };
    if parse_u64_ok(&stem).is_none() {
        return false;
    }
    z <= 24
}

/// Converts a concrete tile URL into a `{z}/{x}/{y}` template.
///
/// e.g. `https://tile.example.com/15/12345/6789.png` becomes
/// `https://tile.example.com/{z}/{x}/{y}.png`. The first three consecutive
/// numeric path segments with a zoom of at most 24 are taken; path prefixes
/// and the query are kept. Without such segments the query-parameter form
/// (`?x=..&y=..&l=..`) is tried. A URL without `://` before its query has no
/// template.
#[verifier::loop_isolation(false)]
pub fn tile_url_to_template(raw: &str) -> (r: Option<String>)
    ensures
        r matches Some(t) ==> url_template_of(raw@) == Some(t@),
        r is None ==> url_template_of(raw@) is None,
{
    let rv = chars_of(raw);
    let (base, query) = match find_char(&rv, '?') {
        Some(i) => (slice_chars(&rv, 0, i), slice_chars(&rv, i, rv.len())),
        None => (rv.clone(), Vec::new()),
    };
    proof {
        crate::text::lemma_find_from(rv@, seq!['?'], 0);
        assert(query@ =~= split_at_query(rv@).1);
    }
    let se = match find_chars(&base, &chars_of("://")) {
        Some(se) => se,
        None => return None,
    };
    proof {
        reveal_strlit("://");
        crate::text::lemma_find_from(base@, "://"@, 0);
    }
    let after = se + 3;
    let rest = slice_chars(&base, after, base.len());
    let he = match find_char(&rest, '/') {
        Some(j) => {
            proof {
                crate::text::lemma_find_from(rest@, seq!['/'], 0);
            }
            after + j
        },
        None => base.len(),
    };
    let host = slice_chars(&base, 0, he);
    let path = slice_chars(&base, he, base.len());
    let segs = split_chars(&path, '/');
    proof {
        assert(base@ == split_at_query(rv@).0);
        assert(find_first(base@, "://"@) == Some(se as int));
        assert(rest@ == base@.subrange(se + 3, base@.len() as int));
        assert(he == host_end(base@, se as int));
        assert(views(segs@) == split_on(base@.subrange(he as int, base@.len() as int), '/'));
    }
    let ghost sv = views(segs@);
    let n = segs.len();
    if n >= 3 {
        let mut i: usize = 0;
        while i < n - 2
            invariant
                n == segs.len(),
                n >= 3,
                sv == views(segs@),
                first_tile_triple(sv, 0) == first_tile_triple(sv, i as int),
            decreases n - i,
        {
            if tile_triple_at(&segs, i) {
                let slash = chars_of("/");
                let pre = join_chars(&segs, 0, i, &slash);
                let y_raw = &segs[i + 2];
                let ext = match rfind_char(y_raw, '.') {
                    Some(d) => slice_chars(y_raw, d, y_raw.len()),
                    None => Vec::new(),
                };
                assert(ext@ =~= seg_ext(sv[i + 2]));
                let mut out = host;
                push_all(&mut out, &pre);
                let zxy = chars_of("/{z}/{x}/{y}");
                push_all(&mut out, &zxy);
                push_all(&mut out, &ext);
                push_all(&mut out, &query);
                proof {
                    assert(first_tile_triple(sv, 0) == Some(i as int));
                    assert(sv.subrange(0, i as int) == views(segs@).subrange(0, i as int));
                    assert(out@ =~= host@ + join(sv.subrange(0, i as int), "/"@) + "/{z}/{x}/{y}"@
                        + seg_ext(sv[i + 2]) + query@);
                }
                return Some(string_of(&out));
            }
            i += 1;
        }
    }
    tile_url_to_template_query(raw)
}

/// The layer name guessed from a URL: its second-level domain label and the
/// suffix " 网页抓取" (web capture).
pub open spec fn guessed_name(url: Seq<char>) -> Seq<char> {
    let rest = match strip_prefix(url, "https://"@) {
        Some(r) => r,
        None => match strip_prefix(url, "http://"@) {
            Some(r) => r,
            None => url,
        },
    };
    let d0 = split_on(rest, '/')[0];
    let d1 = split_on(d0, ':')[0];
    let domain = match strip_prefix(d1, "www."@) {
        Some(r) => r,
        None => d1,
    };
    let parts = split_on(domain, '.');
    let base = if parts.len() >= 2 { parts[parts.len() - 2] } else { domain };
    base + " 网页抓取"@
}

/// Guesses a layer name from a URL: the second-level domain label.
pub fn guess_name(url: &str) -> (r: String)
    ensures
        r@ == guessed_name(url@),
{
    let uv = chars_of(url);
    let rest = match strip_prefix_chars(&uv, &chars_of("https://")) {
        Some(r) => r,
        None => match strip_prefix_chars(&uv, &chars_of("http://")) {
            Some(r) => r,
            None => uv.clone(),
        },
    };
    let p0 = split_chars(&rest, '/');
    let d0 = p0[0].clone();
    let p1 = split_chars(&d0, ':');
    let d1 = p1[0].clone();
    let domain = match strip_prefix_chars(&d1, &chars_of("www.")) {
        Some(r) => r,
        None => d1.clone(),
    };
    let parts = split_chars(&domain, '.');
    let base = if parts.len() >= 2 { parts[parts.len() - 2].clone() } else { domain.clone() };
    let out = concat_chars(&base, &chars_of(" 网页抓取"));
    string_of(&out)
}

/// The projection guessed from a URL's lower-cased text.
pub open spec fn guessed_crs(url: Seq<char>) -> CrsType {
    let lower = lower_text(url);
    if contains_sub(lower, "_c&"@) || contains_sub(lower, "_c="@) || has_suffix(lower, "_c"@)
        || (contains_sub(lower, "%3d"@) && contains_sub(lower, "_c"@)) {
        CrsType::Wgs84
    } else if contains_sub(lower, "4326"@) || contains_sub(lower, "wgs84"@) || contains_sub(lower, "crs84"@)
        || contains_sub(lower, "epsg:4326"@) {
        CrsType::Wgs84
    } else {
        CrsType::WebMercator
    }
}

/// Guesses the projection from the URL: Tianditu `_c` layers and EPSG:4326
/// markers are longitude/latitude, everything else Web Mercator.
pub fn guess_crs(url: &str) -> (r: CrsType)
    ensures
        r == guessed_crs(url@),
{
    let uv = chars_of(url);
    let lower = to_lowercase_chars(&uv);
    if contains_chars(&lower, &chars_of("_c&")) || contains_chars(&lower, &chars_of("_c="))
        || ends_with_chars(&lower, &chars_of("_c"))
        || (contains_chars(&lower, &chars_of("%3d")) && contains_chars(&lower, &chars_of("_c"))) {
        return CrsType::Wgs84;
    }
    if contains_chars(&lower, &chars_of("4326")) || contains_chars(&lower, &chars_of("wgs84"))
        || contains_chars(&lower, &chars_of("crs84")) || contains_chars(&lower, &chars_of("epsg:4326")) {
        CrsType::Wgs84
    } else {
        CrsType::WebMercator
    }
}

/// How the projection is guessed: a Tianditu longitude/latitude layer
/// (lower-cased text with `_c&`, `_c=`, or ending in `_c`) and a URL naming
/// EPSG:4326, WGS84 or CRS84 are longitude/latitude; a URL with none of
/// `_c`, `4326`, `wgs84`, `crs84` in its lower-cased text is Web Mercator.
pub proof fn lemma_guessed_crs(url: Seq<char>)
    ensures
        contains_sub(lower_text(url), "_c&"@) || contains_sub(lower_text(url), "_c="@)
            || has_suffix(lower_text(url), "_c"@) ==> guessed_crs(url) == CrsType::Wgs84,
        contains_sub(lower_text(url), "4326"@) || contains_sub(lower_text(url), "wgs84"@)
            || contains_sub(lower_text(url), "crs84"@) ==> guessed_crs(url) == CrsType::Wgs84,
        !contains_sub(lower_text(url), "_c"@) && !contains_sub(lower_text(url), "4326"@)
            && !contains_sub(lower_text(url), "wgs84"@) && !contains_sub(lower_text(url), "crs84"@)
            ==> guessed_crs(url) == CrsType::WebMercator,
{
    let l = lower_text(url);
    reveal_strlit("_c");
    reveal_strlit("_c&");
    reveal_strlit("_c=");
    reveal_strlit("4326");
    reveal_strlit("epsg:4326");
    if contains_sub(l, "_c&"@) {
        assert("_c&"@ =~= Seq::<char>::empty() + "_c"@ + "&"@) by { reveal_strlit("&"); }
        crate::text::lemma_contains_inner(l, Seq::empty(), "_c"@, "&"@);
    }
    if contains_sub(l, "_c="@) {
        assert("_c="@ =~= Seq::<char>::empty() + "_c"@ + "="@) by { reveal_strlit("="); }
        crate::text::lemma_contains_inner(l, Seq::empty(), "_c"@, "="@);
    }
    if has_suffix(l, "_c"@) {
        crate::text::lemma_suffix_contains(l, "_c"@);
    }
    if contains_sub(l, "epsg:4326"@) {
        assert("epsg:4326"@ =~= "epsg:"@ + "4326"@ + Seq::<char>::empty()) by { reveal_strlit("epsg:"); }
        crate::text::lemma_contains_inner(l, "epsg:"@, "4326"@, Seq::empty());
    }
}

/// `s` is the web-capture source that the tile URL `raw`, whose template is
/// `t`, describes.
pub open spec fn captured_source(raw: Seq<char>, t: Seq<char>, s: TileSource) -> bool {
    &&& s.kind == SourceKind::WebCapture
    &&& s.name@ == guessed_name(t)
    &&& s.url_template@ == t
    &&& s.crs == guessed_crs(raw)
    &&& s.tile_size == 256
    &&& s.north_to_south
    &&& crate::text::string_views(s.url_param_order@) == seq!["X"@, "Y"@, "Z"@]
    &&& s.coord_type == crate::types::CoordType::Wgs84
    &&& s.bounds is World
    &&& s.min_zoom == 0 && s.max_zoom == 18
    &&& s.subdomains@.len() == 0 && s.headers@.len() == 0
    &&& s.extra_params@.len() == 0 && s.param_scripts@.len() == 0
    &&& s.attribution is None
    &&& s.format@ == "png"@
}

/// Builds a web-capture tile source from a concrete tile URL, or `None` when
/// the URL has no template.
pub fn tile_url_to_source(raw: &str) -> (r: Option<TileSource>)
    ensures
        url_template_of(raw@) is None ==> r is None,
        url_template_of(raw@) matches Some(t) ==> r matches Some(s) && captured_source(raw@, t, s),
{
    let template = match tile_url_to_template(raw) {
        Some(t) => t,
        None => return None,
    };
    let mut s = TileSource::default();
    s.kind = SourceKind::WebCapture;
    s.name = guess_name(template.as_str());
    s.crs = guess_crs(raw);
    s.url_template = template;
    s.tile_size = 256;
    s.north_to_south = true;
    Some(s)
}

/// Some source of `v` has the URL template `t`.
pub open spec fn has_template(v: Seq<TileSource>, t: Seq<char>) -> bool {
    exists|k: int| 0 <= k < v.len() && (#[trigger] v[k]).url_template@ == t
}

/// Takes a tile URL that a capture page reported (surrounding white space
/// ignored) into the session's sources, one per URL template; says whether
/// it added one. A URL with no template, or whose template is already
/// there, changes nothing.
pub fn record_capture(captured: &mut Vec<TileSource>, body: &str) -> (added: bool)
    ensures
        match url_template_of(trim(body@)) {
            None => !added,
            Some(t) => added == !has_template(old(captured)@, t),
        },
        !added ==> final(captured)@ == old(captured)@,
        added ==> final(captured)@.len() == old(captured)@.len() + 1
            && final(captured)@.drop_last() == old(captured)@
            && captured_source(trim(body@), url_template_of(trim(body@))->0, final(captured)@.last()),
{
    let raw = string_of(&trim_chars(&chars_of(body)));
    let source = match tile_url_to_source(raw.as_str()) {
        Some(s) => s,
        None => return false,
    };
    assert(url_template_of(trim(body@)) == Some(source.url_template@));
    let mut k: usize = 0;
    while k < captured.len()
        invariant
            k <= captured@.len(),
            captured@ == old(captured)@,
            url_template_of(trim(body@)) == Some(source.url_template@),
            forall|j: int| 0 <= j < k ==> (#[trigger] captured@[j]).url_template@ != source.url_template@,
        decreases captured@.len() - k,
    {
        if str_eq(captured[k].url_template.as_str(), source.url_template.as_str()) {
            assert(captured@[k as int].url_template@ == source.url_template@);
            return false;
        }
        k += 1;
    }
    let ghost before = captured@;
    captured.push(source);
    assert(captured@.drop_last() =~= before);
    true
}

} // verus!
