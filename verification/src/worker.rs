//! One tile's download: the request URL a tile source gives for a tile, and
//! what to do with each HTTP outcome (retry after a wait, give up, take the
//! tile as empty, read the body).

use vstd::prelude::*;
use crate::download_plan::ascii_lower_is;
use crate::text::{chars_of, decimal, pair_views, push_decimal, replace_all, replace_chars, str_eq, string_of, string_views};
use crate::tile_grid::TileCoord;
use crate::types::{TileSource, TileSourceView};

verus! {

// ─── request URL ────────────────────────────────────────────────────────────

/// The sub-domain a tile is fetched from: the sources' sub-domains taken in
/// turn by `x + y` (as a wrapping `usize` sum); none without sub-domains.
pub open spec fn subdomain_for(subs: Seq<Seq<char>>, x: u32, y: u32) -> Seq<char> {
    if subs.len() == 0 {
        Seq::empty()
    } else {
        subs[(vstd::wrapping::usize_specs::wrapping_add(x as usize, y as usize) as int) % (subs.len() as int)]
    }
}

/// `a.saturating_sub(b)`.
pub open spec fn sat_sub(a: int, b: int) -> int {
    if a >= b {
        a - b
    } else {
        0
    }
}

/// The row number in the URL: the XYZ row, or for sources whose rows run
/// south to north (TMS) the row counted from the south, `2^z - 1 - y`.
pub open spec fn url_row(north_to_south: bool, z: u8, y: u32) -> int {
    if north_to_south {
        y as int
    } else {
        sat_sub(sat_sub((1u32 << z) as int, 1), y as int)
    }
}

/// The parameter at index `i` is overridden by a later one with its key.
pub open spec fn shadowed(ps: Seq<(Seq<char>, Seq<char>)>, i: int) -> bool {
    exists|j: int| i < j < ps.len() && #[trigger] ps[j].0 == ps[i].0
}

/// The placeholder of a parameter: its key in braces, `{key}`.
pub open spec fn param_pattern(key: Seq<char>) -> Seq<char> {
    "{"@ + key + "}"@
}

/// The extra parameters from index `i` on substituted into `url`, each key
/// with the value it has last.
pub open spec fn apply_params(url: Seq<char>, ps: Seq<(Seq<char>, Seq<char>)>, i: int) -> Seq<char>
    decreases ps.len() - i,
{
    if i < 0 || i >= ps.len() {
        url
    } else if shadowed(ps, i) {
        apply_params(url, ps, i + 1)
    } else {
        apply_params(replace_all(url, param_pattern(ps[i].0), ps[i].1), ps, i + 1)
    }
}

/// The request URL of a tile: `{z}`, `{x}`, `{y}` (the URL row) and `{s}` (the
/// sub-domain) replaced in turn, then the extra parameters.
pub open spec fn tile_url(src: TileSourceView, c: TileCoord) -> Seq<char> {
    let u1 = replace_all(src.url_template, "{z}"@, decimal(c.z as nat));
    let u2 = replace_all(u1, "{x}"@, decimal(c.x as nat));
    let u3 = replace_all(u2, "{y}"@, decimal(url_row(src.north_to_south, c.z, c.y) as nat));
    let u4 = replace_all(u3, "{s}"@, subdomain_for(src.subdomains, c.x, c.y));
    apply_params(u4, src.extra_params, 0)
}

fn decimal_chars(n: u64) -> (r: Vec<char>)
    ensures
        r@ == decimal(n as nat),
{
    let mut r: Vec<char> = Vec::new();
    push_decimal(&mut r, n);
    assert(r@ =~= decimal(n as nat));
    r
}

fn replace_lit(s: &Vec<char>, from: &str, to: &Vec<char>) -> (r: Vec<char>)
    requires
        from@.len() > 0,
    ensures
        r@ == replace_all(s@, from@, to@),
{
    replace_chars(s, &chars_of(from), to)
}

fn is_shadowed(ps: &Vec<(String, String)>, i: usize) -> (r: bool)
    requires
        i < ps.len(),
    ensures
        r == shadowed(pair_views(ps@), i as int),
{
    let ghost v = pair_views(ps@);
    let mut j = i + 1;
    while j < ps.len()
        invariant
            i < j <= ps.len(),
            v == pair_views(ps@),
            forall|k: int| i < k < j ==> v[k].0 != v[i as int].0,
        decreases ps.len() - j,
    {
        if str_eq(ps[j].0.as_str(), ps[i].0.as_str()) {
            assert(v[j as int].0 == v[i as int].0);
            return true;
        }
        j += 1;
    }
    false
}

/// The request URL of a tile.
pub fn build_tile_url(source: &TileSource, coord: TileCoord) -> (r: String)
    requires
        !source.north_to_south ==> coord.z < 32,
    ensures
        r@ == tile_url(source@, coord),
{
    proof {
        reveal_strlit("{z}");
        reveal_strlit("{x}");
        reveal_strlit("{y}");
        reveal_strlit("{s}");
        reveal_strlit("{");
        reveal_strlit("}");
    }
    let ghost sv = source@;
    let mut url = chars_of(source.url_template.as_str());
    url = replace_lit(&url, "{z}", &decimal_chars(coord.z as u64));
    assert(url@ == replace_all(sv.url_template, "{z}"@, decimal(coord.z as nat)));
    url = replace_lit(&url, "{x}", &decimal_chars(coord.x as u64));
    let row: u32 = if source.north_to_south {
        coord.y
    } else {
        let n: u32 = 1u32 << coord.z;
        n.saturating_sub(1).saturating_sub(coord.y)
    };
    assert(row as int == url_row(sv.north_to_south, coord.z, coord.y));
    url = replace_lit(&url, "{y}", &decimal_chars(row as u64));
    let n = source.subdomains.len();
    let sub = if n > 0 {
        let idx = (coord.x as usize).wrapping_add(coord.y as usize) % n;
        assert(string_views(source.subdomains@)[idx as int] == source.subdomains@[idx as int]@);
        chars_of(source.subdomains[idx].as_str())
    } else {
        Vec::new()
    };
    assert(sub@ == subdomain_for(sv.subdomains, coord.x, coord.y));
    url = replace_lit(&url, "{s}", &sub);
    let ghost ps = pair_views(source.extra_params@);
    let mut i: usize = 0;
    while i < source.extra_params.len()
        invariant
            i <= source.extra_params.len(),
            ps == pair_views(source.extra_params@),
            apply_params(url@, ps, i as int) == tile_url(source@, coord),
        decreases source.extra_params.len() - i,
    {
        if !is_shadowed(&source.extra_params, i) {
            let mut pat = chars_of("{");
            crate::text::push_all(&mut pat, &chars_of(source.extra_params[i].0.as_str()));
            crate::text::push_all(&mut pat, &chars_of("}"));
            proof {
                reveal_strlit("{");
                reveal_strlit("}");
            }
            assert(pat@ =~= param_pattern(ps[i as int].0));
            assert(pat@.len() >= 2);
            url = replace_chars(&url, &pat, &chars_of(source.extra_params[i].1.as_str()));
        }
        i += 1;
    }
    string_of(&url)
}

// ─── retries ────────────────────────────────────────────────────────────────

/// Attempts per tile.
pub const MAX_RETRIES: u32 = 5;

/// What a request attempt came to.
#[derive(Debug, Clone, Copy, PartialEq, Eq, Structural)]
pub enum HttpOutcome {
    /// A response with this status code.
    Status(u16),
    /// No response (connection or timeout error).
    TransportError,
}

/// What to do after an attempt.
#[derive(Debug, Clone, Copy, PartialEq, Eq, Structural)]
pub enum RetryAction {
    /// Wait, then make the next attempt (or give up when none is left);
    /// `throttle` tells the adaptive throttle of a failure first.
    Retry { wait_secs: u64, throttle: bool },
    /// Give up on the tile.
    Fail,
    /// The server has no such tile: store it as empty.
    Empty,
    /// Read the response body as the tile.
    ReadBody,
}

/// The wait before attempt `attempt` (counting from 0): none before the
/// first, then 1, 2, 4, ... seconds.
pub open spec fn backoff(attempt: u32) -> u64 {
    if attempt == 0 {
        0
    } else {
        vstd::arithmetic::power2::pow2((attempt - 1) as nat) as u64
    }
}

/// The action for an outcome of attempt `attempt`: rate limiting (429, 418)
/// and overload (502, 503, 504) wait longer and count as throttle failures;
/// 403 gives up at once; 404 is an empty tile; any other failure retries at
/// once while attempts remain; a success reads the body.
pub open spec fn retry_action(attempt: u32, o: HttpOutcome) -> RetryAction {
    let last = attempt + 1 >= MAX_RETRIES;
    match o {
        HttpOutcome::TransportError => if last {
            RetryAction::Fail
        } else {
            RetryAction::Retry { wait_secs: 0, throttle: false }
        },
        HttpOutcome::Status(s) => if s == 429 || s == 418 {
            RetryAction::Retry { wait_secs: (8 + attempt * 10) as u64, throttle: true }
        } else if s == 502 || s == 503 || s == 504 {
            RetryAction::Retry { wait_secs: (5 + attempt * 8) as u64, throttle: true }
        } else if s == 403 {
            RetryAction::Fail
        } else if s == 404 {
            RetryAction::Empty
        } else if !(200 <= s <= 299) {
            if last {
                RetryAction::Fail
            } else {
                RetryAction::Retry { wait_secs: 0, throttle: false }
            }
        } else {
            RetryAction::ReadBody
        },
    }
}

/// The wait before an attempt, in seconds.
pub fn backoff_secs(attempt: u32) -> (r: u64)
    requires
        attempt < MAX_RETRIES,
    ensures
        r == backoff(attempt),
{
    proof {
        vstd::arithmetic::power2::lemma2_to64();
    }
    if attempt == 0 {
        0
    } else if attempt == 1 {
        1
    } else if attempt == 2 {
        2
    } else if attempt == 3 {
        4
    } else {
        8
    }
}

/// The action after attempt `attempt` of a tile came to `o`.
pub fn on_outcome(attempt: u32, o: HttpOutcome) -> (r: RetryAction)
    requires
        attempt < MAX_RETRIES,
    ensures
        r == retry_action(attempt, o),
{
    let last = attempt + 1 >= MAX_RETRIES;
    match o {
        HttpOutcome::TransportError => {
            if last {
                RetryAction::Fail
            } else {
                RetryAction::Retry { wait_secs: 0, throttle: false }
            }
        },
        HttpOutcome::Status(s) => {
            if s == 429 || s == 418 {
                RetryAction::Retry { wait_secs: 8 + attempt as u64 * 10, throttle: true }
            } else if s == 502 || s == 503 || s == 504 {
                RetryAction::Retry { wait_secs: 5 + attempt as u64 * 8, throttle: true }
            } else if s == 403 {
                RetryAction::Fail
            } else if s == 404 {
                RetryAction::Empty
            } else if !(200 <= s && s <= 299) {
                if last {
                    RetryAction::Fail
                } else {
                    RetryAction::Retry { wait_secs: 0, throttle: false }
                }
            } else {
                RetryAction::ReadBody
            }
        },
    }
}

/// A tile is never retried past its last attempt except after rate limiting
/// or overload, where the attempts simply run out; 403 and 404 end the tile
/// on any attempt.
pub proof fn lemma_retry_ends(attempt: u32, s: u16)
    requires
        attempt < MAX_RETRIES,
    ensures
        retry_action((MAX_RETRIES - 1) as u32, HttpOutcome::TransportError) == RetryAction::Fail,
        s != 429 && s != 418 && s != 502 && s != 503 && s != 504 && !(200 <= s <= 299) && s != 404
            ==> retry_action((MAX_RETRIES - 1) as u32, HttpOutcome::Status(s)) == RetryAction::Fail,
        retry_action(attempt, HttpOutcome::Status(403)) == RetryAction::Fail,
        retry_action(attempt, HttpOutcome::Status(404)) == RetryAction::Empty,
{
}

/// Whether the source's headers already give a `Referer` (any ASCII case).
pub fn has_referer(headers: &Vec<(String, String)>) -> (r: bool)
    ensures
        r == exists|i: int| 0 <= i < headers@.len() && #[trigger] ascii_lower_is(headers@[i].0@, "referer"@),
{
    let mut i: usize = 0;
    while i < headers.len()
        invariant
            i <= headers.len(),
            forall|k: int| 0 <= k < i ==> !#[trigger] ascii_lower_is(headers@[k].0@, "referer"@),
        decreases headers.len() - i,
    {
        if crate::download_plan::eq_ascii_lower(headers[i].0.as_str(), "referer") {
            return true;
        }
        i += 1;
    }
    false
}

// ─── the column in a tile URL ───────────────────────────────────────────────

/// `s` holds no `{`, so no placeholder.
pub open spec fn brace_free(s: Seq<char>) -> bool {
    forall|i: int| 0 <= i < s.len() ==> #[trigger] s[i] != '{'
}

/// Replacing a placeholder leaves a text without `{` as it is.
proof fn lemma_replace_in_brace_free(s: Seq<char>, from: Seq<char>, to: Seq<char>)
    requires
        from.len() > 0,
        from[0] == '{',
        brace_free(s),
    ensures
        replace_all(s, from, to) == s,
    decreases s.len(),
{
    if s.len() >= from.len() {
        assert(s.subrange(0, from.len() as int)[0] == s[0]);
        assert(!crate::text::has_prefix(s, from));
        let rest = s.subrange(1, s.len() as int);
        assert(brace_free(rest)) by {
            assert forall|i: int| 0 <= i < rest.len() implies #[trigger] rest[i] != '{' by {
                assert(rest[i] == s[i + 1]);
            }
        }
        lemma_replace_in_brace_free(rest, from, to);
        assert(seq![s[0]] + rest =~= s);
    }
}

/// A prefix without `{` is kept, and the replacement goes on after it.
proof fn lemma_replace_after_brace_free(a: Seq<char>, b: Seq<char>, from: Seq<char>, to: Seq<char>)
    requires
        from.len() > 0,
        from[0] == '{',
        brace_free(a),
    ensures
        replace_all(a + b, from, to) == a + replace_all(b, from, to),
    decreases a.len(),
{
    let s = a + b;
    if a.len() == 0 {
        assert(s =~= b);
    } else if s.len() < from.len() {
        assert(a + b =~= a + replace_all(b, from, to));
    } else {
        assert(s[0] == a[0]);
        assert(s.subrange(0, from.len() as int)[0] == s[0]);
        assert(!crate::text::has_prefix(s, from));
        let a1 = a.subrange(1, a.len() as int);
        assert(brace_free(a1)) by {
            assert forall|i: int| 0 <= i < a1.len() implies #[trigger] a1[i] != '{' by {
                assert(a1[i] == a[i + 1]);
            }
        }
        assert(s.subrange(1, s.len() as int) =~= a1 + b);
        lemma_replace_after_brace_free(a1, b, from, to);
        assert(seq![s[0]] + (a1 + replace_all(b, from, to)) =~= a + replace_all(b, from, to));
    }
}

/// Extra parameters leave a text without `{` as it is.
proof fn lemma_params_in_brace_free(s: Seq<char>, ps: Seq<(Seq<char>, Seq<char>)>, i: int)
    requires
        brace_free(s),
    ensures
        apply_params(s, ps, i) == s,
    decreases ps.len() - i,
{
    if 0 <= i < ps.len() {
        if !shadowed(ps, i) {
            reveal_strlit("{");
            assert(param_pattern(ps[i].0)[0] == '{');
            lemma_replace_in_brace_free(s, param_pattern(ps[i].0), ps[i].1);
        }
        lemma_params_in_brace_free(s, ps, i + 1);
    }
}

/// The decimal text of a number holds no `{`.
proof fn lemma_decimal_brace_free(n: nat)
    ensures
        brace_free(decimal(n)),
{
    crate::text::lemma_decimal_value(n);
    let d = decimal(n);
    assert forall|i: int| 0 <= i < d.len() implies #[trigger] d[i] != '{' by {
        assert(crate::text::is_digit(d[i]));
    }
}

/// In a template whose only placeholder is `{x}`, the tile URL is the
/// template with `{x}` replaced by the decimal text of the tile's full
/// column number, whatever the row, zoom, sub-domains and extra parameters.
pub proof fn lemma_tile_url_column(src: TileSourceView, c: TileCoord, p: Seq<char>, q: Seq<char>)
    requires
        src.url_template == p + "{x}"@ + q,
        brace_free(p),
        brace_free(q),
    ensures
        tile_url(src, c) == p + decimal(c.x as nat) + q,
{
    reveal_strlit("{z}");
    reveal_strlit("{x}");
    reveal_strlit("{y}");
    reveal_strlit("{s}");
    let x = "{x}"@;
    let t = src.url_template;
    assert(t =~= p + (x + q));
    // `{z}`: the `{` of `{x}` starts no `{z}`.
    let xq = x + q;
    let rest = xq.subrange(1, xq.len() as int);
    assert(brace_free(rest)) by {
        assert forall|i: int| 0 <= i < rest.len() implies #[trigger] rest[i] != '{' by {
            assert(rest[i] == xq[i + 1]);
            if i >= 2 {
                assert(xq[i + 1] == q[i - 2]);
            }
        }
    }
    let zd = decimal(c.z as nat);
    assert(xq.subrange(0, 3)[1] == 'x');
    assert(!crate::text::has_prefix(xq, "{z}"@));
    lemma_replace_in_brace_free(rest, "{z}"@, zd);
    assert(seq![xq[0]] + rest =~= xq);
    assert(replace_all(xq, "{z}"@, zd) == xq);
    lemma_replace_after_brace_free(p, xq, "{z}"@, zd);
    let u1 = replace_all(t, "{z}"@, decimal(c.z as nat));
    assert(u1 == t);
    // `{x}`: replaced by the column.
    let xd = decimal(c.x as nat);
    assert(crate::text::has_prefix(xq, x)) by {
        assert(xq.subrange(0, 3) =~= x);
    }
    assert(xq.subrange(3, xq.len() as int) =~= q);
    lemma_replace_in_brace_free(q, x, xd);
    assert(replace_all(xq, x, xd) == xd + q);
    lemma_replace_after_brace_free(p, xq, x, xd);
    let u2 = replace_all(u1, "{x}"@, xd);
    assert(u2 =~= p + xd + q);
    // What is left holds no `{`.
    lemma_decimal_brace_free(c.x as nat);
    assert(brace_free(u2)) by {
        assert forall|i: int| 0 <= i < u2.len() implies #[trigger] u2[i] != '{' by {
            if i < p.len() {
                assert(u2[i] == p[i]);
            } else if i < p.len() + xd.len() {
                assert(u2[i] == xd[i - p.len()]);
            } else {
                assert(u2[i] == q[i - p.len() - xd.len()]);
            }
        }
    }
    let u3 = replace_all(u2, "{y}"@, decimal(url_row(src.north_to_south, c.z, c.y) as nat));
    lemma_replace_in_brace_free(u2, "{y}"@, decimal(url_row(src.north_to_south, c.z, c.y) as nat));
    let u4 = replace_all(u3, "{s}"@, subdomain_for(src.subdomains, c.x, c.y));
    lemma_replace_in_brace_free(u3, "{s}"@, subdomain_for(src.subdomains, c.x, c.y));
    lemma_params_in_brace_free(u4, src.extra_params, 0);
}

// ─── a template filled in ───────────────────────────────────────────────────

/// A three-character placeholder `{c}`.
pub open spec fn placeholder(p: Seq<char>) -> bool {
    p.len() == 3 && p[0] == '{' && p[1] != '{' && p[2] != '{'
}

/// The texts `segs` with the texts `phs` between them:
/// `segs[0] + phs[0] + segs[1] + ... + segs[n]`.
pub open spec fn interleave(segs: Seq<Seq<char>>, phs: Seq<Seq<char>>) -> Seq<char>
    decreases phs.len(),
{
    if segs.len() == 0 {
        Seq::empty()
    } else if phs.len() == 0 {
        segs[0]
    } else {
        segs[0] + phs[0] + interleave(segs.drop_first(), phs.drop_first())
    }
}

/// What a placeholder of a template stands for in the URL of tile `c`: the
/// zoom, the column and the URL row in decimal, and the sub-domain for `{s}`.
pub open spec fn placeholder_value(src: TileSourceView, c: TileCoord, p: Seq<char>) -> Seq<char> {
    if p == "{z}"@ {
        decimal(c.z as nat)
    } else if p == "{x}"@ {
        decimal(c.x as nat)
    } else if p == "{y}"@ {
        decimal(url_row(src.north_to_south, c.z, c.y) as nat)
    } else {
        subdomain_for(src.subdomains, c.x, c.y)
    }
}

/// One replacement over a template: each piece that is `from` becomes `to`,
/// the others stay.
proof fn lemma_replace_pass(segs: Seq<Seq<char>>, phs: Seq<Seq<char>>, from: Seq<char>, to: Seq<char>)
    requires
        segs.len() == phs.len() + 1,
        forall|i: int| 0 <= i < segs.len() ==> brace_free(#[trigger] segs[i]),
        forall|i: int| 0 <= i < phs.len() ==> brace_free(#[trigger] phs[i]) || placeholder(phs[i]),
        placeholder(from),
    ensures
        replace_all(interleave(segs, phs), from, to)
            == interleave(segs, phs.map_values(|p: Seq<char>| if p == from { to } else { p })),
    decreases phs.len(),
{
    let m = phs.map_values(|p: Seq<char>| if p == from { to } else { p });
    if phs.len() == 0 {
        assert(brace_free(segs[0]));
        lemma_replace_in_brace_free(segs[0], from, to);
    } else {
        let a = segs[0];
        let ph = phs[0];
        let rest = interleave(segs.drop_first(), phs.drop_first());
        assert(brace_free(a));
        assert(interleave(segs, phs) =~= a + (ph + rest));
        lemma_replace_after_brace_free(a, ph + rest, from, to);
        assert forall|i: int| 0 <= i < segs.drop_first().len() implies brace_free(#[trigger] segs.drop_first()[i]) by {
            assert(segs.drop_first()[i] == segs[i + 1]);
        }
        assert forall|i: int| 0 <= i < phs.drop_first().len()
            implies brace_free(#[trigger] phs.drop_first()[i]) || placeholder(phs.drop_first()[i]) by {
            assert(phs.drop_first()[i] == phs[i + 1]);
        }
        lemma_replace_pass(segs.drop_first(), phs.drop_first(), from, to);
        assert(phs.drop_first().map_values(|p: Seq<char>| if p == from { to } else { p }) =~= m.drop_first());
        let rr = replace_all(rest, from, to);
        if brace_free(ph) {
            lemma_replace_after_brace_free(ph, rest, from, to);
            if ph == from {
                assert(from[0] == '{');
                assert(ph[0] != '{');
            }
            assert(m[0] == ph);
        } else if ph == from {
            let w = ph + rest;
            assert(w.subrange(0, 3) =~= from);
            assert(w.subrange(3, w.len() as int) =~= rest);
            assert(replace_all(w, from, to) == to + rr);
            assert(m[0] == to);
        } else {
            let w = ph + rest;
            assert(w.subrange(0, 3) =~= ph);
            assert(!crate::text::has_prefix(w, from));
            let tail = ph.subrange(1, 3);
            assert(brace_free(tail)) by {
                assert forall|i: int| 0 <= i < tail.len() implies #[trigger] tail[i] != '{' by {
                    assert(tail[i] == ph[i + 1]);
                }
            }
            assert(w.subrange(1, w.len() as int) =~= tail + rest);
            lemma_replace_after_brace_free(tail, rest, from, to);
            assert(seq![w[0]] + (tail + rr) =~= ph + rr);
            assert(m[0] == ph);
        }
        assert(interleave(segs, m) =~= a + (m[0] + interleave(segs.drop_first(), m.drop_first())));
        assert(replace_all(interleave(segs, phs), from, to) =~= a + (m[0] + rr));
    }
}

/// A template made of texts that are all free of `{` holds no `{`.
proof fn lemma_interleave_brace_free(segs: Seq<Seq<char>>, phs: Seq<Seq<char>>)
    requires
        segs.len() == phs.len() + 1,
        forall|i: int| 0 <= i < segs.len() ==> brace_free(#[trigger] segs[i]),
        forall|i: int| 0 <= i < phs.len() ==> brace_free(#[trigger] phs[i]),
    ensures
        brace_free(interleave(segs, phs)),
    decreases phs.len(),
{
    if phs.len() > 0 {
        assert forall|i: int| 0 <= i < segs.drop_first().len() implies brace_free(#[trigger] segs.drop_first()[i]) by {
            assert(segs.drop_first()[i] == segs[i + 1]);
        }
        assert forall|i: int| 0 <= i < phs.drop_first().len() implies brace_free(#[trigger] phs.drop_first()[i]) by {
            assert(phs.drop_first()[i] == phs[i + 1]);
        }
        lemma_interleave_brace_free(segs.drop_first(), phs.drop_first());
        let a = segs[0];
        let ph = phs[0];
        let rest = interleave(segs.drop_first(), phs.drop_first());
        let w = interleave(segs, phs);
        assert(w =~= a + ph + rest);
        assert(brace_free(a) && brace_free(ph));
        assert forall|i: int| 0 <= i < w.len() implies #[trigger] w[i] != '{' by {
            if i < a.len() {
                assert(w[i] == a[i]);
            } else if i < a.len() + ph.len() {
                assert(w[i] == ph[i - a.len()]);
            } else {
                assert(w[i] == rest[i - a.len() - ph.len()]);
            }
        }
    }
}

/// The tile URL of a template made of texts without `{` and the
/// placeholders `{z}`, `{x}`, `{y}`, `{s}` in any order and number is the
/// template with every placeholder replaced at once by what it stands for:
/// the zoom, the full column, the URL row in decimal, and the sub-domain
/// (here one without `{`).
pub proof fn lemma_tile_url_fills_template(
    src: TileSourceView,
    c: TileCoord,
    segs: Seq<Seq<char>>,
    phs: Seq<Seq<char>>,
)
    requires
        segs.len() == phs.len() + 1,
        src.url_template == interleave(segs, phs),
        forall|i: int| 0 <= i < segs.len() ==> brace_free(#[trigger] segs[i]),
        forall|i: int| 0 <= i < phs.len() ==> (#[trigger] phs[i] == "{z}"@ || phs[i] == "{x}"@
            || phs[i] == "{y}"@ || phs[i] == "{s}"@),
        brace_free(subdomain_for(src.subdomains, c.x, c.y)),
    ensures
        tile_url(src, c) == interleave(segs, phs.map_values(|p: Seq<char>| placeholder_value(src, c, p))),
{
    reveal_strlit("{z}");
    reveal_strlit("{x}");
    reveal_strlit("{y}");
    reveal_strlit("{s}");
    let z = "{z}"@;
    let x = "{x}"@;
    let y = "{y}"@;
    let s = "{s}"@;
    let dz = decimal(c.z as nat);
    let dx = decimal(c.x as nat);
    let dy = decimal(url_row(src.north_to_south, c.z, c.y) as nat);
    let sub = subdomain_for(src.subdomains, c.x, c.y);
    lemma_decimal_brace_free(c.z as nat);
    lemma_decimal_brace_free(c.x as nat);
    lemma_decimal_brace_free(url_row(src.north_to_south, c.z, c.y) as nat);
    assert(placeholder(z) && placeholder(x) && placeholder(y) && placeholder(s));
    let p1 = phs.map_values(|p: Seq<char>| if p == z { dz } else { p });
    let p2 = p1.map_values(|p: Seq<char>| if p == x { dx } else { p });
    let p3 = p2.map_values(|p: Seq<char>| if p == y { dy } else { p });
    let p4 = p3.map_values(|p: Seq<char>| if p == s { sub } else { p });
    let want = phs.map_values(|p: Seq<char>| placeholder_value(src, c, p));
    assert forall|i: int| 0 <= i < phs.len() implies brace_free(#[trigger] phs[i]) || placeholder(phs[i]) by {}
    lemma_replace_pass(segs, phs, z, dz);
    assert forall|i: int| 0 <= i < p1.len() implies brace_free(#[trigger] p1[i]) || placeholder(p1[i]) by {}
    lemma_replace_pass(segs, p1, x, dx);
    assert forall|i: int| 0 <= i < p2.len() implies brace_free(#[trigger] p2[i]) || placeholder(p2[i]) by {}
    lemma_replace_pass(segs, p2, y, dy);
    assert forall|i: int| 0 <= i < p3.len() implies brace_free(#[trigger] p3[i]) || placeholder(p3[i]) by {}
    lemma_replace_pass(segs, p3, s, sub);
    assert forall|i: int| 0 <= i < phs.len() implies #[trigger] p4[i] == want[i] by {
        let p = phs[i];
        // A value without `{` is no placeholder.
        assert(dz != x && dz != y && dz != s) by {
            if dz == x || dz == y || dz == s { assert(dz[0] == '{'); }
        }
        assert(dx != y && dx != s) by {
            if dx == y || dx == s { assert(dx[0] == '{'); }
        }
        assert(dy != s) by {
            if dy == s { assert(dy[0] == '{'); }
        }
        assert(z != x && z != y && z != s && x != y && x != s && y != s) by {
            assert(z[1] != x[1] && z[1] != y[1] && z[1] != s[1] && x[1] != y[1] && x[1] != s[1] && y[1] != s[1]);
        }
    }
    assert(p4 =~= want);
    assert forall|i: int| 0 <= i < p4.len() implies brace_free(#[trigger] p4[i]) by {}
    lemma_interleave_brace_free(segs, p4);
    lemma_params_in_brace_free(interleave(segs, p4), src.extra_params, 0);
}

/// The row in a tile URL: the tile's own row for north-to-south sources;
/// for south-to-north (TMS) sources the row counted from the south,
/// `2^z - 1 - y`, for every row of the zoom.
pub proof fn lemma_url_row(north_to_south: bool, z: u8, y: u32)
    ensures
        north_to_south ==> url_row(north_to_south, z, y) == y,
        !north_to_south && z < 32 && y < vstd::arithmetic::power2::pow2(z as nat)
            ==> url_row(north_to_south, z, y) == vstd::arithmetic::power2::pow2(z as nat) - 1 - y,
{
    if !north_to_south && z < 32 {
        vstd::bits::lemma_u32_pow2_no_overflow(z as nat);
        vstd::bits::lemma_u32_shl_is_mul(1u32, z as u32);
        assert((1u32 << z) == (1u32 << (z as u32))) by (bit_vector)
            requires
                z < 32,
        ;
    }
}

} // verus!
