//! The small Lua URL functions of `.lrc` `<UrlScript>` elements, evaluated
//! into `{z}/{x}/{y}` URL templates.
//!
//! Only straight-line scripts are understood: variable assignments of string
//! concatenations (`..`), table literals `{"TOKEN"}`, `math.*(...)` calls
//! (standing for the server number `{s}`) and a `return` of a concatenation.

use vstd::prelude::*;
use crate::text::{
    chars_of, contains_chars, contains_sub, cpair_views, eq_chars, find_char,
    find_first, has_prefix, is_digit, kv_get_chars, kv_map, lines, lines_chars,
    lower_text, push_all, slice_chars, split_chars, split_on, starts_with_chars, strip_prefix,
    strip_prefix_chars, to_lowercase_chars, trim, trim_chars, views, keep_nonempty, all_digits,
    is_ascii_text, is_ascii_chars,
};

verus! {

// ─── function parameters ────────────────────────────────────────────────────

/// The parameter names of a `function ...(a, b, c)` line: the text between
/// its first `(` and first `)`, split at `,`, each trimmed and lower-cased,
/// empty ones dropped.
pub open spec fn line_params(l: Seq<char>) -> Seq<Seq<char>> {
    let lp = find_first(l, seq!['(']).unwrap();
    let rp = find_first(l, seq![')']).unwrap();
    keep_nonempty(split_on(l.subrange(lp + 1, rp), ',').map_values(|s: Seq<char>| lower_text(trim(s))))
}

/// A trimmed line declares a function with both parentheses.
pub open spec fn is_func_line(l: Seq<char>) -> bool {
    has_prefix(l, "function"@) && find_first(l, seq!['(']) is Some && find_first(l, seq![')']) is Some
}

/// The parameters of the first function line, from line `k` on, that has any.
pub open spec fn func_params_from(ls: Seq<Seq<char>>, k: int) -> Option<Seq<Seq<char>>>
    decreases ls.len() - k,
{
    if k < 0 || k >= ls.len() {
        None
    } else {
        let l = trim(ls[k]);
        if is_func_line(l) && line_params(l).len() > 0 {
            Some(line_params(l))
        } else {
            func_params_from(ls, k + 1)
        }
    }
}

/// Scanning from line `k` for parameters reaches a function line whose `)`
/// comes before its `(` (where the slice between them cannot be taken).
pub open spec fn params_scan_fails(ls: Seq<Seq<char>>, k: int) -> bool
    decreases ls.len() - k,
{
    if k < 0 || k >= ls.len() {
        false
    } else {
        let l = trim(ls[k]);
        if is_func_line(l) && find_first(l, seq![')']).unwrap() < find_first(l, seq!['(']).unwrap() {
            true
        } else if is_func_line(l) && line_params(l).len() > 0 {
            false
        } else {
            params_scan_fails(ls, k + 1)
        }
    }
}

/// The script's parameter names, `zoom, x, y` when no function line gives any.
pub open spec fn func_params(script: Seq<char>) -> Seq<Seq<char>> {
    match func_params_from(lines(script), 0) {
        Some(p) => p,
        None => seq!["zoom"@, "x"@, "y"@],
    }
}

fn line_params_exec(l: &Vec<char>, lp: usize, rp: usize) -> (r: Vec<Vec<char>>)
    requires
        lp < rp <= l.len(),
        find_first(l@, seq!['(']) == Some(lp as int),
        find_first(l@, seq![')']) == Some(rp as int),
    ensures
        views(r@) == line_params(l@),
{
    let inner = slice_chars(l, lp + 1, rp);
    let parts = split_chars(&inner, ',');
    let mut r: Vec<Vec<char>> = Vec::new();
    let mut i: usize = 0;
    let ghost mapped = views(parts@).map_values(|s: Seq<char>| lower_text(trim(s)));
    assert(mapped.subrange(0, 0) =~= Seq::<Seq<char>>::empty());
    while i < parts.len()
        invariant
            i <= parts.len(),
            mapped == views(parts@).map_values(|s: Seq<char>| lower_text(trim(s))),
            views(r@) == keep_nonempty(mapped.subrange(0, i as int)),
        decreases parts.len() - i,
    {
        let t = trim_chars(&parts[i]);
        let low = to_lowercase_chars(&t);
        assert(mapped.subrange(0, i + 1).drop_last() =~= mapped.subrange(0, i as int));
        assert(mapped.subrange(0, i + 1).last() == low@);
        let ghost old_v = views(r@);
        if low.len() > 0 {
            r.push(low);
            assert(views(r@) =~= old_v.push(mapped[i as int]));
        }
        i += 1;
    }
    assert(mapped.subrange(0, parts@.len() as int) =~= mapped);
    r
}

/// The parameter names of the script's function (lower-cased); `zoom, x, y`
/// when none are declared.
pub fn extract_func_params(script: &Vec<char>) -> (r: Vec<Vec<char>>)
    requires
        !params_scan_fails(lines(script@), 0),
    ensures
        views(r@) == func_params(script@),
{
    let ls = lines_chars(script);
    let ghost lv = views(ls@);
    let mut k: usize = 0;
    while k < ls.len()
        invariant
            k <= ls.len(),
            lv == views(ls@),
            lv == lines(script@),
            func_params_from(lv, 0) == func_params_from(lv, k as int),
            !params_scan_fails(lv, k as int),
        decreases ls.len() - k,
    {
        let l = trim_chars(&ls[k]);
        if starts_with_chars(&l, &chars_of("function")) {
            match (find_char(&l, '('), find_char(&l, ')')) {
                (Some(lp), Some(rp)) => {
                    let params = line_params_exec(&l, lp, rp);
                    if params.len() > 0 {
                        return params;
                    }
                },
                _ => {},
            }
        }
        k += 1;
    }
    let r = vec![chars_of("zoom"), chars_of("x"), chars_of("y")];
    assert(views(r@) =~= seq!["zoom"@, "x"@, "y"@]);
    r
}

// ─── parameter placeholders ─────────────────────────────────────────────────

/// First index of `name` in `ps`, from `k` on.
pub open spec fn index_of(ps: Seq<Seq<char>>, name: Seq<char>, k: int) -> Option<int>
    decreases ps.len() - k,
{
    if k < 0 || k >= ps.len() {
        None
    } else if ps[k] == name {
        Some(k)
    } else {
        index_of(ps, name, k + 1)
    }
}

/// The placeholder a name stands for: by meaning (`zoom`/`z`/`level` or
/// containing `zoom`; `x` or containing `col`; `y` or containing `row`), else
/// by its position among the function parameters (0 zoom, 1 x, 2 y).
pub open spec fn param_placeholder(name: Seq<char>, params: Seq<Seq<char>>) -> Option<Seq<char>> {
    let lower = lower_text(name);
    if lower == "zoom"@ || lower == "z"@ || lower == "level"@ || contains_sub(lower, "zoom"@) {
        Some("{z}"@)
    } else if lower == "x"@ || contains_sub(lower, "col"@) {
        Some("{x}"@)
    } else if lower == "y"@ || contains_sub(lower, "row"@) {
        Some("{y}"@)
    } else {
        let pos = index_of(params, name, 0);
        if pos == Some(0int) {
            Some("{z}"@)
        } else if pos == Some(1int) {
            Some("{x}"@)
        } else if pos == Some(2int) {
            Some("{y}"@)
        } else {
            None
        }
    }
}

/// Maps a parameter name to its `{z}` / `{x}` / `{y}` placeholder.
#[verifier::loop_isolation(false)]
pub fn param_to_tmpl(name: &Vec<char>, params: &Vec<Vec<char>>) -> (r: Option<Vec<char>>)
    ensures
        r matches Some(t) ==> param_placeholder(name@, views(params@)) == Some(t@),
        r is None ==> param_placeholder(name@, views(params@)) is None,
{
    let lower = to_lowercase_chars(name);
    if eq_chars(&lower, &chars_of("zoom")) || eq_chars(&lower, &chars_of("z"))
        || eq_chars(&lower, &chars_of("level")) || contains_chars(&lower, &chars_of("zoom")) {
        return Some(chars_of("{z}"));
    }
    if eq_chars(&lower, &chars_of("x")) || contains_chars(&lower, &chars_of("col")) {
        return Some(chars_of("{x}"));
    }
    if eq_chars(&lower, &chars_of("y")) || contains_chars(&lower, &chars_of("row")) {
        return Some(chars_of("{y}"));
    }
    let mut k: usize = 0;
    while k < params.len()
        invariant
            k <= params.len(),
            index_of(views(params@), name@, 0) == index_of(views(params@), name@, k as int),
        decreases params.len() - k,
    {
        if eq_chars(&params[k], name) {
            assert(views(params@)[k as int] == params@[k as int]@);
            return if k == 0 {
                Some(chars_of("{z}"))
            } else if k == 1 {
                Some(chars_of("{x}"))
            } else if k == 2 {
                Some(chars_of("{y}"))
            } else {
                None
            };
        }
        k += 1;
    }
    None
}

// ─── assignment ─────────────────────────────────────────────────────────────

/// Index just after the quoted text that starts at `i` (after the opening
/// quote `q`), or the end of the text when the quote is not closed; a
/// backslash escapes the next character.
pub open spec fn quote_end(c: Seq<char>, i: int, q: char) -> int
    decreases c.len() + 2 - i,
{
    if i < 0 {
        i
    } else if i >= c.len() {
        c.len() as int
    } else if c[i] == '\\' {
        quote_end(c, i + 2, q)
    } else if c[i] == q {
        i + 1
    } else {
        quote_end(c, i + 1, q)
    }
}

pub proof fn lemma_quote_end_ge(c: Seq<char>, i: int, q: char)
    requires
        0 <= i <= c.len(),
    ensures
        i <= quote_end(c, i, q) <= c.len(),
    decreases c.len() + 2 - i,
{
    if i < c.len() {
        if c[i] == '\\' {
            if i + 2 <= c.len() {
                lemma_quote_end_ge(c, i + 2, q);
            }
        } else if c[i] != q {
            lemma_quote_end_ge(c, i + 1, q);
        }
    }
}

/// An assignment `=` at index `i`: not part of `==`, `~=`, `<=` or `>=`.
pub open spec fn is_assign_eq_at(c: Seq<char>, i: int) -> bool {
    let prev = if i > 0 { c[i - 1] } else { ' ' };
    let next = if i + 1 < c.len() { c[i + 1] } else { ' ' };
    c[i] == '=' && next != '=' && prev != '=' && prev != '~' && prev != '<' && prev != '>'
}

/// First assignment `=` from `i` on, outside quoted text.
pub open spec fn assign_eq_from(c: Seq<char>, i: int) -> Option<int>
    decreases c.len() + 2 - i,
{
    if i < 0 || i >= c.len() {
        None
    } else if c[i] == '"' || c[i] == '\'' {
        proof {
            lemma_quote_end_ge(c, i + 1, c[i]);
        }
        assign_eq_from(c, quote_end(c, i + 1, c[i]))
    } else if is_assign_eq_at(c, i) {
        Some(i)
    } else {
        assign_eq_from(c, i + 1)
    }
}

fn quote_end_exec(c: &Vec<char>, start: usize, q: char) -> (r: usize)
    requires
        start <= c.len(),
    ensures
        r as int == quote_end(c@, start as int, q),
        start <= r <= c.len(),
{
    let mut i = start;
    while i < c.len()
        invariant
            start <= i <= c.len(),
            quote_end(c@, start as int, q) == quote_end(c@, i as int, q),
        decreases c.len() - i,
    {
        if c[i] == '\\' {
            if i + 1 < c.len() {
                i += 2;
            } else {
                assert(quote_end(c@, i + 2, q) == c.len());
                i = c.len();
            }
        } else if c[i] == q {
            return i + 1;
        } else {
            i += 1;
        }
    }
    i
}

/// Index of the assignment `=` of a line.
pub fn find_assignment_eq(line: &Vec<char>) -> (r: Option<usize>)
    ensures
        r matches Some(i) ==> assign_eq_from(line@, 0) == Some(i as int) && i < line@.len(),
        r is None ==> assign_eq_from(line@, 0) is None,
{
    let n = line.len();
    let mut i: usize = 0;
    while i < n
        invariant
            n == line.len(),
            i <= n,
            assign_eq_from(line@, 0) == assign_eq_from(line@, i as int),
        decreases n - i,
    {
        let ch = line[i];
        if ch == '"' || ch == '\'' {
            proof {
                lemma_quote_end_ge(line@, i + 1, ch);
            }
            i = quote_end_exec(line, i + 1, ch);
        } else if ch == '=' {
            let prev = if i > 0 { line[i - 1] } else { ' ' };
            let next = if i + 1 < n { line[i + 1] } else { ' ' };
            if next != '=' && prev != '=' && prev != '~' && prev != '<' && prev != '>' {
                return Some(i);
            }
            i += 1;
        } else {
            i += 1;
        }
    }
    None
}

// ─── tokens ─────────────────────────────────────────────────────────────────

/// Index just after the parenthesised text starting at `i` at nesting `depth`.
pub open spec fn paren_end(c: Seq<char>, i: int, depth: nat) -> int
    decreases c.len() - i,
{
    if i < 0 || i >= c.len() || depth == 0 {
        i
    } else if c[i] == '(' {
        paren_end(c, i + 1, depth + 1)
    } else if c[i] == ')' {
        paren_end(c, i + 1, (depth - 1) as nat)
    } else {
        paren_end(c, i + 1, depth)
    }
}

pub proof fn lemma_paren_end_bounds(c: Seq<char>, i: int, depth: nat)
    requires
        0 <= i <= c.len(),
    ensures
        i <= paren_end(c, i, depth) <= c.len(),
    decreases c.len() - i,
{
    if i < c.len() && depth > 0 {
        if c[i] == '(' {
            lemma_paren_end_bounds(c, i + 1, depth + 1);
        } else if c[i] == ')' {
            lemma_paren_end_bounds(c, i + 1, (depth - 1) as nat);
        } else {
            lemma_paren_end_bounds(c, i + 1, depth);
        }
    }
}

/// Adds a trimmed token to the list unless it is empty.
pub open spec fn push_token(ts: Seq<Seq<char>>, cur: Seq<char>) -> Seq<Seq<char>> {
    if trim(cur).len() > 0 {
        ts.push(trim(cur))
    } else {
        ts
    }
}

/// Splitting a Lua expression at its `..` operators from index `i`, with the
/// tokens `ts` done and `cur` the text of the token under way. Quoted text
/// and parenthesised text are taken whole; `...` is plain text.
pub open spec fn tokenize_from(c: Seq<char>, i: int, ts: Seq<Seq<char>>, cur: Seq<char>) -> Seq<Seq<char>>
    decreases c.len() + 3 - i,
{
    if i < 0 || i >= c.len() {
        push_token(ts, cur)
    } else if c[i] == '"' || c[i] == '\'' {
        let e = quote_end(c, i + 1, c[i]);
        proof {
            lemma_quote_end_ge(c, i + 1, c[i]);
        }
        tokenize_from(c, e, ts, cur + c.subrange(i, e))
    } else if c[i] == '(' {
        let e = paren_end(c, i + 1, 1);
        proof {
            lemma_paren_end_bounds(c, i + 1, 1);
        }
        tokenize_from(c, e, ts, cur + c.subrange(i, e))
    } else if c[i] == '.' && i + 1 < c.len() && c[i + 1] == '.' {
        if i + 2 < c.len() && c[i + 2] == '.' {
            tokenize_from(c, i + 3, ts, cur + "..."@)
        } else {
            tokenize_from(c, i + 2, push_token(ts, cur), Seq::empty())
        }
    } else {
        tokenize_from(c, i + 1, ts, cur.push(c[i]))
    }
}

/// The tokens of a Lua concatenation expression.
pub open spec fn lua_tokens(expr: Seq<char>) -> Seq<Seq<char>> {
    tokenize_from(expr, 0, Seq::empty(), Seq::empty())
}

fn push_token_exec(ts: &mut Vec<Vec<char>>, cur: &Vec<char>)
    ensures
        views(final(ts)@) == push_token(views(old(ts)@), cur@),
{
    let t = trim_chars(cur);
    if t.len() > 0 {
        let ghost old_v = views(ts@);
        ts.push(t);
        assert(views(ts@) =~= old_v.push(trim(cur@)));
    }
}

/// Splits a Lua expression at its `..` operators.
pub fn tokenize_lua_concat(expr: &Vec<char>) -> (r: Vec<Vec<char>>)
    ensures
        views(r@) == lua_tokens(expr@),
{
    let n = expr.len();
    let mut ts: Vec<Vec<char>> = Vec::new();
    let mut cur: Vec<char> = Vec::new();
    let mut i: usize = 0;
    assert(views(ts@) =~= Seq::<Seq<char>>::empty());
    while i < n
        invariant
            n == expr.len(),
            i <= n,
            lua_tokens(expr@) == tokenize_from(expr@, i as int, views(ts@), cur@),
        decreases n - i,
    {
        let ch = expr[i];
        if ch == '"' || ch == '\'' {
            proof {
                lemma_quote_end_ge(expr@, i + 1, ch);
            }
            let e = quote_end_exec(expr, i + 1, ch);
            let piece = slice_chars(expr, i, e);
            push_all(&mut cur, &piece);
            i = e;
        } else if ch == '(' {
            proof {
                lemma_paren_end_bounds(expr@, i + 1, 1);
            }
            let mut j = i + 1;
            let mut depth: usize = 1;
            while j < n && depth > 0
                invariant
                    n == expr.len(),
                    i < j <= n,
                    depth <= j - i,
                    paren_end(expr@, i + 1, 1) == paren_end(expr@, j as int, depth as nat),
                decreases n - j,
            {
                if expr[j] == '(' {
                    depth += 1;
                } else if expr[j] == ')' {
                    depth -= 1;
                }
                j += 1;
            }
            let piece = slice_chars(expr, i, j);
            push_all(&mut cur, &piece);
            i = j;
        } else if ch == '.' && i + 1 < n && expr[i + 1] == '.' {
            if i + 2 < n && expr[i + 2] == '.' {
                push_all(&mut cur, &chars_of("..."));
                i += 3;
            } else {
                push_token_exec(&mut ts, &cur);
                cur = Vec::new();
                i += 2;
            }
        } else {
            cur.push(ch);
            i += 1;
        }
    }
    push_token_exec(&mut ts, &cur);
    ts
}

// ─── evaluation ─────────────────────────────────────────────────────────────

/// What one token adds to the value: the text of a string literal, `{s}`
/// for a `math.*` call, an integer literal as it is, the placeholder of a
/// parameter, the value of a variable (also through `var[n]`), else nothing.
pub open spec fn token_value(
    t: Seq<char>,
    vars: Seq<(Seq<char>, Seq<char>)>,
    params: Seq<Seq<char>>,
) -> Option<Seq<char>> {
    let m = kv_map(vars);
    if t.len() == 0 {
        None
    } else if t.len() >= 2 && ((t[0] == '"' && t.last() == '"') || (t[0] == '\'' && t.last() == '\'')) {
        Some(t.subrange(1, t.len() - 1))
    } else if has_prefix(t, "math."@) {
        Some("{s}"@)
    } else if all_digits(t) {
        Some(t)
    } else if param_placeholder(t, params) is Some {
        param_placeholder(t, params)
    } else if find_first(t, seq!['[']) matches Some(b) && m.contains_key(t.subrange(0, b)) {
        Some(m[t.subrange(0, find_first(t, seq!['[']).unwrap())])
    } else if m.contains_key(t) {
        Some(m[t])
    } else {
        None
    }
}

/// The concatenated values of the tokens.
pub open spec fn tokens_value(
    ts: Seq<Seq<char>>,
    vars: Seq<(Seq<char>, Seq<char>)>,
    params: Seq<Seq<char>>,
) -> Seq<char>
    decreases ts.len(),
{
    if ts.len() == 0 {
        Seq::empty()
    } else {
        tokens_value(ts.drop_last(), vars, params) + match token_value(trim(ts.last()), vars, params) {
            Some(v) => v,
            None => Seq::empty(),
        }
    }
}

/// The value of a concatenation expression; `None` when it has no tokens or
/// evaluates to nothing.
pub open spec fn lua_concat_value(
    expr: Seq<char>,
    vars: Seq<(Seq<char>, Seq<char>)>,
    params: Seq<Seq<char>>,
) -> Option<Seq<char>> {
    let ts = lua_tokens(expr);
    if ts.len() == 0 {
        None
    } else {
        let v = tokens_value(ts, vars, params);
        if v.len() == 0 {
            None
        } else {
            Some(v)
        }
    }
}

fn token_value_exec(t: &Vec<char>, vars: &Vec<(Vec<char>, Vec<char>)>, params: &Vec<Vec<char>>) -> (r: Option<Vec<char>>)
    ensures
        r matches Some(v) ==> token_value(t@, cpair_views(vars@), views(params@)) == Some(v@),
        r is None ==> token_value(t@, cpair_views(vars@), views(params@)) is None,
{
    let n = t.len();
    if n == 0 {
        return None;
    }
    if n >= 2 && ((t[0] == '"' && t[n - 1] == '"') || (t[0] == '\'' && t[n - 1] == '\'')) {
        return Some(slice_chars(t, 1, n - 1));
    }
    if starts_with_chars(t, &chars_of("math.")) {
        return Some(chars_of("{s}"));
    }
    let mut all = true;
    let mut k: usize = 0;
    while k < n
        invariant
            n == t.len(),
            k <= n,
            all == (forall|j: int| 0 <= j < k ==> is_digit(#[trigger] t@[j])),
        decreases n - k,
    {
        if !('0' <= t[k] && t[k] <= '9') {
            all = false;
        }
        k += 1;
    }
    if all {
        return Some(t.clone());
    }
    match param_to_tmpl(t, params) {
        Some(p) => return Some(p),
        None => {},
    }
    match find_char(t, '[') {
        Some(b) => {
            let name = slice_chars(t, 0, b);
            match kv_get_chars(vars, &name) {
                Some(v) => return Some(v),
                None => {},
            }
        },
        None => {},
    }
    kv_get_chars(vars, t)
}

/// Evaluates a Lua concatenation expression to text.
pub fn eval_lua_concat(expr: &Vec<char>, vars: &Vec<(Vec<char>, Vec<char>)>, params: &Vec<Vec<char>>) -> (r: Option<Vec<char>>)
    ensures
        r matches Some(v) ==> lua_concat_value(expr@, cpair_views(vars@), views(params@)) == Some(v@),
        r is None ==> lua_concat_value(expr@, cpair_views(vars@), views(params@)) is None,
{
    let tokens = tokenize_lua_concat(expr);
    if tokens.len() == 0 {
        return None;
    }
    let ghost tv = views(tokens@);
    let mut result: Vec<char> = Vec::new();
    let mut i: usize = 0;
    assert(tv.subrange(0, 0) =~= Seq::<Seq<char>>::empty());
    while i < tokens.len()
        invariant
            i <= tokens.len(),
            tv == views(tokens@),
            result@ == tokens_value(tv.subrange(0, i as int), cpair_views(vars@), views(params@)),
        decreases tokens.len() - i,
    {
        assert(tv.subrange(0, i + 1).drop_last() =~= tv.subrange(0, i as int));
        assert(tv.subrange(0, i + 1).last() == tokens@[i as int]@);
        let t = trim_chars(&tokens[i]);
        match token_value_exec(&t, vars, params) {
            Some(v) => push_all(&mut result, &v),
            None => {
                assert(result@ =~= result@ + Seq::<char>::empty());
            },
        }
        i += 1;
    }
    assert(tv.subrange(0, tokens@.len() as int) =~= tv);
    if result.len() == 0 {
        None
    } else {
        Some(result)
    }
}

// ─── byte offsets ───────────────────────────────────────────────────────────
//
// The evaluator finds cut points by counting characters and then slices the
// script's text at that count taken as a byte offset. Where the characters
// before the cut are ASCII the two agree; elsewhere the cut lands at the
// character that begins at that byte offset, and where the offset falls
// inside a character (or past the end) slicing the text panics.

/// Bytes of `c` in UTF-8.
pub open spec fn utf8_width(c: char) -> nat {
    if (c as u32) < 0x80 {
        1
    } else if (c as u32) < 0x800 {
        2
    } else if (c as u32) < 0x10000 {
        3
    } else {
        4
    }
}

/// Bytes that the first `k` characters of `s` take in UTF-8.
pub open spec fn bytes_before(s: Seq<char>, k: int) -> nat
    decreases k,
{
    if k <= 0 || k > s.len() {
        0
    } else {
        bytes_before(s, k - 1) + utf8_width(s[k - 1])
    }
}

/// From character `k` on, the character that begins at byte offset `b` of
/// the UTF-8 text of `s` (`s.len()` for the end of the text); `None` where
/// `b` falls inside a character or past the end.
pub open spec fn char_at_byte_from(s: Seq<char>, b: int, k: int) -> Option<int>
    decreases s.len() - k,
{
    if k < 0 || k > s.len() {
        None
    } else if bytes_before(s, k) == b {
        Some(k)
    } else if bytes_before(s, k) > b || k == s.len() {
        None
    } else {
        char_at_byte_from(s, b, k + 1)
    }
}

/// The character that begins at byte offset `b` of the UTF-8 text of `s`.
pub open spec fn char_at_byte(s: Seq<char>, b: int) -> Option<int> {
    char_at_byte_from(s, b, 0)
}

fn utf8_width_exec(c: char) -> (r: u128)
    ensures
        r == utf8_width(c),
{
    let u = c as u32;
    if u < 0x80 {
        1
    } else if u < 0x800 {
        2
    } else if u < 0x10000 {
        3
    } else {
        4
    }
}

/// The character that begins at byte offset `b` of the UTF-8 text of `s`.
pub fn char_at_byte_exec(s: &Vec<char>, b: usize) -> (r: Option<usize>)
    ensures
        r matches Some(k) ==> k <= s@.len(),
        match r {
            Some(k) => char_at_byte(s@, b as int) == Some(k as int),
            None => char_at_byte(s@, b as int) is None,
        },
{
    let mut k: usize = 0;
    let mut acc: u128 = 0;
    loop
        invariant
            k <= s@.len(),
            acc == bytes_before(s@, k as int),
            acc <= b,
            char_at_byte(s@, b as int) == char_at_byte_from(s@, b as int, k as int),
        decreases s@.len() - k,
    {
        if acc == b as u128 {
            return Some(k);
        }
        if k == s.len() {
            return None;
        }
        let w = utf8_width_exec(s[k]);
        assert(bytes_before(s@, k + 1) == bytes_before(s@, k as int) + utf8_width(s@[k as int]));
        acc = acc + w;
        k += 1;
        if acc > b as u128 {
            assert(char_at_byte_from(s@, b as int, k as int) is None);
            return None;
        }
    }
}

// ─── string literals ────────────────────────────────────────────────────────

/// First index, from `k` on, of a quote character.
pub open spec fn first_quote_from(s: Seq<char>, k: int) -> Option<int>
    decreases s.len() - k,
{
    if k < 0 || k >= s.len() {
        None
    } else if s[k] == '"' || s[k] == '\'' {
        Some(k)
    } else {
        first_quote_from(s, k + 1)
    }
}

/// The content of the first string literal of `s` (trimmed): from where the
/// text is cut after the first quote (its character position plus one,
/// taken as a byte offset) to the next occurrence of the same quote
/// character.
pub open spec fn first_string_literal(s: Seq<char>) -> Option<Seq<char>> {
    let t = trim(s);
    match first_quote_from(t, 0) {
        None => None,
        Some(i) => match char_at_byte(t, i + 1) {
            None => None,
            Some(c) => {
                let rest = t.subrange(c, t.len() as int);
                match find_first(rest, seq![t[i]]) {
                    None => None,
                    Some(e) => Some(rest.subrange(0, e)),
                }
            },
        },
    }
}

/// The text after the first quote of `s` (trimmed) is cut where slicing
/// does not panic: the quote's character position, plus one, taken as a
/// byte offset falls on a character boundary.
pub open spec fn literal_cut_ok(s: Seq<char>) -> bool {
    match first_quote_from(trim(s), 0) {
        None => true,
        Some(i) => char_at_byte(trim(s), i + 1) is Some,
    }
}

pub fn extract_first_string_literal(s: &Vec<char>) -> (r: Option<Vec<char>>)
    requires
        literal_cut_ok(s@),
    ensures
        r matches Some(v) ==> first_string_literal(s@) == Some(v@),
        r is None ==> first_string_literal(s@) is None,
{
    let t = trim_chars(s);
    let mut k: usize = 0;
    while k < t.len()
        invariant
            k <= t.len(),
            t@ == trim(s@),
            literal_cut_ok(s@),
            first_quote_from(t@, 0) == first_quote_from(t@, k as int),
        decreases t.len() - k,
    {
        if t[k] == '"' || t[k] == '\'' {
            let q = t[k];
            let c = match char_at_byte_exec(&t, k + 1) {
                Some(c) => c,
                None => return None,
            };
            let rest = slice_chars(&t, c, t.len());
            return match find_char(&rest, q) {
                Some(e) => Some(slice_chars(&rest, 0, e)),
                None => None,
            };
        }
        k += 1;
    }
    None
}

// ─── the script ─────────────────────────────────────────────────────────────

/// `str::trim_start_matches` for a non-empty pattern.
pub open spec fn trim_start_matches(s: Seq<char>, p: Seq<char>) -> Seq<char>
    decreases s.len(),
{
    if p.len() > 0 && has_prefix(s, p) {
        trim_start_matches(s.subrange(p.len() as int, s.len() as int), p)
    } else {
        s
    }
}

pub fn trim_start_matches_exec(s: &Vec<char>, p: &Vec<char>) -> (r: Vec<char>)
    ensures
        r@ == trim_start_matches(s@, p@),
{
    let mut cur = s.clone();
    while p.len() > 0 && starts_with_chars(&cur, p)
        invariant
            trim_start_matches(s@, p@) == trim_start_matches(cur@, p@),
        decreases cur.len(),
    {
        cur = slice_chars(&cur, p.len(), cur.len());
    }
    cur
}

/// Lines that are not assignments: empty, `function`, `end`, `return`,
/// comments, `if`, `for`, `while`.
pub open spec fn is_skipped_line(l: Seq<char>) -> bool {
    l.len() == 0 || has_prefix(l, "function"@) || has_prefix(l, "end"@) || has_prefix(l, "return"@)
        || has_prefix(l, "--"@) || has_prefix(l, "if "@) || has_prefix(l, "for "@) || has_prefix(l, "while "@)
}

/// The variable name of an assignment line cut before character `a`.
pub open spec fn assigned_name(l: Seq<char>, a: int) -> Seq<char> {
    trim(trim_start_matches(trim(l.subrange(0, a)), "local"@))
}

/// The variables after one (trimmed) line of the script: the text before
/// the assignment `=` names the variable, and the text after it gives the
/// value, each cut at the `=`'s character position taken as a byte offset.
pub open spec fn apply_line(
    l: Seq<char>,
    vars: Seq<(Seq<char>, Seq<char>)>,
    params: Seq<Seq<char>>,
) -> Seq<(Seq<char>, Seq<char>)> {
    if is_skipped_line(l) {
        vars
    } else {
        match assign_eq_from(l, 0) {
            None => vars,
            Some(eq) => match char_at_byte(l, eq) {
                None => vars,
                Some(a) => {
                    let name = assigned_name(l, a);
                    if name.len() == 0 || contains_sub(name, seq![' ']) {
                        vars
                    } else {
                        match char_at_byte(l, eq + 1) {
                            None => vars,
                            Some(b) => {
                                let rhs = trim(l.subrange(b, l.len() as int));
                                if has_prefix(rhs, seq!['{']) {
                                    match first_string_literal(rhs) {
                                        Some(v) => vars.push((name, v)),
                                        None => vars,
                                    }
                                } else {
                                    match lua_concat_value(rhs, vars, params) {
                                        Some(v) => vars.push((name, v)),
                                        None => vars,
                                    }
                                }
                            },
                        }
                    }
                },
            },
        }
    }
}

/// The variables after all the lines, in order.
pub open spec fn vars_after(ls: Seq<Seq<char>>, params: Seq<Seq<char>>) -> Seq<(Seq<char>, Seq<char>)>
    decreases ls.len(),
{
    if ls.len() == 0 {
        Seq::empty()
    } else {
        apply_line(trim(ls.last()), vars_after(ls.drop_last(), params), params)
    }
}

/// The value of the first `return` line, from line `k` on, whose value
/// contains `://`; `None` also when a non-empty `return` expression has no
/// value.
pub open spec fn return_value_from(
    ls: Seq<Seq<char>>,
    k: int,
    vars: Seq<(Seq<char>, Seq<char>)>,
    params: Seq<Seq<char>>,
) -> Option<Seq<char>>
    decreases ls.len() - k,
{
    if k < 0 || k >= ls.len() {
        None
    } else {
        match strip_prefix(trim(ls[k]), "return"@) {
            Some(rest) => {
                let expr = trim(rest);
                if expr.len() > 0 {
                    match lua_concat_value(expr, vars, params) {
                        None => None,
                        Some(r) => if contains_sub(r, "://"@) {
                            Some(r)
                        } else {
                            return_value_from(ls, k + 1, vars, params)
                        },
                    }
                } else {
                    return_value_from(ls, k + 1, vars, params)
                }
            },
            None => return_value_from(ls, k + 1, vars, params),
        }
    }
}

/// The URL template a script evaluates to.
pub open spec fn script_url(script: Seq<char>) -> Option<Seq<char>> {
    let ls = lines(script);
    let params = func_params(script);
    return_value_from(ls, 0, vars_after(ls, params), params)
}

/// A (trimmed) line on which no cut the evaluator makes panics: the
/// character position of the assignment `=`, and, where the name before it
/// is one, that position plus one, each taken as a byte offset, fall on
/// character boundaries, as does the cut after the first quote of a table
/// literal `{...}`.
pub open spec fn line_cuts_ok(l: Seq<char>) -> bool {
    is_skipped_line(l) || match assign_eq_from(l, 0) {
        None => true,
        Some(eq) => match char_at_byte(l, eq) {
            None => false,
            Some(a) => {
                let name = assigned_name(l, a);
                name.len() == 0 || contains_sub(name, seq![' ']) || match char_at_byte(l, eq + 1) {
                    None => false,
                    Some(b) => {
                        let rhs = trim(l.subrange(b, l.len() as int));
                        !has_prefix(rhs, seq!['{']) || literal_cut_ok(rhs)
                    },
                }
            },
        },
    }
}

/// The scripts this evaluator takes without panicking: no function line
/// whose `)` precedes its `(`, and every line one whose cuts fall on
/// character boundaries (`line_cuts_ok`).
pub open spec fn script_supported(script: Seq<char>) -> bool {
    &&& !params_scan_fails(lines(script), 0)
    &&& forall|k: int| 0 <= k < lines(script).len() ==> line_cuts_ok(#[trigger] trim(lines(script)[k]))
}

fn line_cuts_ok_exec(l: &Vec<char>) -> (r: bool)
    ensures
        r == line_cuts_ok(l@),
{
    if l.len() == 0 || starts_with_chars(l, &chars_of("function")) || starts_with_chars(l, &chars_of("end"))
        || starts_with_chars(l, &chars_of("return")) || starts_with_chars(l, &chars_of("--"))
        || starts_with_chars(l, &chars_of("if ")) || starts_with_chars(l, &chars_of("for "))
        || starts_with_chars(l, &chars_of("while ")) {
        return true;
    }
    let eq = match find_assignment_eq(l) {
        Some(e) => e,
        None => return true,
    };
    let a = match char_at_byte_exec(l, eq) {
        Some(a) => a,
        None => return false,
    };
    let name = assigned_name_exec(l, a);
    let space = vec![' '];
    assert(space@ =~= seq![' ']);
    if name.len() == 0 || contains_chars(&name, &space) {
        return true;
    }
    let b = match char_at_byte_exec(l, eq + 1) {
        Some(b) => b,
        None => return false,
    };
    let tail = slice_chars(l, b, l.len());
    let rhs = trim_chars(&tail);
    let brace = vec!['{'];
    assert(brace@ =~= seq!['{']);
    if !starts_with_chars(&rhs, &brace) {
        return true;
    }
    literal_cut_ok_exec(&rhs)
}

fn assigned_name_exec(l: &Vec<char>, a: usize) -> (r: Vec<char>)
    requires
        a <= l@.len(),
    ensures
        r@ == assigned_name(l@, a as int),
{
    let head = slice_chars(l, 0, a);
    let head_t = trim_chars(&head);
    let stripped = trim_start_matches_exec(&head_t, &chars_of("local"));
    trim_chars(&stripped)
}

fn literal_cut_ok_exec(s: &Vec<char>) -> (r: bool)
    ensures
        r == literal_cut_ok(s@),
{
    let t = trim_chars(s);
    let mut k: usize = 0;
    while k < t.len()
        invariant
            k <= t.len(),
            t@ == trim(s@),
            first_quote_from(t@, 0) == first_quote_from(t@, k as int),
        decreases t.len() - k,
    {
        if t[k] == '"' || t[k] == '\'' {
            return char_at_byte_exec(&t, k + 1).is_some();
        }
        k += 1;
    }
    true
}

fn apply_line_exec(l: &Vec<char>, vars: &mut Vec<(Vec<char>, Vec<char>)>, params: &Vec<Vec<char>>)
    requires
        line_cuts_ok(l@),
    ensures
        cpair_views(final(vars)@) == apply_line(l@, cpair_views(old(vars)@), views(params@)),
{
    if l.len() == 0 || starts_with_chars(l, &chars_of("function")) || starts_with_chars(l, &chars_of("end"))
        || starts_with_chars(l, &chars_of("return")) || starts_with_chars(l, &chars_of("--"))
        || starts_with_chars(l, &chars_of("if ")) || starts_with_chars(l, &chars_of("for "))
        || starts_with_chars(l, &chars_of("while ")) {
        return;
    }
    let eq = match find_assignment_eq(l) {
        Some(e) => e,
        None => return,
    };
    let a = match char_at_byte_exec(l, eq) {
        Some(a) => a,
        None => return,
    };
    let name = assigned_name_exec(l, a);
    let space = vec![' '];
    assert(space@ =~= seq![' ']);
    if name.len() == 0 || contains_chars(&name, &space) {
        return;
    }
    let b = match char_at_byte_exec(l, eq + 1) {
        Some(b) => b,
        None => return,
    };
    let tail = slice_chars(l, b, l.len());
    let rhs = trim_chars(&tail);
    let brace = vec!['{'];
    assert(brace@ =~= seq!['{']);
    let ghost old_v = cpair_views(vars@);
    if starts_with_chars(&rhs, &brace) {
        match extract_first_string_literal(&rhs) {
            Some(v) => {
                let ghost vv = v@;
                vars.push((name, v));
                assert(cpair_views(vars@) =~= old_v.push((name@, vv)));
            },
            None => {},
        }
        return;
    }
    match eval_lua_concat(&rhs, vars, params) {
        Some(v) => {
            let ghost vv = v@;
            vars.push((name, v));
            assert(cpair_views(vars@) =~= old_v.push((name@, vv)));
        },
        None => {},
    }
}

/// Evaluates a `<UrlScript>` Lua function into a URL template.
pub fn parse_url_script(script: &Vec<char>) -> (r: Option<Vec<char>>)
    requires
        script_supported(script@),
    ensures
        r matches Some(v) ==> script_url(script@) == Some(v@),
        r is None ==> script_url(script@) is None,
{
    let params = extract_func_params(script);
    let ls = lines_chars(script);
    let ghost lv = views(ls@);
    let mut vars: Vec<(Vec<char>, Vec<char>)> = Vec::new();
    let mut k: usize = 0;
    assert(lv.subrange(0, 0) =~= Seq::<Seq<char>>::empty());
    assert(cpair_views(vars@) =~= Seq::<(Seq<char>, Seq<char>)>::empty());
    while k < ls.len()
        invariant
            k <= ls.len(),
            lv == views(ls@),
            lv == lines(script@),
            script_supported(script@),
            cpair_views(vars@) == vars_after(lv.subrange(0, k as int), views(params@)),
        decreases ls.len() - k,
    {
        assert(lv.subrange(0, k + 1).drop_last() =~= lv.subrange(0, k as int));
        assert(lv.subrange(0, k + 1).last() == ls@[k as int]@);
        let l = trim_chars(&ls[k]);
        assert(line_cuts_ok(trim(lines(script@)[k as int])));
        apply_line_exec(&l, &mut vars, &params);
        k += 1;
    }
    assert(lv.subrange(0, ls@.len() as int) =~= lv);
    let mut j: usize = 0;
    while j < ls.len()
        invariant
            j <= ls.len(),
            lv == views(ls@),
            lv == lines(script@),
            views(params@) == func_params(script@),
            cpair_views(vars@) == vars_after(lv, views(params@)),
            script_url(script@) == return_value_from(lv, j as int, cpair_views(vars@), views(params@)),
        decreases ls.len() - j,
    {
        let l = trim_chars(&ls[j]);
        match strip_prefix_chars(&l, &chars_of("return")) {
            Some(rest) => {
                let expr = trim_chars(&rest);
                if expr.len() > 0 {
                    match eval_lua_concat(&expr, &vars, &params) {
                        None => return None,
                        Some(r) => {
                            if contains_chars(&r, &chars_of("://")) {
                                return Some(r);
                            }
                        },
                    }
                }
            },
            None => {},
        }
        j += 1;
    }
    None
}

/// Whether a script is one this evaluator takes.
pub fn script_is_supported(script: &Vec<char>) -> (r: bool)
    ensures
        r == script_supported(script@),
{
    let ls = lines_chars(script);
    let ghost lv = views(ls@);
    let mut k: usize = 0;
    while k < ls.len()
        invariant
            k <= ls.len(),
            lv == views(ls@),
            lv == lines(script@),
            forall|j: int| 0 <= j < k ==> line_cuts_ok(#[trigger] trim(lv[j])),
        decreases ls.len() - k,
    {
        let l = trim_chars(&ls[k]);
        if !line_cuts_ok_exec(&l) {
            assert(!line_cuts_ok(trim(lines(script@)[k as int])));
            return false;
        }
        k += 1;
    }
    let mut k: usize = 0;
    while k < ls.len()
        invariant
            k <= ls.len(),
            lv == views(ls@),
            lv == lines(script@),
            forall|j: int| 0 <= j < lv.len() ==> line_cuts_ok(#[trigger] trim(lv[j])),
            params_scan_fails(lv, 0) == params_scan_fails(lv, k as int),
        decreases ls.len() - k,
    {
        let l = trim_chars(&ls[k]);
        if starts_with_chars(&l, &chars_of("function")) {
            match (find_char(&l, '('), find_char(&l, ')')) {
                (Some(lp), Some(rp)) => {
                    if rp < lp {
                        return false;
                    }
                    let params = line_params_exec(&l, lp, rp);
                    if params.len() > 0 {
                        return true;
                    }
                },
                _ => {},
            }
        }
        k += 1;
    }
    true
}

} // verus!
