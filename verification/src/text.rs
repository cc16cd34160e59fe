//! Character-sequence primitives shared by the URL and file-format parsers.
//!
//! Strings are worked on as `Vec<char>`; the spec functions here state over
//! `Seq<char>` what the executable helpers compute.

use vstd::prelude::*;

verus! {

// ─── conversions ────────────────────────────────────────────────────────────

/// `str::chars` collected into a vector: the characters of `s`, in order.
#[verifier::external_body]
pub(crate) fn chars_of(s: &str) -> (r: Vec<char>)
    ensures
        r@ == s@,
{
    s.chars().collect()
}

/// `String: FromIterator<&char>`: the string made of the given characters.
#[verifier::external_body]
pub(crate) fn string_of(v: &Vec<char>) -> (r: String)
    ensures
        r@ == v@,
{
    v.iter().collect()
}

// ─── prefix, suffix, occurrence ─────────────────────────────────────────────

pub open spec fn has_prefix(s: Seq<char>, p: Seq<char>) -> bool {
    p.len() <= s.len() && s.subrange(0, p.len() as int) == p
}

pub open spec fn has_suffix(s: Seq<char>, p: Seq<char>) -> bool {
    p.len() <= s.len() && s.subrange(s.len() - p.len(), s.len() as int) == p
}

/// `p` occurs in `s` starting at index `i`.
pub open spec fn matches_at(s: Seq<char>, p: Seq<char>, i: int) -> bool {
    0 <= i && i + p.len() <= s.len() && s.subrange(i, i + p.len()) == p
}

/// First occurrence of `p` in `s` at or after `i`.
pub open spec fn find_from(s: Seq<char>, p: Seq<char>, i: int) -> Option<int>
    decreases s.len() - i,
{
    if i < 0 || i + p.len() > s.len() {
        None
    } else if p.len() == 0 || matches_at(s, p, i) {
        Some(i)
    } else {
        find_from(s, p, i + 1)
    }
}

/// First occurrence of `p` in `s` (`str::find`).
pub open spec fn find_first(s: Seq<char>, p: Seq<char>) -> Option<int> {
    find_from(s, p, 0)
}

/// `s` contains `p` (`str::contains`).
pub open spec fn contains_sub(s: Seq<char>, p: Seq<char>) -> bool {
    find_first(s, p) is Some
}

pub open spec fn opt_index(r: Option<usize>) -> Option<int> {
    match r {
        Some(i) => Some(i as int),
        None => None,
    }
}

/// What `find_from` returns is an occurrence, and none comes earlier.
pub proof fn lemma_find_from(s: Seq<char>, p: Seq<char>, i: int)
    requires
        0 <= i,
    ensures
        find_from(s, p, i) matches Some(k) ==> i <= k && matches_at(s, p, k),
        find_from(s, p, i) matches Some(k) ==> forall|j: int| i <= j < k ==> !matches_at(s, p, j),
        find_from(s, p, i) is None ==> forall|j: int| i <= j ==> !matches_at(s, p, j),
    decreases s.len() - i,
{
    if i + p.len() > s.len() {
    } else if p.len() == 0 || matches_at(s, p, i) {
        if p.len() == 0 {
            assert(s.subrange(i, i) =~= p);
        }
    } else {
        lemma_find_from(s, p, i + 1);
    }
}

/// A text that contains `a + p + b` contains `p`.
pub proof fn lemma_contains_inner(s: Seq<char>, a: Seq<char>, p: Seq<char>, b: Seq<char>)
    requires
        contains_sub(s, a + p + b),
    ensures
        contains_sub(s, p),
{
    let w = a + p + b;
    lemma_find_from(s, w, 0);
    let k = find_first(s, w)->0;
    assert(matches_at(s, w, k));
    let sub = s.subrange(k + a.len(), k + a.len() + p.len());
    assert forall|j: int| 0 <= j < p.len() implies #[trigger] sub[j] == p[j] by {
        assert(s.subrange(k, k + w.len())[a.len() + j] == w[a.len() + j]);
        assert(w[a.len() + j] == p[j]);
    }
    assert(sub =~= p);
    assert(matches_at(s, p, k + a.len()));
    lemma_find_from(s, p, 0);
}

/// A text that ends with `p` contains `p`.
pub proof fn lemma_suffix_contains(s: Seq<char>, p: Seq<char>)
    requires
        has_suffix(s, p),
    ensures
        contains_sub(s, p),
{
    assert(matches_at(s, p, s.len() - p.len()));
    lemma_find_from(s, p, 0);
}

/// A text shorter than `p` does not contain it.
pub proof fn lemma_short_not_contains(s: Seq<char>, p: Seq<char>)
    requires
        s.len() < p.len(),
    ensures
        !contains_sub(s, p),
{
    lemma_find_from(s, p, 0);
}

/// Whether `p` occurs in `s` at index `i`.
pub fn matches_at_exec(s: &Vec<char>, p: &Vec<char>, i: usize) -> (r: bool)
    ensures
        r == matches_at(s@, p@, i as int),
{
    if i > s.len() || p.len() > s.len() - i {
        return false;
    }
    let mut j: usize = 0;
    while j < p.len()
        invariant
            i + p.len() <= s.len(),
            j <= p.len(),
            forall|k: int| 0 <= k < j ==> s@[i + k] == p@[k],
        decreases p.len() - j,
    {
        if s[i + j] != p[j] {
            assert(s@.subrange(i as int, i + p@.len())[j as int] != p@[j as int]);
            return false;
        }
        j += 1;
    }
    assert(s@.subrange(i as int, i + p@.len()) =~= p@);
    true
}

/// First index at or after `start` where `p` occurs in `s`.
pub fn find_chars_from(s: &Vec<char>, p: &Vec<char>, start: usize) -> (r: Option<usize>)
    ensures
        opt_index(r) == find_from(s@, p@, start as int),
        r matches Some(i) ==> start <= i && i + p@.len() <= s@.len() && matches_at(s@, p@, i as int),
{
    proof {
        lemma_find_from(s@, p@, start as int);
    }
    if p.len() == 0 {
        if start <= s.len() {
            return Some(start);
        }
        return None;
    }
    let mut i = start;
    while i <= s.len() && p.len() <= s.len() - i
        invariant
            start <= i,
            p@.len() > 0,
            find_from(s@, p@, start as int) == find_from(s@, p@, i as int),
        decreases s.len() + 1 - i,
    {
        if matches_at_exec(s, p, i) {
            return Some(i);
        }
        i += 1;
    }
    None
}

/// First index where `p` occurs in `s` (`str::find`).
pub fn find_chars(s: &Vec<char>, p: &Vec<char>) -> (r: Option<usize>)
    ensures
        opt_index(r) == find_first(s@, p@),
        r matches Some(i) ==> i + p@.len() <= s@.len() && matches_at(s@, p@, i as int),
{
    find_chars_from(s, p, 0)
}

/// First index of the character `c` in `s`.
pub fn find_char(s: &Vec<char>, c: char) -> (r: Option<usize>)
    ensures
        opt_index(r) == find_first(s@, seq![c]),
        r matches Some(i) ==> i < s@.len() && s@[i as int] == c,
{
    let p: Vec<char> = vec![c];
    assert(p@ =~= seq![c]);
    let r = find_chars(s, &p);
    if let Some(i) = r {
        assert(s@.subrange(i as int, i + 1)[0] == s@[i as int]);
    }
    r
}

/// Where the first occurrence of a character is, it is that character.
pub proof fn lemma_find_first_char(s: Seq<char>, c: char)
    ensures
        find_first(s, seq![c]) matches Some(i) ==> 0 <= i < s.len() && s[i] == c,
        find_first(s, seq![c]) matches Some(i) ==> forall|j: int| 0 <= j < i ==> s[j] != c,
        find_first(s, seq![c]) is None ==> forall|j: int| 0 <= j < s.len() ==> s[j] != c,
{
    lemma_find_from(s, seq![c], 0);
    if let Some(i) = find_first(s, seq![c]) {
        assert(s.subrange(i, i + 1)[0] == s[i]);
        assert forall|j: int| 0 <= j < i implies s[j] != c by {
            if s[j] == c {
                assert(s.subrange(j, j + 1) =~= seq![c]);
                assert(matches_at(s, seq![c], j));
            }
        }
    } else {
        assert forall|j: int| 0 <= j < s.len() implies s[j] != c by {
            if s[j] == c {
                assert(s.subrange(j, j + 1) =~= seq![c]);
                assert(matches_at(s, seq![c], j));
            }
        }
    }
}

/// Whether `p` occurs in `s`.
pub fn contains_chars(s: &Vec<char>, p: &Vec<char>) -> (r: bool)
    ensures
        r == contains_sub(s@, p@),
{
    find_chars(s, p).is_some()
}

pub fn starts_with_chars(s: &Vec<char>, p: &Vec<char>) -> (r: bool)
    ensures
        r == has_prefix(s@, p@),
{
    matches_at_exec(s, p, 0)
}

pub fn ends_with_chars(s: &Vec<char>, p: &Vec<char>) -> (r: bool)
    ensures
        r == has_suffix(s@, p@),
{
    if p.len() > s.len() {
        false
    } else {
        matches_at_exec(s, p, s.len() - p.len())
    }
}

/// `s[lo..hi]` as a new vector.
pub fn slice_chars(s: &Vec<char>, lo: usize, hi: usize) -> (r: Vec<char>)
    requires
        lo <= hi <= s.len(),
    ensures
        r@ == s@.subrange(lo as int, hi as int),
{
    let mut r: Vec<char> = Vec::new();
    let mut i = lo;
    while i < hi
        invariant
            lo <= i <= hi <= s.len(),
            r@ == s@.subrange(lo as int, i as int),
        decreases hi - i,
    {
        r.push(s[i]);
        i += 1;
        assert(r@ =~= s@.subrange(lo as int, i as int));
    }
    r
}

/// `a` followed by `b`.
pub fn concat_chars(a: &Vec<char>, b: &Vec<char>) -> (r: Vec<char>)
    ensures
        r@ == a@ + b@,
{
    let mut r = a.clone();
    let mut i: usize = 0;
    assert(r@ =~= a@ + b@.subrange(0, 0));
    while i < b.len()
        invariant
            i <= b.len(),
            r@ == a@ + b@.subrange(0, i as int),
        decreases b.len() - i,
    {
        r.push(b[i]);
        i += 1;
        assert(r@ =~= a@ + b@.subrange(0, i as int));
    }
    assert(b@.subrange(0, b@.len() as int) =~= b@);
    r
}

/// Appends all of `b` to `r`.
pub fn push_all(r: &mut Vec<char>, b: &Vec<char>)
    ensures
        final(r)@ == old(r)@ + b@,
{
    let mut i: usize = 0;
    assert(r@ =~= old(r)@ + b@.subrange(0, 0));
    while i < b.len()
        invariant
            i <= b.len(),
            r@ == old(r)@ + b@.subrange(0, i as int),
        decreases b.len() - i,
    {
        r.push(b[i]);
        i += 1;
        assert(r@ =~= old(r)@ + b@.subrange(0, i as int));
    }
    assert(b@.subrange(0, b@.len() as int) =~= b@);
}

// ─── replacement ────────────────────────────────────────────────────────────

/// `str::replace` for a non-empty pattern: every occurrence of `from`, taken
/// left to right without overlap, is replaced by `to`.
pub open spec fn replace_all(s: Seq<char>, from: Seq<char>, to: Seq<char>) -> Seq<char>
    decreases s.len(),
{
    if from.len() == 0 || s.len() < from.len() {
        s
    } else if has_prefix(s, from) {
        to + replace_all(s.subrange(from.len() as int, s.len() as int), from, to)
    } else {
        seq![s[0]] + replace_all(s.subrange(1, s.len() as int), from, to)
    }
}

/// Replaces every occurrence of `from` in `s` by `to`.
pub fn replace_chars(s: &Vec<char>, from: &Vec<char>, to: &Vec<char>) -> (r: Vec<char>)
    requires
        from@.len() > 0,
    ensures
        r@ == replace_all(s@, from@, to@),
{
    let mut r: Vec<char> = Vec::new();
    let mut i: usize = 0;
    let n = s.len();
    assert(s@.subrange(0, n as int) =~= s@);
    while i < n
        invariant
            n == s.len(),
            i <= n,
            from@.len() > 0,
            r@ + replace_all(s@.subrange(i as int, n as int), from@, to@) == replace_all(s@, from@, to@),
        decreases n - i,
    {
        let ghost rest = s@.subrange(i as int, n as int);
        if matches_at_exec(s, from, i) {
            assert(rest.subrange(0, from@.len() as int) =~= s@.subrange(i as int, i + from@.len()));
            assert(rest.subrange(from@.len() as int, rest.len() as int) =~= s@.subrange(i + from@.len(), n as int));
            push_all(&mut r, to);
            i += from.len();
            assert(r@ + replace_all(s@.subrange(i as int, n as int), from@, to@) =~= replace_all(s@, from@, to@));
        } else {
            proof {
                if rest.len() >= from@.len() {
                    assert(rest.subrange(0, from@.len() as int) =~= s@.subrange(i as int, i + from@.len()));
                }
                assert(rest.subrange(1, rest.len() as int) =~= s@.subrange(i + 1, n as int));
                assert(rest[0] == s@[i as int]);
                let tail = s@.subrange(i + 1, n as int);
                if rest.len() < from@.len() {
                    assert(replace_all(rest, from@, to@) == rest);
                    assert(replace_all(tail, from@, to@) == tail);
                    assert(rest =~= seq![rest[0]] + tail);
                }
            }
            r.push(s[i]);
            i += 1;
            assert(r@ + replace_all(s@.subrange(i as int, n as int), from@, to@) =~= replace_all(s@, from@, to@));
        }
    }
    assert(s@.subrange(n as int, n as int) =~= Seq::<char>::empty());
    assert(r@ =~= r@ + Seq::<char>::empty());
    r
}

/// `str::replace` on string slices, for a non-empty pattern.
pub fn replace_str(s: &str, from: &str, to: &str) -> (r: String)
    requires
        from@.len() > 0,
    ensures
        r@ == replace_all(s@, from@, to@),
{
    let sv = chars_of(s);
    let fv = chars_of(from);
    let tv = chars_of(to);
    let rv = replace_chars(&sv, &fv, &tv);
    string_of(&rv)
}


// ─── splitting ──────────────────────────────────────────────────────────────

/// The views of a sequence of character vectors.
pub open spec fn views(v: Seq<Vec<char>>) -> Seq<Seq<char>> {
    v.map_values(|x: Vec<char>| x@)
}

/// `str::split` on a single character: the pieces between separators, in
/// order; a string without the separator is one piece.
pub open spec fn split_on(s: Seq<char>, c: char) -> Seq<Seq<char>>
    decreases s.len(),
{
    if s.len() == 0 {
        seq![Seq::<char>::empty()]
    } else {
        let pre = split_on(s.drop_last(), c);
        if s.last() == c {
            pre.push(Seq::<char>::empty())
        } else {
            pre.update(pre.len() - 1, pre.last().push(s.last()))
        }
    }
}

pub proof fn lemma_split_on_nonempty(s: Seq<char>, c: char)
    ensures
        split_on(s, c).len() >= 1,
    decreases s.len(),
{
    if s.len() > 0 {
        lemma_split_on_nonempty(s.drop_last(), c);
    }
}

/// Splits `s` at every occurrence of `c`.
pub fn split_chars(s: &Vec<char>, c: char) -> (r: Vec<Vec<char>>)
    ensures
        views(r@) == split_on(s@, c),
        r@.len() >= 1,
{
    let mut done: Vec<Vec<char>> = Vec::new();
    let mut cur: Vec<char> = Vec::new();
    let mut i: usize = 0;
    assert(s@.subrange(0, 0) =~= Seq::<char>::empty());
    assert(views(done@).push(cur@) =~= split_on(s@.subrange(0, 0), c));
    while i < s.len()
        invariant
            i <= s.len(),
            views(done@).push(cur@) == split_on(s@.subrange(0, i as int), c),
        decreases s.len() - i,
    {
        let ghost pre = s@.subrange(0, i as int);
        let ghost nxt = s@.subrange(0, i + 1);
        assert(nxt.drop_last() =~= pre);
        assert(nxt.last() == s@[i as int]);
        let ghost old_v = views(done@);
        let ghost old_c = cur@;
        if s[i] == c {
            done.push(cur);
            cur = Vec::new();
            assert(views(done@) =~= old_v.push(old_c));
            assert(views(done@).push(cur@) =~= split_on(nxt, c));
        } else {
            cur.push(s[i]);
            assert(views(done@) =~= old_v);
            assert(views(done@).push(cur@) =~= split_on(nxt, c));
        }
        i += 1;
    }
    let ghost old_v = views(done@);
    let ghost old_c = cur@;
    done.push(cur);
    assert(views(done@) =~= old_v.push(old_c));
    assert(s@.subrange(0, s@.len() as int) =~= s@);
    done
}

// ─── whitespace and trimming ────────────────────────────────────────────────

/// The Unicode `White_Space` property, which `str::trim` and
/// `str::split_whitespace` go by.
pub open spec fn is_ws(c: char) -> bool {
    let u = c as u32;
    (0x09 <= u <= 0x0D) || u == 0x20 || u == 0x85 || u == 0xA0 || u == 0x1680
        || (0x2000 <= u <= 0x200A) || u == 0x2028 || u == 0x2029 || u == 0x202F || u == 0x205F
        || u == 0x3000
}

pub fn is_ws_exec(c: char) -> (r: bool)
    ensures
        r == is_ws(c),
{
    let u = c as u32;
    (0x09 <= u && u <= 0x0D) || u == 0x20 || u == 0x85 || u == 0xA0 || u == 0x1680
        || (0x2000 <= u && u <= 0x200A) || u == 0x2028 || u == 0x2029 || u == 0x202F || u == 0x205F
        || u == 0x3000
}

pub open spec fn trim_start(s: Seq<char>) -> Seq<char>
    decreases s.len(),
{
    if s.len() > 0 && is_ws(s[0]) {
        trim_start(s.drop_first())
    } else {
        s
    }
}

pub open spec fn trim_end(s: Seq<char>) -> Seq<char>
    decreases s.len(),
{
    if s.len() > 0 && is_ws(s.last()) {
        trim_end(s.drop_last())
    } else {
        s
    }
}

/// `str::trim`: leading and trailing white space removed.
pub open spec fn trim(s: Seq<char>) -> Seq<char> {
    trim_end(trim_start(s))
}

/// `s` with leading white space removed.
pub fn trim_start_chars(s: &Vec<char>) -> (r: Vec<char>)
    ensures
        r@ == trim_start(s@),
{
    let mut i: usize = 0;
    assert(s@.subrange(0, s@.len() as int) =~= s@);
    while i < s.len() && is_ws_exec(s[i])
        invariant
            i <= s.len(),
            trim_start(s@) == trim_start(s@.subrange(i as int, s@.len() as int)),
        decreases s.len() - i,
    {
        assert(s@.subrange(i as int, s@.len() as int).drop_first() =~= s@.subrange(i + 1, s@.len() as int));
        i += 1;
    }
    slice_chars(s, i, s.len())
}

/// `s` with trailing white space removed.
pub fn trim_end_chars(s: &Vec<char>) -> (r: Vec<char>)
    ensures
        r@ == trim_end(s@),
{
    let mut j: usize = s.len();
    assert(s@.subrange(0, s@.len() as int) =~= s@);
    while j > 0 && is_ws_exec(s[j - 1])
        invariant
            j <= s.len(),
            trim_end(s@) == trim_end(s@.subrange(0, j as int)),
        decreases j,
    {
        assert(s@.subrange(0, j as int).drop_last() =~= s@.subrange(0, j - 1));
        j -= 1;
    }
    slice_chars(s, 0, j)
}

/// `str::trim` on a character vector.
pub fn trim_chars(s: &Vec<char>) -> (r: Vec<char>)
    ensures
        r@ == trim(s@),
{
    let a = trim_start_chars(s);
    trim_end_chars(&a)
}

/// `str::split` on a predicate: pieces between characters that satisfy it.
pub open spec fn split_ws(s: Seq<char>) -> Seq<Seq<char>>
    decreases s.len(),
{
    if s.len() == 0 {
        seq![Seq::<char>::empty()]
    } else {
        let pre = split_ws(s.drop_last());
        if is_ws(s.last()) {
            pre.push(Seq::<char>::empty())
        } else {
            pre.update(pre.len() - 1, pre.last().push(s.last()))
        }
    }
}

pub proof fn lemma_split_ws_nonempty(s: Seq<char>)
    ensures
        split_ws(s).len() >= 1,
    decreases s.len(),
{
    if s.len() > 0 {
        lemma_split_ws_nonempty(s.drop_last());
    }
}

/// The pieces that are not empty, in order.
pub open spec fn keep_nonempty(ps: Seq<Seq<char>>) -> Seq<Seq<char>>
    decreases ps.len(),
{
    if ps.len() == 0 {
        ps
    } else if ps.last().len() > 0 {
        keep_nonempty(ps.drop_last()).push(ps.last())
    } else {
        keep_nonempty(ps.drop_last())
    }
}

/// `str::split_whitespace`: the maximal runs of non-white-space characters.
pub open spec fn words(s: Seq<char>) -> Seq<Seq<char>> {
    keep_nonempty(split_ws(s))
}

/// The maximal runs of non-white-space characters of `s`, in order.
pub fn split_whitespace_chars(s: &Vec<char>) -> (r: Vec<Vec<char>>)
    ensures
        views(r@) == words(s@),
{
    let mut done: Vec<Vec<char>> = Vec::new();
    let mut cur: Vec<char> = Vec::new();
    let mut i: usize = 0;
    proof {
        assert(s@.subrange(0, 0) =~= Seq::<char>::empty());
        assert(split_ws(s@.subrange(0, 0)) =~= seq![Seq::<char>::empty()]);
        assert(split_ws(s@.subrange(0, 0)).drop_last() =~= Seq::<Seq<char>>::empty());
    }
    while i < s.len()
        invariant
            i <= s.len(),
            split_ws(s@.subrange(0, i as int)).last() == cur@,
            split_ws(s@.subrange(0, i as int)).len() >= 1,
            views(done@) == keep_nonempty(split_ws(s@.subrange(0, i as int)).drop_last()),
        decreases s.len() - i,
    {
        let ghost pre = s@.subrange(0, i as int);
        let ghost nxt = s@.subrange(0, i + 1);
        let ghost sp = split_ws(pre);
        assert(nxt.drop_last() =~= pre);
        assert(nxt.last() == s@[i as int]);
        if is_ws_exec(s[i]) {
            let ghost old_done = views(done@);
            let ghost old_c = cur@;
            if cur.len() > 0 {
                done.push(cur);
                assert(views(done@) =~= old_done.push(old_c));
            } else {
                assert(views(done@) =~= old_done);
            }
            cur = Vec::new();
            proof {
                let sn = split_ws(nxt);
                assert(sn == sp.push(Seq::<char>::empty()));
                assert(sn.drop_last() =~= sp);
                assert(sp =~= sp.drop_last().push(sp.last()));
                assert(sp.drop_last().push(sp.last()).drop_last() =~= sp.drop_last());
                assert(views(done@) =~= keep_nonempty(sp));
            }
        } else {
            cur.push(s[i]);
            proof {
                let sn = split_ws(nxt);
                assert(sn.drop_last() =~= sp.drop_last());
            }
        }
        i += 1;
    }
    proof {
        let sp = split_ws(s@.subrange(0, s@.len() as int));
        assert(sp =~= sp.drop_last().push(sp.last()));
        assert(sp.drop_last().push(sp.last()).drop_last() =~= sp.drop_last());
    }
    let ghost old_done = views(done@);
    let ghost old_c = cur@;
    if cur.len() > 0 {
        done.push(cur);
        assert(views(done@) =~= old_done.push(old_c));
    } else {
        assert(views(done@) =~= old_done);
    }
    assert(s@.subrange(0, s@.len() as int) =~= s@);
    done
}

// ─── decimal numbers ────────────────────────────────────────────────────────

pub open spec fn is_digit(c: char) -> bool {
    '0' <= c && c <= '9'
}

pub open spec fn digit_val(c: char) -> nat {
    ((c as u32) - ('0' as u32)) as nat
}

pub open spec fn all_digits(s: Seq<char>) -> bool {
    forall|i: int| 0 <= i < s.len() ==> is_digit(#[trigger] s[i])
}

/// Value of a run of decimal digits.
pub open spec fn digits_value(s: Seq<char>) -> nat
    decreases s.len(),
{
    if s.len() == 0 {
        0
    } else {
        digits_value(s.drop_last()) * 10 + digit_val(s.last())
    }
}

/// The digits that `from_str` of an unsigned integer reads: an optional
/// leading `+` is dropped.
pub open spec fn unsigned_body(s: Seq<char>) -> Seq<char> {
    if s.len() > 0 && s[0] == '+' {
        s.drop_first()
    } else {
        s
    }
}

/// `str::parse` into an unsigned integer type whose largest value is `max`:
/// an optional `+`, then one or more decimal digits whose value is at most `max`.
pub open spec fn parse_unsigned(s: Seq<char>, max: nat) -> Option<nat> {
    let d = unsigned_body(s);
    if d.len() > 0 && all_digits(d) && digits_value(d) <= max {
        Some(digits_value(d))
    } else {
        None
    }
}

pub proof fn lemma_digits_value_mono(s: Seq<char>, i: int)
    requires
        0 <= i <= s.len(),
        all_digits(s),
    ensures
        digits_value(s.subrange(0, i)) <= digits_value(s),
    decreases s.len() - i,
{
    if i < s.len() {
        lemma_digits_value_mono(s, i + 1);
        assert(s.subrange(0, i + 1).drop_last() =~= s.subrange(0, i));
        assert(is_digit(s[i]));
    } else {
        assert(s.subrange(0, i) =~= s);
    }
}

/// Parses `s` as an unsigned decimal number no greater than `max`.
pub fn parse_unsigned_chars(s: &Vec<char>, max: u64) -> (r: Option<u64>)
    ensures
        r matches Some(v) ==> parse_unsigned(s@, max as nat) == Some(v as nat),
        r is None ==> parse_unsigned(s@, max as nat) is None,
{
    let start: usize = if s.len() > 0 && s[0] == '+' { 1 } else { 0 };
    let ghost d = unsigned_body(s@);
    assert(d =~= s@.subrange(start as int, s@.len() as int));
    if start >= s.len() {
        return None;
    }
    let mut v: u64 = 0;
    let mut i = start;
    assert(d.subrange(0, 0) =~= Seq::<char>::empty());
    while i < s.len()
        invariant
            start <= i <= s.len(),
            d == unsigned_body(s@),
            d == s@.subrange(start as int, s@.len() as int),
            v as nat == digits_value(d.subrange(0, i - start)),
            all_digits(d.subrange(0, i - start)),
            v <= max,
        decreases s.len() - i,
    {
        let c = s[i];
        let ghost pre = d.subrange(0, i - start);
        let ghost nxt = d.subrange(0, i - start + 1);
        assert(nxt.drop_last() =~= pre);
        assert(nxt.last() == c);
        assert(d[i - start] == c);
        if !('0' <= c && c <= '9') {
            proof {
                assert(!is_digit(d[i - start]));
                assert(!all_digits(d));
                assert(parse_unsigned(s@, max as nat) is None);
            }
            return None;
        }
        let dv = (c as u32 - '0' as u32) as u64;
        assert(digit_val(c) == dv);
        if dv > max || v > (max - dv) / 10 {
            proof {
                if dv <= max {
                    assert(v * 10 + dv > max) by (nonlinear_arith)
                        requires v > (max - dv) / 10, dv <= max;
                }
                assert(digits_value(nxt) == v * 10 + dv);
                if all_digits(d) {
                    lemma_digits_value_mono(d, i - start + 1);
                    assert(digits_value(d) > max);
                }
                assert(parse_unsigned(s@, max as nat) is None);
            }
            return None;
        }
        proof {
            assert(v * 10 + dv <= max) by (nonlinear_arith)
                requires v <= (max - dv) / 10, dv <= max;
        }
        v = v * 10 + dv;
        i += 1;
        assert forall|k: int| 0 <= k < nxt.len() implies is_digit(#[trigger] nxt[k]) by {
            if k < pre.len() {
                assert(nxt[k] == pre[k]);
            }
        }
    }
    assert(d.subrange(0, d.len() as int) =~= d);
    Some(v)
}

/// `str::parse` into a signed integer type with range `min..=max`: a `-`
/// followed by one or more decimal digits whose negated value is at least
/// `min`, or else what `parse_unsigned` reads up to `max`.
pub open spec fn parse_signed(s: Seq<char>, min: int, max: int) -> Option<int> {
    if s.len() > 0 && s[0] == '-' {
        let d = s.drop_first();
        if d.len() > 0 && all_digits(d) && -(digits_value(d) as int) >= min {
            Some(-(digits_value(d) as int))
        } else {
            None
        }
    } else {
        match parse_unsigned(s, max as nat) {
            Some(v) => Some(v as int),
            None => None,
        }
    }
}

/// Parses `s` as an `i64` the way `str::parse::<i64>` does.
pub fn parse_i64_chars(s: &Vec<char>) -> (r: Option<i64>)
    ensures
        r matches Some(v) ==> parse_signed(s@, i64::MIN as int, i64::MAX as int) == Some(v as int),
        r is None ==> parse_signed(s@, i64::MIN as int, i64::MAX as int) is None,
{
    if s.len() > 0 && s[0] == '-' {
        let rest = slice_chars(s, 1, s.len());
        assert(rest@ =~= s@.drop_first());
        if rest.len() > 0 && rest[0] == '+' {
            assert(!is_digit(rest@[0]));
            return None;
        }
        assert(unsigned_body(rest@) == rest@);
        match parse_unsigned_chars(&rest, 9223372036854775808u64) {
            Some(v) => {
                if v == 9223372036854775808u64 {
                    Some(i64::MIN)
                } else {
                    Some(-(v as i64))
                }
            },
            None => None,
        }
    } else {
        match parse_unsigned_chars(s, 9223372036854775807u64) {
            Some(v) => Some(v as i64),
            None => None,
        }
    }
}

/// `char::to_ascii_lowercase`: `A`..`Z` to `a`..`z`, every other character as it is.
pub open spec fn ascii_lower(c: char) -> char {
    if 'A' <= c && c <= 'Z' {
        ((c as u32) + 32) as char
    } else {
        c
    }
}

pub fn ascii_lower_char(c: char) -> (r: char)
    ensures
        r == ascii_lower(c),
{
    if 'A' <= c && c <= 'Z' {
        ((c as u8) + 32) as char
    } else {
        c
    }
}

/// `char::to_ascii_uppercase(c) == w`.
pub open spec fn upper_eq(c: char, w: char) -> bool {
    if 'a' <= c && c <= 'z' {
        (c as u32) == (w as u32) + 32
    } else {
        c == w
    }
}

/// `s.to_ascii_uppercase() == want`.
pub open spec fn ascii_upper_is(s: Seq<char>, want: Seq<char>) -> bool {
    s.len() == want.len() && forall|i: int| 0 <= i < s.len() ==> upper_eq(#[trigger] s[i], want[i])
}

/// Whether `s`, upper-cased in ASCII, equals `want`.
pub fn eq_ascii_upper(s: &Vec<char>, want: &str) -> (r: bool)
    ensures
        r == ascii_upper_is(s@, want@),
{
    let w = chars_of(want);
    if s.len() != w.len() {
        return false;
    }
    let mut i: usize = 0;
    while i < s.len()
        invariant
            w@ == want@,
            s.len() == w.len(),
            i <= s.len(),
            forall|k: int| 0 <= k < i ==> upper_eq(#[trigger] s@[k], w@[k]),
        decreases s.len() - i,
    {
        let c = s[i];
        let d = w[i];
        let ok = if 'a' <= c && c <= 'z' {
            (c as u32) as u64 == (d as u32) as u64 + 32
        } else {
            c == d
        };
        if !ok {
            assert(!upper_eq(s@[i as int], want@[i as int]));
            return false;
        }
        i += 1;
    }
    true
}

pub open spec fn digit_char(n: nat) -> char {
    ((n + ('0' as u32)) as u32) as char
}

/// `ToString` of an unsigned integer: its decimal digits, most significant first.
pub open spec fn decimal(n: nat) -> Seq<char>
    decreases n,
{
    if n < 10 {
        seq![digit_char(n)]
    } else {
        decimal(n / 10).push(digit_char(n % 10))
    }
}

/// The decimal digits of `n` are one or more digits whose value is `n`.
pub proof fn lemma_decimal_value(n: nat)
    ensures
        decimal(n).len() > 0,
        all_digits(decimal(n)),
        digits_value(decimal(n)) == n,
    decreases n,
{
    let c = digit_char(n % 10);
    assert(digit_val(c) == n % 10 && is_digit(c));
    if n >= 10 {
        lemma_decimal_value(n / 10);
        let d = decimal(n);
        let p = decimal(n / 10);
        assert(d.drop_last() =~= p);
        assert(d.last() == c);
        assert forall|i: int| 0 <= i < d.len() implies is_digit(#[trigger] d[i]) by {
            if i < d.len() - 1 {
                assert(d[i] == p[i]);
            }
        }
        assert(digits_value(d) == digits_value(p) * 10 + digit_val(c));
    } else {
        let d = decimal(n);
        assert(d.drop_last() =~= Seq::<char>::empty());
        assert(digits_value(d) == digits_value(d.drop_last()) * 10 + digit_val(d.last()));
    }
}

/// Appends the decimal digits of `n` to `out`.
pub fn push_decimal(out: &mut Vec<char>, n: u64)
    ensures
        final(out)@ == old(out)@ + decimal(n as nat),
    decreases n,
{
    if n >= 10 {
        push_decimal(out, n / 10);
    }
    let d = (n % 10) as u32 + '0' as u32;
    let c = char_from_digit(d);
    out.push(c);
    assert(out@ =~= old(out)@ + decimal(n as nat));
}

fn char_from_digit(u: u32) -> (c: char)
    requires
        0x30 <= u <= 0x39,
    ensures
        c == u as char,
{
    if u == 0x30 { '0' } else if u == 0x31 { '1' } else if u == 0x32 { '2' } else if u == 0x33 { '3' }
    else if u == 0x34 { '4' } else if u == 0x35 { '5' } else if u == 0x36 { '6' } else if u == 0x37 { '7' }
    else if u == 0x38 { '8' } else { '9' }
}

// ─── case mapping ───────────────────────────────────────────────────────────

/// Result of `str::to_lowercase` (full Unicode case mapping).
pub uninterp spec fn lowercase(s: Seq<char>) -> Seq<char>;

/// Result of `str::to_uppercase` (full Unicode case mapping).
pub uninterp spec fn uppercase(s: Seq<char>) -> Seq<char>;

/// `str::to_lowercase` of `s`: on ASCII text each character lower-cased in
/// place, otherwise as named by `lowercase`.
pub open spec fn lower_text(s: Seq<char>) -> Seq<char> {
    if is_ascii_text(s) {
        s.map_values(|c: char| ascii_lower(c))
    } else {
        lowercase(s)
    }
}

/// `str::to_uppercase` of `s`, in the same way as `lower_text`.
pub open spec fn upper_text(s: Seq<char>) -> Seq<char> {
    if is_ascii_text(s) {
        s.map_values(|c: char| ascii_upper(c))
    } else {
        uppercase(s)
    }
}

/// `char::to_ascii_uppercase`: `a`..`z` to `A`..`Z`, every other character as it is.
pub open spec fn ascii_upper(c: char) -> char {
    if 'a' <= c && c <= 'z' {
        ((c as u32) - 32) as char
    } else {
        c
    }
}

/// `str::to_lowercase`; the contract ties the result to the characters of `s`
/// by name. Of the Unicode case tables it states only what holds of ASCII
/// text: each character is lower-cased in place (`A`..`Z` to `a`..`z`).
#[verifier::external_body]
pub(crate) fn to_lowercase_chars(s: &Vec<char>) -> (r: Vec<char>)
    ensures
        r@ == lowercase(s@),
        is_ascii_text(s@) ==> r@ == s@.map_values(|c: char| ascii_lower(c)),
{
    let t: String = s.iter().collect();
    t.to_lowercase().chars().collect()
}

/// `str::to_uppercase`; named as `to_lowercase_chars` is, and on ASCII text
/// each character is upper-cased in place (`a`..`z` to `A`..`Z`).
#[verifier::external_body]
pub(crate) fn to_uppercase_chars(s: &Vec<char>) -> (r: Vec<char>)
    ensures
        r@ == uppercase(s@),
        is_ascii_text(s@) ==> r@ == s@.map_values(|c: char| ascii_upper(c)),
{
    let t: String = s.iter().collect();
    t.to_uppercase().chars().collect()
}


// ─── equality and key/value lists ───────────────────────────────────────────

/// Whether two character vectors are equal.
pub fn eq_chars(a: &Vec<char>, b: &Vec<char>) -> (r: bool)
    ensures
        r == (a@ == b@),
{
    if a.len() != b.len() {
        return false;
    }
    let mut i: usize = 0;
    while i < a.len()
        invariant
            a.len() == b.len(),
            i <= a.len(),
            forall|k: int| 0 <= k < i ==> a@[k] == b@[k],
        decreases a.len() - i,
    {
        if a[i] != b[i] {
            return false;
        }
        i += 1;
    }
    assert(a@ =~= b@);
    true
}

/// Whether a string equals the given characters.
pub fn str_eq_chars(a: &str, b: &Vec<char>) -> (r: bool)
    ensures
        r == (a@ == b@),
{
    let av = chars_of(a);
    eq_chars(&av, b)
}

/// Whether two strings are equal.
pub fn str_eq(a: &str, b: &str) -> (r: bool)
    ensures
        r == (a@ == b@),
{
    let av = chars_of(a);
    let bv = chars_of(b);
    eq_chars(&av, &bv)
}

/// Views of a list of string pairs.
pub open spec fn pair_views(v: Seq<(String, String)>) -> Seq<(Seq<char>, Seq<char>)> {
    v.map_values(|p: (String, String)| (p.0@, p.1@))
}

/// Views of a list of strings.
pub open spec fn string_views(v: Seq<String>) -> Seq<Seq<char>> {
    v.map_values(|x: String| x@)
}

/// The map that a list of key/value pairs stands for when it is read in
/// order into a map: a later pair with the same key replaces an earlier one.
pub open spec fn kv_map(v: Seq<(Seq<char>, Seq<char>)>) -> Map<Seq<char>, Seq<char>>
    decreases v.len(),
{
    if v.len() == 0 {
        Map::empty()
    } else {
        kv_map(v.drop_last()).insert(v.last().0, v.last().1)
    }
}

/// Looks `key` up in a list of pairs read as a map (`kv_map`).
pub fn kv_get(v: &Vec<(String, String)>, key: &str) -> (r: Option<String>)
    ensures
        r matches Some(x) ==> kv_map(pair_views(v@)).contains_key(key@) && kv_map(pair_views(v@))[key@] == x@,
        r is None ==> !kv_map(pair_views(v@)).contains_key(key@),
{
    let kv = chars_of(key);
    let mut i: usize = v.len();
    while i > 0
        invariant
            i <= v.len(),
            kv@ == key@,
            forall|k: int| i <= k < v.len() ==> v@[k].0@ != key@,
        decreases i,
    {
        let ghost pv = pair_views(v@);
        if str_eq_chars(v[i - 1].0.as_str(), &kv) {
            proof {
                lemma_kv_map_last_hit(pv, i - 1);
            }
            return Some(v[i - 1].1.clone());
        }
        i -= 1;
    }
    proof {
        lemma_kv_map_miss(pair_views(v@), key@);
    }
    None
}

pub proof fn lemma_kv_map_last_hit(v: Seq<(Seq<char>, Seq<char>)>, i: int)
    requires
        0 <= i < v.len(),
        forall|k: int| i < k < v.len() ==> v[k].0 != v[i].0,
    ensures
        kv_map(v).contains_key(v[i].0),
        kv_map(v)[v[i].0] == v[i].1,
    decreases v.len(),
{
    if i < v.len() - 1 {
        lemma_kv_map_last_hit(v.drop_last(), i);
    }
}

pub proof fn lemma_kv_map_miss(v: Seq<(Seq<char>, Seq<char>)>, key: Seq<char>)
    requires
        forall|k: int| 0 <= k < v.len() ==> v[k].0 != key,
    ensures
        !kv_map(v).contains_key(key),
    decreases v.len(),
{
    if v.len() > 0 {
        lemma_kv_map_miss(v.drop_last(), key);
    }
}


// ─── last occurrence, joining, stripping ────────────────────────────────────

/// Last index of `c` in `s` (`str::rfind` with a character).
pub open spec fn find_last_char(s: Seq<char>, c: char) -> Option<int>
    decreases s.len(),
{
    if s.len() == 0 {
        None
    } else if s.last() == c {
        Some(s.len() - 1)
    } else {
        find_last_char(s.drop_last(), c)
    }
}

pub proof fn lemma_find_last_char(s: Seq<char>, c: char)
    ensures
        find_last_char(s, c) matches Some(i) ==> 0 <= i < s.len() && s[i] == c,
    decreases s.len(),
{
    if s.len() > 0 && s.last() != c {
        lemma_find_last_char(s.drop_last(), c);
    }
}

/// Last index of `c` in `s`.
pub fn rfind_char(s: &Vec<char>, c: char) -> (r: Option<usize>)
    ensures
        opt_index(r) == find_last_char(s@, c),
        r matches Some(i) ==> i < s@.len() && s@[i as int] == c,
{
    let mut j: usize = s.len();
    assert(s@.subrange(0, s@.len() as int) =~= s@);
    while j > 0
        invariant
            j <= s.len(),
            find_last_char(s@, c) == find_last_char(s@.subrange(0, j as int), c),
        decreases j,
    {
        assert(s@.subrange(0, j as int).drop_last() =~= s@.subrange(0, j - 1));
        if s[j - 1] == c {
            return Some(j - 1);
        }
        j -= 1;
    }
    None
}

/// The pieces joined with `sep` between neighbours (`[T]::join`).
pub open spec fn join(ps: Seq<Seq<char>>, sep: Seq<char>) -> Seq<char>
    decreases ps.len(),
{
    if ps.len() == 0 {
        Seq::<char>::empty()
    } else if ps.len() == 1 {
        ps[0]
    } else {
        join(ps.drop_last(), sep) + sep + ps.last()
    }
}

/// `pieces[lo..hi]` joined with `sep`.
pub fn join_chars(pieces: &Vec<Vec<char>>, lo: usize, hi: usize, sep: &Vec<char>) -> (r: Vec<char>)
    requires
        lo <= hi <= pieces.len(),
    ensures
        r@ == join(views(pieces@).subrange(lo as int, hi as int), sep@),
{
    let mut r: Vec<char> = Vec::new();
    let mut i = lo;
    assert(views(pieces@).subrange(lo as int, lo as int) =~= Seq::<Seq<char>>::empty());
    while i < hi
        invariant
            lo <= i <= hi <= pieces.len(),
            r@ == join(views(pieces@).subrange(lo as int, i as int), sep@),
        decreases hi - i,
    {
        let ghost v = views(pieces@);
        assert(v.subrange(lo as int, i + 1).drop_last() =~= v.subrange(lo as int, i as int));
        assert(v.subrange(lo as int, i + 1).last() == pieces@[i as int]@);
        if i > lo {
            push_all(&mut r, sep);
        }
        push_all(&mut r, &pieces[i]);
        i += 1;
        if i - 1 == lo {
            assert(v.subrange(lo as int, i as int) =~= seq![pieces@[lo as int]@]);
            assert(r@ =~= join(v.subrange(lo as int, i as int), sep@));
        }
    }
    r
}

/// `s` without the prefix `p` when it starts with it (`str::strip_prefix`).
pub open spec fn strip_prefix(s: Seq<char>, p: Seq<char>) -> Option<Seq<char>> {
    if has_prefix(s, p) {
        Some(s.subrange(p.len() as int, s.len() as int))
    } else {
        None
    }
}

pub fn strip_prefix_chars(s: &Vec<char>, p: &Vec<char>) -> (r: Option<Vec<char>>)
    ensures
        r matches Some(t) ==> strip_prefix(s@, p@) == Some(t@),
        r is None ==> strip_prefix(s@, p@) is None,
{
    if starts_with_chars(s, p) {
        Some(slice_chars(s, p.len(), s.len()))
    } else {
        None
    }
}


// ─── UTF-8 ──────────────────────────────────────────────────────────────────

/// `std::str::from_utf8`: the characters of the bytes when they are valid
/// UTF-8 (as `vstd::utf8` defines it), `None` otherwise.
#[verifier::external_body]
pub(crate) fn utf8_chars(bytes: &[u8]) -> (r: Option<Vec<char>>)
    ensures
        r is Some <==> vstd::utf8::valid_utf8(bytes@),
        r matches Some(v) ==> v@ == vstd::utf8::decode_utf8(bytes@),
{
    std::str::from_utf8(bytes).ok().map(|s| s.chars().collect())
}

// ─── lexicographic order ────────────────────────────────────────────────────

/// Lexicographic order by code point, which is the order of `String`'s
/// `Ord` (byte order of UTF-8 agrees with code point order).
pub open spec fn lex_lt(a: Seq<char>, b: Seq<char>) -> bool
    decreases a.len(),
{
    if a.len() == 0 {
        b.len() > 0
    } else if b.len() == 0 {
        false
    } else if a[0] != b[0] {
        a[0] < b[0]
    } else {
        lex_lt(a.drop_first(), b.drop_first())
    }
}

pub proof fn lemma_lex_irrefl(a: Seq<char>)
    ensures
        !lex_lt(a, a),
    decreases a.len(),
{
    if a.len() > 0 {
        lemma_lex_irrefl(a.drop_first());
    }
}

pub proof fn lemma_lex_trans(a: Seq<char>, b: Seq<char>, c: Seq<char>)
    requires
        lex_lt(a, b),
        lex_lt(b, c),
    ensures
        lex_lt(a, c),
    decreases a.len(),
{
    if a.len() > 0 && b.len() > 0 && c.len() > 0 && a[0] == b[0] && b[0] == c[0] {
        lemma_lex_trans(a.drop_first(), b.drop_first(), c.drop_first());
    }
}

pub proof fn lemma_lex_total(a: Seq<char>, b: Seq<char>)
    ensures
        lex_lt(a, b) || lex_lt(b, a) || a == b,
    decreases a.len(),
{
    if a.len() > 0 && b.len() > 0 {
        if a[0] == b[0] {
            lemma_lex_total(a.drop_first(), b.drop_first());
            if a.drop_first() == b.drop_first() {
                assert(a =~= seq![a[0]] + a.drop_first());
                assert(b =~= seq![b[0]] + b.drop_first());
            }
        }
    } else if a.len() == 0 && b.len() == 0 {
        assert(a =~= b);
    }
}

/// Whether `a` comes before `b` by code point.
pub fn lex_lt_exec(a: &Vec<char>, b: &Vec<char>) -> (r: bool)
    ensures
        r == lex_lt(a@, b@),
{
    let mut i: usize = 0;
    assert(a@.subrange(0, a@.len() as int) =~= a@);
    assert(b@.subrange(0, b@.len() as int) =~= b@);
    while i < a.len() && i < b.len()
        invariant
            i <= a.len(),
            i <= b.len(),
            forall|k: int| 0 <= k < i ==> a@[k] == b@[k],
            lex_lt(a@, b@) == lex_lt(a@.subrange(i as int, a@.len() as int), b@.subrange(i as int, b@.len() as int)),
        decreases a.len() - i,
    {
        let ghost sa = a@.subrange(i as int, a@.len() as int);
        let ghost sb = b@.subrange(i as int, b@.len() as int);
        assert(sa[0] == a@[i as int]);
        assert(sb[0] == b@[i as int]);
        if a[i] != b[i] {
            return a[i] < b[i];
        }
        assert(sa.drop_first() =~= a@.subrange(i + 1, a@.len() as int));
        assert(sb.drop_first() =~= b@.subrange(i + 1, b@.len() as int));
        i += 1;
    }
    let ghost sa = a@.subrange(i as int, a@.len() as int);
    let ghost sb = b@.subrange(i as int, b@.len() as int);
    i == a.len() && i < b.len()
}

/// Strictly increasing by code point: a sorted list without repeats.
pub open spec fn strictly_sorted(v: Seq<Seq<char>>) -> bool {
    forall|i: int, j: int| 0 <= i < j < v.len() ==> lex_lt(#[trigger] v[i], #[trigger] v[j])
}

fn lt_at(v: &Vec<String>, i: usize, xv: &Vec<char>) -> (r: bool)
    requires
        i < v.len(),
    ensures
        r == lex_lt(v@[i as int]@, xv@),
{
    let cv = chars_of(v[i].as_str());
    lex_lt_exec(&cv, xv)
}

/// Inserts `x` into a strictly sorted list of strings, keeping it strictly
/// sorted; a string already there is not added twice.
pub fn sorted_insert(v: &mut Vec<String>, x: String)
    requires
        strictly_sorted(string_views(old(v)@)),
    ensures
        strictly_sorted(string_views(final(v)@)),
        string_views(final(v)@).to_set() == string_views(old(v)@).to_set().insert(x@),
{
    let xv = chars_of(x.as_str());
    let mut i: usize = 0;
    while i < v.len() && lt_at(v, i, &xv)
        invariant
            i <= v.len(),
            xv@ == x@,
            forall|k: int| 0 <= k < i ==> lex_lt(#[trigger] string_views(v@)[k], x@),
        decreases v.len() - i,
    {
        i += 1;
    }
    let ghost sv = string_views(v@);
    if i < v.len() {
        let cv = chars_of(v[i].as_str());
        if eq_chars(&cv, &xv) {
            proof {
                assert(sv[i as int] == x@);
                assert(sv.to_set().insert(x@) =~= sv.to_set());
            }
            return;
        }
        proof {
            lemma_lex_total(sv[i as int], x@);
            assert(lex_lt(x@, sv[i as int]));
        }
    }
    v.insert(i, x);
    proof {
        let nv = string_views(v@);
        assert(nv =~= sv.insert(i as int, x@));
        assert forall|a: int, b: int| 0 <= a < b < nv.len() implies lex_lt(#[trigger] nv[a], #[trigger] nv[b]) by {
            if b < i {
                assert(nv[a] == sv[a] && nv[b] == sv[b]);
            } else if b == i {
                assert(nv[a] == sv[a]);
                assert(lex_lt(sv[a], x@));
            } else {
                assert(nv[b] == sv[b - 1]);
                assert(lex_lt(x@, sv[i as int]));
                if b - 1 > i {
                    assert(lex_lt(sv[i as int], sv[b - 1]));
                    lemma_lex_trans(x@, sv[i as int], sv[b - 1]);
                }
                assert(lex_lt(x@, nv[b]));
                if a < i {
                    assert(nv[a] == sv[a]);
                    assert(lex_lt(sv[a], x@));
                    lemma_lex_trans(nv[a], x@, nv[b]);
                } else if a == i {
                } else {
                    assert(nv[a] == sv[a - 1]);
                }
            }
        }
        assert(nv.to_set() =~= sv.to_set().insert(x@)) by {
            assert forall|e: Seq<char>| nv.to_set().contains(e) <==> sv.to_set().insert(x@).contains(e) by {
                if nv.to_set().contains(e) {
                    let k = choose|k: int| 0 <= k < nv.len() && nv[k] == e;
                    if k < i {
                        assert(sv[k] == e);
                    } else if k > i {
                        assert(sv[k - 1] == e);
                    }
                }
                if sv.to_set().contains(e) {
                    let k = choose|k: int| 0 <= k < sv.len() && sv[k] == e;
                    if k < i {
                        assert(nv[k] == e);
                    } else {
                        assert(nv[k + 1] == e);
                    }
                }
                if e == x@ {
                    assert(nv[i as int] == e);
                }
            }
        }
    }
}


// ─── character-pair lists ───────────────────────────────────────────────────

/// Views of a list of character-vector pairs.
pub open spec fn cpair_views(v: Seq<(Vec<char>, Vec<char>)>) -> Seq<(Seq<char>, Seq<char>)> {
    v.map_values(|p: (Vec<char>, Vec<char>)| (p.0@, p.1@))
}

/// Looks `key` up in a list of pairs read as a map (`kv_map`).
pub fn kv_get_chars(v: &Vec<(Vec<char>, Vec<char>)>, key: &Vec<char>) -> (r: Option<Vec<char>>)
    ensures
        r matches Some(x) ==> kv_map(cpair_views(v@)).contains_key(key@) && kv_map(cpair_views(v@))[key@] == x@,
        r is None ==> !kv_map(cpair_views(v@)).contains_key(key@),
{
    let mut i: usize = v.len();
    while i > 0
        invariant
            i <= v.len(),
            forall|k: int| i <= k < v.len() ==> v@[k].0@ != key@,
        decreases i,
    {
        if eq_chars(&v[i - 1].0, key) {
            proof {
                lemma_kv_map_last_hit(cpair_views(v@), i - 1);
            }
            return Some(v[i - 1].1.clone());
        }
        i -= 1;
    }
    proof {
        lemma_kv_map_miss(cpair_views(v@), key@);
    }
    None
}

// ─── lines ──────────────────────────────────────────────────────────────────

/// A line without the `\r` of a `\r\n` ending.
pub open spec fn strip_cr(p: Seq<char>) -> Seq<char> {
    if p.len() > 0 && p.last() == '\r' {
        p.drop_last()
    } else {
        p
    }
}

/// `str::lines`: pieces between `\n`, each without a `\r` before its `\n`;
/// a final empty piece (after a last `\n`, or of the empty string) is not a line.
pub open spec fn lines(s: Seq<char>) -> Seq<Seq<char>> {
    let ps = split_on(s, '\n');
    let body = ps.drop_last().map_values(|p: Seq<char>| strip_cr(p));
    if ps.last().len() == 0 {
        body
    } else {
        body.push(ps.last())
    }
}

/// The lines of `s`.
pub fn lines_chars(s: &Vec<char>) -> (r: Vec<Vec<char>>)
    ensures
        views(r@) == lines(s@),
{
    let ps = split_chars(s, '\n');
    let n = ps.len();
    let mut r: Vec<Vec<char>> = Vec::new();
    let mut i: usize = 0;
    while i + 1 < n
        invariant
            n == ps.len(),
            n >= 1,
            i <= n - 1,
            views(r@) == views(ps@).subrange(0, i as int).map_values(|p: Seq<char>| strip_cr(p)),
        decreases n - i,
    {
        let p = &ps[i];
        let line = if p.len() > 0 && p[p.len() - 1] == '\r' {
            slice_chars(p, 0, p.len() - 1)
        } else {
            p.clone()
        };
        proof {
            if p@.len() > 0 && p@.last() == '\r' {
                assert(line@ =~= p@.drop_last());
            }
        }
        let ghost old_v = views(r@);
        r.push(line);
        assert(views(r@) =~= old_v.push(line@));
        i += 1;
        assert(views(r@) =~= views(ps@).subrange(0, i as int).map_values(|p: Seq<char>| strip_cr(p)));
    }
    assert(views(ps@).subrange(0, (n - 1) as int) =~= views(ps@).drop_last());
    if ps[n - 1].len() > 0 {
        let ghost old_v = views(r@);
        r.push(ps[n - 1].clone());
        assert(views(r@) =~= old_v.push(views(ps@).last()));
    }
    r
}

/// ASCII text.
pub open spec fn is_ascii_text(s: Seq<char>) -> bool {
    forall|i: int| 0 <= i < s.len() ==> #[trigger] s[i] <= '\x7f'
}

pub fn is_ascii_chars(s: &Vec<char>) -> (r: bool)
    ensures
        r == is_ascii_text(s@),
{
    let mut i: usize = 0;
    while i < s.len()
        invariant
            i <= s.len(),
            forall|k: int| 0 <= k < i ==> s@[k] <= '\x7f',
        decreases s.len() - i,
    {
        if s[i] > '\x7f' {
            return false;
        }
        i += 1;
    }
    true
}

/// Each character vector made into a `String`, in order.
pub fn strings_of(v: &Vec<Vec<char>>) -> (r: Vec<String>)
    ensures
        string_views(r@) == views(v@),
{
    let mut r: Vec<String> = Vec::new();
    let mut i: usize = 0;
    while i < v.len()
        invariant
            i <= v.len(),
            string_views(r@) == views(v@).subrange(0, i as int),
        decreases v.len() - i,
    {
        let ghost old_r = string_views(r@);
        r.push(string_of(&v[i]));
        assert(string_views(r@) =~= old_r.push(v@[i as int]@));
        assert(views(v@).subrange(0, i + 1) =~= views(v@).subrange(0, i as int).push(v@[i as int]@));
        i += 1;
    }
    assert(views(v@).subrange(0, v@.len() as int) =~= views(v@));
    r
}

} // verus!
