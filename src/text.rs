//! Character-level text primitives shared by every parser.
//!
//! Text is handled as a `Vec<char>` whose view is the `Seq<char>` of the
//! string it came from, so that every parser can be specified over `Seq<char>`.

use vstd::prelude::*;

verus! {

/// Relies on `String::push`: appends one character to the end of the string.
pub assume_specification[ String::push ](s: &mut String, ch: char)
    ensures
        final(s)@ == old(s)@.push(ch),
;

/// The characters of `s`, in order.
pub fn chars_of(s: &str) -> (r: Vec<char>)
    ensures
        r@ == s@,
{
    let mut r: Vec<char> = Vec::new();
    for c in it: s.chars()
        invariant
            r@ == it.seq().subrange(0, it.index() as int),
    {
        r.push(c);
    }
    r
}

/// The string whose characters are `v[start..end]`.
pub fn string_of_range(v: &Vec<char>, start: usize, end: usize) -> (r: String)
    requires
        start <= end <= v@.len(),
    ensures
        r@ == v@.subrange(start as int, end as int),
{
    let mut r = String::new();
    let mut i: usize = start;
    while i < end
        invariant
            start <= i <= end <= v@.len(),
            r@ == v@.subrange(start as int, i as int),
        decreases end - i,
    {
        r.push(v[i]);
        assert(v@.subrange(start as int, i + 1) == v@.subrange(start as int, i as int).push(v@[i as int]));
        i += 1;
    }
    r
}

/// The string whose characters are those of `v`.
pub fn string_of(v: &Vec<char>) -> (r: String)
    ensures
        r@ == v@,
{
    assert(v@.subrange(0, v@.len() as int) == v@);
    string_of_range(v, 0, v.len())
}

/// Unicode `White_Space`, as `char::is_whitespace` defines it.
pub open spec fn is_ws(c: char) -> bool {
    c == '\t' || c == '\n' || c == '\u{0B}' || c == '\u{0C}' || c == '\r' || c == ' '
        || c == '\u{85}' || c == '\u{A0}' || c == '\u{1680}' || ('\u{2000}' <= c
        && c <= '\u{200A}') || c == '\u{2028}' || c == '\u{2029}' || c == '\u{202F}'
        || c == '\u{205F}' || c == '\u{3000}'
}

pub fn is_whitespace(c: char) -> (r: bool)
    ensures
        r == is_ws(c),
{
    c == '\t' || c == '\n' || c == '\u{0B}' || c == '\u{0C}' || c == '\r' || c == ' '
        || c == '\u{85}' || c == '\u{A0}' || c == '\u{1680}' || ('\u{2000}' <= c
        && c <= '\u{200A}') || c == '\u{2028}' || c == '\u{2029}' || c == '\u{202F}'
        || c == '\u{205F}' || c == '\u{3000}'
}

/// The first index at or after `i` that does not hold whitespace (or the length).
pub open spec fn skip_ws(s: Seq<char>, i: int) -> int
    decreases s.len() - i,
{
    if i < 0 || i >= s.len() || !is_ws(s[i]) {
        i
    } else {
        skip_ws(s, i + 1)
    }
}

/// Walking back from `j`, but not below `lo`, the end of the last non-whitespace run.
pub open spec fn back_ws(s: Seq<char>, lo: int, j: int) -> int
    decreases j - lo,
{
    if j <= lo || j > s.len() || !is_ws(s[j - 1]) {
        j
    } else {
        back_ws(s, lo, j - 1)
    }
}

/// `s` without leading and trailing whitespace, as `str::trim` gives it.
pub open spec fn trim(s: Seq<char>) -> Seq<char> {
    let a = skip_ws(s, 0);
    s.subrange(a, back_ws(s, a, s.len() as int))
}

pub proof fn lemma_skip_ws_props(s: Seq<char>, i: int)
    requires
        0 <= i <= s.len(),
    ensures
        i <= skip_ws(s, i) <= s.len(),
        skip_ws(s, i) < s.len() ==> !is_ws(s[skip_ws(s, i)]),
    decreases s.len() - i,
{
    if i < s.len() && is_ws(s[i]) {
        lemma_skip_ws_props(s, i + 1);
    }
}

pub proof fn lemma_back_ws_props(s: Seq<char>, lo: int, j: int)
    requires
        0 <= lo <= j <= s.len(),
    ensures
        lo <= back_ws(s, lo, j) <= j,
        back_ws(s, lo, j) > lo ==> !is_ws(s[back_ws(s, lo, j) - 1]),
    decreases j - lo,
{
    if j > lo && is_ws(s[j - 1]) {
        lemma_back_ws_props(s, lo, j - 1);
    }
}

/// Trimming twice is trimming once.
pub proof fn lemma_trim_idempotent(s: Seq<char>)
    ensures
        trim(trim(s)) == trim(s),
{
    let a = skip_ws(s, 0);
    lemma_skip_ws_props(s, 0);
    let b = back_ws(s, a, s.len() as int);
    lemma_back_ws_props(s, a, s.len() as int);
    let t = s.subrange(a, b);
    lemma_skip_ws_props(t, 0);
    lemma_back_ws_props(t, 0, t.len() as int);
    if t.len() > 0 {
        assert(t[0] == s[a]);
        assert(skip_ws(t, 0) == 0);
        assert(t[t.len() - 1] == s[b - 1]);
        assert(back_ws(t, 0, t.len() as int) == t.len());
    }
    assert(trim(t) =~= t);
}

proof fn lemma_skip_through(s: Seq<char>, i: int, k: int)
    requires
        0 <= i <= k < s.len(),
        forall|j: int| i <= j < k ==> is_ws(#[trigger] s[j]),
        !is_ws(s[k]),
    ensures
        skip_ws(s, i) == k,
    decreases k - i,
{
    if i < k {
        lemma_skip_through(s, i + 1, k);
    }
}

proof fn lemma_back_through(s: Seq<char>, lo: int, j: int, e: int)
    requires
        0 <= lo < e <= j <= s.len(),
        forall|m: int| e <= m < j ==> is_ws(#[trigger] s[m]),
        !is_ws(s[e - 1]),
    ensures
        back_ws(s, lo, j) == e,
    decreases j - e,
{
    if j > e {
        lemma_back_through(s, lo, j - 1, e);
    }
}

/// Trimming text that is whitespace, then `core`, then whitespace gives
/// `core`, when `core` neither starts nor ends with whitespace.
pub proof fn lemma_trim_padded(pre: Seq<char>, core: Seq<char>, post: Seq<char>)
    requires
        forall|j: int| 0 <= j < pre.len() ==> is_ws(#[trigger] pre[j]),
        forall|j: int| 0 <= j < post.len() ==> is_ws(#[trigger] post[j]),
        core.len() > 0,
        !is_ws(core[0]),
        !is_ws(core[core.len() - 1]),
    ensures
        trim(pre + core + post) == core,
{
    let s = pre + core + post;
    let a = pre.len() as int;
    let e = a + core.len();
    assert forall|j: int| 0 <= j < a implies is_ws(#[trigger] s[j]) by {
        assert(s[j] == pre[j]);
    }
    assert(s[a] == core[0]);
    lemma_skip_through(s, 0, a);
    assert forall|m: int| e <= m < s.len() implies is_ws(#[trigger] s[m]) by {
        assert(s[m] == post[m - e]);
    }
    assert(s[e - 1] == core[core.len() - 1]);
    lemma_back_through(s, a, s.len() as int, e);
    assert(s.subrange(a, e) =~= core);
}

/// The bounds of the trimmed part of `v`.
pub fn trim_bounds(v: &Vec<char>) -> (r: (usize, usize))
    ensures
        r.0 == skip_ws(v@, 0),
        r.1 == back_ws(v@, r.0 as int, v@.len() as int),
        r.0 <= r.1 <= v@.len(),
{
    let mut a: usize = 0;
    while a < v.len() && is_whitespace(v[a])
        invariant
            a <= v@.len(),
            skip_ws(v@, 0) == skip_ws(v@, a as int),
        decreases v@.len() - a,
    {
        a += 1;
    }
    let mut b: usize = v.len();
    while b > a && is_whitespace(v[b - 1])
        invariant
            a <= b <= v@.len(),
            back_ws(v@, a as int, v@.len() as int) == back_ws(v@, a as int, b as int),
        decreases b - a,
    {
        b -= 1;
    }
    (a, b)
}

/// `v` trimmed of whitespace at both ends.
pub fn trimmed(v: &Vec<char>) -> (r: Vec<char>)
    ensures
        r@ == trim(v@),
{
    let (a, b) = trim_bounds(v);
    copy_range(v, a, b)
}

/// `v[start..end]` as a vector of its own.
pub fn copy_range(v: &Vec<char>, start: usize, end: usize) -> (r: Vec<char>)
    requires
        start <= end <= v@.len(),
    ensures
        r@ == v@.subrange(start as int, end as int),
{
    let mut r: Vec<char> = Vec::new();
    let mut i: usize = start;
    while i < end
        invariant
            start <= i <= end <= v@.len(),
            r@ == v@.subrange(start as int, i as int),
        decreases end - i,
    {
        r.push(v[i]);
        assert(v@.subrange(start as int, i + 1) == v@.subrange(start as int, i as int).push(v@[i as int]));
        i += 1;
    }
    r
}

/// Whether `p` occurs in `s` at index `i`.
pub open spec fn occurs_at(s: Seq<char>, p: Seq<char>, i: int) -> bool {
    0 <= i && i + p.len() <= s.len() && s.subrange(i, i + p.len()) == p
}

/// Whether `s` begins with `p`.
pub open spec fn starts_with(s: Seq<char>, p: Seq<char>) -> bool {
    occurs_at(s, p, 0)
}

/// The first index at or after `i` where `p` occurs in `s`.
pub open spec fn find_from(s: Seq<char>, p: Seq<char>, i: int) -> Option<int>
    decreases s.len() + 1 - i,
{
    if i < 0 || i + p.len() > s.len() {
        None
    } else if occurs_at(s, p, i) {
        Some(i)
    } else {
        find_from(s, p, i + 1)
    }
}

/// The first index where `p` occurs in `s`, as `str::find` gives it.
pub open spec fn find(s: Seq<char>, p: Seq<char>) -> Option<int> {
    find_from(s, p, 0)
}

/// Whether `p` occurs anywhere in `s`, as `str::contains` decides it.
pub open spec fn contains(s: Seq<char>, p: Seq<char>) -> bool {
    find(s, p) is Some
}

pub proof fn lemma_find_from_bounds(s: Seq<char>, p: Seq<char>, i: int)
    requires
        0 <= i,
    ensures
        find_from(s, p, i) matches Some(k) ==> i <= k && occurs_at(s, p, k),
    decreases s.len() + 1 - i,
{
    if i + p.len() <= s.len() && !occurs_at(s, p, i) {
        lemma_find_from_bounds(s, p, i + 1);
    }
}

/// Whether `p` occurs in `v` at `i`.
pub fn occurs_at_exec(v: &Vec<char>, p: &Vec<char>, i: usize) -> (r: bool)
    ensures
        r == occurs_at(v@, p@, i as int),
{
    if p.len() > v.len() || i > v.len() - p.len() {
        return false;
    }
    let mut k: usize = 0;
    while k < p.len()
        invariant
            k <= p@.len(),
            v@.len() <= usize::MAX,
            i + p@.len() <= v@.len(),
            forall|j: int| 0 <= j < k ==> v@[i + j] == p@[j],
        decreases p@.len() - k,
    {
        if v[i + k] != p[k] {
            assert(v@.subrange(i as int, i + p@.len())[k as int] != p@[k as int]);
            return false;
        }
        k += 1;
    }
    assert(v@.subrange(i as int, i + p@.len()) == p@);
    true
}

/// Whether `v` begins with `p`.
pub fn starts_with_exec(v: &Vec<char>, p: &Vec<char>) -> (r: bool)
    ensures
        r == starts_with(v@, p@),
{
    occurs_at_exec(v, p, 0)
}

/// The first index at or after `from` where `p` occurs in `v`.
pub fn find_exec(v: &Vec<char>, p: &Vec<char>, from: usize) -> (r: Option<usize>)
    ensures
        r matches Some(k) ==> find_from(v@, p@, from as int) == Some(k as int),
        r is None ==> find_from(v@, p@, from as int) is None,
{
    if p.len() > v.len() || from > v.len() - p.len() {
        return None;
    }
    if p.len() == 0 {
        assert(v@.subrange(from as int, from as int) =~= p@);
        return Some(from);
    }
    let mut i: usize = from;
    while i <= v.len() - p.len()
        invariant
            from <= i,
            0 < p@.len() <= v@.len(),
            find_from(v@, p@, from as int) == find_from(v@, p@, i as int),
        decreases v@.len() - i,
    {
        if occurs_at_exec(v, p, i) {
            return Some(i);
        }
        i += 1;
    }
    None
}

/// Whether `p` occurs anywhere in `v`.
pub fn contains_exec(v: &Vec<char>, p: &Vec<char>) -> (r: bool)
    ensures
        r == contains(v@, p@),
{
    find_exec(v, p, 0).is_some()
}

/// The views of a sequence of character vectors.
pub open spec fn views(v: Seq<Vec<char>>) -> Seq<Seq<char>> {
    v.map_values(|x: Vec<char>| x@)
}

pub proof fn lemma_views_push(v: Seq<Vec<char>>, x: Vec<char>)
    ensures
        views(v.push(x)) == views(v).push(x@),
{
    assert(views(v.push(x)) =~= views(v).push(x@));
}

/// The first `'\n'` at or after `i`, or the length.
pub open spec fn line_end(s: Seq<char>, i: int) -> int
    decreases s.len() - i,
{
    if i < 0 || i >= s.len() || s[i] == '\n' {
        i
    } else {
        line_end(s, i + 1)
    }
}

pub proof fn lemma_line_end_bounds(s: Seq<char>, i: int)
    requires
        0 <= i <= s.len(),
    ensures
        i <= line_end(s, i) <= s.len(),
        line_end(s, i) < s.len() ==> s[line_end(s, i)] == '\n',
    decreases s.len() - i,
{
    if i < s.len() && s[i] != '\n' {
        lemma_line_end_bounds(s, i + 1);
    }
}

/// The line that starts at `i`: up to the next `'\n'`, without the `'\r'` of a
/// `"\r\n"` ending.
pub open spec fn line_at(s: Seq<char>, i: int) -> Seq<char> {
    let e = line_end(s, i);
    if i < e < s.len() && s[e - 1] == '\r' {
        s.subrange(i, e - 1)
    } else {
        s.subrange(i, e)
    }
}

/// The lines of `s[i..]`, as `str::lines` splits them.
pub open spec fn lines_from(s: Seq<char>, i: int) -> Seq<Seq<char>>
    decreases s.len() + 1 - i,
    via lines_from_decreases
{
    if i < 0 || i >= s.len() {
        seq![]
    } else {
        seq![line_at(s, i)] + lines_from(s, line_end(s, i) + 1)
    }
}

#[via_fn]
proof fn lines_from_decreases(s: Seq<char>, i: int) {
    if 0 <= i < s.len() {
        lemma_line_end_bounds(s, i);
    }
}

/// The lines of `s`.
pub open spec fn lines(s: Seq<char>) -> Seq<Seq<char>> {
    lines_from(s, 0)
}

/// The lines of `v`.
pub fn split_lines(v: &Vec<char>) -> (r: Vec<Vec<char>>)
    ensures
        views(r@) == lines(v@),
{
    let mut r: Vec<Vec<char>> = Vec::new();
    let mut i: usize = 0;
    assert(views(r@) =~= seq![]);
    while i < v.len()
        invariant
            i <= v@.len(),
            views(r@) + lines_from(v@, i as int) == lines(v@),
        decreases v@.len() - i,
    {
        let mut e: usize = i;
        while e < v.len() && v[e] != '\n'
            invariant
                i <= e <= v@.len(),
                line_end(v@, i as int) == line_end(v@, e as int),
            decreases v@.len() - e,
        {
            e += 1;
        }
        let line = if i < e && e < v.len() && v[e - 1] == '\r' {
            copy_range(v, i, e - 1)
        } else {
            copy_range(v, i, e)
        };
        proof {
            lemma_views_push(r@, line);
            assert(views(r@) + lines_from(v@, i as int) == views(r@.push(line)) + lines_from(
                v@,
                e + 1,
            )) by {
                assert(views(r@.push(line)) + lines_from(v@, e + 1) =~= views(r@) + (seq![line@]
                    + lines_from(v@, e + 1)));
            }
        }
        r.push(line);
        if e == v.len() {
            assert(lines_from(v@, e + 1) =~= seq![]);
            assert(views(r@) == lines(v@)) by {
                assert(views(r@) + seq![] =~= views(r@));
            }
            return r;
        }
        i = e + 1;
    }
    assert(views(r@) + lines_from(v@, i as int) =~= views(r@));
    r
}

/// The end of the run of non-whitespace that starts at `i`.
pub open spec fn token_end(s: Seq<char>, i: int) -> int
    decreases s.len() - i,
{
    if i < 0 || i >= s.len() || is_ws(s[i]) {
        i
    } else {
        token_end(s, i + 1)
    }
}

pub proof fn lemma_token_end_bounds(s: Seq<char>, i: int)
    requires
        0 <= i <= s.len(),
    ensures
        i <= token_end(s, i) <= s.len(),
        i < s.len() && !is_ws(s[i]) ==> i < token_end(s, i),
    decreases s.len() - i,
{
    if i < s.len() && !is_ws(s[i]) {
        lemma_token_end_bounds(s, i + 1);
    }
}

/// The whitespace-separated tokens of `s[i..]`, as `str::split_whitespace` gives them.
pub open spec fn tokens_from(s: Seq<char>, i: int) -> Seq<Seq<char>>
    decreases s.len() - i,
    via tokens_from_decreases
{
    if i < 0 || i >= s.len() {
        seq![]
    } else if is_ws(s[i]) {
        tokens_from(s, i + 1)
    } else {
        seq![s.subrange(i, token_end(s, i))] + tokens_from(s, token_end(s, i))
    }
}

#[via_fn]
proof fn tokens_from_decreases(s: Seq<char>, i: int) {
    if 0 <= i < s.len() {
        lemma_token_end_bounds(s, i);
    }
}

/// The whitespace-separated tokens of `s`.
pub open spec fn tokens(s: Seq<char>) -> Seq<Seq<char>> {
    tokens_from(s, 0)
}

/// The whitespace-separated tokens of `v`.
pub fn split_tokens(v: &Vec<char>) -> (r: Vec<Vec<char>>)
    ensures
        views(r@) == tokens(v@),
{
    let mut r: Vec<Vec<char>> = Vec::new();
    let mut i: usize = 0;
    assert(views(r@) =~= seq![]);
    while i < v.len()
        invariant
            i <= v@.len(),
            views(r@) + tokens_from(v@, i as int) == tokens(v@),
        decreases v@.len() - i,
    {
        if is_whitespace(v[i]) {
            i += 1;
        } else {
            let mut e: usize = i;
            while e < v.len() && !is_whitespace(v[e])
                invariant
                    i <= e <= v@.len(),
                    token_end(v@, i as int) == token_end(v@, e as int),
                decreases v@.len() - e,
            {
                e += 1;
            }
            let tok = copy_range(v, i, e);
            proof {
                lemma_views_push(r@, tok);
                assert(views(r@.push(tok)) + tokens_from(v@, e as int) =~= views(r@) + (seq![
                    tok@,
                ] + tokens_from(v@, e as int)));
            }
            r.push(tok);
            i = e;
        }
    }
    assert(views(r@) + tokens_from(v@, i as int) =~= views(r@));
    r
}

/// Whether `a` and `b` hold the same characters.
pub fn same_chars(a: &Vec<char>, b: &Vec<char>) -> (r: bool)
    ensures
        r == (a@ == b@),
{
    if a.len() != b.len() {
        return false;
    }
    let mut i: usize = 0;
    while i < a.len()
        invariant
            i <= a@.len(),
            a@.len() == b@.len(),
            forall|j: int| 0 <= j < i ==> a@[j] == b@[j],
        decreases a@.len() - i,
    {
        if a[i] != b[i] {
            return false;
        }
        i += 1;
    }
    assert(a@ =~= b@);
    true
}

/// Appends the characters of `src` to `out`.
pub fn extend_chars(out: &mut Vec<char>, src: &Vec<char>)
    ensures
        final(out)@ == old(out)@ + src@,
{
    let mut i: usize = 0;
    while i < src.len()
        invariant
            i <= src@.len(),
            out@ == old(out)@ + src@.subrange(0, i as int),
        decreases src@.len() - i,
    {
        out.push(src[i]);
        assert(old(out)@ + src@.subrange(0, i + 1) =~= old(out)@ + src@.subrange(0, i as int)
            + seq![src@[i as int]]);
        i += 1;
    }
    assert(src@.subrange(0, src@.len() as int) =~= src@);
}

/// The tokens `ts` joined with single spaces, as `[&str]::join(" ")` gives them.
pub open spec fn join_space(ts: Seq<Seq<char>>) -> Seq<char>
    decreases ts.len(),
{
    if ts.len() == 0 {
        seq![]
    } else if ts.len() == 1 {
        ts[0]
    } else {
        join_space(ts.drop_last()) + seq![' '] + ts.last()
    }
}

/// The vectors `parts[from..]` joined with single spaces.
pub fn join_from(parts: &Vec<Vec<char>>, from: usize) -> (r: Vec<char>)
    requires
        from <= parts@.len(),
    ensures
        r@ == join_space(views(parts@).subrange(from as int, parts@.len() as int)),
{
    let mut r: Vec<char> = Vec::new();
    let mut k: usize = from;
    assert(views(parts@).subrange(from as int, from as int) =~= seq![]);
    while k < parts.len()
        invariant
            from <= k <= parts@.len(),
            r@ == join_space(views(parts@).subrange(from as int, k as int)),
        decreases parts@.len() - k,
    {
        let ghost pre = views(parts@).subrange(from as int, k as int);
        let ghost next = views(parts@).subrange(from as int, k + 1);
        assert(next.drop_last() =~= pre);
        assert(next.last() == parts@[k as int]@);
        if k > from {
            r.push(' ');
        } else {
            assert(r@ =~= seq![]);
        }
        extend_chars(&mut r, &parts[k]);
        proof {
            if k > from {
                assert(r@ =~= join_space(pre) + seq![' '] + parts@[k as int]@);
            } else {
                assert(r@ =~= parts@[k as int]@);
            }
        }
        k += 1;
    }
    r
}

/// The first index at or after `i` that holds `c`, or the length.
pub open spec fn char_end(s: Seq<char>, c: char, i: int) -> int
    decreases s.len() - i,
{
    if i < 0 || i >= s.len() || s[i] == c {
        i
    } else {
        char_end(s, c, i + 1)
    }
}

pub proof fn lemma_char_end_bounds(s: Seq<char>, c: char, i: int)
    requires
        0 <= i <= s.len(),
    ensures
        i <= char_end(s, c, i) <= s.len(),
    decreases s.len() - i,
{
    if i < s.len() && s[i] != c {
        lemma_char_end_bounds(s, c, i + 1);
    }
}

/// The pieces of `s[i..]` between occurrences of `c`, as `str::split` gives them.
pub open spec fn split_from(s: Seq<char>, c: char, i: int) -> Seq<Seq<char>>
    decreases s.len() + 1 - i,
    via split_from_decreases
{
    if i < 0 || i > s.len() {
        seq![]
    } else if char_end(s, c, i) >= s.len() {
        seq![s.subrange(i, s.len() as int)]
    } else {
        seq![s.subrange(i, char_end(s, c, i))] + split_from(s, c, char_end(s, c, i) + 1)
    }
}

#[via_fn]
proof fn split_from_decreases(s: Seq<char>, c: char, i: int) {
    if 0 <= i <= s.len() {
        lemma_char_end_bounds(s, c, i);
    }
}

/// The pieces of `s` between occurrences of `c`.
pub open spec fn split_on(s: Seq<char>, c: char) -> Seq<Seq<char>> {
    split_from(s, c, 0)
}

/// The pieces of `v` between occurrences of `c`.
pub fn split_char(v: &Vec<char>, c: char) -> (r: Vec<Vec<char>>)
    ensures
        views(r@) == split_on(v@, c),
{
    let mut r: Vec<Vec<char>> = Vec::new();
    let mut i: usize = 0;
    assert(views(r@) =~= seq![]);
    loop
        invariant
            i <= v@.len(),
            views(r@) + split_from(v@, c, i as int) == split_on(v@, c),
        decreases v@.len() - i,
    {
        let mut e: usize = i;
        while e < v.len() && v[e] != c
            invariant
                i <= e <= v@.len(),
                char_end(v@, c, i as int) == char_end(v@, c, e as int),
            decreases v@.len() - e,
        {
            e += 1;
        }
        let piece = copy_range(v, i, e);
        proof {
            lemma_views_push(r@, piece);
        }
        if e == v.len() {
            assert(views(r@.push(piece)) =~= views(r@) + split_from(v@, c, i as int));
            r.push(piece);
            return r;
        }
        assert(views(r@.push(piece)) + split_from(v@, c, e + 1) =~= views(r@) + split_from(
            v@,
            c,
            i as int,
        ));
        r.push(piece);
        i = e + 1;
    }
}

/// The views of a sequence of strings.
pub open spec fn string_views(v: Seq<String>) -> Seq<Seq<char>> {
    v.map_values(|x: String| x@)
}

/// Appends the characters of `s` to `out`.
pub fn push_str(out: &mut String, s: &str)
    ensures
        final(out)@ == old(out)@ + s@,
{
    let v = chars_of(s);
    let mut i: usize = 0;
    while i < v.len()
        invariant
            i <= v@.len(),
            v@ == s@,
            out@ == old(out)@ + v@.subrange(0, i as int),
        decreases v@.len() - i,
    {
        out.push(v[i]);
        assert(old(out)@ + v@.subrange(0, i + 1) =~= old(out)@ + v@.subrange(0, i as int) + seq![
            v@[i as int],
        ]);
        i += 1;
    }
    assert(v@.subrange(0, v@.len() as int) =~= v@);
}

/// `a` followed by `b`.
pub fn concat(a: &str, b: &str) -> (r: String)
    ensures
        r@ == a@ + b@,
{
    let mut r = String::new();
    push_str(&mut r, a);
    push_str(&mut r, b);
    assert(r@ =~= a@ + b@);
    r
}

/// The view of an optional string.
pub open spec fn opt_text(o: Option<String>) -> Option<Seq<char>> {
    match o {
        Some(s) => Some(s@),
        None => None,
    }
}

/// `s` as a string of its own.
pub fn owned(s: &str) -> (r: String)
    ensures
        r@ == s@,
{
    string_of(&chars_of(s))
}

/// The piece of `s` that follows the first occurrence of `p`, up to the next
/// one: what `s.split(p).nth(1)` gives.
pub open spec fn piece_after(s: Seq<char>, p: Seq<char>) -> Option<Seq<char>> {
    match find(s, p) {
        Some(k) => {
            let start = k + p.len();
            match find_from(s, p, start) {
                Some(e) => Some(s.subrange(start, e)),
                None => Some(s.subrange(start, s.len() as int)),
            }
        },
        None => None,
    }
}

/// What `v.split(p).nth(1)` gives.
pub fn piece_after_exec(v: &Vec<char>, p: &Vec<char>) -> (r: Option<Vec<char>>)
    ensures
        opt_chars(r) == piece_after(v@, p@),
{
    match find_exec(v, p, 0) {
        Some(k) => {
            proof {
                lemma_find_from_bounds(v@, p@, 0);
            }
            let n = v.len();
            let start = k + p.len();
            match find_exec(v, p, start) {
                Some(e) => {
                    proof {
                        lemma_find_from_bounds(v@, p@, start as int);
                    }
                    Some(copy_range(v, start, e))
                },
                None => Some(copy_range(v, start, n)),
            }
        },
        None => None,
    }
}

/// The view of an optional character vector.
pub open spec fn opt_chars(o: Option<Vec<char>>) -> Option<Seq<char>> {
    match o {
        Some(v) => Some(v@),
        None => None,
    }
}

/// `s` up to its first `c`: what `s.split(c).next()` gives.
pub open spec fn prefix_before(s: Seq<char>, c: char) -> Seq<char> {
    s.subrange(0, char_end(s, c, 0))
}

/// `v` up to its first `c`.
pub fn prefix_before_exec(v: &Vec<char>, c: char) -> (r: Vec<char>)
    ensures
        r@ == prefix_before(v@, c),
{
    let mut e: usize = 0;
    while e < v.len() && v[e] != c
        invariant
            e <= v@.len(),
            char_end(v@, c, 0) == char_end(v@, c, e as int),
        decreases v@.len() - e,
    {
        e += 1;
    }
    copy_range(v, 0, e)
}

/// What `f` gives for the first line of `ls` for which it gives anything.
pub open spec fn first_some<T>(ls: Seq<Seq<char>>, f: spec_fn(Seq<char>) -> Option<T>) -> Option<T>
    decreases ls.len(),
{
    if ls.len() == 0 {
        None
    } else {
        match f(ls[0]) {
            Some(x) => Some(x),
            None => first_some(ls.drop_first(), f),
        }
    }
}

/// One step of a scan for the first line that gives something.
pub proof fn lemma_first_some_step<T>(
    ls: Seq<Seq<char>>,
    f: spec_fn(Seq<char>) -> Option<T>,
    k: int,
)
    requires
        0 <= k < ls.len(),
    ensures
        first_some(ls.subrange(k, ls.len() as int), f) == match f(ls[k]) {
            Some(x) => Some(x),
            None => first_some(ls.subrange(k + 1, ls.len() as int), f),
        },
{
    assert(ls.subrange(k, ls.len() as int).drop_first() =~= ls.subrange(k + 1, ls.len() as int));
}

pub proof fn lemma_first_some_whole<T>(ls: Seq<Seq<char>>, f: spec_fn(Seq<char>) -> Option<T>)
    ensures
        first_some(ls.subrange(0, ls.len() as int), f) == first_some(ls, f),
        first_some(ls.subrange(ls.len() as int, ls.len() as int), f) is None,
{
    assert(ls.subrange(0, ls.len() as int) =~= ls);
}

proof fn lemma_char_end_shift(pfx: Seq<char>, rest: Seq<char>, c: char, i: int)
    requires
        0 <= i <= rest.len(),
    ensures
        char_end(pfx + rest, c, pfx.len() + i) == pfx.len() + char_end(rest, c, i),
    decreases rest.len() - i,
{
    let s = pfx + rest;
    if i < rest.len() {
        assert(s[pfx.len() + i] == rest[i]);
        if rest[i] != c {
            lemma_char_end_shift(pfx, rest, c, i + 1);
        }
    }
}

proof fn lemma_split_shift(pfx: Seq<char>, rest: Seq<char>, c: char, i: int)
    requires
        0 <= i <= rest.len(),
    ensures
        split_from(pfx + rest, c, pfx.len() + i) == split_from(rest, c, i),
    decreases rest.len() + 1 - i,
{
    let s = pfx + rest;
    let n = pfx.len() as int;
    lemma_char_end_shift(pfx, rest, c, i);
    lemma_char_end_bounds(rest, c, i);
    let e = char_end(rest, c, i);
    if e >= rest.len() {
        assert(s.subrange(n + i, s.len() as int) =~= rest.subrange(i, rest.len() as int));
    } else {
        assert(s.subrange(n + i, n + e) =~= rest.subrange(i, e));
        lemma_split_shift(pfx, rest, c, e + 1);
    }
}

proof fn lemma_char_end_at(s: Seq<char>, c: char, i: int, k: int)
    requires
        0 <= i <= k <= s.len(),
        forall|j: int| i <= j < k ==> #[trigger] s[j] != c,
        k < s.len() ==> s[k] == c,
    ensures
        char_end(s, c, i) == k,
    decreases k - i,
{
    if i < k {
        lemma_char_end_at(s, c, i + 1, k);
    }
}

/// Splitting `p`, then `c`, then `rest` on `c`, when `p` holds no `c`, gives
/// `p` followed by the pieces of `rest`.
pub proof fn lemma_split_first(p: Seq<char>, c: char, rest: Seq<char>)
    requires
        !p.contains(c),
    ensures
        split_on(p + seq![c] + rest, c) == seq![p] + split_on(rest, c),
{
    let head = p + seq![c];
    let s = head + rest;
    assert(p + seq![c] + rest == s);
    assert forall|j: int| 0 <= j < p.len() implies #[trigger] s[j] != c by {
        assert(s[j] == p[j]);
    }
    assert(s[p.len() as int] == c);
    lemma_char_end_at(s, c, 0, p.len() as int);
    assert(s.subrange(0, p.len() as int) =~= p);
    lemma_split_shift(head, rest, c, 0);
}

/// Splitting text without `c` on `c` gives the text itself.
pub proof fn lemma_split_single(p: Seq<char>, c: char)
    requires
        !p.contains(c),
    ensures
        split_on(p, c) == seq![p],
{
    lemma_char_end_at(p, c, 0, p.len() as int);
    assert(p.subrange(0, p.len() as int) =~= p);
}

/// A word: non-empty, without whitespace.
pub open spec fn is_word(w: Seq<char>) -> bool {
    w.len() > 0 && forall|i: int| 0 <= i < w.len() ==> !is_ws(#[trigger] w[i])
}

proof fn lemma_token_end_within(x: Seq<char>, y: Seq<char>, i: int)
    requires
        0 <= i <= x.len(),
        y.len() > 0,
        is_ws(y[0]),
    ensures
        token_end(x + y, i) == token_end(x, i),
    decreases x.len() - i,
{
    let s = x + y;
    if i < x.len() {
        assert(s[i] == x[i]);
        if !is_ws(x[i]) {
            lemma_token_end_within(x, y, i + 1);
        }
    } else {
        assert(s[i] == y[0]);
    }
}

proof fn lemma_token_end_shift(pfx: Seq<char>, rest: Seq<char>, i: int)
    requires
        0 <= i <= rest.len(),
    ensures
        token_end(pfx + rest, pfx.len() + i) == pfx.len() + token_end(rest, i),
    decreases rest.len() - i,
{
    let s = pfx + rest;
    if i < rest.len() {
        assert(s[pfx.len() + i] == rest[i]);
        if !is_ws(rest[i]) {
            lemma_token_end_shift(pfx, rest, i + 1);
        }
    }
}

proof fn lemma_tokens_shift(pfx: Seq<char>, rest: Seq<char>, i: int)
    requires
        0 <= i <= rest.len(),
    ensures
        tokens_from(pfx + rest, pfx.len() + i) == tokens_from(rest, i),
    decreases rest.len() - i,
{
    let s = pfx + rest;
    let n = pfx.len() as int;
    if i < rest.len() {
        assert(s[n + i] == rest[i]);
        if is_ws(rest[i]) {
            lemma_tokens_shift(pfx, rest, i + 1);
        } else {
            lemma_token_end_shift(pfx, rest, i);
            lemma_token_end_bounds(rest, i);
            let e = token_end(rest, i);
            assert(s.subrange(n + i, n + e) =~= rest.subrange(i, e));
            lemma_tokens_shift(pfx, rest, e);
        }
    }
}

proof fn lemma_tokens_split_from(x: Seq<char>, y: Seq<char>, i: int)
    requires
        0 <= i <= x.len(),
    ensures
        tokens_from(x + seq![' '] + y, i) == tokens_from(x, i) + tokens(y),
    decreases x.len() - i,
{
    let head = x + seq![' '];
    let s = head + y;
    assert(x + seq![' '] + y == s);
    assert(s =~= x + (seq![' '] + y));
    if i == x.len() {
        assert(s[i] == ' ');
        lemma_tokens_shift(head, y, 0);
        assert(tokens_from(x, i) + tokens(y) =~= tokens(y));
    } else {
        assert(s[i] == x[i]);
        if is_ws(x[i]) {
            lemma_tokens_split_from(x, y, i + 1);
        } else {
            lemma_token_end_within(x, seq![' '] + y, i);
            lemma_token_end_bounds(x, i);
            let e = token_end(x, i);
            assert(s.subrange(i, e) =~= x.subrange(i, e));
            lemma_tokens_split_from(x, y, e);
            assert(seq![x.subrange(i, e)] + (tokens_from(x, e) + tokens(y)) =~= (seq![
                x.subrange(i, e),
            ] + tokens_from(x, e)) + tokens(y));
        }
    }
}

/// A space splits the tokens of the text around it.
pub proof fn lemma_tokens_split(x: Seq<char>, y: Seq<char>)
    ensures
        tokens(x + seq![' '] + y) == tokens(x) + tokens(y),
{
    lemma_tokens_split_from(x, y, 0);
}

proof fn lemma_token_end_word(w: Seq<char>, i: int)
    requires
        is_word(w),
        0 <= i <= w.len(),
    ensures
        token_end(w, i) == w.len(),
    decreases w.len() - i,
{
    if i < w.len() {
        lemma_token_end_word(w, i + 1);
    }
}

/// A word is its own single token.
pub proof fn lemma_tokens_word(w: Seq<char>)
    requires
        is_word(w),
    ensures
        tokens(w) == seq![w],
{
    lemma_token_end_word(w, 0);
    assert(!is_ws(w[0]));
    assert(tokens_from(w, w.len() as int) =~= Seq::<Seq<char>>::empty());
    assert(w.subrange(0, w.len() as int) =~= w);
    assert(seq![w] + Seq::<Seq<char>>::empty() =~= seq![w]);
}

/// Words joined by single spaces split back into those words; the joined
/// text starts with the first word's first character and ends with the last
/// word's last character.
pub proof fn lemma_join_words(ws: Seq<Seq<char>>)
    requires
        ws.len() > 0,
        forall|i: int| 0 <= i < ws.len() ==> is_word(#[trigger] ws[i]),
    ensures
        tokens(join_space(ws)) == ws,
        join_space(ws).len() > 0,
        join_space(ws)[0] == ws[0][0],
        join_space(ws)[join_space(ws).len() - 1] == ws.last()[ws.last().len() - 1],
    decreases ws.len(),
{
    assert(is_word(ws[0]));
    assert(is_word(ws.last()));
    if ws.len() == 1 {
        lemma_tokens_word(ws[0]);
        assert(seq![ws[0]] =~= ws);
    } else {
        let pre = ws.drop_last();
        assert forall|i: int| 0 <= i < pre.len() implies is_word(#[trigger] pre[i]) by {
            assert(pre[i] == ws[i]);
        }
        lemma_join_words(pre);
        lemma_tokens_split(join_space(pre), ws.last());
        lemma_tokens_word(ws.last());
        assert(pre.push(ws.last()) =~= ws);
        assert(pre + seq![ws.last()] =~= ws);
        assert(pre[0] == ws[0]);
        let j = join_space(ws);
        assert(j == join_space(pre) + seq![' '] + ws.last());
        assert(j[0] == join_space(pre)[0]);
    }
}

/// Joining two non-empty runs of words puts one space between their joins.
pub proof fn lemma_join_concat(a: Seq<Seq<char>>, b: Seq<Seq<char>>)
    requires
        a.len() > 0,
        b.len() > 0,
    ensures
        join_space(a + b) == join_space(a) + seq![' '] + join_space(b),
    decreases b.len(),
{
    if b.len() == 1 {
        assert((a + b).drop_last() =~= a);
        assert((a + b).last() == b[0]);
    } else {
        lemma_join_concat(a, b.drop_last());
        assert((a + b).drop_last() =~= a + b.drop_last());
        assert((a + b).last() == b.last());
        assert(join_space(a + b) =~= join_space(a) + seq![' '] + join_space(b));
    }
}

proof fn lemma_find_from_first(s: Seq<char>, p: Seq<char>, i: int, k: int)
    requires
        0 <= i <= k,
        occurs_at(s, p, k),
        forall|j: int| i <= j < k ==> !occurs_at(s, p, j),
    ensures
        find_from(s, p, i) == Some(k),
    decreases k - i,
{
    if i < k {
        lemma_find_from_first(s, p, i + 1, k);
    }
}

/// The first occurrence of `p` is at `k` when `p` occurs there and nowhere before.
pub proof fn lemma_find_first(s: Seq<char>, p: Seq<char>, k: int)
    requires
        0 <= k,
        occurs_at(s, p, k),
        forall|j: int| 0 <= j < k ==> !occurs_at(s, p, j),
    ensures
        find(s, p) == Some(k),
{
    lemma_find_from_first(s, p, 0, k);
}

proof fn lemma_find_from_none(s: Seq<char>, p: Seq<char>, m: int, i: int)
    requires
        0 <= m < p.len(),
        0 <= i,
        forall|j: int| 0 <= j < s.len() ==> #[trigger] s[j] != p[m],
    ensures
        find_from(s, p, i) is None,
    decreases s.len() + 1 - i,
{
    if i + p.len() <= s.len() {
        assert(s.subrange(i, i + p.len())[m] == s[i + m]);
        lemma_find_from_none(s, p, m, i + 1);
    }
}

/// `p` does not occur in text that lacks one of its characters.
pub proof fn lemma_find_none(s: Seq<char>, p: Seq<char>, m: int)
    requires
        0 <= m < p.len(),
        forall|j: int| 0 <= j < s.len() ==> #[trigger] s[j] != p[m],
    ensures
        find(s, p) is None,
{
    lemma_find_from_none(s, p, m, 0);
}

} // verus!
