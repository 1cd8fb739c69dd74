//! Verified text scanning: whitespace, trimming and substrings over the
//! character sequences that the pseudo-files and utility outputs hand us.

use vstd::prelude::*;

verus! {

/// ASCII whitespace, the set that the kernel pseudo-files and the wireless
/// utilities emit between fields.
pub open spec fn is_wspace(c: char) -> bool {
    c == ' ' || c == '\t' || c == '\n' || c == '\r' || c == '\u{b}' || c == '\u{c}'
}

pub fn is_wspace_exec(c: char) -> (r: bool)
    ensures
        r == is_wspace(c),
{
    c == ' ' || c == '\t' || c == '\n' || c == '\r' || c == '\u{b}' || c == '\u{c}'
}

/// The input without its leading whitespace.
pub open spec fn trim_start_spec(s: Seq<char>) -> Seq<char>
    decreases s.len(),
{
    if s.len() > 0 && is_wspace(s[0]) {
        trim_start_spec(s.skip(1))
    } else {
        s
    }
}

/// The input without its trailing whitespace.
pub open spec fn trim_end_spec(s: Seq<char>) -> Seq<char>
    decreases s.len(),
{
    if s.len() > 0 && is_wspace(s.last()) {
        trim_end_spec(s.drop_last())
    } else {
        s
    }
}

/// The input without leading and trailing whitespace.
pub open spec fn trim_spec(s: Seq<char>) -> Seq<char> {
    trim_end_spec(trim_start_spec(s))
}

pub fn trim_start_str(s: &str) -> (r: &str)
    ensures
        r@ == trim_start_spec(s@),
    decreases s@.len(),
{
    let n = s.unicode_len();
    if n > 0 && is_wspace_exec(s.get_char(0)) {
        let rest = s.substring_char(1, n);
        assert(rest@ =~= s@.skip(1));
        trim_start_str(rest)
    } else {
        s
    }
}

pub fn trim_end_str(s: &str) -> (r: &str)
    ensures
        r@ == trim_end_spec(s@),
    decreases s@.len(),
{
    let n = s.unicode_len();
    if n > 0 && is_wspace_exec(s.get_char(n - 1)) {
        let rest = s.substring_char(0, n - 1);
        assert(rest@ =~= s@.drop_last());
        trim_end_str(rest)
    } else {
        s
    }
}

/// A copy of the input without leading and trailing whitespace.
pub fn trim_str(s: &str) -> (r: String)
    ensures
        r@ == trim_spec(s@),
{
    trim_end_str(trim_start_str(s)).to_owned()
}

/// Whether `p` is a prefix of `s`.
pub open spec fn has_prefix(s: Seq<char>, p: Seq<char>) -> bool {
    p.len() <= s.len() && s.take(p.len() as int) == p
}

pub fn is_prefix(s: &str, p: &str) -> (r: bool)
    ensures
        r == has_prefix(s@, p@),
{
    let n = s.unicode_len();
    let m = p.unicode_len();
    if m > n {
        return false;
    }
    let mut i: usize = 0;
    while i < m
        invariant
            0 <= i <= m,
            m <= n,
            n == s@.len(),
            m == p@.len(),
            forall|k: int| 0 <= k < i ==> s@[k] == p@[k],
        decreases m - i,
    {
        if s.get_char(i) != p.get_char(i) {
            assert(s@.take(m as int)[i as int] == s@[i as int]);
            return false;
        }
        i = i + 1;
    }
    assert(s@.take(m as int) =~= p@);
    true
}

/// Whether two strings hold the same characters.
pub fn str_eq(a: &str, b: &str) -> (r: bool)
    ensures
        r == (a@ == b@),
{
    let n = a.unicode_len();
    let m = b.unicode_len();
    if n != m {
        return false;
    }
    let r = is_prefix(a, b);
    assert(a@.take(m as int) =~= a@);
    r
}

/// Index of the first occurrence of `p` in `s`, if any.
pub open spec fn find_sub(s: Seq<char>, p: Seq<char>) -> Option<int>
    decreases s.len(),
    via find_sub_decreases
{
    if p.len() > s.len() {
        None
    } else if s.take(p.len() as int) == p {
        Some(0int)
    } else {
        match find_sub(s.skip(1), p) {
            Some(i) => Some(i + 1),
            None => None,
        }
    }
}

#[via_fn]
proof fn find_sub_decreases(s: Seq<char>, p: Seq<char>) {
    if s.len() == 0 && p.len() <= s.len() {
        assert(s.take(p.len() as int) =~= p);
    }
}

/// A match sits inside the string: its index leaves room for the pattern.
pub proof fn lemma_find_sub_bound(s: Seq<char>, p: Seq<char>)
    ensures
        find_sub(s, p) matches Some(i) ==> 0 <= i && i + p.len() <= s.len(),
    decreases s.len(),
{
    if p.len() <= s.len() && s.take(p.len() as int) != p {
        assert(s.len() > 0) by {
            if s.len() == 0 {
                assert(s.take(p.len() as int) =~= p);
            }
        }
        lemma_find_sub_bound(s.skip(1), p);
    }
}

/// Whether `p` occurs somewhere in `s`, as `str::contains` decides it.
pub open spec fn has_sub(s: Seq<char>, p: Seq<char>) -> bool {
    find_sub(s, p) is Some
}

pub fn find_sub_str(s: &str, p: &str) -> (r: Option<usize>)
    ensures
        match r {
            Some(i) => find_sub(s@, p@) == Some(i as int),
            None => find_sub(s@, p@) is None,
        },
    decreases s@.len(),
{
    let n = s.unicode_len();
    let m = p.unicode_len();
    if m > n {
        return None;
    }
    if is_prefix(s, p) {
        return Some(0);
    }
    assert(s@.len() > 0) by {
        if s@.len() == 0 {
            assert(s@.take(p@.len() as int) =~= p@);
        }
    }
    let rest = s.substring_char(1, n);
    assert(rest@ =~= s@.skip(1));
    match find_sub_str(rest, p) {
        Some(i) => {
            proof {
                lemma_find_sub_bound(rest@, p@);
            }
            Some(i + 1)
        },
        None => None,
    }
}

pub fn contains_str(s: &str, p: &str) -> (r: bool)
    ensures
        r == has_sub(s@, p@),
{
    find_sub_str(s, p).is_some()
}

/// `str::replace` for a non-empty pattern: every occurrence of `p`, found
/// left to right without overlap, becomes `rep`.
pub open spec fn replace_spec(s: Seq<char>, p: Seq<char>, rep: Seq<char>) -> Seq<char>
    recommends
        p.len() > 0,
    decreases s.len(),
{
    if p.len() == 0 || p.len() > s.len() {
        s
    } else if s.take(p.len() as int) == p {
        rep + replace_spec(s.skip(p.len() as int), p, rep)
    } else {
        seq![s[0]] + replace_spec(s.skip(1), p, rep)
    }
}

pub fn replace_str(s: &str, p: &str, rep: &str) -> (r: String)
    requires
        p@.len() > 0,
    ensures
        r@ == replace_spec(s@, p@, rep@),
    decreases s@.len(),
{
    let n = s.unicode_len();
    let m = p.unicode_len();
    if m > n {
        return s.to_owned();
    }
    if is_prefix(s, p) {
        let mut r = rep.to_owned();
        let tail = s.substring_char(m, n);
        assert(tail@ =~= s@.skip(m as int));
        let rest = replace_str(tail, p, rep);
        r.append(rest.as_str());
        assert(r@ =~= rep@ + replace_spec(s@.skip(m as int), p@, rep@));
        r
    } else {
        let mut r = s.substring_char(0, 1).to_owned();
        let tail = s.substring_char(1, n);
        assert(tail@ =~= s@.skip(1));
        let rest = replace_str(tail, p, rep);
        r.append(rest.as_str());
        assert(r@ =~= seq![s@[0]] + replace_spec(s@.skip(1), p@, rep@));
        r
    }
}

/// Replacing in a non-empty string with a non-empty replacement never yields
/// the empty string.
pub proof fn lemma_replace_nonempty(s: Seq<char>, p: Seq<char>, rep: Seq<char>)
    requires
        s.len() > 0,
        rep.len() > 0,
    ensures
        replace_spec(s, p, rep).len() > 0,
    decreases s.len(),
{
}

/// Length of the leading run of non-whitespace characters.
pub open spec fn token_len(s: Seq<char>) -> nat
    decreases s.len(),
{
    if s.len() == 0 {
        0
    } else if is_wspace(s[0]) {
        0
    } else {
        1 + token_len(s.skip(1))
    }
}

pub proof fn lemma_token_len_le(s: Seq<char>)
    ensures
        token_len(s) <= s.len(),
    decreases s.len(),
{
    if s.len() > 0 && !is_wspace(s[0]) {
        lemma_token_len_le(s.skip(1));
    }
}

/// The whitespace-separated fields of a line, in order, as
/// `str::split_whitespace` yields them.
pub open spec fn tokens(s: Seq<char>) -> Seq<Seq<char>>
    decreases s.len(),
    via tokens_decreases
{
    if s.len() == 0 {
        Seq::empty()
    } else if is_wspace(s[0]) {
        tokens(s.skip(1))
    } else {
        seq![s.take(token_len(s) as int)] + tokens(s.skip(token_len(s) as int))
    }
}

#[via_fn]
proof fn tokens_decreases(s: Seq<char>) {
    if s.len() > 0 && !is_wspace(s[0]) {
        lemma_token_len_le(s);
        assert(token_len(s) >= 1);
    }
}

/// The first whitespace-separated field of a line, if any; what
/// `split_whitespace().next()` yields.
pub open spec fn first_token(s: Seq<char>) -> Option<Seq<char>>
    decreases s.len(),
{
    if s.len() == 0 {
        None
    } else if is_wspace(s[0]) {
        first_token(s.skip(1))
    } else {
        Some(s.take(token_len(s) as int))
    }
}

fn token_len_exec(s: &str) -> (r: usize)
    ensures
        r == token_len(s@),
    decreases s@.len(),
{
    let n = s.unicode_len();
    if n == 0 {
        0
    } else if is_wspace_exec(s.get_char(0)) {
        0
    } else {
        let rest = s.substring_char(1, n);
        assert(rest@ =~= s@.skip(1));
        proof {
            lemma_token_len_le(s@.skip(1));
        }
        1 + token_len_exec(rest)
    }
}

pub fn first_token_str(s: &str) -> (r: Option<String>)
    ensures
        match r {
            Some(t) => first_token(s@) == Some(t@),
            None => first_token(s@) is None,
        },
    decreases s@.len(),
{
    let n = s.unicode_len();
    if n == 0 {
        None
    } else if is_wspace_exec(s.get_char(0)) {
        let rest = s.substring_char(1, n);
        assert(rest@ =~= s@.skip(1));
        first_token_str(rest)
    } else {
        let tl = token_len_exec(s);
        proof {
            lemma_token_len_le(s@);
        }
        Some(s.substring_char(0, tl).to_owned())
    }
}

/// The whitespace-separated fields of a line, as owned strings.
pub fn tokens_of(s: &str) -> (r: Vec<String>)
    ensures
        r.deep_view() == tokens(s@),
    decreases s@.len(),
{
    let n = s.unicode_len();
    if n == 0 {
        let r: Vec<String> = Vec::new();
        assert(r.deep_view() =~= tokens(s@));
        r
    } else if is_wspace_exec(s.get_char(0)) {
        let rest = s.substring_char(1, n);
        assert(rest@ =~= s@.skip(1));
        tokens_of(rest)
    } else {
        let tl = token_len_exec(s);
        proof {
            lemma_token_len_le(s@);
            assert(token_len(s@) >= 1);
        }
        let tok = s.substring_char(0, tl).to_owned();
        let tail = s.substring_char(tl, n);
        assert(tail@ =~= s@.skip(token_len(s@) as int));
        let mut rest = tokens_of(tail);
        let mut r: Vec<String> = Vec::new();
        r.push(tok);
        r.append(&mut rest);
        assert(r.deep_view() =~= tokens(s@));
        r
    }
}

/// Length of the leading line, up to but not including a newline.
pub open spec fn line_len(s: Seq<char>) -> nat
    decreases s.len(),
{
    if s.len() == 0 {
        0
    } else if s[0] == '\n' {
        0
    } else {
        1 + line_len(s.skip(1))
    }
}

pub proof fn lemma_line_len_le(s: Seq<char>)
    ensures
        line_len(s) <= s.len(),
    decreases s.len(),
{
    if s.len() > 0 && s[0] != '\n' {
        lemma_line_len_le(s.skip(1));
    }
}

/// A line with a trailing carriage return removed, as `str::lines` strips it.
pub open spec fn strip_cr(s: Seq<char>) -> Seq<char> {
    if s.len() > 0 && s.last() == '\r' {
        s.drop_last()
    } else {
        s
    }
}

/// The lines of a text, split at newlines with any final carriage return
/// stripped, exactly as `str::lines` yields them.
pub open spec fn lines_spec(s: Seq<char>) -> Seq<Seq<char>>
    decreases s.len(),
    via lines_spec_decreases
{
    if s.len() == 0 {
        Seq::empty()
    } else {
        let l = line_len(s) as int;
        let first = strip_cr(s.take(l));
        if l == s.len() {
            seq![first]
        } else {
            seq![first] + lines_spec(s.skip(l + 1))
        }
    }
}

#[via_fn]
proof fn lines_spec_decreases(s: Seq<char>) {
    lemma_line_len_le(s);
}

/// The lines after the first `n`, or nothing if there are no more; the view
/// of an iterator after `skip(n)`.
pub open spec fn lines_after(ls: Seq<Seq<char>>, n: int) -> Seq<Seq<char>> {
    if ls.len() <= n {
        Seq::empty()
    } else {
        ls.skip(n)
    }
}

fn line_len_exec(s: &str) -> (r: usize)
    ensures
        r == line_len(s@),
    decreases s@.len(),
{
    let n = s.unicode_len();
    if n == 0 {
        0
    } else if s.get_char(0) == '\n' {
        0
    } else {
        let rest = s.substring_char(1, n);
        assert(rest@ =~= s@.skip(1));
        proof {
            lemma_line_len_le(s@.skip(1));
        }
        1 + line_len_exec(rest)
    }
}

/// The lines of a text, as owned strings.
pub fn lines_of(s: &str) -> (r: Vec<String>)
    ensures
        r.deep_view() == lines_spec(s@),
    decreases s@.len(),
{
    let n = s.unicode_len();
    if n == 0 {
        let r: Vec<String> = Vec::new();
        assert(r.deep_view() =~= lines_spec(s@));
        return r;
    }
    let l = line_len_exec(s);
    proof {
        lemma_line_len_le(s@);
    }
    let raw = s.substring_char(0, l);
    assert(raw@ =~= s@.take(l as int));
    let first: String = if raw.unicode_len() > 0 && raw.get_char(raw.unicode_len() - 1) == '\r' {
        let c = raw.substring_char(0, raw.unicode_len() - 1);
        assert(c@ =~= raw@.drop_last());
        c.to_owned()
    } else {
        raw.to_owned()
    };
    assert(first@ == strip_cr(s@.take(l as int)));
    if l == n {
        let mut r: Vec<String> = Vec::new();
        r.push(first);
        assert(r.deep_view() =~= lines_spec(s@));
        r
    } else {
        let tail = s.substring_char(l + 1, n);
        assert(tail@ =~= s@.skip(l as int + 1));
        let mut rest = lines_of(tail);
        let mut r: Vec<String> = Vec::new();
        r.push(first);
        r.append(&mut rest);
        assert(r.deep_view() =~= lines_spec(s@));
        r
    }
}

/// The part of a line before its first colon, or the whole line without one;
/// what `split(':').next()` yields.
pub open spec fn before_colon(s: Seq<char>) -> Seq<char> {
    match find_sub(s, seq![':']) {
        Some(i) => s.take(i),
        None => s,
    }
}

/// Whether the line holds a colon at all, which is when `split(':')` yields
/// more than one piece.
pub open spec fn has_colon(s: Seq<char>) -> bool {
    has_sub(s, seq![':'])
}

/// The part of the line before its first colon, and whether a colon exists.
pub fn split_at_colon(s: &str) -> (r: (String, bool))
    ensures
        r.0@ == before_colon(s@),
        r.1 == has_colon(s@),
{
    proof {
        reveal_strlit(":");
        assert(":"@ =~= seq![':']);
    }
    match find_sub_str(s, ":") {
        Some(i) => {
            proof {
                lemma_find_sub_bound(s@, ":"@);
            }
            let head = s.substring_char(0, i);
            assert(head@ =~= s@.take(i as int));
            (head.to_owned(), true)
        },
        None => (s.to_owned(), false),
    }
}

/// The input without its trailing period characters, as
/// `trim_end_matches('.')` strips them.
pub open spec fn strip_trailing_dots(s: Seq<char>) -> Seq<char>
    decreases s.len(),
{
    if s.len() > 0 && s.last() == '.' {
        strip_trailing_dots(s.drop_last())
    } else {
        s
    }
}

pub fn strip_trailing_dots_str(s: &str) -> (r: &str)
    ensures
        r@ == strip_trailing_dots(s@),
    decreases s@.len(),
{
    let n = s.unicode_len();
    if n > 0 && s.get_char(n - 1) == '.' {
        let rest = s.substring_char(0, n - 1);
        assert(rest@ =~= s@.drop_last());
        strip_trailing_dots_str(rest)
    } else {
        s
    }
}

/// If the trimmed input is non-empty, that trimmed copy; the step each
/// fallback strategy applies to a utility's output.
pub fn nonempty_trimmed(s: &str) -> (r: Option<String>)
    ensures
        match r {
            Some(t) => t@ == trim_spec(s@) && trim_spec(s@).len() > 0,
            None => trim_spec(s@).len() == 0,
        },
{
    let t = trim_str(s);
    if t.as_str().unicode_len() > 0 {
        Some(t)
    } else {
        None
    }
}

} // verus!
