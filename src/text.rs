//! Small string helpers shared by the other modules.

use vstd::prelude::*;

verus! {

/// Character-wise equality of two string slices.
pub fn str_eq(a: &str, b: &str) -> (r: bool)
    ensures
        r == (a@ == b@),
{
    let n = a.unicode_len();
    let m = b.unicode_len();
    if n != m {
        return false;
    }
    let mut i: usize = 0;
    while i < n
        invariant
            n == a@.len(),
            m == b@.len(),
            n == m,
            i <= n,
            forall|j: int| 0 <= j < i ==> a@[j] == b@[j],
        decreases n - i,
    {
        if a.get_char(i) != b.get_char(i) {
            return false;
        }
        i = i + 1;
    }
    assert(a@ =~= b@);
    true
}

pub open spec fn has_prefix(s: Seq<char>, p: Seq<char>) -> bool {
    p.len() <= s.len() && s.subrange(0, p.len() as int) == p
}

pub open spec fn has_suffix(s: Seq<char>, p: Seq<char>) -> bool {
    p.len() <= s.len() && s.subrange(s.len() - p.len(), s.len() as int) == p
}

/// `t` occurs in `s` at position `i`.
pub open spec fn occurs_at(s: Seq<char>, t: Seq<char>, i: int) -> bool {
    0 <= i && i + t.len() <= s.len() && s.subrange(i, i + t.len()) == t
}

pub open spec fn contains_sub(s: Seq<char>, t: Seq<char>) -> bool {
    exists|i: int| #[trigger] occurs_at(s, t, i)
}

/// Whether `t` occurs in `s` at position `i`.
pub fn matches_at(s: &str, t: &str, i: usize) -> (r: bool)
    ensures
        r == occurs_at(s@, t@, i as int),
{
    let n = s.unicode_len();
    let m = t.unicode_len();
    if i > n || m > n - i {
        return false;
    }
    let mut k: usize = 0;
    while k < m
        invariant
            n == s@.len(),
            m == t@.len(),
            i + m <= n,
            k <= m,
            forall|j: int| 0 <= j < k ==> s@[i + j] == t@[j],
        decreases m - k,
    {
        if s.get_char(i + k) != t.get_char(k) {
            assert(s@.subrange(i as int, i + m)[k as int] != t@[k as int]);
            return false;
        }
        k = k + 1;
    }
    assert(s@.subrange(i as int, i + m) =~= t@);
    true
}

pub fn starts_with(s: &str, p: &str) -> (r: bool)
    ensures
        r == has_prefix(s@, p@),
{
    matches_at(s, p, 0)
}

pub fn ends_with(s: &str, p: &str) -> (r: bool)
    ensures
        r == has_suffix(s@, p@),
{
    let n = s.unicode_len();
    let m = p.unicode_len();
    if m > n {
        return false;
    }
    matches_at(s, p, n - m)
}

/// The first position at which `t` occurs in `s`.
pub fn find(s: &str, t: &str) -> (r: Option<usize>)
    ensures
        match r {
            Some(i) => occurs_at(s@, t@, i as int) && forall|j: int| 0 <= j < i ==> !#[trigger] occurs_at(s@, t@, j),
            None => !contains_sub(s@, t@),
        },
{
    let n = s.unicode_len();
    let mut i: usize = 0;
    while i < n
        invariant
            n == s@.len(),
            i <= n,
            forall|j: int| 0 <= j < i ==> !#[trigger] occurs_at(s@, t@, j),
        decreases n - i,
    {
        if matches_at(s, t, i) {
            return Some(i);
        }
        i = i + 1;
    }
    if matches_at(s, t, n) {
        return Some(n);
    }
    assert forall|j: int| !#[trigger] occurs_at(s@, t@, j) by {
        if j > n as int {
            assert(!occurs_at(s@, t@, j));
        }
    }
    None
}

/// ASCII whitespace: space, tab, line feed, form feed, carriage return.
pub open spec fn is_ascii_space(c: char) -> bool {
    c == ' ' || c == '\t' || c == '\n' || c == '\x0C' || c == '\r'
}

pub open spec fn is_quote(c: char) -> bool {
    c == '\'' || c == '"'
}

/// The characters a trim removes: quotes, or ASCII whitespace.
pub open spec fn trimmed_char(c: char, quotes: bool) -> bool {
    if quotes {
        is_quote(c)
    } else {
        is_ascii_space(c)
    }
}

pub open spec fn trim_start(s: Seq<char>, quotes: bool) -> Seq<char>
    decreases s.len(),
{
    if s.len() > 0 && trimmed_char(s[0], quotes) {
        trim_start(s.drop_first(), quotes)
    } else {
        s
    }
}

pub open spec fn trim_end(s: Seq<char>, quotes: bool) -> Seq<char>
    decreases s.len(),
{
    if s.len() > 0 && trimmed_char(s.last(), quotes) {
        trim_end(s.drop_last(), quotes)
    } else {
        s
    }
}

/// `s` without its leading and trailing trimmed characters.
pub open spec fn trim(s: Seq<char>, quotes: bool) -> Seq<char> {
    trim_end(trim_start(s, quotes), quotes)
}

fn is_trimmed_char(c: char, quotes: bool) -> (r: bool)
    ensures
        r == trimmed_char(c, quotes),
{
    if quotes {
        c == '\'' || c == '"'
    } else {
        c == ' ' || c == '\t' || c == '\n' || c == '\x0C' || c == '\r'
    }
}

/// `s` without leading and trailing ASCII whitespace, or without leading
/// and trailing quote characters.
pub fn trim_str(s: &str, quotes: bool) -> (r: String)
    ensures
        r@ == trim(s@, quotes),
{
    let n = s.unicode_len();
    let mut a: usize = 0;
    assert(s@.subrange(0, n as int) =~= s@);
    while a < n && is_trimmed_char(s.get_char(a), quotes)
        invariant
            n == s@.len(),
            a <= n,
            trim_start(s@, quotes) == trim_start(s@.subrange(a as int, n as int), quotes),
        decreases n - a,
    {
        assert(s@.subrange(a as int, n as int).drop_first() =~= s@.subrange(a + 1, n as int));
        a = a + 1;
    }
    assert(trim_start(s@, quotes) == s@.subrange(a as int, n as int));
    let mut b: usize = n;
    while b > a && is_trimmed_char(s.get_char(b - 1), quotes)
        invariant
            n == s@.len(),
            a <= b <= n,
            trim(s@, quotes) == trim_end(s@.subrange(a as int, b as int), quotes),
        decreases b - a,
    {
        assert(s@.subrange(a as int, b as int).drop_last() =~= s@.subrange(a as int, b - 1));
        b = b - 1;
    }
    String::from_str(s.substring_char(a, b))
}

/// Whether `c` separates runs: a line break when splitting lines, any
/// ASCII whitespace when splitting words.
pub open spec fn separates(c: char, lines: bool) -> bool {
    if lines {
        c == '\n' || c == '\r'
    } else {
        is_ascii_space(c)
    }
}

/// The maximal runs of non-separator characters of `s`, in order, and
/// whether the last one is still open at the end of `s`.
pub open spec fn scan_runs(s: Seq<char>, lines: bool) -> (Seq<Seq<char>>, bool)
    decreases s.len(),
{
    if s.len() == 0 {
        (Seq::empty(), false)
    } else {
        let (runs, open) = scan_runs(s.drop_last(), lines);
        let c = s.last();
        if separates(c, lines) {
            (runs, false)
        } else if open {
            (runs.update(runs.len() - 1, runs.last().push(c)), true)
        } else {
            (runs.push(seq![c]), true)
        }
    }
}

/// The maximal runs of non-separator characters of `s`, in order.
pub open spec fn runs(s: Seq<char>, lines: bool) -> Seq<Seq<char>> {
    scan_runs(s, lines).0
}

pub open spec fn strings_view(v: Seq<String>) -> Seq<Seq<char>> {
    v.map_values(|s: String| s@)
}

proof fn lemma_scan_runs_open_len(s: Seq<char>, lines: bool)
    ensures
        scan_runs(s, lines).1 ==> scan_runs(s, lines).0.len() > 0,
    decreases s.len(),
{
    if s.len() > 0 {
        lemma_scan_runs_open_len(s.drop_last(), lines);
    }
}

/// Splits `s` into its maximal runs of non-separator characters: its lines
/// (separators `\n` and `\r`, blank lines dropped) or its ASCII-whitespace
/// separated words.
pub fn split_runs(s: &str, lines: bool) -> (r: Vec<String>)
    ensures
        strings_view(r@) == runs(s@, lines),
{
    let n = s.unicode_len();
    let mut out: Vec<String> = Vec::new();
    let mut open = false;
    let mut start: usize = 0;
    let mut i: usize = 0;
    assert(s@.take(0) =~= Seq::<char>::empty());
    assert(strings_view(out@) =~= Seq::<Seq<char>>::empty());
    while i < n
        invariant
            n == s@.len(),
            i <= n,
            start <= i,
            scan_runs(s@.take(i as int), lines).1 == open,
            scan_runs(s@.take(i as int), lines).0 == if open {
                strings_view(out@).push(s@.subrange(start as int, i as int))
            } else {
                strings_view(out@)
            },
        decreases n - i,
    {
        let c = s.get_char(i);
        let sep = if lines {
            c == '\n' || c == '\r'
        } else {
            c == ' ' || c == '\t' || c == '\n' || c == '\x0C' || c == '\r'
        };
        assert(s@.take(i + 1).drop_last() =~= s@.take(i as int));
        assert(s@.take(i + 1).last() == c);
        if sep {
            if open {
                let ghost before = strings_view(out@);
                out.push(String::from_str(s.substring_char(start, i)));
                assert(strings_view(out@) =~= before.push(s@.subrange(start as int, i as int)));
            }
            open = false;
        } else {
            if open {
                let ghost prev = s@.subrange(start as int, i as int);
                assert(s@.subrange(start as int, i + 1) =~= prev.push(c));
                assert(strings_view(out@).push(prev).update(strings_view(out@).len() as int, prev.push(c))
                    =~= strings_view(out@).push(s@.subrange(start as int, i + 1)));
            } else {
                start = i;
                assert(s@.subrange(start as int, i + 1) =~= seq![c]);
            }
            open = true;
        }
        i = i + 1;
    }
    assert(s@.take(n as int) =~= s@);
    if open {
        let ghost before = strings_view(out@);
        out.push(String::from_str(s.substring_char(start, n)));
        assert(strings_view(out@) =~= before.push(s@.subrange(start as int, n as int)));
    }
    out
}

} // verus!
