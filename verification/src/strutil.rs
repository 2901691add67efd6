//! Character-sequence helpers shared by the log parsers and name builders.

use vstd::prelude::*;

verus! {

/// Index of the first occurrence of `c` in `s`, or `s.len()` if absent.
pub open spec fn find_char(s: Seq<char>, c: char) -> int
    decreases s.len(),
{
    if s.len() == 0 {
        0
    } else if s[0] == c {
        0
    } else {
        1 + find_char(s.drop_first(), c)
    }
}

pub proof fn lemma_find_char(s: Seq<char>, c: char)
    ensures
        0 <= find_char(s, c) <= s.len(),
        forall|j: int| 0 <= j < find_char(s, c) ==> s[j] != c,
        find_char(s, c) < s.len() ==> s[find_char(s, c)] == c,
    decreases s.len(),
{
    if s.len() != 0 && s[0] != c {
        lemma_find_char(s.drop_first(), c);
        assert forall|j: int| 0 <= j < find_char(s, c) implies s[j] != c by {
            if j > 0 {
                assert(s.drop_first()[j - 1] == s[j]);
            }
        }
    }
}

/// The first position in `[from, s.len())` holding `c`, or `s.len()`.
pub proof fn lemma_find_char_at(s: Seq<char>, c: char, k: int)
    requires
        0 <= k <= s.len(),
        forall|j: int| 0 <= j < k ==> s[j] != c,
        k < s.len() ==> s[k] == c,
    ensures
        find_char(s, c) == k,
    decreases s.len(),
{
    if s.len() != 0 && s[0] != c {
        lemma_find_char_at(s.drop_first(), c, k - 1);
    }
}

/// Locates the first `c` at or after `from`, scanning one character at a time.
pub fn scan_char(s: &str, from: usize, c: char) -> (r: usize)
    requires
        from <= s@.len(),
    ensures
        from + find_char(s@.subrange(from as int, s@.len() as int), c) == r,
        r <= s@.len(),
{
    let n = s.unicode_len();
    let mut i: usize = from;
    while i < n
        invariant
            from <= i <= n,
            n == s@.len(),
            forall|j: int| from <= j < i ==> s@[j] != c,
        decreases n - i,
    {
        if s.get_char(i) == c {
            proof {
                let t = s@.subrange(from as int, s@.len() as int);
                assert forall|j: int| 0 <= j < i - from implies t[j] != c by {
                    assert(t[j] == s@[from + j]);
                }
                assert(t[i - from] == s@[i as int]);
                lemma_find_char_at(t, c, i - from);
            }
            return i;
        }
        i = i + 1;
    }
    proof {
        let t = s@.subrange(from as int, s@.len() as int);
        assert forall|j: int| 0 <= j < n - from implies t[j] != c by {
            assert(t[j] == s@[from + j]);
        }
        lemma_find_char_at(t, c, n - from);
    }
    n
}

/// Copies the characters `[from, to)` into a fresh string.
pub fn substr(s: &str, from: usize, to: usize) -> (r: String)
    requires
        from <= to <= s@.len(),
    ensures
        r@ == s@.subrange(from as int, to as int),
{
    let sub = s.substring_char(from, to);
    String::from_str(sub)
}

/// Compares two string slices character by character.
pub fn str_eq(a: &str, b: &str) -> (r: bool)
    ensures
        r == (a@ == b@),
{
    let na = a.unicode_len();
    let nb = b.unicode_len();
    if na != nb {
        return false;
    }
    let mut i: usize = 0;
    while i < na
        invariant
            i <= na,
            na == a@.len(),
            na == b@.len(),
            forall|j: int| 0 <= j < i ==> a@[j] == b@[j],
        decreases na - i,
    {
        if a.get_char(i) != b.get_char(i) {
            return false;
        }
        i = i + 1;
    }
    proof {
        assert(a@ =~= b@);
    }
    true
}

/// The newline-separated lines of `s`; a trailing newline adds no line.
pub open spec fn split_lines(s: Seq<char>) -> Seq<Seq<char>>
    decreases s.len(),
{
    if s.len() == 0 {
        seq![]
    } else {
        let k = find_char(s, '\n');
        if 0 <= k < s.len() {
            seq![s.take(k)] + split_lines(s.skip(k + 1))
        } else {
            seq![s]
        }
    }
}

pub proof fn lemma_split_lines_step(s: Seq<char>, k: int)
    requires
        0 <= k < s.len(),
        s[k] == '\n',
        forall|j: int| 0 <= j < k ==> s[j] != '\n',
    ensures
        split_lines(s) == seq![s.take(k)] + split_lines(s.skip(k + 1)),
{
    lemma_find_char_at(s, '\n', k);
}

pub proof fn lemma_split_lines_whole(s: Seq<char>)
    requires
        s.len() > 0,
        forall|j: int| 0 <= j < s.len() ==> s[j] != '\n',
    ensures
        split_lines(s) == seq![s],
{
    lemma_find_char_at(s, '\n', s.len() as int);
}

/// Splits `s` at newlines, dropping a final empty remainder.
pub fn split_lines_exec(s: &str) -> (r: Vec<String>)
    ensures
        r.deep_view() == split_lines(s@),
{
    let n = s.unicode_len();
    let mut r: Vec<String> = Vec::new();
    let mut start: usize = 0;
    proof {
        assert(s@.skip(0) =~= s@);
        assert(r.deep_view() + split_lines(s@) =~= split_lines(s@));
    }
    while start < n
        invariant
            start <= n,
            n == s@.len(),
            split_lines(s@) == r.deep_view() + split_lines(s@.skip(start as int)),
        decreases n - start,
    {
        let ghost t = s@.skip(start as int);
        let k = scan_char(s, start, '\n');
        proof {
            lemma_find_char(t, '\n');
            assert(t.len() == n - start);
        }
        if k < n {
            let line = substr(s, start, k);
            r.push(line);
            proof {
                assert(t[k - start] == s@[k as int]);
                assert forall|j: int| 0 <= j < k - start implies t[j] != '\n' by {
                    assert(t[j] == s@[start + j]);
                    assert(find_char(t, '\n') == k - start);
                }
                lemma_split_lines_step(t, k - start);
                assert(t.take(k - start) =~= line@);
                assert(t.skip(k - start + 1) =~= s@.skip(k + 1));
                assert(r.deep_view() =~= r.deep_view().drop_last().push(line@));
                assert(r.deep_view().drop_last() + (seq![line@] + split_lines(s@.skip(k + 1)))
                    =~= r.deep_view() + split_lines(s@.skip(k + 1)));
            }
            start = k + 1;
        } else {
            let line = substr(s, start, n);
            r.push(line);
            proof {
                assert forall|j: int| 0 <= j < t.len() implies t[j] != '\n' by {
                    assert(t[j] == s@[start + j]);
                    assert(find_char(t, '\n') == t.len());
                }
                lemma_split_lines_whole(t);
                assert(t =~= line@);
                assert(s@.skip(n as int) =~= Seq::<char>::empty());
                assert(r.deep_view() =~= r.deep_view().drop_last().push(line@));
                assert(r.deep_view().drop_last() + (seq![line@] + split_lines(s@.skip(n as int)))
                    =~= r.deep_view() + split_lines(s@.skip(n as int)));
            }
            start = n;
        }
    }
    proof {
        assert(s@.skip(n as int) =~= Seq::<char>::empty());
        assert(r.deep_view() + split_lines(s@.skip(start as int)) =~= r.deep_view());
    }
    r
}

/// A path separator: the forward slash, or the backslash of Windows-style
/// paths.
pub open spec fn is_path_sep(c: char) -> bool {
    c == '/' || c == '\\'
}

/// Index just past the last path separator in `s`, or 0 if none occurs.
pub open spec fn after_last_sep(s: Seq<char>) -> int
    decreases s.len(),
{
    if s.len() == 0 {
        0
    } else if is_path_sep(s.last()) {
        s.len() as int
    } else {
        after_last_sep(s.drop_last())
    }
}

pub proof fn lemma_after_last_sep(s: Seq<char>)
    ensures
        0 <= after_last_sep(s) <= s.len(),
        after_last_sep(s) > 0 ==> is_path_sep(s[after_last_sep(s) - 1]),
        forall|j: int| after_last_sep(s) <= j < s.len() ==> !is_path_sep(s[j]),
    decreases s.len(),
{
    if s.len() > 0 && !is_path_sep(s.last()) {
        lemma_after_last_sep(s.drop_last());
        assert forall|j: int| after_last_sep(s) <= j < s.len() implies !is_path_sep(s[j]) by {
            if j < s.len() - 1 {
                assert(s.drop_last()[j] == s[j]);
            }
        }
    }
}

pub proof fn lemma_after_last_sep_at(s: Seq<char>, k: int)
    requires
        0 <= k <= s.len(),
        k > 0 ==> is_path_sep(s[k - 1]),
        forall|j: int| k <= j < s.len() ==> !is_path_sep(s[j]),
    ensures
        after_last_sep(s) == k,
    decreases s.len(),
{
    if s.len() > 0 {
        if is_path_sep(s.last()) {
            assert(k == s.len());
        } else {
            assert forall|j: int| k <= j < s.drop_last().len() implies !is_path_sep(
                s.drop_last()[j],
            ) by {
                assert(s.drop_last()[j] == s[j]);
            }
            if k > 0 {
                assert(s.drop_last()[k - 1] == s[k - 1]);
            }
            lemma_after_last_sep_at(s.drop_last(), k);
        }
    }
}

/// Scans backwards for the last path separator, returning the index just
/// past it.
pub fn scan_last_sep(s: &str) -> (r: usize)
    ensures
        r == after_last_sep(s@),
{
    let n = s.unicode_len();
    let mut i: usize = n;
    while i > 0
        invariant
            i <= n,
            n == s@.len(),
            forall|j: int| i <= j < n ==> !is_path_sep(s@[j]),
        decreases i,
    {
        let c = s.get_char(i - 1);
        if c == '/' || c == '\\' {
            proof {
                lemma_after_last_sep_at(s@, i as int);
            }
            return i;
        }
        i = i - 1;
    }
    proof {
        lemma_after_last_sep_at(s@, 0);
    }
    0
}

/// Whether `s` ends with `tail`.
pub open spec fn ends_with(s: Seq<char>, tail: Seq<char>) -> bool {
    s.len() >= tail.len() && s.skip(s.len() - tail.len()) == tail
}

/// The number of leading `c` characters of `s`.
pub open spec fn span_char(s: Seq<char>, c: char) -> int
    decreases s.len(),
{
    if s.len() == 0 {
        0
    } else if s[0] != c {
        0
    } else {
        1 + span_char(s.drop_first(), c)
    }
}

pub proof fn lemma_span_char(s: Seq<char>, c: char)
    ensures
        0 <= span_char(s, c) <= s.len(),
        forall|j: int| 0 <= j < span_char(s, c) ==> s[j] == c,
        span_char(s, c) < s.len() ==> s[span_char(s, c)] != c,
    decreases s.len(),
{
    if s.len() != 0 && s[0] == c {
        lemma_span_char(s.drop_first(), c);
        assert forall|j: int| 0 <= j < span_char(s, c) implies s[j] == c by {
            if j > 0 {
                assert(s.drop_first()[j - 1] == s[j]);
            }
        }
    }
}

pub proof fn lemma_span_char_at(s: Seq<char>, c: char, k: int)
    requires
        0 <= k <= s.len(),
        forall|j: int| 0 <= j < k ==> s[j] == c,
        k < s.len() ==> s[k] != c,
    ensures
        span_char(s, c) == k,
    decreases s.len(),
{
    if s.len() != 0 && s[0] == c {
        lemma_span_char_at(s.drop_first(), c, k - 1);
    }
}

/// Counts the leading `c` characters of `s`.
pub fn scan_span(s: &str, c: char) -> (r: usize)
    ensures
        r == span_char(s@, c),
{
    let n = s.unicode_len();
    let mut i: usize = 0;
    while i < n
        invariant
            i <= n,
            n == s@.len(),
            forall|j: int| 0 <= j < i ==> s@[j] == c,
        decreases n - i,
    {
        if s.get_char(i) != c {
            proof {
                lemma_span_char_at(s@, c, i as int);
            }
            return i;
        }
        i = i + 1;
    }
    proof {
        lemma_span_char_at(s@, c, n as int);
    }
    n
}

} // verus!

