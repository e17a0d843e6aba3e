//! Character-level text helpers: locating separators, splitting on a
//! separator, and skipping leading whitespace.

use vstd::prelude::*;
use vstd::string::StrSliceExecFns;

verus! {

/// Index of the first occurrence of `c` in `s`, or -1 when `c` does not occur.
pub open spec fn find_first(s: Seq<char>, c: char) -> int
    decreases s.len(),
{
    if s.len() == 0 {
        -1
    } else if s[0] == c {
        0
    } else {
        let r = find_first(s.drop_first(), c);
        if r < 0 {
            -1
        } else {
            r + 1
        }
    }
}

/// Index of the last occurrence of `c` in `s`, or -1 when `c` does not occur.
pub open spec fn find_last(s: Seq<char>, c: char) -> int
    decreases s.len(),
{
    if s.len() == 0 {
        -1
    } else if s[s.len() - 1] == c {
        s.len() - 1
    } else {
        find_last(s.drop_last(), c)
    }
}

pub proof fn lemma_find_first(s: Seq<char>, c: char)
    ensures
        -1 <= find_first(s, c) < s.len(),
        find_first(s, c) >= 0 ==> s[find_first(s, c)] == c,
        forall|j: int|
            0 <= j < s.len() && (find_first(s, c) < 0 || j < find_first(s, c)) ==> s[j] != c,
        find_first(s, c) >= 0 <==> s.contains(c),
    decreases s.len(),
{
    if s.len() > 0 && s[0] != c {
        lemma_find_first(s.drop_first(), c);
        assert forall|j: int|
            0 <= j < s.len() && (find_first(s, c) < 0 || j < find_first(s, c)) implies s[j]
            != c by {
            if j > 0 {
                assert(s.drop_first()[j - 1] == s[j]);
            }
        }
        if find_first(s, c) < 0 {
            assert(!s.contains(c));
        } else {
            assert(s.drop_first()[find_first(s, c) - 1] == s[find_first(s, c)]);
            assert(s.contains(c));
        }
    }
}

pub proof fn lemma_find_last(s: Seq<char>, c: char)
    ensures
        -1 <= find_last(s, c) < s.len(),
        find_last(s, c) >= 0 ==> s[find_last(s, c)] == c,
        forall|j: int| find_last(s, c) < j < s.len() ==> s[j] != c,
        find_last(s, c) >= 0 <==> s.contains(c),
    decreases s.len(),
{
    if s.len() > 0 && s[s.len() - 1] != c {
        lemma_find_last(s.drop_last(), c);
        assert forall|j: int| find_last(s, c) < j < s.len() implies s[j] != c by {
            if j < s.len() - 1 {
                assert(s.drop_last()[j] == s[j]);
            }
        }
        if find_last(s, c) >= 0 {
            assert(s.drop_last()[find_last(s, c)] == s[find_last(s, c)]);
            assert(s.contains(c));
        } else {
            assert(!s.contains(c));
        }
    }
}

/// First occurrence of `c` among the characters of `s`, scanning forward.
pub fn find_first_str(s: &str, c: char) -> (r: Option<usize>)
    ensures
        match r {
            Some(i) => find_first(s@, c) == i as int,
            None => find_first(s@, c) == -1,
        },
{
    let n = s.unicode_len();
    let mut i: usize = 0;
    while i < n
        invariant
            n == s@.len(),
            i <= n,
            forall|j: int| 0 <= j < i ==> s@[j] != c,
        decreases n - i,
    {
        if s.get_char(i) == c {
            proof {
                lemma_find_first(s@, c);
            }
            return Some(i);
        }
        i += 1;
    }
    proof {
        lemma_find_first(s@, c);
    }
    None
}

/// Last occurrence of `c` among the characters of `s`, scanning backward.
pub fn find_last_str(s: &str, c: char) -> (r: Option<usize>)
    ensures
        match r {
            Some(i) => find_last(s@, c) == i as int,
            None => find_last(s@, c) == -1,
        },
{
    let n = s.unicode_len();
    let mut i: usize = n;
    while i > 0
        invariant
            n == s@.len(),
            i <= n,
            forall|j: int| i <= j < n ==> s@[j] != c,
        decreases i,
    {
        i -= 1;
        if s.get_char(i) == c {
            proof {
                lemma_find_last(s@, c);
            }
            return Some(i);
        }
    }
    proof {
        lemma_find_last(s@, c);
    }
    None
}

/// The pieces of `s` between occurrences of `sep`, in order; always at least
/// one piece, and empty pieces are kept.
pub open spec fn split_on(s: Seq<char>, sep: char) -> Seq<Seq<char>>
    decreases s.len(),
{
    let i = find_first(s, sep);
    if 0 <= i < s.len() {
        seq![s.take(i)] + split_on(s.skip(i + 1), sep)
    } else {
        seq![s]
    }
}

/// Splits `s` at every occurrence of `sep`.
pub fn split_str(s: &str, sep: char) -> (r: Vec<String>)
    ensures
        r@.len() == split_on(s@, sep).len(),
        forall|k: int| 0 <= k < r@.len() ==> (#[trigger] r@[k])@ == split_on(s@, sep)[k],
    decreases s@.len(),
{
    proof {
        lemma_find_first(s@, sep);
    }
    let n = s.unicode_len();
    match find_first_str(s, sep) {
        Some(i) => {
            let head = s.substring_char(0, i).to_owned();
            let tail = s.substring_char(i + 1, n);
            assert(tail@ =~= s@.skip(i + 1));
            assert(head@ =~= s@.take(i as int));
            let mut rest = split_str(tail, sep);
            rest.insert(0, head);
            proof {
                let whole = split_on(s@, sep);
                let sub = split_on(s@.skip(i + 1), sep);
                assert(whole =~= seq![s@.take(i as int)] + sub);
                assert forall|k: int| 0 <= k < rest@.len() implies (#[trigger] rest@[k])@
                    == whole[k] by {
                    if k > 0 {
                        assert(rest@[k]@ == sub[k - 1]);
                    }
                }
            }
            rest
        },
        None => {
            let mut r: Vec<String> = Vec::new();
            r.push(s.to_owned());
            r
        },
    }
}

/// The whitespace characters that may surround a protocol key.
pub open spec fn is_space(c: char) -> bool {
    c == ' ' || c == '\t' || c == '\n' || c == '\r' || c == '\u{b}' || c == '\u{c}'
}

/// `s` without its leading whitespace.
pub open spec fn skip_spaces(s: Seq<char>) -> Seq<char>
    decreases s.len(),
{
    if s.len() > 0 && is_space(s[0]) {
        skip_spaces(s.drop_first())
    } else {
        s
    }
}

pub proof fn lemma_skip_spaces_at(s: Seq<char>, k: int)
    requires
        0 <= k <= s.len(),
        forall|j: int| 0 <= j < k ==> is_space(s[j]),
        k < s.len() ==> !is_space(s[k]),
    ensures
        skip_spaces(s) == s.skip(k),
    decreases k,
{
    if k == 0 {
        assert(s.skip(0) =~= s);
    } else {
        let t = s.drop_first();
        assert forall|j: int| 0 <= j < k - 1 implies is_space(t[j]) by {
            assert(t[j] == s[j + 1]);
        }
        assert(k - 1 < t.len() ==> !is_space(t[k - 1]));
        lemma_skip_spaces_at(t, k - 1);
        assert(t.skip(k - 1) =~= s.skip(k));
    }
}

pub fn is_space_char(c: char) -> (r: bool)
    ensures
        r == is_space(c),
{
    c == ' ' || c == '\t' || c == '\n' || c == '\r' || c == '\u{b}' || c == '\u{c}'
}

/// Index of the first character of `s` that is not whitespace (its length if
/// all of it is).
pub fn first_non_space(s: &str) -> (k: usize)
    ensures
        k <= s@.len(),
        forall|j: int| 0 <= j < k ==> is_space(s@[j]),
        k < s@.len() ==> !is_space(s@[k as int]),
        skip_spaces(s@) == s@.skip(k as int),
{
    let n = s.unicode_len();
    let mut k: usize = 0;
    while k < n
        invariant
            n == s@.len(),
            k <= n,
            forall|j: int| 0 <= j < k ==> is_space(s@[j]),
        decreases n - k,
    {
        if !is_space_char(s.get_char(k)) {
            proof {
                lemma_skip_spaces_at(s@, k as int);
            }
            return k;
        }
        k += 1;
    }
    proof {
        lemma_skip_spaces_at(s@, k as int);
    }
    k
}

} // verus!
