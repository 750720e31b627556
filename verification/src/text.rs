//! Verified text utilities: the character-sequence operations that the
//! resolver, installer and restorer build their string handling on.

use vstd::prelude::*;

verus! {

// ---------------- spec-side helpers on character sequences ----------------

/// `p` occurs in `s` starting at position `i`.
pub open spec fn matches_at(s: Seq<char>, p: Seq<char>, i: int) -> bool {
    0 <= i && i + p.len() <= s.len() && s.subrange(i, i + p.len() as int) == p
}

pub open spec fn starts_with(s: Seq<char>, p: Seq<char>) -> bool {
    matches_at(s, p, 0)
}

pub open spec fn ends_with(s: Seq<char>, p: Seq<char>) -> bool {
    p.len() <= s.len() && matches_at(s, p, s.len() - p.len())
}

pub open spec fn contains_seq(s: Seq<char>, p: Seq<char>) -> bool {
    exists|i: int| matches_at(s, p, i)
}

/// ASCII lower-casing of one character; other characters are unchanged.
pub open spec fn lower_char(c: char) -> char {
    if 'A' <= c && c <= 'Z' {
        (((c as u32) + 32) as char)
    } else {
        c
    }
}

pub open spec fn lower_seq(s: Seq<char>) -> Seq<char> {
    s.map_values(|c: char| lower_char(c))
}

// ---------------- executable counterparts ----------------

pub fn lower_char_x(c: char) -> (r: char)
    ensures
        r == lower_char(c),
{
    if 'A' <= c && c <= 'Z' {
        (((c as u8) + 32) as char)
    } else {
        c
    }
}

/// Relies on `String::push`: appends exactly the given character.
#[verifier::external_body]
pub(crate) fn push_char(s: &mut String, c: char)
    ensures
        final(s)@ == old(s)@.push(c),
{
    s.push(c);
}

/// `s` and `p` agree on a window of `p`'s length starting at `i` in `s`.
pub fn eq_at(s: &str, p: &str, i: usize) -> (r: bool)
    requires
        i + p@.len() <= s@.len(),
        s@.len() <= usize::MAX,
    ensures
        r == matches_at(s@, p@, i as int),
{
    let m: usize = p.unicode_len();
    let mut j: usize = 0;
    while j < m
        invariant
            j <= m,
            m == p@.len(),
            i + m <= s@.len() <= usize::MAX,
            forall|k: int| 0 <= k < j ==> s@[i + k] == p@[k],
        decreases m - j,
    {
        if s.get_char(i + j) != p.get_char(j) {
            assert(!matches_at(s@, p@, i as int)) by {
                assert(s@.subrange(i as int, i + m as int) != p@) by {
                    assert(s@.subrange(i as int, i + m as int)[j as int] != p@[j as int]);
                }
            }
            return false;
        }
        j = j + 1;
    }
    assert(s@.subrange(i as int, i + m as int) =~= p@);
    true
}

/// Position of the first occurrence of `p` in `s`, if any.
pub fn find_sub(s: &str, p: &str) -> (r: Option<usize>)
    ensures
        match r {
            Some(i) => matches_at(s@, p@, i as int) && (forall|j: int|
                0 <= j < i ==> !matches_at(s@, p@, j)),
            None => !contains_seq(s@, p@),
        },
{
    let n: usize = s.unicode_len();
    let m: usize = p.unicode_len();
    if m > n {
        return None;
    }
    if m == 0 {
        assert(s@.subrange(0, 0) =~= p@);
        return Some(0);
    }
    let mut i: usize = 0;
    while i <= n - m
        invariant
            1 <= m <= n,
            n == s@.len(),
            m == p@.len(),
            i <= n - m + 1,
            forall|j: int| 0 <= j < i ==> !matches_at(s@, p@, j),
        decreases n - i,
    {
        if eq_at(s, p, i) {
            return Some(i);
        }
        i = i + 1;
    }
    assert(forall|j: int| i <= j ==> !matches_at(s@, p@, j));
    None
}

pub fn str_contains(s: &str, p: &str) -> (r: bool)
    ensures
        r == contains_seq(s@, p@),
{
    find_sub(s, p).is_some()
}

pub fn str_starts_with(s: &str, p: &str) -> (r: bool)
    ensures
        r == starts_with(s@, p@),
{
    let n: usize = s.unicode_len();
    let m: usize = p.unicode_len();
    if m > n {
        return false;
    }
    eq_at(s, p, 0)
}

pub fn str_ends_with(s: &str, p: &str) -> (r: bool)
    ensures
        r == ends_with(s@, p@),
{
    let n: usize = s.unicode_len();
    let m: usize = p.unicode_len();
    if m > n {
        return false;
    }
    eq_at(s, p, n - m)
}

/// ASCII lower-casing of a whole string.
pub fn lower_ascii(s: &str) -> (r: String)
    ensures
        r@ == lower_seq(s@),
{
    let n: usize = s.unicode_len();
    let mut out = String::new();
    let mut i: usize = 0;
    while i < n
        invariant
            i <= n,
            n == s@.len(),
            out@.len() == i,
            forall|k: int| 0 <= k < i ==> out@[k] == lower_char(s@[k]),
        decreases n - i,
    {
        let c = lower_char_x(s.get_char(i));
        push_char(&mut out, c);
        i = i + 1;
    }
    assert(out@ =~= lower_seq(s@));
    out
}

/// Left-to-right, non-overlapping replacement of `from` by `to`, as
/// `str::replace` performs it; a string without occurrences is unchanged,
/// and an empty pattern replaces nothing.
pub open spec fn replace_seq(s: Seq<char>, from: Seq<char>, to: Seq<char>) -> Seq<char>
    decreases s.len(),
{
    if from.len() == 0 || s.len() < from.len() {
        s
    } else if s.subrange(0, from.len() as int) == from {
        to + replace_seq(s.subrange(from.len() as int, s.len() as int), from, to)
    } else {
        seq![s[0]] + replace_seq(s.subrange(1, s.len() as int), from, to)
    }
}

pub fn replace_all(s: &str, from: &str, to: &str) -> (r: String)
    ensures
        r@ == replace_seq(s@, from@, to@),
{
    let n: usize = s.unicode_len();
    let m: usize = from.unicode_len();
    if m == 0 {
        return String::from_str(s);
    }
    let mut out = String::new();
    let mut i: usize = 0;
    proof {
        assert(s@.subrange(0, n as int) =~= s@);
        assert(Seq::<char>::empty() + replace_seq(s@, from@, to@) =~= replace_seq(
            s@,
            from@,
            to@,
        ));
    }
    while i < n
        invariant
            i <= n,
            n == s@.len(),
            m == from@.len(),
            1 <= m,
            out@ + replace_seq(s@.subrange(i as int, n as int), from@, to@) == replace_seq(
                s@,
                from@,
                to@,
            ),
        decreases n - i,
    {
        let ghost t = s@.subrange(i as int, n as int);
        if m <= n - i && eq_at(s, from, i) {
            proof {
                assert(t.subrange(0, m as int) =~= s@.subrange(i as int, i + m as int));
                assert(t.subrange(m as int, t.len() as int) =~= s@.subrange(
                    i + m as int,
                    n as int,
                ));
            }
            out.append(to);
            i = i + m;
        } else {
            proof {
                if i + m <= n as int {
                    assert(t.subrange(0, m as int) =~= s@.subrange(i as int, i + m as int));
                }
                assert(t.subrange(1, t.len() as int) =~= s@.subrange(i + 1 as int, n as int));
                assert(t[0] == s@[i as int]);
            }
            let c = s.get_char(i);
            push_char(&mut out, c);
            proof {
                assert(out@ =~= out@.subrange(0, out@.len() - 1) + seq![s@[i as int]]);
            }
            i = i + 1;
        }
        assert(out@ + replace_seq(s@.subrange(i as int, n as int), from@, to@) == replace_seq(
            s@,
            from@,
            to@,
        ));
    }
    proof {
        assert(s@.subrange(n as int, n as int) =~= Seq::<char>::empty());
        assert(out@ + Seq::<char>::empty() =~= out@);
    }
    out
}

/// What follows the last occurrence of `c` in `s`; all of `s` when `c` does
/// not occur, empty when `s` ends with `c`.
pub open spec fn after_last(s: Seq<char>, c: char) -> Seq<char>
    decreases s.len(),
{
    if s.len() == 0 {
        s
    } else if s[s.len() - 1] == c {
        Seq::empty()
    } else {
        after_last(s.drop_last(), c).push(s[s.len() - 1])
    }
}

proof fn lemma_after_last_found(s: Seq<char>, c: char, k: int)
    requires
        0 <= k < s.len(),
        s[k] == c,
        forall|j: int| k < j < s.len() ==> s[j] != c,
    ensures
        after_last(s, c) == s.subrange(k + 1, s.len() as int),
    decreases s.len(),
{
    if k == s.len() - 1 {
        assert(s.subrange(k + 1, s.len() as int) =~= Seq::<char>::empty());
    } else {
        let d = s.drop_last();
        assert(d[k] == c);
        lemma_after_last_found(d, c, k);
        assert(after_last(s, c) =~= s.subrange(k + 1, s.len() as int)) by {
            assert(d.subrange(k + 1, d.len() as int) =~= s.subrange(k + 1, s.len() - 1));
        }
    }
}

proof fn lemma_after_last_absent(s: Seq<char>, c: char)
    requires
        forall|j: int| 0 <= j < s.len() ==> s[j] != c,
    ensures
        after_last(s, c) == s,
    decreases s.len(),
{
    if s.len() > 0 {
        lemma_after_last_absent(s.drop_last(), c);
        assert(after_last(s, c) =~= s);
    }
}

pub fn tail_after_last(s: &str, c: char) -> (r: String)
    ensures
        r@ == after_last(s@, c),
{
    let n: usize = s.unicode_len();
    let mut i: usize = n;
    while i > 0
        invariant
            i <= n,
            n == s@.len(),
            forall|j: int| i <= j < n ==> s@[j] != c,
        decreases i,
    {
        if s.get_char(i - 1) == c {
            let r = String::from_str(s.substring_char(i, n));
            proof {
                lemma_after_last_found(s@, c, i - 1);
            }
            return r;
        }
        i = i - 1;
    }
    proof {
        lemma_after_last_absent(s@, c);
    }
    String::from_str(s)
}

/// Position of the first occurrence of character `c` in `s`.
pub fn find_char(s: &str, c: char) -> (r: Option<usize>)
    ensures
        r matches Some(i) ==> i < s@.len() && s@[i as int] == c && (forall|j: int|
            0 <= j < i ==> s@[j] != c),
        r is None ==> forall|j: int| 0 <= j < s@.len() ==> s@[j] != c,
{
    let n: usize = s.unicode_len();
    let mut i: usize = 0;
    while i < n
        invariant
            i <= n,
            n == s@.len(),
            forall|j: int| 0 <= j < i ==> s@[j] != c,
        decreases n - i,
    {
        if s.get_char(i) == c {
            return Some(i);
        }
        i = i + 1;
    }
    None
}

/// Index of the first occurrence of `c` in `s`, or `s.len()` when absent.
pub open spec fn idx_of(s: Seq<char>, c: char) -> int
    decreases s.len(),
{
    if s.len() == 0 {
        0
    } else if s[0] == c {
        0
    } else {
        1 + idx_of(s.subrange(1, s.len() as int), c)
    }
}

pub proof fn lemma_idx_of(s: Seq<char>, c: char)
    ensures
        0 <= idx_of(s, c) <= s.len(),
        idx_of(s, c) < s.len() ==> s[idx_of(s, c)] == c,
        forall|j: int| 0 <= j < idx_of(s, c) ==> s[j] != c,
    decreases s.len(),
{
    if s.len() > 0 && s[0] != c {
        let rest = s.subrange(1, s.len() as int);
        lemma_idx_of(rest, c);
        assert(forall|j: int| 0 <= j < idx_of(rest, c) ==> rest[j] != c);
        assert forall|j: int| 0 <= j < idx_of(s, c) implies s[j] != c by {
            if j > 0 {
                assert(s[j] == rest[j - 1]);
            }
        }
    }
}

/// The text between the first and the second `:` of `s` (to the end when no
/// second `:` follows); `None` when `s` has no `:` at all.  This is what
/// `split(':')` yields as its second item.
pub open spec fn colon_seg1(s: Seq<char>) -> Option<Seq<char>> {
    let i = idx_of(s, ':');
    if i == s.len() {
        None
    } else {
        let rest = s.subrange(i + 1, s.len() as int);
        Some(rest.subrange(0, idx_of(rest, ':')))
    }
}

pub fn colon_segment1(s: &str) -> (r: Option<String>)
    ensures
        match r {
            Some(v) => colon_seg1(s@) == Some(v@),
            None => colon_seg1(s@) is None,
        },
{
    proof {
        lemma_idx_of(s@, ':');
    }
    let n: usize = s.unicode_len();
    match find_char(s, ':') {
        None => {
            proof {
                if idx_of(s@, ':') < s@.len() {
                    assert(s@[idx_of(s@, ':')] == ':');
                }
            }
            None
        },
        Some(i) => {
            proof {
                if idx_of(s@, ':') < i {
                    assert(s@[idx_of(s@, ':')] == ':');
                }
            }
            let rest = s.substring_char(i + 1, n);
            proof {
                lemma_idx_of(rest@, ':');
            }
            let m: usize = rest.unicode_len();
            let j: usize = match find_char(rest, ':') {
                Some(j) => {
                    proof {
                        if idx_of(rest@, ':') < j {
                            assert(rest@[idx_of(rest@, ':')] == ':');
                        }
                    }
                    j
                },
                None => {
                    proof {
                        if idx_of(rest@, ':') < rest@.len() {
                            assert(rest@[idx_of(rest@, ':')] == ':');
                        }
                    }
                    m
                },
            };
            Some(String::from_str(rest.substring_char(0, j)))
        },
    }
}

pub open spec fn is_space(c: char) -> bool {
    c == ' ' || c == '\t' || c == '\n' || c == '\r'
}

pub fn is_space_x(c: char) -> (r: bool)
    ensures
        r == is_space(c),
{
    c == ' ' || c == '\t' || c == '\n' || c == '\r'
}

/// `s` without leading whitespace.
pub open spec fn trim_start_seq(s: Seq<char>) -> Seq<char>
    decreases s.len(),
{
    if s.len() > 0 && is_space(s[0]) {
        trim_start_seq(s.subrange(1, s.len() as int))
    } else {
        s
    }
}

/// `s` without trailing whitespace.
pub open spec fn trim_end_seq(s: Seq<char>) -> Seq<char>
    decreases s.len(),
{
    if s.len() > 0 && is_space(s[s.len() - 1]) {
        trim_end_seq(s.drop_last())
    } else {
        s
    }
}

/// `s` without leading and trailing whitespace, as `str::trim` computes it
/// for ASCII text.
pub open spec fn trim_seq(s: Seq<char>) -> Seq<char> {
    trim_end_seq(trim_start_seq(s))
}

proof fn lemma_trim_start_at(s: Seq<char>, a: int)
    requires
        0 <= a <= s.len(),
        forall|j: int| 0 <= j < a ==> is_space(s[j]),
        a < s.len() ==> !is_space(s[a]),
    ensures
        trim_start_seq(s) == s.subrange(a, s.len() as int),
    decreases a,
{
    if a == 0 {
        assert(s.subrange(0, s.len() as int) =~= s);
    } else {
        let rest = s.subrange(1, s.len() as int);
        lemma_trim_start_at(rest, a - 1);
        assert(rest.subrange(a - 1, rest.len() as int) =~= s.subrange(a, s.len() as int));
    }
}

proof fn lemma_trim_end_at(s: Seq<char>, b: int)
    requires
        0 <= b <= s.len(),
        forall|j: int| b <= j < s.len() ==> is_space(s[j]),
        b > 0 ==> !is_space(s[b - 1]),
    ensures
        trim_end_seq(s) == s.subrange(0, b),
    decreases s.len() - b,
{
    if b == s.len() {
        assert(s.subrange(0, b) =~= s);
    } else {
        let d = s.drop_last();
        lemma_trim_end_at(d, b);
        assert(d.subrange(0, b) =~= s.subrange(0, b));
    }
}

pub fn trim_spaces(s: &str) -> (r: String)
    ensures
        r@ == trim_seq(s@),
{
    let n: usize = s.unicode_len();
    let mut a: usize = 0;
    while a < n && is_space_x(s.get_char(a))
        invariant
            a <= n,
            n == s@.len(),
            forall|j: int| 0 <= j < a ==> is_space(s@[j]),
        decreases n - a,
    {
        a = a + 1;
    }
    proof {
        lemma_trim_start_at(s@, a as int);
    }
    let ghost mid = s@.subrange(a as int, n as int);
    let mut b: usize = n;
    while b > a && is_space_x(s.get_char(b - 1))
        invariant
            a <= b <= n,
            n == s@.len(),
            forall|j: int| b <= j < n ==> is_space(s@[j]),
        decreases b,
    {
        b = b - 1;
    }
    proof {
        assert(forall|j: int| b - a <= j < mid.len() ==> is_space(mid[j]));
        lemma_trim_end_at(mid, b - a);
        assert(mid.subrange(0, b - a) =~= s@.subrange(a as int, b as int));
    }
    String::from_str(s.substring_char(a, b))
}

/// `s` without any leading run of the character `c`.
pub open spec fn drop_lead(s: Seq<char>, c: char) -> Seq<char>
    decreases s.len(),
{
    if s.len() > 0 && s[0] == c {
        drop_lead(s.subrange(1, s.len() as int), c)
    } else {
        s
    }
}

/// `s` without any trailing run of the character `c`.
pub open spec fn drop_trail(s: Seq<char>, c: char) -> Seq<char>
    decreases s.len(),
{
    if s.len() > 0 && s[s.len() - 1] == c {
        drop_trail(s.drop_last(), c)
    } else {
        s
    }
}

proof fn lemma_drop_lead_at(s: Seq<char>, c: char, a: int)
    requires
        0 <= a <= s.len(),
        forall|j: int| 0 <= j < a ==> s[j] == c,
        a < s.len() ==> s[a] != c,
    ensures
        drop_lead(s, c) == s.subrange(a, s.len() as int),
    decreases a,
{
    if a == 0 {
        assert(s.subrange(0, s.len() as int) =~= s);
    } else {
        let rest = s.subrange(1, s.len() as int);
        lemma_drop_lead_at(rest, c, a - 1);
        assert(rest.subrange(a - 1, rest.len() as int) =~= s.subrange(a, s.len() as int));
    }
}

proof fn lemma_drop_trail_at(s: Seq<char>, c: char, b: int)
    requires
        0 <= b <= s.len(),
        forall|j: int| b <= j < s.len() ==> s[j] == c,
        b > 0 ==> s[b - 1] != c,
    ensures
        drop_trail(s, c) == s.subrange(0, b),
    decreases s.len() - b,
{
    if b == s.len() {
        assert(s.subrange(0, b) =~= s);
    } else {
        let d = s.drop_last();
        lemma_drop_trail_at(d, c, b);
        assert(d.subrange(0, b) =~= s.subrange(0, b));
    }
}

/// `str::trim_start_matches` for a single-character pattern.
pub fn trim_lead_char(s: &str, c: char) -> (r: String)
    ensures
        r@ == drop_lead(s@, c),
{
    let n: usize = s.unicode_len();
    let mut a: usize = 0;
    while a < n && s.get_char(a) == c
        invariant
            a <= n,
            n == s@.len(),
            forall|j: int| 0 <= j < a ==> s@[j] == c,
        decreases n - a,
    {
        a = a + 1;
    }
    proof {
        lemma_drop_lead_at(s@, c, a as int);
    }
    String::from_str(s.substring_char(a, n))
}

/// `str::trim_matches` for a single-character pattern.
pub fn trim_both_char(s: &str, c: char) -> (r: String)
    ensures
        r@ == drop_trail(drop_lead(s@, c), c),
{
    let n: usize = s.unicode_len();
    let mut a: usize = 0;
    while a < n && s.get_char(a) == c
        invariant
            a <= n,
            n == s@.len(),
            forall|j: int| 0 <= j < a ==> s@[j] == c,
        decreases n - a,
    {
        a = a + 1;
    }
    proof {
        lemma_drop_lead_at(s@, c, a as int);
    }
    let ghost mid = s@.subrange(a as int, n as int);
    let mut b: usize = n;
    while b > a && s.get_char(b - 1) == c
        invariant
            a <= b <= n,
            n == s@.len(),
            forall|j: int| b <= j < n ==> s@[j] == c,
        decreases b,
    {
        b = b - 1;
    }
    proof {
        assert(forall|j: int| b - a <= j < mid.len() ==> mid[j] == c);
        lemma_drop_trail_at(mid, c, b - a);
        assert(mid.subrange(0, b - a) =~= s@.subrange(a as int, b as int));
    }
    String::from_str(s.substring_char(a, b))
}

/// `s` without any leading repetitions of the pattern `p`, as
/// `str::trim_start_matches` strips them.
pub open spec fn strip_lead(s: Seq<char>, p: Seq<char>) -> Seq<char>
    decreases s.len(),
{
    if p.len() > 0 && starts_with(s, p) {
        strip_lead(s.subrange(p.len() as int, s.len() as int), p)
    } else {
        s
    }
}

/// `s` without any trailing repetitions of the pattern `p`, as
/// `str::trim_end_matches` strips them.
pub open spec fn strip_trail(s: Seq<char>, p: Seq<char>) -> Seq<char>
    decreases s.len(),
{
    if p.len() > 0 && ends_with(s, p) {
        strip_trail(s.subrange(0, s.len() - p.len()), p)
    } else {
        s
    }
}

pub fn trim_lead_pat(s: &str, p: &str) -> (r: String)
    ensures
        r@ == strip_lead(s@, p@),
{
    let n: usize = s.unicode_len();
    let m: usize = p.unicode_len();
    if m == 0 {
        return String::from_str(s);
    }
    let mut a: usize = 0;
    proof {
        assert(s@.subrange(0, n as int) =~= s@);
    }
    while m <= n - a && a < n && eq_at(s, p, a)
        invariant
            a <= n,
            n == s@.len(),
            m == p@.len(),
            1 <= m,
            strip_lead(s@.subrange(a as int, n as int), p@) == strip_lead(s@, p@),
        decreases n - a,
    {
        let ghost t = s@.subrange(a as int, n as int);
        proof {
            assert(t.subrange(0, m as int) =~= s@.subrange(a as int, a + m as int));
            assert(t.subrange(m as int, t.len() as int) =~= s@.subrange(a + m as int, n as int));
        }
        a = a + m;
    }
    proof {
        let t = s@.subrange(a as int, n as int);
        if m <= n - a && a < n {
            assert(t.subrange(0, m as int) =~= s@.subrange(a as int, a + m as int));
            assert(!starts_with(t, p@));
        } else {
            assert(t.len() < m);
        }
        assert(strip_lead(t, p@) == t);
    }
    String::from_str(s.substring_char(a, n))
}

pub fn trim_trail_pat(s: &str, p: &str) -> (r: String)
    ensures
        r@ == strip_trail(s@, p@),
{
    let n: usize = s.unicode_len();
    let m: usize = p.unicode_len();
    if m == 0 {
        return String::from_str(s);
    }
    let mut b: usize = n;
    proof {
        assert(s@.subrange(0, n as int) =~= s@);
    }
    while m <= b && eq_at(s, p, b - m)
        invariant
            b <= n,
            n == s@.len(),
            m == p@.len(),
            1 <= m,
            strip_trail(s@.subrange(0, b as int), p@) == strip_trail(s@, p@),
        decreases b,
    {
        let ghost t = s@.subrange(0, b as int);
        proof {
            assert(t.subrange(t.len() - m, t.len() as int) =~= s@.subrange(
                b - m as int,
                b as int,
            ));
            assert(t.subrange(0, t.len() - m) =~= s@.subrange(0, b - m as int));
        }
        b = b - m;
    }
    proof {
        let t = s@.subrange(0, b as int);
        if m <= b {
            assert(t.subrange(t.len() - m, t.len() as int) =~= s@.subrange(
                b - m as int,
                b as int,
            ));
            assert(!ends_with(t, p@));
        } else {
            assert(t.len() < m);
        }
        assert(strip_trail(t, p@) == t);
    }
    String::from_str(s.substring_char(0, b))
}

pub fn str_eq(a: &str, b: &str) -> (r: bool)
    ensures
        r == (a@ == b@),
{
    let n: usize = a.unicode_len();
    let m: usize = b.unicode_len();
    if n != m {
        return false;
    }
    let r = eq_at(a, b, 0);
    proof {
        if r {
            assert(a@.subrange(0, n as int) =~= a@);
        } else {
            if a@ == b@ {
                assert(a@.subrange(0, n as int) =~= b@);
            }
        }
    }
    r
}

/// The views of a sequence of strings.
pub open spec fn views_of(v: Seq<String>) -> Seq<Seq<char>> {
    Seq::new(v.len(), |i: int| v[i]@)
}

pub fn cat(a: &str, b: &str) -> (r: String)
    ensures
        r@ == a@ + b@,
{
    let mut s = String::from_str(a);
    s.append(b);
    s
}

/// The tail elements of a space-joined list: each one preceded by a space.
pub open spec fn join_tail(xs: Seq<Seq<char>>) -> Seq<char>
    decreases xs.len(),
{
    if xs.len() == 0 {
        Seq::empty()
    } else {
        seq![' '] + xs[0] + join_tail(xs.subrange(1, xs.len() as int))
    }
}

/// The elements of `xs` joined by single spaces, as `[String]::join(" ")`.
pub open spec fn join_spaced(xs: Seq<Seq<char>>) -> Seq<char> {
    if xs.len() == 0 {
        Seq::empty()
    } else {
        xs[0] + join_tail(xs.subrange(1, xs.len() as int))
    }
}

pub fn join_spaces(xs: &Vec<String>) -> (r: String)
    ensures
        r@ == join_spaced(views_of(xs@)),
{
    let ghost vs = views_of(xs@);
    let mut out = String::new();
    if xs.len() == 0 {
        return out;
    }
    out.append(xs[0].as_str());
    let mut i: usize = 1;
    proof {
        assert(out@ =~= vs[0]);
    }
    while i < xs.len()
        invariant
            1 <= i <= xs@.len(),
            vs == views_of(xs@),
            out@ + join_tail(vs.subrange(i as int, vs.len() as int)) == join_spaced(vs),
        decreases xs@.len() - i,
    {
        let ghost prev = out@;
        out.append(" ");
        out.append(xs[i].as_str());
        proof {
            reveal_strlit(" ");
            assert(" "@ =~= seq![' ']);
            let rest = vs.subrange(i as int, vs.len() as int);
            assert(rest[0] == vs[i as int]);
            assert(rest.subrange(1, rest.len() as int) =~= vs.subrange(
                i + 1 as int,
                vs.len() as int,
            ));
            assert(out@ + join_tail(vs.subrange(i + 1 as int, vs.len() as int)) =~= prev
                + join_tail(rest));
        }
        i = i + 1;
    }
    proof {
        assert(vs.subrange(i as int, vs.len() as int).len() == 0);
        assert(out@ + Seq::<char>::empty() =~= out@);
    }
    out
}

/// A line without its trailing carriage return, as `str::lines` yields it.
pub open spec fn strip_cr(l: Seq<char>) -> Seq<char> {
    if l.len() > 0 && l[l.len() - 1] == '\r' {
        l.drop_last()
    } else {
        l
    }
}

/// The lines of `s`, split at `'\n'` with any trailing `'\r'` removed, and
/// with no empty final line after a terminating newline — the semantics of
/// `str::lines`.
pub open spec fn lines_of(s: Seq<char>) -> Seq<Seq<char>>
    decreases s.len(),
{
    if s.len() == 0 {
        Seq::empty()
    } else {
        let i = idx_of(s, '\n');
        if 0 <= i && i < s.len() {
            seq![strip_cr(s.subrange(0, i))] + lines_of(s.subrange(i + 1, s.len() as int))
        } else {
            seq![strip_cr(s)]
        }
    }
}

pub fn split_lines(s: &str) -> (r: Vec<String>)
    ensures
        views_of(r@) == lines_of(s@),
{
    let n: usize = s.unicode_len();
    let mut out: Vec<String> = Vec::new();
    let mut pos: usize = 0;
    proof {
        assert(s@.subrange(0, n as int) =~= s@);
        assert(views_of(out@) =~= Seq::<Seq<char>>::empty());
        assert(Seq::<Seq<char>>::empty() + lines_of(s@) =~= lines_of(s@));
    }
    while pos < n
        invariant
            pos <= n,
            n == s@.len(),
            views_of(out@) + lines_of(s@.subrange(pos as int, n as int)) == lines_of(s@),
        decreases n - pos,
    {
        let rest = s.substring_char(pos, n);
        proof {
            lemma_idx_of(rest@, '\n');
        }
        let m: usize = rest.unicode_len();
        let cut: usize = match find_char(rest, '\n') {
            Some(j) => {
                proof {
                    if idx_of(rest@, '\n') < j {
                        assert(rest@[idx_of(rest@, '\n')] == '\n');
                    }
                }
                j
            },
            None => {
                proof {
                    if idx_of(rest@, '\n') < rest@.len() {
                        assert(rest@[idx_of(rest@, '\n')] == '\n');
                    }
                }
                m
            },
        };
        let line: String = if cut > 0 && rest.get_char(cut - 1) == '\r' {
            String::from_str(rest.substring_char(0, cut - 1))
        } else {
            String::from_str(rest.substring_char(0, cut))
        };
        proof {
            assert(line@ == strip_cr(rest@.subrange(0, cut as int))) by {
                if cut > 0 && rest@[cut - 1] == '\r' {
                    assert(rest@.subrange(0, cut as int).drop_last() =~= rest@.subrange(
                        0,
                        cut - 1 as int,
                    ));
                }
            }
        }
        let ghost old_views = views_of(out@);
        out.push(line);
        proof {
            assert(views_of(out@) =~= old_views + seq![line@]);
            if cut < m {
                assert(rest@.subrange(cut + 1 as int, rest@.len() as int) =~= s@.subrange(
                    pos + cut + 1 as int,
                    n as int,
                ));
                assert(lines_of(rest@) == seq![strip_cr(rest@.subrange(0, cut as int))]
                    + lines_of(s@.subrange(pos + cut + 1 as int, n as int)));
            } else {
                assert(rest@.subrange(0, cut as int) =~= rest@);
                assert(lines_of(rest@) == seq![strip_cr(rest@)]);
                assert(s@.subrange(n as int, n as int) =~= Seq::<char>::empty());
            }
            assert(old_views + seq![line@] + lines_of(
                s@.subrange(
                    (if cut < m {
                        pos + cut + 1
                    } else {
                        n as int
                    }),
                    n as int,
                ),
            ) =~= old_views + lines_of(rest@));
        }
        if cut < m {
            pos = pos + cut + 1;
        } else {
            pos = n;
        }
    }
    proof {
        assert(s@.subrange(n as int, n as int) =~= Seq::<char>::empty());
        assert(views_of(out@) + Seq::<Seq<char>>::empty() =~= views_of(out@));
    }
    out
}

pub open spec fn dec_digit(d: int) -> char {
    if d == 0 {
        '0'
    } else if d == 1 {
        '1'
    } else if d == 2 {
        '2'
    } else if d == 3 {
        '3'
    } else if d == 4 {
        '4'
    } else if d == 5 {
        '5'
    } else if d == 6 {
        '6'
    } else if d == 7 {
        '7'
    } else if d == 8 {
        '8'
    } else {
        '9'
    }
}

/// The decimal digits of `n`, most significant first.
pub open spec fn dec_str(n: nat) -> Seq<char>
    decreases n,
{
    if n < 10 {
        seq![dec_digit(n as int)]
    } else {
        dec_str(n / 10).push(dec_digit((n % 10) as int))
    }
}

fn dec_digit_x(d: u64) -> (r: char)
    requires
        d < 10,
    ensures
        r == dec_digit(d as int),
{
    if d == 0 {
        '0'
    } else if d == 1 {
        '1'
    } else if d == 2 {
        '2'
    } else if d == 3 {
        '3'
    } else if d == 4 {
        '4'
    } else if d == 5 {
        '5'
    } else if d == 6 {
        '6'
    } else if d == 7 {
        '7'
    } else if d == 8 {
        '8'
    } else {
        '9'
    }
}

/// `n` written in decimal.
pub fn u64_dec(n: u64) -> (r: String)
    ensures
        r@ == dec_str(n as nat),
    decreases n,
{
    if n < 10 {
        let mut s = String::new();
        let c = dec_digit_x(n);
        push_char(&mut s, c);
        proof {
            assert(s@ =~= seq![dec_digit(n as int)]);
        }
        s
    } else {
        let mut s = u64_dec(n / 10);
        let c = dec_digit_x(n % 10);
        push_char(&mut s, c);
        s
    }
}

pub fn usize_dec(n: usize) -> (r: String)
    ensures
        r@ == dec_str(n as nat),
{
    u64_dec(n as u64)
}

} // verus!
