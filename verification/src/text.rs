//! Text handling over sequences of characters: comparing, trimming, splitting,
//! and reading and writing numbers.

use vstd::prelude::*;

verus! {

// ── Characters ───────────────────────────────────────────────────────────────

/// The characters with the Unicode property `White_Space`.
pub open spec fn is_space(c: char) -> bool {
    ||| '\u{9}' <= c <= '\u{d}'
    ||| c == ' '
    ||| c == '\u{85}'
    ||| c == '\u{a0}'
    ||| c == '\u{1680}'
    ||| '\u{2000}' <= c <= '\u{200a}'
    ||| c == '\u{2028}'
    ||| c == '\u{2029}'
    ||| c == '\u{202f}'
    ||| c == '\u{205f}'
    ||| c == '\u{3000}'
}

pub fn char_is_space(c: char) -> (r: bool)
    ensures
        r == is_space(c),
{
    ('\u{9}' <= c && c <= '\u{d}') || c == ' ' || c == '\u{85}' || c == '\u{a0}' || c == '\u{1680}'
        || ('\u{2000}' <= c && c <= '\u{200a}') || c == '\u{2028}' || c == '\u{2029}' || c
        == '\u{202f}' || c == '\u{205f}' || c == '\u{3000}'
}

pub open spec fn is_digit(c: char) -> bool {
    '0' <= c <= '9'
}

/// The value of a decimal digit.
pub open spec fn digit_value(c: char) -> nat {
    (c as int - '0' as int) as nat
}

/// The characters of `s`, in order.
pub fn chars_of(s: &str) -> (r: Vec<char>)
    ensures
        r@ == s@,
{
    let mut out: Vec<char> = Vec::new();
    for c in it: s.chars()
        invariant
            it.seq() == s@,
            out@ == s@.take(it.index()),
    {
        out.push(c);
    }
    out
}

/// Whether two texts hold the same characters.
pub fn same(a: &str, b: &str) -> (r: bool)
    ensures
        r == (a@ == b@),
{
    a.to_string() == b.to_string()
}

// ── Trimming ─────────────────────────────────────────────────────────────────

/// `s` without its leading white space.
pub open spec fn trim_start_of(s: Seq<char>) -> Seq<char>
    decreases s.len(),
{
    if s.len() > 0 && is_space(s[0]) {
        trim_start_of(s.drop_first())
    } else {
        s
    }
}

/// `s` without its trailing white space.
pub open spec fn trim_end_of(s: Seq<char>) -> Seq<char>
    decreases s.len(),
{
    if s.len() > 0 && is_space(s.last()) {
        trim_end_of(s.drop_last())
    } else {
        s
    }
}

/// `s` without the white space around it.
pub open spec fn trimmed(s: Seq<char>) -> Seq<char> {
    trim_end_of(trim_start_of(s))
}

/// `s` without the run of `c` at its end.
pub open spec fn trim_end_char_of(s: Seq<char>, c: char) -> Seq<char>
    decreases s.len(),
{
    if s.len() > 0 && s.last() == c {
        trim_end_char_of(s.drop_last(), c)
    } else {
        s
    }
}

pub fn trim_start(s: &str) -> (r: &str)
    ensures
        r@ == trim_start_of(s@),
{
    let cs: Vec<char> = chars_of(s);
    let n: usize = cs.len();
    let mut lo: usize = 0;
    assert(s@.skip(0) == s@);
    while lo < n && char_is_space(cs[lo])
        invariant
            lo <= n == s@.len(),
            cs@ == s@,
            trim_start_of(s@.skip(lo as int)) == trim_start_of(s@),
        decreases n - lo,
    {
        assert(s@.skip(lo as int).drop_first() == s@.skip(lo + 1));
        lo = lo + 1;
    }
    assert(s@.subrange(lo as int, n as int) == s@.skip(lo as int));
    s.substring_char(lo, n)
}

/// The text without the white space around it.
pub fn trim(s: &str) -> (r: &str)
    ensures
        r@ == trimmed(s@),
{
    let t: &str = trim_start(s);
    let cs: Vec<char> = chars_of(t);
    let mut hi: usize = cs.len();
    assert(t@.take(hi as int) == t@);
    while hi > 0 && char_is_space(cs[hi - 1])
        invariant
            hi <= t@.len(),
            cs@ == t@,
            trim_end_of(t@.take(hi as int)) == trim_end_of(t@),
        decreases hi,
    {
        assert(t@.take(hi as int).drop_last() == t@.take(hi - 1));
        hi = hi - 1;
    }
    assert(t@.subrange(0, hi as int) == t@.take(hi as int));
    t.substring_char(0, hi)
}

/// The text without the run of `c` at its end.
pub fn trim_end_char(s: &str, c: char) -> (r: &str)
    ensures
        r@ == trim_end_char_of(s@, c),
{
    let cs: Vec<char> = chars_of(s);
    let mut hi: usize = cs.len();
    assert(s@.take(hi as int) == s@);
    while hi > 0 && cs[hi - 1] == c
        invariant
            hi <= s@.len(),
            cs@ == s@,
            trim_end_char_of(s@.take(hi as int), c) == trim_end_char_of(s@, c),
        decreases hi,
    {
        assert(s@.take(hi as int).drop_last() == s@.take(hi - 1));
        hi = hi - 1;
    }
    assert(s@.subrange(0, hi as int) == s@.take(hi as int));
    s.substring_char(0, hi)
}

// ── Splitting ────────────────────────────────────────────────────────────────

/// The index of the first `c` in `s`, or the length of `s` where it holds none.
pub open spec fn first_at(s: Seq<char>, c: char) -> nat
    decreases s.len(),
{
    if s.len() == 0 || s[0] == c {
        0
    } else {
        1 + first_at(s.drop_first(), c)
    }
}

/// The index of the last `c` in `s`, or -1 where it holds none.
pub open spec fn last_at(s: Seq<char>, c: char) -> int
    decreases s.len(),
{
    if s.len() == 0 {
        -1
    } else if s.last() == c {
        s.len() - 1
    } else {
        last_at(s.drop_last(), c)
    }
}

/// What lies before and after the first `c` in `s`.
pub open spec fn split_first_of(s: Seq<char>, c: char) -> Option<(Seq<char>, Seq<char>)> {
    let i = first_at(s, c) as int;
    if i < s.len() {
        Some((s.take(i), s.skip(i + 1)))
    } else {
        None
    }
}

/// What lies before and after the last `c` in `s`.
pub open spec fn split_last_of(s: Seq<char>, c: char) -> Option<(Seq<char>, Seq<char>)> {
    let i = last_at(s, c);
    if i >= 0 {
        Some((s.take(i), s.skip(i + 1)))
    } else {
        None
    }
}

/// `first_at` is the first index that holds `c`.
pub proof fn lemma_first_at(s: Seq<char>, c: char)
    ensures
        first_at(s, c) <= s.len(),
        first_at(s, c) < s.len() ==> s[first_at(s, c) as int] == c,
        forall|j: int| 0 <= j < first_at(s, c) ==> s[j] != c,
    decreases s.len(),
{
    if s.len() > 0 && s[0] != c {
        let t = s.drop_first();
        lemma_first_at(t, c);
        assert forall|j: int| 0 <= j < first_at(s, c) implies s[j] != c by {
            if j > 0 {
                assert(t[j - 1] != c);
            }
        }
    }
}

/// `last_at` is the last index that holds `c`.
pub proof fn lemma_last_at(s: Seq<char>, c: char)
    ensures
        -1 <= last_at(s, c) < s.len(),
        last_at(s, c) >= 0 ==> s[last_at(s, c)] == c,
        forall|j: int| last_at(s, c) < j < s.len() ==> s[j] != c,
    decreases s.len(),
{
    if s.len() > 0 && s.last() != c {
        let t = s.drop_last();
        lemma_last_at(t, c);
        assert forall|j: int| last_at(s, c) < j < s.len() implies s[j] != c by {
            if j < s.len() - 1 {
                assert(t[j] != c);
            }
        }
    }
}

/// Splits at the first `c`.
pub fn split_first<'a>(s: &'a str, c: char) -> (r: Option<(&'a str, &'a str)>)
    ensures
        (match r {
            Some((a, b)) => split_first_of(s@, c) == Some((a@, b@)),
            None => split_first_of(s@, c) is None,
        }),
{
    let cs: Vec<char> = chars_of(s);
    let n: usize = cs.len();
    let mut i: usize = 0;
    while i < n && cs[i] != c
        invariant
            i <= n == s@.len(),
            cs@ == s@,
            forall|j: int| 0 <= j < i ==> s@[j] != c,
        decreases n - i,
    {
        i = i + 1;
    }
    proof {
        lemma_first_at(s@, c);
        if first_at(s@, c) < i {
            assert(s@[first_at(s@, c) as int] != c);
        }
        if i < n && i < first_at(s@, c) {
            assert(s@[i as int] != c);
        }
    }
    if i < n {
        assert(s@.subrange(0, i as int) == s@.take(i as int));
        assert(s@.subrange(i + 1, n as int) == s@.skip(i + 1));
        Some((s.substring_char(0, i), s.substring_char(i + 1, n)))
    } else {
        None
    }
}

/// Splits at the last `c`.
pub fn split_last<'a>(s: &'a str, c: char) -> (r: Option<(&'a str, &'a str)>)
    ensures
        (match r {
            Some((a, b)) => split_last_of(s@, c) == Some((a@, b@)),
            None => split_last_of(s@, c) is None,
        }),
{
    let cs: Vec<char> = chars_of(s);
    let n: usize = cs.len();
    let mut i: usize = n;
    while i > 0 && cs[i - 1] != c
        invariant
            i <= n == s@.len(),
            cs@ == s@,
            forall|j: int| i <= j < n ==> s@[j] != c,
        decreases i,
    {
        i = i - 1;
    }
    proof {
        lemma_last_at(s@, c);
        if last_at(s@, c) >= i {
            assert(s@[last_at(s@, c)] != c);
        }
        if i > 0 && last_at(s@, c) < i - 1 {
            assert(s@[i - 1] != c);
        }
    }
    if i > 0 {
        assert(s@.subrange(0, i - 1) == s@.take(i - 1));
        assert(s@.subrange(i as int, n as int) == s@.skip(i as int));
        Some((s.substring_char(0, i - 1), s.substring_char(i, n)))
    } else {
        None
    }
}

/// The characters of each text.
pub open spec fn texts(v: Seq<&str>) -> Seq<Seq<char>> {
    v.map_values(|t: &str| t@)
}

/// `s` without one carriage return at its end.
pub open spec fn strip_return(s: Seq<char>) -> Seq<char> {
    if s.len() > 0 && s.last() == '\r' {
        s.drop_last()
    } else {
        s
    }
}

/// The lines of `s`. A line ends at a line feed, or at a carriage return with a
/// line feed behind it; the end of the last line is optional.
pub open spec fn lines_of(s: Seq<char>) -> Seq<Seq<char>>
    decreases s.len(),
    via lines_of_decreases
{
    if s.len() == 0 {
        Seq::empty()
    } else {
        match split_first_of(s, '\n') {
            Some((a, b)) => seq![strip_return(a)] + lines_of(b),
            None => seq![s],
        }
    }
}

#[via_fn]
proof fn lines_of_decreases(s: Seq<char>) {
    lemma_first_at(s, '\n');
}

fn without_return(s: &str) -> (r: &str)
    ensures
        r@ == strip_return(s@),
{
    let cs: Vec<char> = chars_of(s);
    let n: usize = cs.len();
    if n > 0 && cs[n - 1] == '\r' {
        assert(s@.subrange(0, n - 1) == s@.drop_last());
        s.substring_char(0, n - 1)
    } else {
        s
    }
}

/// The lines of a text.
pub fn lines<'a>(s: &'a str) -> (r: Vec<&'a str>)
    ensures
        texts(r@) == lines_of(s@),
{
    let mut out: Vec<&'a str> = Vec::new();
    let mut rest: &'a str = s;
    let mut done: bool = s.is_empty();
    assert(texts(out@) + lines_of(s@) == lines_of(s@));
    while !done
        invariant
            done ==> texts(out@) == lines_of(s@),
            !done ==> rest@.len() > 0,
            !done ==> texts(out@) + lines_of(rest@) == lines_of(s@),
        decreases
            (if done {
                0
            } else {
                1 + rest@.len()
            }),
    {
        let ghost before = out@;
        proof {
            lemma_first_at(rest@, '\n');
        }
        match split_first(rest, '\n') {
            Some((a, b)) => {
                let line: &'a str = without_return(a);
                out.push(line);
                assert(texts(out@) == texts(before).push(line@));
                assert(texts(out@) + lines_of(b@) == texts(before) + (seq![line@] + lines_of(b@)));
                rest = b;
                done = b.is_empty();
                proof {
                    lemma_first_at(b@, '\n');
                    if b@.len() == 0 {
                        assert(texts(out@) + lines_of(b@) == texts(out@));
                    }
                }
            },
            None => {
                out.push(rest);
                assert(texts(out@) == texts(before) + seq![rest@]);
                done = true;
            },
        }
    }
    out
}

/// The number of characters in front of the first white space in `s`.
pub open spec fn word_len(s: Seq<char>) -> nat
    decreases s.len(),
{
    if s.len() == 0 || is_space(s[0]) {
        0
    } else {
        1 + word_len(s.drop_first())
    }
}

proof fn lemma_word_len(s: Seq<char>)
    ensures
        word_len(s) <= s.len(),
        word_len(s) < s.len() ==> is_space(s[word_len(s) as int]),
        forall|j: int| 0 <= j < word_len(s) ==> !is_space(s[j]),
    decreases s.len(),
{
    if s.len() > 0 && !is_space(s[0]) {
        let t = s.drop_first();
        lemma_word_len(t);
        assert forall|j: int| 0 <= j < word_len(s) implies !is_space(s[j]) by {
            if j > 0 {
                assert(!is_space(t[j - 1]));
            }
        }
    }
}

proof fn lemma_trim_start(s: Seq<char>)
    ensures
        trim_start_of(s).len() <= s.len(),
        trim_start_of(s).len() > 0 ==> !is_space(trim_start_of(s)[0]),
    decreases s.len(),
{
    if s.len() > 0 && is_space(s[0]) {
        lemma_trim_start(s.drop_first());
    }
}

/// The longest runs of characters of `s` that hold no white space, in order.
pub open spec fn words_of(s: Seq<char>) -> Seq<Seq<char>>
    decreases s.len(),
    via words_of_decreases
{
    let t = trim_start_of(s);
    if t.len() == 0 {
        Seq::empty()
    } else {
        let n = word_len(t) as int;
        seq![t.take(n)] + words_of(t.skip(n))
    }
}

#[via_fn]
proof fn words_of_decreases(s: Seq<char>) {
    lemma_trim_start(s);
    lemma_word_len(trim_start_of(s));
}

/// The words of a text.
pub fn words<'a>(s: &'a str) -> (r: Vec<&'a str>)
    ensures
        texts(r@) == words_of(s@),
{
    let mut out: Vec<&'a str> = Vec::new();
    let mut rest: &'a str = trim_start(s);
    proof {
        lemma_trim_start(s@);
        assert(trim_start_of(rest@) == rest@);
        assert(texts(out@) + words_of(rest@) == words_of(s@));
    }
    while !rest.is_empty()
        invariant
            trim_start_of(rest@) == rest@,
            texts(out@) + words_of(rest@) == words_of(s@),
        decreases rest@.len(),
    {
        let ghost before = out@;
        let cs: Vec<char> = chars_of(rest);
        let n: usize = cs.len();
        let mut i: usize = 0;
        while i < n && !char_is_space(cs[i])
            invariant
                i <= n == rest@.len(),
                cs@ == rest@,
                forall|j: int| 0 <= j < i ==> !is_space(rest@[j]),
            decreases n - i,
        {
            i = i + 1;
        }
        proof {
            lemma_trim_start(rest@);
            lemma_word_len(rest@);
            if word_len(rest@) < i {
                assert(!is_space(rest@[word_len(rest@) as int]));
            }
            if i < n && i < word_len(rest@) {
                assert(!is_space(rest@[i as int]));
            }
        }
        assert(i == word_len(rest@) && i > 0);
        assert(rest@.subrange(0, i as int) == rest@.take(i as int));
        assert(rest@.subrange(i as int, n as int) == rest@.skip(i as int));
        let word: &'a str = rest.substring_char(0, i);
        let tail: &'a str = rest.substring_char(i, n);
        out.push(word);
        let next: &'a str = trim_start(tail);
        proof {
            lemma_trim_start(tail@);
            assert(trim_start_of(next@) == next@);
            assert(words_of(next@) == words_of(tail@));
            assert(texts(out@) == texts(before).push(word@));
            assert(texts(out@) + words_of(next@) == texts(before) + (seq![word@] + words_of(
                tail@,
            )));
        }
        rest = next;
    }
    proof {
        assert(words_of(rest@) == Seq::<Seq<char>>::empty());
        assert(texts(out@) + words_of(rest@) == texts(out@));
    }
    out
}

// ── Searching ────────────────────────────────────────────────────────────────

/// Whether `s` begins with `p`.
pub open spec fn begins_with(s: Seq<char>, p: Seq<char>) -> bool {
    p.len() <= s.len() && s.take(p.len() as int) == p
}

/// Whether `p` stands somewhere in `s`.
pub open spec fn holds(s: Seq<char>, p: Seq<char>) -> bool {
    exists|i: int| 0 <= i <= s.len() && begins_with(#[trigger] s.skip(i), p)
}

pub fn starts_with(s: &str, p: &str) -> (r: bool)
    ensures
        r == begins_with(s@, p@),
{
    let n: usize = p.unicode_len();
    if n <= s.unicode_len() {
        assert(s@.subrange(0, n as int) == s@.take(n as int));
        same(s.substring_char(0, n), p)
    } else {
        false
    }
}

pub fn contains(s: &str, p: &str) -> (r: bool)
    ensures
        r == holds(s@, p@),
{
    let n: usize = s.unicode_len();
    let mut i: usize = 0;
    loop
        invariant
            i <= n == s@.len(),
            forall|j: int| 0 <= j < i ==> !begins_with(#[trigger] s@.skip(j), p@),
        decreases n - i,
    {
        assert(s@.subrange(i as int, n as int) == s@.skip(i as int));
        if starts_with(s.substring_char(i, n), p) {
            return true;
        }
        if i == n {
            return false;
        }
        i = i + 1;
    }
}

/// `c` with an ASCII capital made small.
pub open spec fn ascii_lower(c: char) -> char {
    if 'A' <= c <= 'Z' {
        (c as int + 32) as char
    } else {
        c
    }
}

/// Whether two texts are equal but for the case of ASCII letters.
pub open spec fn same_but_case(a: Seq<char>, b: Seq<char>) -> bool {
    a.map_values(|c: char| ascii_lower(c)) == b.map_values(|c: char| ascii_lower(c))
}

fn lower(c: char) -> (r: char)
    ensures
        r == ascii_lower(c),
{
    if 'A' <= c && c <= 'Z' {
        let b: u8 = c as u8;
        (b + 32) as char
    } else {
        c
    }
}

pub fn eq_ignore_ascii_case(a: &str, b: &str) -> (r: bool)
    ensures
        r == same_but_case(a@, b@),
{
    let x: Vec<char> = chars_of(a);
    let y: Vec<char> = chars_of(b);
    let ghost u = a@.map_values(|c: char| ascii_lower(c));
    let ghost v = b@.map_values(|c: char| ascii_lower(c));
    if x.len() != y.len() {
        assert(u.len() != v.len());
        return false;
    }
    let mut i: usize = 0;
    while i < x.len()
        invariant
            x@ == a@,
            y@ == b@,
            x@.len() == y@.len(),
            i <= x@.len(),
            u == a@.map_values(|c: char| ascii_lower(c)),
            v == b@.map_values(|c: char| ascii_lower(c)),
            forall|j: int| 0 <= j < i ==> u[j] == v[j],
        decreases x@.len() - i,
    {
        if lower(x[i]) != lower(y[i]) {
            assert(u[i as int] != v[i as int]);
            return false;
        }
        i = i + 1;
    }
    assert(u =~= v);
    true
}

// ── Reading numbers ──────────────────────────────────────────────────────────

/// The number that decimal digits write.
pub open spec fn number_of(s: Seq<char>) -> nat
    decreases s.len(),
{
    if s.len() == 0 {
        0
    } else {
        number_of(s.drop_last()) * 10 + digit_value(s.last())
    }
}

/// `s` without a plus sign at its head.
pub open spec fn without_plus(s: Seq<char>) -> Seq<char> {
    if s.len() > 0 && s[0] == '+' {
        s.drop_first()
    } else {
        s
    }
}

pub open spec fn all_digits(s: Seq<char>) -> bool {
    forall|i: int| 0 <= i < s.len() ==> is_digit(#[trigger] s[i])
}

/// The number in `s`, where `s` is one or more decimal digits, with or without
/// a plus sign in front, and the number is at most `max`.
pub open spec fn parsed(s: Seq<char>, max: nat) -> Option<nat> {
    let t = without_plus(s);
    if t.len() > 0 && all_digits(t) && number_of(t) <= max {
        Some(number_of(t))
    } else {
        None
    }
}

proof fn lemma_number_grows(s: Seq<char>, i: int)
    requires
        0 <= i <= s.len(),
    ensures
        number_of(s.take(i)) <= number_of(s),
    decreases s.len(),
{
    if i < s.len() {
        assert(s.drop_last().take(i) == s.take(i));
        lemma_number_grows(s.drop_last(), i);
    } else {
        assert(s.take(i) == s);
    }
}

/// Reads a number of at most `max`.
pub fn parse_up_to(s: &str, max: u32) -> (r: Option<u32>)
    ensures
        (match r {
            Some(n) => parsed(s@, max as nat) == Some(n as nat),
            None => parsed(s@, max as nat) is None,
        }),
{
    let cs: Vec<char> = chars_of(s);
    let n: usize = cs.len();
    let start: usize = if n > 0 && cs[0] == '+' {
        1
    } else {
        0
    };
    let ghost t = without_plus(s@);
    assert(t == s@.skip(start as int));
    if start == n {
        return None;
    }
    let mut i: usize = start;
    let mut acc: u32 = 0;
    assert(t.take(0) == Seq::<char>::empty());
    while i < n
        invariant
            start <= i <= n == s@.len(),
            cs@ == s@,
            t == without_plus(s@),
            t == s@.skip(start as int),
            t.len() > 0,
            acc == number_of(t.take(i - start)),
            acc <= max,
            forall|j: int| 0 <= j < i - start ==> is_digit(#[trigger] t[j]),
        decreases n - i,
    {
        let c: char = cs[i];
        let ghost k = i - start;
        assert(t[k] == c);
        assert(t.take(k + 1).drop_last() == t.take(k));
        if !('0' <= c && c <= '9') {
            assert(!is_digit(t[k]));
            return None;
        }
        let d: u32 = c as u32 - '0' as u32;
        assert(number_of(t.take(k + 1)) == acc * 10 + d);
        if d > max || acc > (max - d) / 10 {
            proof {
                lemma_number_grows(t, k + 1);
                assert(acc * 10 + d > max);
            }
            return None;
        }
        acc = acc * 10 + d;
        i = i + 1;
    }
    assert(t.take(n - start) == t);
    Some(acc)
}

// ── Writing numbers ──────────────────────────────────────────────────────────

/// The digit that writes `d`, for `d` below sixteen; letters are small.
pub open spec fn digit_char(d: nat) -> char {
    if d < 10 {
        (d + 48) as char
    } else {
        (d + 87) as char
    }
}

/// `n` in decimal, without leading zeros.
pub open spec fn decimal(n: nat) -> Seq<char>
    decreases n,
{
    if n < 10 {
        seq![digit_char(n)]
    } else {
        decimal(n / 10).push(digit_char(n % 10))
    }
}

/// `n` in decimal, with a zero in front of a single digit.
pub open spec fn two_digits(n: nat) -> Seq<char> {
    if n < 10 {
        seq!['0', digit_char(n)]
    } else {
        decimal(n)
    }
}

/// The last `width` hexadecimal digits of `n`, with zeros in front where `n` has
/// fewer.
pub open spec fn hex_digits(n: nat, width: nat) -> Seq<char>
    decreases width,
{
    if width == 0 {
        Seq::empty()
    } else {
        hex_digits(n / 16, (width - 1) as nat).push(digit_char(n % 16))
    }
}

fn digit_text(d: u64) -> (r: &'static str)
    requires
        d < 16,
    ensures
        r@ == seq![digit_char(d as nat)],
{
    proof {
        reveal_strlit("0");
        reveal_strlit("1");
        reveal_strlit("2");
        reveal_strlit("3");
        reveal_strlit("4");
        reveal_strlit("5");
        reveal_strlit("6");
        reveal_strlit("7");
        reveal_strlit("8");
        reveal_strlit("9");
        reveal_strlit("a");
        reveal_strlit("b");
        reveal_strlit("c");
        reveal_strlit("d");
        reveal_strlit("e");
        reveal_strlit("f");
    }
    let r: &'static str = match d {
        0 => "0",
        1 => "1",
        2 => "2",
        3 => "3",
        4 => "4",
        5 => "5",
        6 => "6",
        7 => "7",
        8 => "8",
        9 => "9",
        10 => "a",
        11 => "b",
        12 => "c",
        13 => "d",
        14 => "e",
        _ => "f",
    };
    assert(r@ =~= seq![digit_char(d as nat)]);
    r
}

/// Writes `n` in decimal behind `out`.
pub fn push_decimal(out: &mut String, n: u64)
    ensures
        final(out)@ == old(out)@ + decimal(n as nat),
    decreases n,
{
    if n >= 10 {
        push_decimal(out, n / 10);
    }
    out.append(digit_text(n % 10));
    assert(out@ =~= old(out)@ + decimal(n as nat));
}

/// Writes `n` in decimal behind `out`, with a zero in front of a single digit.
pub fn push_two_digits(out: &mut String, n: u64)
    ensures
        final(out)@ == old(out)@ + two_digits(n as nat),
{
    if n < 10 {
        out.append(digit_text(0));
        out.append(digit_text(n));
        assert(out@ =~= old(out)@ + two_digits(n as nat));
    } else {
        push_decimal(out, n);
    }
}

/// Writes the last `width` hexadecimal digits of `n` behind `out`.
pub fn push_hex(out: &mut String, n: u64, width: u64)
    ensures
        final(out)@ == old(out)@ + hex_digits(n as nat, width as nat),
    decreases width,
{
    if width > 0 {
        push_hex(out, n / 16, width - 1);
        out.append(digit_text(n % 16));
    }
    assert(out@ =~= old(out)@ + hex_digits(n as nat, width as nat));
}

// ── Laws ─────────────────────────────────────────────────────────────────────

/// White space is these characters and no others.
pub proof fn law_white_space(c: char)
    ensures
        is_space(c) <==> "\u{9}\u{a}\u{b}\u{c}\u{d} \u{85}\u{a0}\u{1680}\u{2000}\u{2001}\u{2002}\u{2003}\u{2004}\u{2005}\u{2006}\u{2007}\u{2008}\u{2009}\u{200a}\u{2028}\u{2029}\u{202f}\u{205f}\u{3000}"@.contains(
            c,
        ),
{
    reveal_strlit("\u{9}\u{a}\u{b}\u{c}\u{d} \u{85}\u{a0}\u{1680}\u{2000}\u{2001}\u{2002}\u{2003}\u{2004}\u{2005}\u{2006}\u{2007}\u{2008}\u{2009}\u{200a}\u{2028}\u{2029}\u{202f}\u{205f}\u{3000}");
    let all = "\u{9}\u{a}\u{b}\u{c}\u{d} \u{85}\u{a0}\u{1680}\u{2000}\u{2001}\u{2002}\u{2003}\u{2004}\u{2005}\u{2006}\u{2007}\u{2008}\u{2009}\u{200a}\u{2028}\u{2029}\u{202f}\u{205f}\u{3000}"@;
    assert(all.len() == 25);
    if is_space(c) {
        let i: int = if c as int <= 13 {
            c as int - 9
        } else if c == ' ' {
            5
        } else if c == '\u{85}' {
            6
        } else if c == '\u{a0}' {
            7
        } else if c == '\u{1680}' {
            8
        } else if c as int <= 0x200a {
            9 + (c as int - 0x2000)
        } else if c == '\u{2028}' {
            20
        } else if c == '\u{2029}' {
            21
        } else if c == '\u{202f}' {
            22
        } else if c == '\u{205f}' {
            23
        } else {
            24
        };
        assert(0 <= i < 25);
        assert(all[i] == c);
    }
}

/// Only white space.
pub open spec fn blank(s: Seq<char>) -> bool {
    forall|i: int| 0 <= i < s.len() ==> is_space(#[trigger] s[i])
}

/// A text that neither begins nor ends with white space.
pub open spec fn tight(s: Seq<char>) -> bool {
    s.len() > 0 ==> !is_space(s[0]) && !is_space(s.last())
}

proof fn lemma_trim_start_off(a: Seq<char>, s: Seq<char>)
    requires
        blank(a),
        s.len() > 0 ==> !is_space(s[0]),
    ensures
        trim_start_of(a + s) == s,
    decreases a.len(),
{
    if a.len() > 0 {
        assert((a + s)[0] == a[0]);
        assert((a + s).drop_first() =~= a.drop_first() + s);
        lemma_trim_start_off(a.drop_first(), s);
    } else {
        assert(a + s =~= s);
    }
}

proof fn lemma_trim_end_off(s: Seq<char>, b: Seq<char>)
    requires
        blank(b),
        s.len() > 0 ==> !is_space(s.last()),
    ensures
        trim_end_of(s + b) == s,
    decreases b.len(),
{
    if b.len() > 0 {
        assert((s + b).last() == b.last());
        assert((s + b).drop_last() =~= s + b.drop_last());
        lemma_trim_end_off(s, b.drop_last());
    } else {
        assert(s + b =~= s);
    }
}

/// Trimming takes away the white space on both sides of a text and nothing of the
/// text itself, and of white space alone nothing is left.
pub proof fn law_trimming(a: Seq<char>, s: Seq<char>, b: Seq<char>)
    requires
        blank(a),
        tight(s),
        blank(b),
    ensures
        trimmed(a + s + b) == s,
        trim_start_of(a + s) == s,
{
    lemma_trim_start_off(a, s);
    if s.len() > 0 {
        assert((s + b)[0] == s[0]);
        lemma_trim_start_off(a, s + b);
        assert(a + s + b =~= a + (s + b));
        lemma_trim_end_off(s, b);
    } else {
        assert(a + s + b =~= (a + b) + s);
        lemma_trim_start_off(a + b, s);
        assert(trim_end_of(s) == s);
    }
}

/// Trimming off a character takes away its run at the end, however long, and nothing
/// in front of it.
pub proof fn law_trimming_off_a_character(s: Seq<char>, c: char, n: nat)
    requires
        s.len() > 0 ==> s.last() != c,
    ensures
        trim_end_char_of(s + Seq::new(n, |i: int| c), c) == s,
    decreases n,
{
    let run = Seq::new(n, |i: int| c);
    if n > 0 {
        let rest = (n - 1) as nat;
        law_trimming_off_a_character(s, c, rest);
        assert((s + run).last() == c);
        assert((s + run).drop_last() =~= s + Seq::new(rest, |i: int| c));
    } else {
        assert(s + run =~= s);
    }
}

/// Splitting at the first of a character gives what was joined there, wherever the
/// first part holds none of it; a text without it cannot be split.
pub proof fn law_split_first(a: Seq<char>, c: char, b: Seq<char>)
    requires
        !a.contains(c),
    ensures
        split_first_of(a + seq![c] + b, c) == Some((a, b)),
        split_first_of(a, c) is None,
{
    let s = a + seq![c] + b;
    lemma_first_at(s, c);
    lemma_first_at(a, c);
    let i = first_at(s, c) as int;
    assert(s[a.len() as int] == c);
    if i < a.len() {
        assert(a[i] == c);
    }
    if first_at(a, c) < a.len() {
        assert(a[first_at(a, c) as int] == c);
    }
    assert(s.take(i) =~= a);
    assert(s.skip(i + 1) =~= b);
}

/// Splitting at the last of a character gives what was joined there, wherever the last
/// part holds none of it; a text without it cannot be split.
pub proof fn law_split_last(a: Seq<char>, c: char, b: Seq<char>)
    requires
        !b.contains(c),
    ensures
        split_last_of(a + seq![c] + b, c) == Some((a, b)),
        split_last_of(b, c) is None,
{
    let s = a + seq![c] + b;
    lemma_last_at(s, c);
    lemma_last_at(b, c);
    let i = last_at(s, c);
    assert(s[a.len() as int] == c);
    if i > a.len() {
        assert(b[i - a.len() - 1] == c);
    }
    if i < a.len() {
        assert(s[a.len() as int] != c);
    }
    if last_at(b, c) >= 0 {
        assert(b[last_at(b, c)] == c);
    }
    assert(s.take(i) =~= a);
    assert(s.skip(i + 1) =~= b);
}

/// Lines are what stands between line feeds, each without the carriage return that may
/// stand at its end. A text that holds none is one line, and an empty one has none.
pub proof fn law_lines(line: Seq<char>, rest: Seq<char>)
    requires
        !line.contains('\n'),
    ensures
        line.len() == 0 || line.last() != '\r' ==> lines_of(line + seq!['\n'] + rest) == seq![line]
            + lines_of(rest),
        lines_of(line + seq!['\r', '\n'] + rest) == seq![line] + lines_of(rest),
        line.len() > 0 ==> lines_of(line) == seq![line],
        lines_of(Seq::empty()) == Seq::<Seq<char>>::empty(),
{
    law_split_first(line, '\n', rest);
    let with_return = line.push('\r');
    assert(!with_return.contains('\n')) by {
        if with_return.contains('\n') {
            let i = choose|i: int| 0 <= i < with_return.len() && with_return[i] == '\n';
            assert(line[i] == '\n');
        }
    }
    law_split_first(with_return, '\n', rest);
    assert(line + seq!['\r', '\n'] + rest =~= with_return + seq!['\n'] + rest);
    assert(with_return.drop_last() =~= line);
}

proof fn lemma_word_at_head(word: Seq<char>, rest: Seq<char>)
    requires
        forall|i: int| 0 <= i < word.len() ==> !is_space(#[trigger] word[i]),
        rest.len() > 0 ==> is_space(rest[0]),
    ensures
        word_len(word + rest) == word.len(),
{
    let s = word + rest;
    lemma_word_len(s);
    let n = word_len(s) as int;
    if n < word.len() {
        assert(s[n] == word[n]);
    }
    if n > word.len() {
        assert(s[word.len() as int] == rest[0]);
    }
}

proof fn lemma_words_behind_space(s: Seq<char>)
    requires
        s.len() > 0,
        is_space(s[0]),
    ensures
        words_of(s) == words_of(s.drop_first()),
{
    assert(trim_start_of(s) == trim_start_of(s.drop_first()));
}

/// Words are the runs of characters between white space, in their order: whatever white
/// space stands in front, the next run is the first word, and the words of what lies
/// behind it follow. White space alone has no words.
pub proof fn law_words(space: Seq<char>, word: Seq<char>, c: char, rest: Seq<char>)
    requires
        blank(space),
        word.len() > 0,
        forall|i: int| 0 <= i < word.len() ==> !is_space(#[trigger] word[i]),
        is_space(c),
    ensures
        words_of(space + word + seq![c] + rest) == seq![word] + words_of(rest),
        words_of(space + word) == seq![word],
        words_of(space) == Seq::<Seq<char>>::empty(),
{
    let none = Seq::<char>::empty();
    let tail = seq![c] + rest;
    lemma_trim_start_off(space, none);
    assert(space + none =~= space);
    assert(words_of(space) == Seq::<Seq<char>>::empty());
    assert(words_of(none) == Seq::<Seq<char>>::empty()) by {
        assert(trim_start_of(none) == none);
    }
    lemma_word_at_head(word, none);
    assert(word + none =~= word);
    lemma_trim_start_off(space, word);
    assert(word.take(word.len() as int) =~= word);
    assert(word.skip(word.len() as int) =~= none);
    assert(words_of(space + word) == seq![word] + words_of(none));
    assert(seq![word] + words_of(none) =~= seq![word]);
    lemma_word_at_head(word, tail);
    assert((word + tail)[0] == word[0]);
    lemma_trim_start_off(space, word + tail);
    assert(space + word + seq![c] + rest =~= space + (word + tail));
    assert((word + tail).take(word.len() as int) =~= word);
    assert((word + tail).skip(word.len() as int) =~= tail);
    lemma_words_behind_space(tail);
    assert(tail.drop_first() =~= rest);
}

/// A text begins with another where that other, with something behind it, makes it up,
/// and holds it where it does with something in front too.
pub proof fn law_searching(a: Seq<char>, p: Seq<char>, b: Seq<char>, s: Seq<char>)
    ensures
        begins_with(p + b, p),
        begins_with(s, p) ==> s == p + s.skip(p.len() as int),
        holds(a + p + b, p),
        holds(s, p) ==> exists|i: int|
            0 <= i <= s.len() && s == #[trigger] s.take(i) + p + s.skip(i + p.len()),
{
    assert((p + b).take(p.len() as int) =~= p);
    if begins_with(s, p) {
        assert(s =~= s.take(p.len() as int) + s.skip(p.len() as int));
    }
    let whole = a + p + b;
    assert(whole.skip(a.len() as int) =~= p + b);
    assert(begins_with(whole.skip(a.len() as int), p));
    if holds(s, p) {
        let i = choose|i: int| 0 <= i <= s.len() && begins_with(#[trigger] s.skip(i), p);
        let t = s.skip(i);
        assert(t =~= p + t.skip(p.len() as int));
        assert(t.skip(p.len() as int) =~= s.skip(i + p.len()));
        assert(s =~= s.take(i) + p + s.skip(i + p.len()));
    }
}

/// The same letter, once as an ASCII capital and once as a small one.
pub open spec fn other_case(a: char, b: char) -> bool {
    'A' <= a <= 'Z' && b as int == a as int + 32
}

/// Texts are equal but for case where they are as long as each other and each place
/// holds the same character, or the same letter once as an ASCII capital and once as a
/// small one.
pub proof fn law_same_but_case(a: Seq<char>, b: Seq<char>)
    ensures
        same_but_case(a, b) <==> a.len() == b.len() && forall|i: int|
            0 <= i < a.len() ==> a[i] == #[trigger] b[i] || other_case(a[i], b[i]) || other_case(
                b[i],
                a[i],
            ),
{
    let f = |c: char| ascii_lower(c);
    let x = a.map_values(f);
    let y = b.map_values(f);
    if x == y {
        assert(a.len() == x.len() && b.len() == y.len());
        assert forall|i: int| 0 <= i < a.len() implies a[i] == #[trigger] b[i] || other_case(
            a[i],
            b[i],
        ) || other_case(b[i], a[i]) by {
            assert(x[i] == y[i]);
            lemma_same_letter(a[i], b[i]);
        }
    }
    if a.len() == b.len() && (forall|i: int|
        0 <= i < a.len() ==> a[i] == #[trigger] b[i] || other_case(a[i], b[i]) || other_case(
            b[i],
            a[i],
        )) {
        assert forall|i: int| 0 <= i < x.len() implies x[i] == y[i] by {
            assert(a[i] == b[i] || other_case(a[i], b[i]) || other_case(b[i], a[i]));
            lemma_same_letter(a[i], b[i]);
        }
        assert(x =~= y);
    }
}

proof fn lemma_same_letter(a: char, b: char)
    ensures
        ascii_lower(a) == ascii_lower(b) <==> a == b || other_case(a, b) || other_case(b, a),
{
}

/// Digits are these sixteen characters.
pub proof fn law_digits(d: nat)
    requires
        d < 16,
    ensures
        digit_char(d) == "0123456789abcdef"@[d as int],
        d < 10 ==> is_digit(digit_char(d)) && digit_value(digit_char(d)) == d,
{
    reveal_strlit("0123456789abcdef");
}

/// Each hexadecimal digit is worth sixteen times the one behind it.
pub proof fn law_hexadecimal_places(n: nat, width: nat, i: int)
    requires
        0 <= i < width,
    ensures
        hex_digits(n, width).len() == width,
        hex_digits(n, width)[i] == "0123456789abcdef"@[(n as int / vstd::arithmetic::power::pow(
            16,
            (width - 1 - i) as nat,
        )) % 16],
    decreases width,
{
    let rest = (width - 1) as nat;
    reveal_with_fuel(hex_digits, 2);
    if i < rest {
        law_hexadecimal_places(n / 16, rest, i);
        let e = (width - 2 - i) as nat;
        vstd::arithmetic::power::lemma_pow_positive(16, e);
        assert(vstd::arithmetic::power::pow(16, (width - 1 - i) as nat) == 16
            * vstd::arithmetic::power::pow(16, e)) by {
            reveal(vstd::arithmetic::power::pow);
        }
        vstd::arithmetic::div_mod::lemma_div_denominator(
            n as int,
            16,
            vstd::arithmetic::power::pow(16, e),
        );
    } else {
        if rest > 0 {
            law_hexadecimal_places(n / 16, rest, 0);
        }
        assert(vstd::arithmetic::power::pow(16, 0) == 1) by {
            reveal(vstd::arithmetic::power::pow);
        }
        law_digits(n % 16);
    }
}

/// A number is written in decimal digits, with no zero in front of others, so that it
/// is read as the same number again.
pub proof fn law_decimal(n: nat)
    ensures
        decimal(n).len() > 0,
        all_digits(decimal(n)),
        number_of(decimal(n)) == n,
        decimal(n)[0] == '0' ==> n == 0,
        decimal(0) == seq!['0'],
    decreases n,
{
    if n < 10 {
        law_digits(n);
        reveal_with_fuel(number_of, 2);
        assert(decimal(n).drop_last() =~= Seq::<char>::empty());
    } else {
        law_decimal(n / 10);
        law_digits(n % 10);
        let front = decimal(n / 10);
        assert(decimal(n).drop_last() =~= front);
        assert forall|i: int| 0 <= i < decimal(n).len() implies is_digit(
            #[trigger] decimal(n)[i],
        ) by {
            if i < front.len() {
                assert(is_digit(front[i]));
            }
        }
    }
}

/// Two digits at least are written, and more where the number needs them.
pub proof fn law_two_digits(n: nat)
    ensures
        two_digits(n).len() >= 2,
        n < 100 ==> two_digits(n).len() == 2,
        all_digits(two_digits(n)),
        number_of(two_digits(n)) == n,
        n >= 10 ==> two_digits(n) == decimal(n),
{
    law_decimal(n);
    reveal_with_fuel(decimal, 3);
    if n < 10 {
        law_digits(n);
        reveal_with_fuel(number_of, 3);
        let s = two_digits(n);
        assert(s.drop_last() =~= seq!['0']);
        assert(s.drop_last().drop_last() =~= Seq::<char>::empty());
    } else if n < 100 {
        assert(decimal(n / 10) == seq![digit_char(n / 10)]);
    }
}

/// The digits of a number count by their places: of two runs of digits the first is
/// worth ten to the length of the second.
pub proof fn law_places(a: Seq<char>, b: Seq<char>)
    ensures
        number_of(a + b) == number_of(a) * vstd::arithmetic::power::pow(10, b.len())
            + number_of(b),
        forall|d: nat| d < 10 ==> number_of(seq![#[trigger] digit_char(d)]) == d,
    decreases b.len(),
{
    assert(vstd::arithmetic::power::pow(10, 0) == 1) by {
        reveal(vstd::arithmetic::power::pow);
    }
    if b.len() > 0 {
        let rest = b.drop_last();
        law_places(a, rest);
        assert((a + b).drop_last() =~= a + rest);
        assert((a + b).last() == b.last());
        let p = vstd::arithmetic::power::pow(10, rest.len());
        assert(vstd::arithmetic::power::pow(10, b.len()) == 10 * p) by {
            reveal(vstd::arithmetic::power::pow);
        }
        let x = number_of(a);
        assert((x * p) * 10 == x * (10 * p)) by (nonlinear_arith);
    } else {
        assert(a + b =~= a);
    }
    assert forall|d: nat| d < 10 implies number_of(seq![#[trigger] digit_char(d)]) == d by {
        law_digits(d);
        reveal_with_fuel(number_of, 2);
        assert(seq![digit_char(d)].drop_last() =~= Seq::<char>::empty());
    }
}

/// A number is read from digits alone, as long as it is not too large, and a plus sign
/// in front makes no difference to them. Nothing else is a number: no text without a
/// digit, and none that holds another character.
pub proof fn law_reading_numbers(digits: Seq<char>, max: nat, s: Seq<char>, i: int)
    requires
        digits.len() > 0,
        all_digits(digits),
    ensures
        parsed(digits, max) == (if number_of(digits) <= max {
            Some(number_of(digits))
        } else {
            None
        }),
        parsed(seq!['+'] + digits, max) == parsed(digits, max),
        parsed(seq!['0'] + digits, max) == parsed(digits, max),
        parsed(Seq::empty(), max) is None,
        parsed(seq!['+'], max) is None,
        0 <= i < s.len() && !is_digit(s[i]) && (i > 0 || s[i] != '+') ==> parsed(s, max) is None,
{
    assert(digits[0] != '+') by {
        assert(is_digit(digits[0]));
    }
    assert((seq!['+'] + digits).drop_first() =~= digits);
    assert(seq!['+'].drop_first() =~= Seq::<char>::empty());
    let zero = seq!['0'] + digits;
    assert(all_digits(zero)) by {
        assert forall|j: int| 0 <= j < zero.len() implies is_digit(#[trigger] zero[j]) by {
            if j > 0 {
                assert(is_digit(digits[j - 1]));
            }
        }
    }
    law_places(seq!['0'], digits);
    assert(seq!['0'].drop_last() =~= Seq::<char>::empty());
    assert(number_of(seq!['0']) == 0) by {
        reveal_with_fuel(number_of, 2);
    }
    if 0 <= i < s.len() && !is_digit(s[i]) && (i > 0 || s[i] != '+') {
        let t = without_plus(s);
        if s[0] == '+' {
            assert(t[i - 1] == s[i]);
        } else {
            assert(t[i] == s[i]);
        }
    }
}

/// A number that was written is read again, unless it is too large.
pub proof fn law_written_numbers_are_read(n: nat, max: nat)
    ensures
        parsed(decimal(n), max) == (if n <= max {
            Some(n)
        } else {
            None
        }),
{
    law_decimal(n);
    law_reading_numbers(decimal(n), max, decimal(n), 0);
}

} // verus!
