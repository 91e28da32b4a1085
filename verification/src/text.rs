//! Character-level text model: every `&str`/`String` is viewed as a
//! `Seq<char>`, and the string operations the library needs are defined
//! here as spec functions with verified executable counterparts.

use vstd::prelude::*;

verus! {

/// `String::push` appends one character to the end of the string.
pub assume_specification[ String::push ](s: &mut String, ch: char)
    ensures
        final(s)@ == old(s)@.push(ch),
;

// ---------------------------------------------------------------------------
// Character classes
// ---------------------------------------------------------------------------

/// The Unicode `White_Space` property (what `char::is_whitespace` tests).
pub open spec fn is_white(c: char) -> bool {
    let u = c as u32;
    ||| 0x09 <= u <= 0x0D
    ||| u == 0x20
    ||| u == 0x85
    ||| u == 0xA0
    ||| u == 0x1680
    ||| 0x2000 <= u <= 0x200A
    ||| u == 0x2028
    ||| u == 0x2029
    ||| u == 0x202F
    ||| u == 0x205F
    ||| u == 0x3000
}

pub fn is_white_char(c: char) -> (b: bool)
    ensures
        b == is_white(c),
{
    let u = c as u32;
    (0x09 <= u && u <= 0x0D) || u == 0x20 || u == 0x85 || u == 0xA0 || u == 0x1680 || (0x2000
        <= u && u <= 0x200A) || u == 0x2028 || u == 0x2029 || u == 0x202F || u == 0x205F || u
        == 0x3000
}

/// ASCII lower-casing of one character (non-ASCII letters are unchanged).
pub open spec fn ascii_lower(c: char) -> char {
    if 'A' <= c <= 'Z' {
        ((c as u32) + 32) as char
    } else {
        c
    }
}

/// ASCII upper-casing of one character (non-ASCII letters are unchanged).
pub open spec fn ascii_upper(c: char) -> char {
    if 'a' <= c <= 'z' {
        ((c as u32) - 32) as char
    } else {
        c
    }
}

pub open spec fn is_ascii_char(c: char) -> bool {
    (c as u32) < 0x80
}

pub open spec fn all_ascii(s: Seq<char>) -> bool {
    forall|i: int| 0 <= i < s.len() ==> is_ascii_char(#[trigger] s[i])
}

pub open spec fn lower_seq(s: Seq<char>) -> Seq<char> {
    s.map_values(|c: char| ascii_lower(c))
}

pub open spec fn upper_seq(s: Seq<char>) -> Seq<char> {
    s.map_values(|c: char| ascii_upper(c))
}

pub fn ascii_lower_char(c: char) -> (r: char)
    ensures
        r == ascii_lower(c),
{
    if 'A' <= c && c <= 'Z' {
        let u = (c as u32) + 32;
        let b = u as u8;
        b as char
    } else {
        c
    }
}

/// Number of bytes of the UTF-8 encoding of one character.
pub open spec fn char_utf8_len(c: char) -> nat {
    let u = c as u32;
    if u < 0x80 {
        1
    } else if u < 0x800 {
        2
    } else if u < 0x10000 {
        3
    } else {
        4
    }
}

/// Number of bytes of the UTF-8 encoding of a text (what `str::len` returns).
pub open spec fn utf8_len(s: Seq<char>) -> nat
    decreases s.len(),
{
    if s.len() == 0 {
        0
    } else {
        utf8_len(s.drop_last()) + char_utf8_len(s.last())
    }
}

// ---------------------------------------------------------------------------
// Searching
// ---------------------------------------------------------------------------

/// `pat` occurs in `s` starting at index `i`.
pub open spec fn occurs_at(s: Seq<char>, i: int, pat: Seq<char>) -> bool {
    0 <= i && i + pat.len() <= s.len() && s.subrange(i, i + pat.len()) == pat
}

/// `pat` occurs somewhere in `s` (`str::contains`).
pub open spec fn contains(s: Seq<char>, pat: Seq<char>) -> bool {
    exists|i: int| occurs_at(s, i, pat)
}

/// `s` begins with `pat` (`str::starts_with`).
pub open spec fn starts_with(s: Seq<char>, pat: Seq<char>) -> bool {
    occurs_at(s, 0, pat)
}

/// Whether `pat` occurs in `v` at index `i`.
pub fn occurs_at_exec(v: &Vec<char>, i: usize, pat: &Vec<char>) -> (b: bool)
    ensures
        b == occurs_at(v@, i as int, pat@),
{
    if i > v.len() || pat.len() > v.len() - i {
        return false;
    }
    let n = v.len();
    let mut k: usize = 0;
    while k < pat.len()
        invariant
            n == v@.len(),
            i + pat@.len() <= v@.len(),
            i <= v@.len(),
            k <= pat@.len(),
            forall|j: int| 0 <= j < k ==> v@[i + j] == pat@[j],
        decreases pat@.len() - k,
    {
        if v[i + k] != pat[k] {
            assert(v@.subrange(i as int, i + pat@.len())[k as int] != pat@[k as int]);
            return false;
        }
        k += 1;
    }
    assert(v@.subrange(i as int, i + pat@.len()) =~= pat@);
    true
}

/// `str::contains` on character sequences.
pub fn contains_exec(v: &Vec<char>, pat: &Vec<char>) -> (b: bool)
    ensures
        b == contains(v@, pat@),
{
    if pat.len() > v.len() {
        assert forall|i: int| !occurs_at(v@, i, pat@) by {}
        return false;
    }
    let last = v.len() - pat.len();
    let mut i: usize = 0;
    while i < last
        invariant
            i <= last,
            last + pat@.len() == v@.len(),
            forall|j: int| 0 <= j < i ==> !occurs_at(v@, j, pat@),
        decreases last - i,
    {
        if occurs_at_exec(v, i, pat) {
            return true;
        }
        i += 1;
    }
    if occurs_at_exec(v, last, pat) {
        return true;
    }
    assert forall|j: int| !occurs_at(v@, j, pat@) by {
        if 0 <= j && j <= last {
        }
    }
    false
}

/// `str::starts_with` on character sequences.
pub fn starts_with_exec(v: &Vec<char>, pat: &Vec<char>) -> (b: bool)
    ensures
        b == starts_with(v@, pat@),
{
    occurs_at_exec(v, 0, pat)
}

/// Whether the character `c` occurs in `v`.
pub fn has_char(v: &Vec<char>, c: char) -> (b: bool)
    ensures
        b == contains(v@, seq![c]),
{
    let pat = vec![c];
    assert(pat@ =~= seq![c]);
    contains_exec(v, &pat)
}

// ---------------------------------------------------------------------------
// Trimming
// ---------------------------------------------------------------------------

/// Index of the first non-whitespace character at or after `i` (or `s.len()`).
pub open spec fn skip_white_from(s: Seq<char>, i: int) -> int
    decreases s.len() - i,
{
    if i < 0 || i >= s.len() || !is_white(s[i]) {
        i
    } else {
        skip_white_from(s, i + 1)
    }
}

/// One past the last non-whitespace character strictly before `j` (or 0).
pub open spec fn skip_white_back(s: Seq<char>, j: int) -> int
    decreases j,
{
    if j <= 0 || j > s.len() || !is_white(s[j - 1]) {
        j
    } else {
        skip_white_back(s, j - 1)
    }
}

/// `str::trim`: `s` without its leading and trailing whitespace.
pub open spec fn trim(s: Seq<char>) -> Seq<char> {
    let a = skip_white_from(s, 0);
    if a >= s.len() {
        Seq::empty()
    } else {
        s.subrange(a, skip_white_back(s, s.len() as int))
    }
}

pub proof fn lemma_skip_white_from_bounds(s: Seq<char>, i: int)
    requires
        0 <= i <= s.len(),
    ensures
        i <= skip_white_from(s, i) <= s.len(),
        skip_white_from(s, i) < s.len() ==> !is_white(s[skip_white_from(s, i)]),
        forall|k: int| i <= k < skip_white_from(s, i) ==> is_white(#[trigger] s[k]),
    decreases s.len() - i,
{
    if i < s.len() && is_white(s[i]) {
        lemma_skip_white_from_bounds(s, i + 1);
    }
}

pub proof fn lemma_skip_white_back_bounds(s: Seq<char>, j: int, a: int)
    requires
        0 <= a < j <= s.len(),
        !is_white(s[a]),
    ensures
        a < skip_white_back(s, j) <= j,
        !is_white(s[skip_white_back(s, j) - 1]),
        forall|k: int| skip_white_back(s, j) <= k < j ==> is_white(#[trigger] s[k]),
    decreases j,
{
    if is_white(s[j - 1]) {
        lemma_skip_white_back_bounds(s, j - 1, a);
    }
}

/// `trim` keeps a contiguous part of `s` with no whitespace at either end.
pub proof fn lemma_trim_shape(s: Seq<char>)
    ensures
        trim(s).len() > 0 ==> !is_white(trim(s)[0]) && !is_white(trim(s).last()),
        trim(s).len() <= s.len(),
{
    lemma_skip_white_from_bounds(s, 0);
    let a = skip_white_from(s, 0);
    if a < s.len() {
        lemma_skip_white_back_bounds(s, s.len() as int, a);
    }
}

/// A copy of `v@.subrange(lo, hi)`.
pub fn sub_vec(v: &Vec<char>, lo: usize, hi: usize) -> (r: Vec<char>)
    requires
        lo <= hi <= v@.len(),
    ensures
        r@ == v@.subrange(lo as int, hi as int),
{
    let mut r: Vec<char> = Vec::new();
    let mut i = lo;
    while i < hi
        invariant
            lo <= i <= hi <= v@.len(),
            r@ == v@.subrange(lo as int, i as int),
        decreases hi - i,
    {
        r.push(v[i]);
        i += 1;
        assert(r@ =~= v@.subrange(lo as int, i as int));
    }
    r
}

/// `str::trim` on character sequences.
pub fn trim_exec(v: &Vec<char>) -> (r: Vec<char>)
    ensures
        r@ == trim(v@),
{
    let n = v.len();
    let mut a: usize = 0;
    while a < n && is_white_char(v[a])
        invariant
            n == v@.len(),
            a <= n,
            skip_white_from(v@, a as int) == skip_white_from(v@, 0),
        decreases n - a,
    {
        a += 1;
    }
    if a >= n {
        return Vec::new();
    }
    let mut b: usize = n;
    while b > a + 1 && is_white_char(v[b - 1])
        invariant
            n == v@.len(),
            a < b <= n,
            skip_white_back(v@, b as int) == skip_white_back(v@, n as int),
        decreases b,
    {
        b -= 1;
    }
    assert(skip_white_back(v@, b as int) == b);
    sub_vec(v, a, b)
}

// ---------------------------------------------------------------------------
// Lines
// ---------------------------------------------------------------------------

/// End (exclusive) of the piece that starts at `p` when splitting on `sep`:
/// the index of the next `sep` at or after `p`, or the end of the text.
pub open spec fn sep_end(s: Seq<char>, p: int, sep: char) -> int
    decreases s.len() - p,
{
    if p < 0 || p >= s.len() || s[p] == sep {
        p
    } else {
        sep_end(s, p + 1, sep)
    }
}

/// The piece starting at `p` ends at the first `sep` after it.
pub proof fn lemma_sep_end_at(s: Seq<char>, p: int, q: int, sep: char)
    requires
        0 <= p <= q <= s.len(),
        forall|k: int| p <= k < q ==> s[k] != sep,
        q < s.len() ==> s[q] == sep,
    ensures
        sep_end(s, p, sep) == q,
    decreases q - p,
{
    if p < q {
        lemma_sep_end_at(s, p + 1, q, sep);
    }
}

pub proof fn lemma_sep_end_bounds(s: Seq<char>, p: int, sep: char)
    requires
        0 <= p <= s.len(),
    ensures
        p <= sep_end(s, p, sep) <= s.len(),
        sep_end(s, p, sep) < s.len() ==> s[sep_end(s, p, sep)] == sep,
        forall|k: int| p <= k < sep_end(s, p, sep) ==> #[trigger] s[k] != sep,
    decreases s.len() - p,
{
    if p < s.len() && s[p] != sep {
        lemma_sep_end_bounds(s, p + 1, sep);
    }
}

/// Index of the end of the piece starting at `p` (splitting on `sep`).
pub fn sep_end_exec(v: &Vec<char>, p: usize, sep: char) -> (e: usize)
    requires
        p <= v@.len(),
    ensures
        e as int == sep_end(v@, p as int, sep),
        p <= e <= v@.len(),
{
    let mut e = p;
    while e < v.len() && v[e] != sep
        invariant
            p <= e <= v@.len(),
            sep_end(v@, e as int, sep) == sep_end(v@, p as int, sep),
        decreases v@.len() - e,
    {
        e += 1;
    }
    e
}

/// The line selections the library makes with `str::lines().find(..)`.
pub enum LineTest {
    /// A line that is not blank and holds no `'>'` prompt character.
    DataWithoutPrompt,
    /// A header line: its ASCII-lower-cased text begins with the given
    /// (lower-case) name.
    Header(Seq<char>),
}

pub open spec fn line_passes(test: LineTest, l: Seq<char>) -> bool {
    match test {
        LineTest::DataWithoutPrompt => trim(l).len() > 0 && !contains(l, seq!['>']),
        LineTest::Header(name) => starts_with(lower_seq(l), name),
    }
}

/// The first line passing `test`, searching from the line that begins at `p`
/// (`str::lines().find(..)`). Lines are the pieces between `'\n'`
/// characters. (`str::lines` also drops a `'\r'` before the `'\n'`; every
/// caller trims or tokenises the line it finds, and no test looks at a
/// trailing `'\r'`, so the result is the same.)
pub open spec fn find_line(s: Seq<char>, p: int, test: LineTest) -> Option<Seq<char>>
    decreases s.len() + 1 - p,
    via find_line_decreases
{
    if p < 0 || p >= s.len() {
        None
    } else {
        let e = sep_end(s, p, '\n');
        if line_passes(test, s.subrange(p, e)) {
            Some(s.subrange(p, e))
        } else {
            find_line(s, e + 1, test)
        }
    }
}

#[via_fn]
proof fn find_line_decreases(s: Seq<char>, p: int, test: LineTest) {
    if 0 <= p < s.len() {
        lemma_sep_end_bounds(s, p, '\n');
    }
}

/// The ASCII-lower-cased copy of `v` (`str::to_ascii_lowercase`).
pub fn lower_vec(v: &Vec<char>) -> (r: Vec<char>)
    ensures
        r@ == lower_seq(v@),
{
    let mut r: Vec<char> = Vec::new();
    let mut i: usize = 0;
    while i < v.len()
        invariant
            i <= v@.len(),
            r@ == lower_seq(v@.subrange(0, i as int)),
        decreases v@.len() - i,
    {
        r.push(ascii_lower_char(v[i]));
        i += 1;
        assert(r@ =~= lower_seq(v@.subrange(0, i as int)));
    }
    assert(v@.subrange(0, v@.len() as int) =~= v@);
    r
}

/// Whether the line `v[p..e]` passes the test for a data line or, when
/// `header` is given, for that header.
fn line_passes_exec(v: &Vec<char>, p: usize, e: usize, header: Option<&Vec<char>>) -> (r: (
    bool,
    Vec<char>,
))
    requires
        p <= e <= v@.len(),
    ensures
        r.1@ == v@.subrange(p as int, e as int),
        r.0 == line_passes(
            match header {
                Some(h) => LineTest::Header(h@),
                None => LineTest::DataWithoutPrompt,
            },
            v@.subrange(p as int, e as int),
        ),
{
    let line = sub_vec(v, p, e);
    match header {
        Some(h) => {
            let low = lower_vec(&line);
            (starts_with_exec(&low, h), line)
        },
        None => {
            let t = trim_exec(&line);
            (t.len() > 0 && !has_char(&line, '>'), line)
        },
    }
}

/// `str::lines().find(..)`: the first line of `v` that passes the data-line
/// test, or, when `header` is given, that header test.
pub fn find_line_exec(v: &Vec<char>, header: Option<&Vec<char>>) -> (r: Option<Vec<char>>)
    ensures
        match r {
            Some(l) => find_line(
                v@,
                0,
                match header {
                    Some(h) => LineTest::Header(h@),
                    None => LineTest::DataWithoutPrompt,
                },
            ) == Some(l@),
            None => find_line(
                v@,
                0,
                match header {
                    Some(h) => LineTest::Header(h@),
                    None => LineTest::DataWithoutPrompt,
                },
            ) is None,
        },
{
    let ghost test = match header {
        Some(h) => LineTest::Header(h@),
        None => LineTest::DataWithoutPrompt,
    };
    let n = v.len();
    let mut p: usize = 0;
    while p < n
        invariant
            n == v@.len(),
            p <= n,
            test == match header {
                Some(h) => LineTest::Header(h@),
                None => LineTest::DataWithoutPrompt,
            },
            find_line(v@, p as int, test) == find_line(v@, 0, test),
        decreases n - p,
    {
        let e = sep_end_exec(v, p, '\n');
        let (ok, line) = line_passes_exec(v, p, e, header);
        if ok {
            return Some(line);
        }
        if e >= n {
            assert(find_line(v@, e + 1, test) is None);
            return None;
        }
        p = e + 1;
    }
    None
}

/// A line found by `find_line` passes its test and is no longer than `s`.
pub proof fn lemma_find_line_passes(s: Seq<char>, p: int, test: LineTest)
    ensures
        find_line(s, p, test) matches Some(l) ==> line_passes(test, l) && l.len() <= s.len(),
    decreases s.len() + 1 - p,
{
    if 0 <= p < s.len() {
        let e = sep_end(s, p, '\n');
        lemma_sep_end_bounds(s, p, '\n');
        if !line_passes(test, s.subrange(p, e)) {
            lemma_find_line_passes(s, e + 1, test);
        }
    }
}

/// Lines of an ASCII text are ASCII.
pub proof fn lemma_find_line_ascii(s: Seq<char>, p: int, test: LineTest)
    requires
        all_ascii(s),
    ensures
        find_line(s, p, test) matches Some(l) ==> all_ascii(l),
    decreases s.len() + 1 - p,
{
    if 0 <= p < s.len() {
        let e = sep_end(s, p, '\n');
        lemma_sep_end_bounds(s, p, '\n');
        let l = s.subrange(p, e);
        assert forall|i: int| 0 <= i < l.len() implies is_ascii_char(#[trigger] l[i]) by {
            assert(l[i] == s[p + i]);
        }
        if !line_passes(test, l) {
            lemma_find_line_ascii(s, e + 1, test);
        }
    }
}

/// Trimming an ASCII text leaves an ASCII text.
pub proof fn lemma_trim_ascii(s: Seq<char>)
    requires
        all_ascii(s),
    ensures
        all_ascii(trim(s)),
{
    lemma_skip_white_from_bounds(s, 0);
    let a = skip_white_from(s, 0);
    if a < s.len() {
        lemma_skip_white_back_bounds(s, s.len() as int, a);
        let t = trim(s);
        assert forall|i: int| 0 <= i < t.len() implies is_ascii_char(#[trigger] t[i]) by {
            assert(t[i] == s[a + i]);
        }
    }
}

// ---------------------------------------------------------------------------
// Whitespace-separated tokens
// ---------------------------------------------------------------------------

/// Index of the first whitespace character at or after `i` (or `s.len()`).
pub open spec fn skip_nonwhite_from(s: Seq<char>, i: int) -> int
    decreases s.len() - i,
{
    if i < 0 || i >= s.len() || is_white(s[i]) {
        i
    } else {
        skip_nonwhite_from(s, i + 1)
    }
}

pub proof fn lemma_skip_nonwhite_from_bounds(s: Seq<char>, i: int)
    requires
        0 <= i <= s.len(),
    ensures
        i <= skip_nonwhite_from(s, i) <= s.len(),
        skip_nonwhite_from(s, i) < s.len() ==> is_white(s[skip_nonwhite_from(s, i)]),
        forall|k: int| i <= k < skip_nonwhite_from(s, i) ==> !is_white(#[trigger] s[k]),
    decreases s.len() - i,
{
    if i < s.len() && !is_white(s[i]) {
        lemma_skip_nonwhite_from_bounds(s, i + 1);
    }
}

/// The maximal runs of non-whitespace characters of `s` from index `p` on
/// (`str::split_whitespace`).
pub open spec fn tokens_from(s: Seq<char>, p: int) -> Seq<Seq<char>>
    decreases s.len() - p,
{
    if p < 0 || p > s.len() {
        Seq::empty()
    } else {
        let a = skip_white_from(s, p);
        if a >= s.len() {
            Seq::empty()
        } else {
            let b = skip_nonwhite_from(s, a);
            proof {
                lemma_skip_white_from_bounds(s, p);
                lemma_skip_nonwhite_from_bounds(s, a);
            }
            seq![s.subrange(a, b)] + tokens_from(s, b)
        }
    }
}

/// Whitespace skipping inside `x + y` past `x` is skipping inside `y`.
pub proof fn lemma_skip_white_shift(x: Seq<char>, y: Seq<char>, i: int)
    requires
        0 <= i <= y.len(),
    ensures
        skip_white_from(x + y, x.len() + i) == x.len() + skip_white_from(y, i),
        skip_nonwhite_from(x + y, x.len() + i) == x.len() + skip_nonwhite_from(y, i),
    decreases y.len() - i,
{
    if i < y.len() {
        assert((x + y)[x.len() + i] == y[i]);
        lemma_skip_white_shift(x, y, i + 1);
    }
}

/// The tokens of `x + y` past `x` are the tokens of `y`.
pub proof fn lemma_tokens_shift(x: Seq<char>, y: Seq<char>, i: int)
    requires
        0 <= i <= y.len(),
    ensures
        tokens_from(x + y, x.len() + i) == tokens_from(y, i),
    decreases y.len() - i,
{
    let s = x + y;
    lemma_skip_white_shift(x, y, i);
    lemma_skip_white_from_bounds(y, i);
    let a = skip_white_from(y, i);
    if a < y.len() {
        lemma_skip_nonwhite_from_bounds(y, a);
        lemma_skip_white_shift(x, y, a);
        let b = skip_nonwhite_from(y, a);
        assert(s.subrange(x.len() + a, x.len() + b) =~= y.subrange(a, b));
        lemma_tokens_shift(x, y, b);
    }
}

/// The whitespace-separated tokens of `s`.
pub open spec fn tokens(s: Seq<char>) -> Seq<Seq<char>> {
    tokens_from(s, 0)
}

/// `str::split_whitespace` on character sequences.
pub fn split_whitespace_exec(v: &Vec<char>) -> (r: Vec<Vec<char>>)
    ensures
        r@.len() == tokens(v@).len(),
        forall|i: int| 0 <= i < r@.len() ==> #[trigger] r@[i]@ == tokens(v@)[i],
{
    let n = v.len();
    let mut r: Vec<Vec<char>> = Vec::new();
    let mut p: usize = 0;
    loop
        invariant
            n == v@.len(),
            p <= n,
            r@.len() + tokens_from(v@, p as int).len() == tokens(v@).len(),
            forall|i: int| 0 <= i < r@.len() ==> #[trigger] r@[i]@ == tokens(v@)[i],
            forall|i: int|
                0 <= i < tokens_from(v@, p as int).len() ==> #[trigger] tokens_from(v@, p as int)[i]
                    == tokens(v@)[r@.len() + i],
        decreases n - p,
    {
        let ghost p0 = p;
        proof {
            lemma_skip_white_from_bounds(v@, p as int);
        }
        let mut a = p;
        while a < n && is_white_char(v[a])
            invariant
                n == v@.len(),
                p <= a <= n,
                skip_white_from(v@, a as int) == skip_white_from(v@, p as int),
            decreases n - a,
        {
            a += 1;
        }
        if a >= n {
            assert(tokens_from(v@, p as int).len() == 0);
            return r;
        }
        let mut b = a;
        while b < n && !is_white_char(v[b])
            invariant
                n == v@.len(),
                a <= b <= n,
                skip_nonwhite_from(v@, b as int) == skip_nonwhite_from(v@, a as int),
            decreases n - b,
        {
            b += 1;
        }
        proof {
            lemma_skip_nonwhite_from_bounds(v@, a as int);
        }
        let tok = sub_vec(v, a, b);
        let ghost rest = tokens_from(v@, b as int);
        assert(tokens_from(v@, p0 as int) == seq![v@.subrange(a as int, b as int)] + rest);
        r.push(tok);
        p = b;
        assert forall|i: int| 0 <= i < rest.len() implies #[trigger] rest[i] == tokens(v@)[
            r@.len() + i] by {
            assert(tokens_from(v@, p0 as int)[i + 1] == rest[i]);
        }
        assert(r@[r@.len() - 1]@ == tokens(v@)[r@.len() - 1]) by {
            assert(tokens_from(v@, p0 as int)[0] == v@.subrange(a as int, b as int));
        }
    }
}

// ---------------------------------------------------------------------------
// Building strings
// ---------------------------------------------------------------------------

/// A `String` holding exactly the characters of `v`.
pub fn string_of(v: &Vec<char>) -> (s: String)
    ensures
        s@ == v@,
{
    let mut s = String::new();
    let mut i: usize = 0;
    while i < v.len()
        invariant
            i <= v@.len(),
            s@ == v@.subrange(0, i as int),
        decreases v@.len() - i,
    {
        s.push(v[i]);
        i += 1;
        assert(s@ =~= v@.subrange(0, i as int));
    }
    assert(v@.subrange(0, v@.len() as int) =~= v@);
    s
}

/// An owned copy of `t`.
pub fn owned(t: &str) -> (s: String)
    ensures
        s@ == t@,
{
    let mut s = String::new();
    push_all(&mut s, t);
    s
}

/// Appends all characters of `t` to `s`.
pub fn push_all(s: &mut String, t: &str)
    ensures
        final(s)@ == old(s)@ + t@,
{
    let v = chars_of(t);
    let ghost s0 = s@;
    let mut i: usize = 0;
    while i < v.len()
        invariant
            i <= v@.len(),
            v@ == t@,
            s@ == s0 + v@.subrange(0, i as int),
        decreases v@.len() - i,
    {
        s.push(v[i]);
        i += 1;
        assert(s@ =~= s0 + v@.subrange(0, i as int));
    }
    assert(v@.subrange(0, v@.len() as int) =~= v@);
}

/// The characters of `s`, in order.
pub fn chars_of(s: &str) -> (v: Vec<char>)
    ensures
        v@ == s@,
{
    let mut v: Vec<char> = Vec::new();
    for c in it: s.chars()
        invariant
            v@ == it.seq().take(it.index() as int),
            it.seq() == s@,
    {
        v.push(c);
    }
    v
}

/// Character-wise equality of two texts.
pub fn vec_eq(a: &Vec<char>, b: &Vec<char>) -> (r: bool)
    ensures
        r == (a@ == b@),
{
    if a.len() != b.len() {
        return false;
    }
    let mut i: usize = 0;
    while i < a.len()
        invariant
            a@.len() == b@.len(),
            i <= a@.len(),
            forall|j: int| 0 <= j < i ==> a@[j] == b@[j],
        decreases a@.len() - i,
    {
        if a[i] != b[i] {
            return false;
        }
        i += 1;
    }
    assert(a@ =~= b@);
    true
}

/// `&str` equality.
pub fn str_eq(a: &str, b: &str) -> (r: bool)
    ensures
        r == (a@ == b@),
{
    vec_eq(&chars_of(a), &chars_of(b))
}

/// The full Unicode upper-case mapping of a text, as `str::to_uppercase`
/// computes it.
pub uninterp spec fn unicode_upper(s: Seq<char>) -> Seq<char>;

/// Calls `str::to_uppercase`. Stated: the result is `unicode_upper` of the
/// argument, and on an all-ASCII text it is the ASCII upper-casing (letters
/// `a`-`z` become `A`-`Z`, every other character is kept). What the Unicode
/// tables do to other characters is left to the name.
#[verifier::external_body]
pub(crate) fn to_uppercase(s: &str) -> (r: String)
    ensures
        r@ == unicode_upper(s@),
        all_ascii(s@) ==> r@ == upper_seq(s@),
{
    s.to_uppercase()
}

/// Number of UTF-8 bytes of the text `v`.
pub fn utf8_len_exec(v: &Vec<char>) -> (n: usize)
    requires
        4 * v@.len() <= usize::MAX,
    ensures
        n as nat == utf8_len(v@),
{
    let mut n: usize = 0;
    let mut i: usize = 0;
    while i < v.len()
        invariant
            4 * v@.len() <= usize::MAX,
            i <= v@.len(),
            n as nat == utf8_len(v@.subrange(0, i as int)),
            n <= 4 * i,
        decreases v@.len() - i,
    {
        let u = v[i] as u32;
        let w: usize = if u < 0x80 {
            1
        } else if u < 0x800 {
            2
        } else if u < 0x10000 {
            3
        } else {
            4
        };
        assert(v@.subrange(0, i + 1).drop_last() =~= v@.subrange(0, i as int));
        n = n + w;
        i += 1;
    }
    assert(v@.subrange(0, v@.len() as int) =~= v@);
    n
}

// ---------------------------------------------------------------------------
// Numbers as text
// ---------------------------------------------------------------------------

pub open spec fn digit_char(d: nat) -> char {
    ((d + 48) as u32) as char
}

/// Decimal digits of `n`, most significant first, no leading zeros.
pub open spec fn dec_digits(n: nat) -> Seq<char>
    decreases n,
{
    if n < 10 {
        seq![digit_char(n)]
    } else {
        dec_digits(n / 10).push(digit_char(n % 10))
    }
}

/// Appends the decimal form of `n` (`{}` formatting) to `s`.
pub fn push_decimal(s: &mut String, n: u64)
    ensures
        final(s)@ == old(s)@ + dec_digits(n as nat),
    decreases n,
{
    let ghost s0 = s@;
    if n >= 10 {
        push_decimal(s, n / 10);
    }
    let d = (n % 10) as u8;
    s.push((d + 48) as char);
    assert(s@ =~= s0 + dec_digits(n as nat));
}

/// The hexadecimal digit for `d < 16`, upper case.
pub open spec fn hex_upper_char(d: nat) -> char {
    if d < 10 {
        digit_char(d)
    } else {
        ((d - 10 + 65) as u32) as char
    }
}

/// Upper-case hexadecimal digits of `n`, most significant first.
pub open spec fn hex_digits(n: nat) -> Seq<char>
    decreases n,
{
    if n < 16 {
        seq![hex_upper_char(n)]
    } else {
        hex_digits(n / 16).push(hex_upper_char(n % 16))
    }
}

pub fn push_hex_upper(s: &mut String, n: u64)
    ensures
        final(s)@ == old(s)@ + hex_digits(n as nat),
    decreases n,
{
    let ghost s0 = s@;
    if n >= 16 {
        push_hex_upper(s, n / 16);
    }
    let d = (n % 16) as u8;
    if d < 10 {
        s.push((d + 48) as char);
    } else {
        s.push((d - 10 + 65) as char);
    }
    assert(s@ =~= s0 + hex_digits(n as nat));
}

} // verus!
