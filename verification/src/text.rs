//! Character-level string helpers, specified over the `Seq<char>` view of
//! strings.
use vstd::prelude::*;

verus! {

/// `needle` occurs in `hay` starting at position `i`.
pub open spec fn occurs_at(hay: Seq<char>, needle: Seq<char>, i: int) -> bool {
    0 <= i && i + needle.len() <= hay.len() && hay.subrange(i, i + needle.len()) == needle
}

/// `needle` occurs somewhere in `hay` (the meaning of `str::contains`).
pub open spec fn has_substring(hay: Seq<char>, needle: Seq<char>) -> bool {
    exists|i: int| occurs_at(hay, needle, i)
}

/// `s` begins with `p` (the meaning of `str::starts_with`).
pub open spec fn has_prefix(s: Seq<char>, p: Seq<char>) -> bool {
    p.len() <= s.len() && s.subrange(0, p.len() as int) == p
}

/// `s` ends with `p` (the meaning of `str::ends_with`).
pub open spec fn has_suffix(s: Seq<char>, p: Seq<char>) -> bool {
    p.len() <= s.len() && s.subrange(s.len() - p.len(), s.len() as int) == p
}

/// The characters of a string slice, in order.
pub fn chars_of(s: &str) -> (v: Vec<char>)
    ensures
        v@ == s@,
{
    let mut v: Vec<char> = Vec::new();
    for c in it: s.chars()
        invariant
            v@ == it.seq().take(it.index() as int),
    {
        v.push(c);
    }
    v
}

/// Builds a `String` from its characters with `Iterator::collect`.
#[verifier::external_body]
pub(crate) fn string_of(v: &Vec<char>) -> (s: String)
    ensures
        s@ == v@,
{
    v.iter().collect()
}

/// Does `needle` occur in `hay` at position `i`?
pub fn matches_at(hay: &Vec<char>, needle: &Vec<char>, i: usize) -> (r: bool)
    requires
        i + needle@.len() <= hay@.len(),
    ensures
        r == (hay@.subrange(i as int, i + needle@.len()) == needle@),
{
    let hay_len = hay.len();
    let mut j: usize = 0;
    while j < needle.len()
        invariant
            j <= needle@.len(),
            i + needle@.len() <= hay@.len(),
            hay_len == hay@.len(),
            forall|k: int| 0 <= k < j ==> hay@[i + k] == needle@[k],
        decreases needle@.len() - j,
    {
        if hay[i + j] != needle[j] {
            assert(hay@.subrange(i as int, i + needle@.len())[j as int] != needle@[j as int]);
            return false;
        }
        j += 1;
    }
    assert(hay@.subrange(i as int, i + needle@.len()) =~= needle@);
    true
}

/// Substring search.
pub fn contains(hay: &Vec<char>, needle: &Vec<char>) -> (r: bool)
    ensures
        r == has_substring(hay@, needle@),
{
    if needle.len() > hay.len() {
        return false;
    }
    let last = hay.len() - needle.len();
    let mut i: usize = 0;
    loop
        invariant
            needle@.len() <= hay@.len(),
            last == hay@.len() - needle@.len(),
            i <= last,
            forall|k: int| 0 <= k < i ==> !occurs_at(hay@, needle@, k),
        decreases last - i,
    {
        if matches_at(hay, needle, i) {
            assert(occurs_at(hay@, needle@, i as int));
            return true;
        }
        if i == last {
            return false;
        }
        i += 1;
    }
}

/// Substring search for a string slice.
pub fn contains_str(hay: &Vec<char>, needle: &str) -> (r: bool)
    ensures
        r == has_substring(hay@, needle@),
{
    let n = chars_of(needle);
    contains(hay, &n)
}

/// Prefix test for a string slice.
pub fn starts_with_str(s: &Vec<char>, p: &str) -> (r: bool)
    ensures
        r == has_prefix(s@, p@),
{
    let pv = chars_of(p);
    if pv.len() > s.len() {
        return false;
    }
    matches_at(s, &pv, 0)
}

/// Suffix test for a string slice.
pub fn ends_with_str(s: &Vec<char>, p: &str) -> (r: bool)
    ensures
        r == has_suffix(s@, p@),
{
    let pv = chars_of(p);
    if pv.len() > s.len() {
        return false;
    }
    matches_at(s, &pv, s.len() - pv.len())
}

/// Equality with a string slice.
pub fn eq_str(s: &Vec<char>, p: &str) -> (r: bool)
    ensures
        r == (s@ == p@),
{
    let pv = chars_of(p);
    if pv.len() != s.len() {
        return false;
    }
    let r = matches_at(s, &pv, 0);
    assert(s@.subrange(0, s@.len() as int) =~= s@);
    r
}


/// A copy of `v[start..end]`.
pub fn slice_of(v: &Vec<char>, start: usize, end: usize) -> (r: Vec<char>)
    requires
        start <= end <= v@.len(),
    ensures
        r@ == v@.subrange(start as int, end as int),
{
    let mut r: Vec<char> = Vec::new();
    let mut i = start;
    while i < end
        invariant
            start <= i <= end <= v@.len(),
            r@ == v@.subrange(start as int, i as int),
        decreases end - i,
    {
        r.push(v[i]);
        i += 1;
        assert(r@ =~= v@.subrange(start as int, i as int));
    }
    r
}

/// The characters with the Unicode `White_Space` property, which is what
/// `char::is_whitespace` tests.
pub open spec fn is_white_space(c: char) -> bool {
    let u = c as u32;
    ||| 0x09 <= u <= 0x0D
    ||| u == 0x20
    ||| u == 0x85
    ||| u == 0xA0
    ||| u == 0x1680
    ||| 0x2000 <= u <= 0x200A
    ||| u == 0x2028
    ||| u == 0x2029
    ||| u == 0x202F
    ||| u == 0x205F
    ||| u == 0x3000
}

/// `char::is_whitespace`.
pub fn is_whitespace(c: char) -> (r: bool)
    ensures
        r == is_white_space(c),
{
    let u = c as u32;
    (0x09 <= u && u <= 0x0D) || u == 0x20 || u == 0x85 || u == 0xA0 || u == 0x1680 || (0x2000
        <= u && u <= 0x200A) || u == 0x2028 || u == 0x2029 || u == 0x202F || u == 0x205F || u
        == 0x3000
}

/// `char::is_ascii_digit`.
pub open spec fn is_digit(c: char) -> bool {
    '0' <= c <= '9'
}

/// ASCII lower-casing of one character (`char::to_ascii_lowercase`).
pub open spec fn ascii_lower(c: char) -> char {
    if 'A' <= c <= 'Z' {
        ((c as u32) + 32) as char
    } else {
        c
    }
}

/// ASCII upper-casing of one character.
pub open spec fn ascii_upper(c: char) -> char {
    if 'a' <= c <= 'z' {
        ((c as u32) - 32) as char
    } else {
        c
    }
}

/// An ASCII letter or digit.
pub open spec fn ascii_alphanumeric(c: char) -> bool {
    ('a' <= c <= 'z') || ('A' <= c <= 'Z') || ('0' <= c <= '9')
}

/// `str::eq_ignore_ascii_case`.
pub open spec fn eq_ignore_ascii_case(a: Seq<char>, b: Seq<char>) -> bool {
    a.len() == b.len() && forall|i: int| 0 <= i < a.len() ==> ascii_lower(a[i]) == ascii_lower(b[i])
}

/// `s` with leading white space removed (`str::trim_start`).
pub open spec fn trim_start(s: Seq<char>) -> Seq<char>
    decreases s.len(),
{
    if s.len() > 0 && is_white_space(s[0]) {
        trim_start(s.drop_first())
    } else {
        s
    }
}

/// `s` with trailing white space removed (`str::trim_end`).
pub open spec fn trim_end(s: Seq<char>) -> Seq<char>
    decreases s.len(),
{
    if s.len() > 0 && is_white_space(s.last()) {
        trim_end(s.drop_last())
    } else {
        s
    }
}

/// `s` with white space removed at both ends (`str::trim`).
pub open spec fn trimmed(s: Seq<char>) -> Seq<char> {
    trim_end(trim_start(s))
}

/// `str::trim`.
pub fn trim(v: &Vec<char>) -> (r: Vec<char>)
    ensures
        r@ == trimmed(v@),
{
    let n = v.len();
    let mut a: usize = 0;
    assert(v@.subrange(0, n as int) =~= v@);
    while a < n && is_whitespace(v[a])
        invariant
            a <= n == v@.len(),
            trim_start(v@) == trim_start(v@.subrange(a as int, n as int)),
        decreases n - a,
    {
        assert(v@.subrange(a as int, n as int).drop_first() =~= v@.subrange(a + 1, n as int));
        a += 1;
    }
    assert(trim_start(v@) == v@.subrange(a as int, n as int));
    let mut b: usize = n;
    while b > a && is_whitespace(v[b - 1])
        invariant
            a <= b <= n == v@.len(),
            trim_start(v@) == v@.subrange(a as int, n as int),
            trimmed(v@) == trim_end(v@.subrange(a as int, b as int)),
        decreases b - a,
    {
        assert(v@.subrange(a as int, b as int).drop_last() =~= v@.subrange(a as int, b - 1));
        b -= 1;
    }
    slice_of(v, a, b)
}

/// The first position at or after `i` that holds `c`, or `s.len()` when
/// there is none.
pub open spec fn first_of(s: Seq<char>, c: char, i: int) -> int
    decreases s.len() - i,
{
    if i >= s.len() {
        s.len() as int
    } else if s[i] == c {
        i
    } else {
        first_of(s, c, i + 1)
    }
}

/// What `first_of` is: the least position at or after `i` holding `c`.
pub proof fn lemma_first_of(s: Seq<char>, c: char, i: int)
    requires
        0 <= i <= s.len(),
    ensures
        i <= first_of(s, c, i) <= s.len(),
        first_of(s, c, i) < s.len() ==> s[first_of(s, c, i)] == c,
        forall|k: int| i <= k < first_of(s, c, i) ==> s[k] != c,
    decreases s.len() - i,
{
    if i < s.len() && s[i] != c {
        lemma_first_of(s, c, i + 1);
    }
}

/// `first_of` is determined by the least matching position.
pub proof fn lemma_first_of_is(s: Seq<char>, c: char, i: int, j: int)
    requires
        0 <= i <= j <= s.len(),
        forall|k: int| i <= k < j ==> s[k] != c,
        j == s.len() || s[j] == c,
    ensures
        first_of(s, c, i) == j,
{
    lemma_first_of(s, c, i);
    let f = first_of(s, c, i);
    if f < j {
        assert(s[f] == c);
    } else if f > j {
        assert(s[j] != c);
    }
}

/// Position of the first `c` in `v` at or after `from`.
pub fn find_char_from(v: &Vec<char>, c: char, from: usize) -> (r: usize)
    requires
        from <= v@.len(),
    ensures
        r == first_of(v@, c, from as int),
{
    let n = v.len();
    let mut i = from;
    while i < n && v[i] != c
        invariant
            from <= i <= n == v@.len(),
            forall|k: int| from <= k < i ==> v@[k] != c,
        decreases n - i,
    {
        i += 1;
    }
    proof {
        lemma_first_of_is(v@, c, from as int, i as int);
    }
    i
}

/// The last position of `c` in `s`, or `-1` when there is none.
pub open spec fn last_of(s: Seq<char>, c: char) -> int
    decreases s.len(),
{
    if s.len() == 0 {
        -1
    } else if s.last() == c {
        s.len() - 1
    } else {
        last_of(s.drop_last(), c)
    }
}

/// Position of the last `c` in `v` (`str::rfind`).
pub fn rfind_char(v: &Vec<char>, c: char) -> (r: Option<usize>)
    ensures
        match r {
            Some(k) => k == last_of(v@, c),
            None => last_of(v@, c) == -1,
        },
{
    let mut i = v.len();
    assert(v@.subrange(0, i as int) =~= v@);
    while i > 0 && v[i - 1] != c
        invariant
            i <= v@.len(),
            last_of(v@, c) == last_of(v@.subrange(0, i as int), c),
        decreases i,
    {
        assert(v@.subrange(0, i as int).drop_last() =~= v@.subrange(0, i - 1));
        i -= 1;
    }
    if i == 0 {
        assert(v@.subrange(0, 0) =~= Seq::<char>::empty());
        None
    } else {
        Some(i - 1)
    }
}

/// `str::split_once(c)`: the text before and after the first `c`.
pub open spec fn split_once(s: Seq<char>, c: char) -> Option<(Seq<char>, Seq<char>)> {
    let k = first_of(s, c, 0);
    if k < s.len() {
        Some((s.subrange(0, k), s.subrange(k + 1, s.len() as int)))
    } else {
        None
    }
}

/// `str::split_once(c)`.
pub fn split_once_char(v: &Vec<char>, c: char) -> (r: Option<(Vec<char>, Vec<char>)>)
    ensures
        match r {
            Some((a, b)) => split_once(v@, c) == Some((a@, b@)),
            None => split_once(v@, c) is None,
        },
{
    let k = find_char_from(v, c, 0);
    proof {
        lemma_first_of(v@, c, 0);
    }
    if k < v.len() {
        Some((slice_of(v, 0, k), slice_of(v, k + 1, v.len())))
    } else {
        None
    }
}

/// The view of each string in a sequence of strings.
pub open spec fn views(v: Seq<Vec<char>>) -> Seq<Seq<char>> {
    v.map_values(|x: Vec<char>| x@)
}

/// `s` without one trailing carriage return.
pub open spec fn strip_cr(s: Seq<char>) -> Seq<char> {
    if s.len() > 0 && s.last() == '\r' {
        s.drop_last()
    } else {
        s
    }
}

/// The lines of `s.subrange(start, s.len())` as `str::lines` yields them: split
/// after each `'\n'`, with the `'\n'` and one `'\r'` before it removed; no
/// empty line is yielded after a final `'\n'`.
pub open spec fn lines_from(s: Seq<char>, start: int) -> Seq<Seq<char>>
    decreases s.len() - start,
{
    if start < 0 || start >= s.len() {
        Seq::empty()
    } else {
        let e = first_of(s, '\n', start);
        if start <= e < s.len() {
            seq![strip_cr(s.subrange(start, e))] + lines_from(s, e + 1)
        } else {
            seq![s.subrange(start, s.len() as int)]
        }
    }
}

/// `str::lines`.
pub open spec fn lines(s: Seq<char>) -> Seq<Seq<char>> {
    lines_from(s, 0)
}

/// `str::lines`.
pub fn lines_of(v: &Vec<char>) -> (r: Vec<Vec<char>>)
    ensures
        views(r@) == lines(v@),
{
    let n = v.len();
    let mut out: Vec<Vec<char>> = Vec::new();
    let mut start: usize = 0;
    while start < n
        invariant
            start <= n == v@.len(),
            lines(v@) == views(out@) + lines_from(v@, start as int),
        decreases n - start,
    {
        let e = find_char_from(v, '\n', start);
        proof {
            lemma_first_of(v@, '\n', start as int);
        }
        let ghost before = out@;
        if e < n {
            let mut line = slice_of(v, start, e);
            if line.len() > 0 && line[line.len() - 1] == '\r' {
                line.pop();
            }
            assert(line@ == strip_cr(v@.subrange(start as int, e as int)));
            out.push(line);
            assert(views(out@) =~= views(before) + seq![line@]);
            start = e + 1;
        } else {
            let line = slice_of(v, start, n);
            out.push(line);
            assert(views(out@) =~= views(before) + seq![line@]);
            start = n;
        }
    }
    assert(views(out@) + lines_from(v@, start as int) =~= views(out@));
    out
}


/// Names what `str::to_lowercase` returns for a string with these
/// characters (full Unicode lower-casing, with the final-sigma rule).
pub uninterp spec fn str_lowercase(s: Seq<char>) -> Seq<char>;

/// Names what `str::to_uppercase` returns for a string with these
/// characters (full Unicode upper-casing).
pub uninterp spec fn str_uppercase(s: Seq<char>) -> Seq<char>;

/// Names the characters that `char::to_lowercase` yields for `c`.
pub uninterp spec fn char_lowercase(c: char) -> Seq<char>;

/// Names what `char::is_alphanumeric` answers for `c`.
pub uninterp spec fn char_is_alphanumeric(c: char) -> bool;

/// Every character is ASCII.
pub open spec fn all_ascii(s: Seq<char>) -> bool {
    forall|i: int| 0 <= i < s.len() ==> (s[i] as u32) < 128
}

/// ASCII lower-casing of every character.
pub open spec fn ascii_lowered(s: Seq<char>) -> Seq<char> {
    s.map_values(|c: char| ascii_lower(c))
}

/// ASCII upper-casing of every character.
pub open spec fn ascii_uppered(s: Seq<char>) -> Seq<char> {
    s.map_values(|c: char| ascii_upper(c))
}

/// Calls `str::to_lowercase`. The contract claims that the result is a
/// function of the input characters, and that on ASCII input it is ASCII
/// lower-casing (Unicode's lowercase mapping of `A`-`Z` is `a`-`z`, and
/// other ASCII characters have none); it does not state the Unicode case
/// tables beyond ASCII.
#[verifier::external_body]
pub(crate) fn to_lowercase(v: &Vec<char>) -> (r: Vec<char>)
    ensures
        r@ == str_lowercase(v@),
        all_ascii(v@) ==> r@ == ascii_lowered(v@),
{
    let text: String = v.iter().collect();
    text.to_lowercase().chars().collect()
}

/// Calls `str::to_uppercase`. The contract claims that the result is a
/// function of the input characters, and that on ASCII input it is ASCII
/// upper-casing (Unicode's uppercase mapping of `a`-`z` is `A`-`Z`, and
/// other ASCII characters have none); it does not state the Unicode case
/// tables beyond ASCII.
#[verifier::external_body]
pub(crate) fn to_uppercase(v: &Vec<char>) -> (r: Vec<char>)
    ensures
        r@ == str_uppercase(v@),
        all_ascii(v@) ==> r@ == ascii_uppered(v@),
{
    let text: String = v.iter().collect();
    text.to_uppercase().chars().collect()
}

/// Calls `char::to_lowercase`. The contract claims that the result is a
/// function of `c`, and that an ASCII `c` yields its ASCII lower-casing
/// alone; it does not state the Unicode case tables beyond ASCII.
#[verifier::external_body]
pub(crate) fn lowercase_char(c: char) -> (r: Vec<char>)
    ensures
        r@ == char_lowercase(c),
        (c as u32) < 128 ==> r@ == seq![ascii_lower(c)],
{
    c.to_lowercase().collect()
}

/// Calls `char::is_alphanumeric`. The contract claims that the answer is a
/// function of `c`, and that for an ASCII `c` it holds exactly of the ASCII
/// letters and digits (the only ASCII characters that are alphabetic or
/// numeric in Unicode); it does not state the property tables beyond ASCII.
#[verifier::external_body]
pub(crate) fn is_alphanumeric(c: char) -> (r: bool)
    ensures
        r == char_is_alphanumeric(c),
        (c as u32) < 128 ==> r == ascii_alphanumeric(c),
{
    c.is_alphanumeric()
}

/// The lower-cased characters of a string slice.
pub fn lower_str(s: &str) -> (r: Vec<char>)
    ensures
        r@ == str_lowercase(s@),
{
    let v = chars_of(s);
    to_lowercase(&v)
}

/// `char::to_ascii_lowercase`.
pub fn ascii_lower_char(c: char) -> (r: char)
    ensures
        r == ascii_lower(c),
{
    if 'A' <= c && c <= 'Z' {
        let b = (c as u8) + 32;
        b as char
    } else {
        c
    }
}

/// `str::to_ascii_lowercase`.
pub fn ascii_lowered_of(s: &str) -> (r: Vec<char>)
    ensures
        r@ == ascii_lowered(s@),
{
    let v = chars_of(s);
    let mut r: Vec<char> = Vec::new();
    let mut i: usize = 0;
    while i < v.len()
        invariant
            i <= v@.len(),
            v@ == s@,
            r@ == ascii_lowered(v@).subrange(0, i as int),
        decreases v@.len() - i,
    {
        r.push(ascii_lower_char(v[i]));
        i += 1;
        assert(r@ =~= ascii_lowered(v@).subrange(0, i as int));
    }
    assert(r@ =~= ascii_lowered(v@));
    r
}

/// `str::eq_ignore_ascii_case` against a string slice.
pub fn eq_ignore_ascii_case_str(v: &Vec<char>, p: &str) -> (r: bool)
    ensures
        r == eq_ignore_ascii_case(v@, p@),
{
    let pv = chars_of(p);
    if pv.len() != v.len() {
        return false;
    }
    let mut i: usize = 0;
    while i < v.len()
        invariant
            i <= v@.len() == pv@.len(),
            pv@ == p@,
            forall|k: int| 0 <= k < i ==> ascii_lower(v@[k]) == ascii_lower(pv@[k]),
        decreases v@.len() - i,
    {
        if ascii_lower_char(v[i]) != ascii_lower_char(pv[i]) {
            assert(ascii_lower(v@[i as int]) != ascii_lower(p@[i as int]));
            return false;
        }
        i += 1;
    }
    true
}


/// The pieces of `s.subrange(start, s.len())` between occurrences of `c`, as
/// `str::split(c)` yields them (an empty text gives one empty piece).
pub open spec fn split_from(s: Seq<char>, c: char, start: int) -> Seq<Seq<char>>
    decreases s.len() - start,
{
    if start < 0 || start > s.len() {
        Seq::empty()
    } else {
        let e = first_of(s, c, start);
        if start <= e < s.len() {
            seq![s.subrange(start, e)] + split_from(s, c, e + 1)
        } else {
            seq![s.subrange(start, s.len() as int)]
        }
    }
}

/// `str::split(c)`.
pub open spec fn split(s: Seq<char>, c: char) -> Seq<Seq<char>> {
    split_from(s, c, 0)
}

/// `str::split(c)`.
pub fn split_char(v: &Vec<char>, c: char) -> (r: Vec<Vec<char>>)
    ensures
        views(r@) == split(v@, c),
{
    let n = v.len();
    let mut out: Vec<Vec<char>> = Vec::new();
    let mut start: usize = 0;
    let mut e = find_char_from(v, c, 0);
    proof {
        lemma_first_of(v@, c, 0);
    }
    while e < n
        invariant
            start <= e <= n == v@.len(),
            e == first_of(v@, c, start as int),
            split(v@, c) == views(out@) + split_from(v@, c, start as int),
        decreases n - start,
    {
        let ghost before = out@;
        let piece = slice_of(v, start, e);
        out.push(piece);
        assert(views(out@) =~= views(before) + seq![piece@]);
        start = e + 1;
        e = find_char_from(v, c, start);
        proof {
            lemma_first_of(v@, c, start as int);
        }
    }
    let ghost before = out@;
    let piece = slice_of(v, start, n);
    out.push(piece);
    assert(views(out@) =~= views(before) + seq![piece@]);
    out
}

/// The text after the last `c` (all of `s` when there is none), which is
/// what `s.split(c).next_back()` yields.
pub open spec fn after_last(s: Seq<char>, c: char) -> Seq<char> {
    s.subrange(last_of(s, c) + 1, s.len() as int)
}

/// `last_of` is a position of `s`, or `-1`.
pub proof fn lemma_last_of(s: Seq<char>, c: char)
    ensures
        -1 <= last_of(s, c) < s.len(),
        last_of(s, c) >= 0 ==> s[last_of(s, c)] == c,
        forall|k: int| last_of(s, c) < k < s.len() ==> s[k] != c,
    decreases s.len(),
{
    if s.len() > 0 && s.last() != c {
        lemma_last_of(s.drop_last(), c);
        assert forall|k: int| last_of(s, c) < k < s.len() implies s[k] != c by {
            if k < s.len() - 1 {
                assert(s[k] == s.drop_last()[k]);
            }
        }
    }
}

/// The text after the last `c` in `v`.
pub fn after_last_char(v: &Vec<char>, c: char) -> (r: Vec<char>)
    ensures
        r@ == after_last(v@, c),
{
    let n = v.len();
    proof {
        lemma_last_of(v@, c);
    }
    match rfind_char(v, c) {
        Some(k) => slice_of(v, k + 1, n),
        None => slice_of(v, 0, n),
    }
}

/// `s` with every `-`, `_` and `.` removed.
pub open spec fn without_separators(s: Seq<char>) -> Seq<char>
    decreases s.len(),
{
    if s.len() == 0 {
        s
    } else if s.last() == '-' || s.last() == '_' || s.last() == '.' {
        without_separators(s.drop_last())
    } else {
        without_separators(s.drop_last()).push(s.last())
    }
}

/// `str::replace(['-', '_', '.'], "")`.
pub fn remove_separators(v: &Vec<char>) -> (r: Vec<char>)
    ensures
        r@ == without_separators(v@),
{
    let mut out: Vec<char> = Vec::new();
    let mut i: usize = 0;
    assert(v@.subrange(0, 0) =~= Seq::<char>::empty());
    while i < v.len()
        invariant
            i <= v@.len(),
            out@ == without_separators(v@.subrange(0, i as int)),
        decreases v@.len() - i,
    {
        let c = v[i];
        assert(v@.subrange(0, i + 1).drop_last() =~= v@.subrange(0, i as int));
        if !(c == '-' || c == '_' || c == '.') {
            out.push(c);
        }
        i += 1;
    }
    assert(v@.subrange(0, v@.len() as int) =~= v@);
    out
}


/// Equality of two character vectors.
pub fn eq_chars(a: &Vec<char>, b: &Vec<char>) -> (r: bool)
    ensures
        r == (a@ == b@),
{
    if a.len() != b.len() {
        return false;
    }
    let r = matches_at(a, b, 0);
    assert(a@.subrange(0, a@.len() as int) =~= a@);
    r
}


/// The value of a sequence of decimal digits.
pub open spec fn digits_value(s: Seq<char>) -> nat
    decreases s.len(),
{
    if s.len() == 0 {
        0
    } else {
        digits_value(s.drop_last()) * 10 + ((s.last() as u32) - ('0' as u32)) as nat
    }
}

/// Every character is an ASCII digit.
pub open spec fn all_digits(s: Seq<char>) -> bool {
    forall|i: int| 0 <= i < s.len() ==> is_digit(#[trigger] s[i])
}

/// What `str::parse::<u64>` accepts: an optional `+`, then one or more
/// decimal digits whose value fits in a `u64`.
pub open spec fn parse_u64(s: Seq<char>) -> Option<u64> {
    let d = if s.len() > 0 && s[0] == '+' {
        s.drop_first()
    } else {
        s
    };
    if d.len() > 0 && all_digits(d) && digits_value(d) <= u64::MAX {
        Some(digits_value(d) as u64)
    } else {
        None
    }
}

/// The value of a digit string grows with each further digit.
proof fn lemma_digits_value_prefix(s: Seq<char>, i: int)
    requires
        0 <= i <= s.len(),
        all_digits(s),
    ensures
        digits_value(s.subrange(0, i)) <= digits_value(s),
    decreases s.len() - i,
{
    if i < s.len() {
        lemma_digits_value_prefix(s, i + 1);
        assert(s.subrange(0, i + 1).drop_last() =~= s.subrange(0, i));
        assert(is_digit(s[i]));
    } else {
        assert(s.subrange(0, i) =~= s);
    }
}

/// `str::parse::<u64>`.
pub fn parse_u64_chars(v: &Vec<char>) -> (r: Option<u64>)
    ensures
        r == parse_u64(v@),
{
    let n = v.len();
    let start: usize = if n > 0 && v[0] == '+' {
        1
    } else {
        0
    };
    let ghost d = if v@.len() > 0 && v@[0] == '+' {
        v@.drop_first()
    } else {
        v@
    };
    assert(d =~= v@.subrange(start as int, n as int));
    if start == n {
        return None;
    }
    let mut value: u64 = 0;
    let mut i = start;
    assert(d.subrange(0, 0) =~= Seq::<char>::empty());
    while i < n
        invariant
            start <= i <= n == v@.len(),
            d == v@.subrange(start as int, n as int),
            d == (if v@.len() > 0 && v@[0] == '+' {
                v@.drop_first()
            } else {
                v@
            }),
            d.len() > 0,
            all_digits(d.subrange(0, i - start)),
            value == digits_value(d.subrange(0, i - start)),
        decreases n - i,
    {
        let c = v[i];
        assert(d[i - start] == c);
        if !('0' <= c && c <= '9') {
            assert(!is_digit(d[i - start]));
            return None;
        }
        let digit = (c as u32 - '0' as u32) as u64;
        assert(d.subrange(0, i - start + 1).drop_last() =~= d.subrange(0, i - start));
        if value > (u64::MAX - digit) / 10 {
            proof {
                if all_digits(d) {
                    lemma_digits_value_prefix(d, i - start + 1);
                }
            }
            return None;
        }
        value = value * 10 + digit;
        i += 1;
        assert(all_digits(d.subrange(0, i - start)));
    }
    assert(d.subrange(0, i - start) =~= d);
    Some(value)
}


/// The number of bytes `c` takes in UTF-8 (`char::len_utf8`).
pub open spec fn char_utf8_len(c: char) -> nat {
    let u = c as u32;
    if u < 0x80 {
        1
    } else if u < 0x800 {
        2
    } else if u < 0x10000 {
        3
    } else {
        4
    }
}

/// The number of bytes the characters take in UTF-8 (`str::len`).
pub open spec fn utf8_len(s: Seq<char>) -> nat
    decreases s.len(),
{
    if s.len() == 0 {
        0
    } else {
        utf8_len(s.drop_last()) + char_utf8_len(s.last())
    }
}

/// `char::len_utf8`.
pub fn len_utf8(c: char) -> (r: usize)
    ensures
        r == char_utf8_len(c),
{
    let u = c as u32;
    if u < 0x80 {
        1
    } else if u < 0x800 {
        2
    } else if u < 0x10000 {
        3
    } else {
        4
    }
}

/// The UTF-8 length of some characters.
pub fn utf8_len_of(v: &Vec<char>) -> (r: u128)
    ensures
        r == utf8_len(v@),
{
    let mut total: u128 = 0;
    let mut i: usize = 0;
    assert(v@.subrange(0, 0) =~= Seq::<char>::empty());
    while i < v.len()
        invariant
            i <= v@.len(),
            total == utf8_len(v@.subrange(0, i as int)),
            total <= 4 * i,
        decreases v@.len() - i,
    {
        assert(v@.subrange(0, i + 1).drop_last() =~= v@.subrange(0, i as int));
        total = total + len_utf8(v[i]) as u128;
        i += 1;
    }
    assert(v@.subrange(0, i as int) =~= v@);
    total
}

/// The first position at or after `i` where `p` occurs in `s`.
pub open spec fn find_from(s: Seq<char>, p: Seq<char>, i: int) -> Option<int>
    decreases s.len() + 1 - i,
{
    if i < 0 || i + p.len() > s.len() {
        None
    } else if occurs_at(s, p, i) {
        Some(i)
    } else {
        find_from(s, p, i + 1)
    }
}

/// Where `p` first occurs in `v` at or after `from`.
pub fn find_str_from(v: &Vec<char>, p: &Vec<char>, from: usize) -> (r: Option<usize>)
    ensures
        match r {
            Some(k) => find_from(v@, p@, from as int) == Some(k as int) && k + p@.len() <= v@.len(),
            None => find_from(v@, p@, from as int) is None,
        },
{
    let n = v.len();
    let m = p.len();
    let mut i = from;
    while m <= n && i <= n - m
        invariant
            from <= i,
            n == v@.len(),
            m == p@.len(),
            find_from(v@, p@, from as int) == find_from(v@, p@, i as int),
        decreases n + 1 - i,
    {
        if matches_at(v, p, i) {
            return Some(i);
        }
        assert(m > 0) by {
            if m == 0 {
                assert(v@.subrange(i as int, i as int) =~= p@);
            }
        }
        i += 1;
    }
    None
}

/// `s` with every trailing `.` removed (`str::trim_end_matches('.')`).
pub open spec fn trim_end_dots(s: Seq<char>) -> Seq<char>
    decreases s.len(),
{
    if s.len() > 0 && s.last() == '.' {
        trim_end_dots(s.drop_last())
    } else {
        s
    }
}

/// `str::trim_end_matches('.')`.
pub fn trim_end_dots_of(v: &Vec<char>) -> (r: Vec<char>)
    ensures
        r@ == trim_end_dots(v@),
{
    let mut b = v.len();
    assert(v@.subrange(0, b as int) =~= v@);
    while b > 0 && v[b - 1] == '.'
        invariant
            b <= v@.len(),
            trim_end_dots(v@) == trim_end_dots(v@.subrange(0, b as int)),
        decreases b,
    {
        assert(v@.subrange(0, b as int).drop_last() =~= v@.subrange(0, b - 1));
        b -= 1;
    }
    slice_of(v, 0, b)
}


/// Lexicographic order by code point, which is the order `str` compares
/// in (UTF-8 byte order agrees with code point order).
pub open spec fn lex_lt(a: Seq<char>, b: Seq<char>) -> bool
    decreases a.len(),
{
    if a.len() == 0 {
        b.len() > 0
    } else if b.len() == 0 {
        false
    } else if a[0] != b[0] {
        (a[0] as u32) < (b[0] as u32)
    } else {
        lex_lt(a.drop_first(), b.drop_first())
    }
}

/// No sequence is below itself.
pub proof fn lemma_lex_irreflexive(a: Seq<char>)
    ensures
        !lex_lt(a, a),
    decreases a.len(),
{
    if a.len() > 0 {
        lemma_lex_irreflexive(a.drop_first());
    }
}

/// Two different sequences are ordered one way or the other, never both.
pub proof fn lemma_lex_total(a: Seq<char>, b: Seq<char>)
    ensures
        a != b ==> (lex_lt(a, b) || lex_lt(b, a)),
        !(lex_lt(a, b) && lex_lt(b, a)),
    decreases a.len(),
{
    if a.len() > 0 && b.len() > 0 {
        if a[0] == b[0] {
            lemma_lex_total(a.drop_first(), b.drop_first());
            if a != b {
                assert(a.drop_first() != b.drop_first()) by {
                    if a.drop_first() == b.drop_first() {
                        assert forall|k: int| 0 <= k < a.len() implies a[k] == b[k] by {
                            if k > 0 {
                                assert(a[k] == a.drop_first()[k - 1]);
                                assert(b[k] == b.drop_first()[k - 1]);
                            }
                        }
                        assert(a =~= b);
                    }
                }
            }
        } else {
            if (a[0] as u32) == (b[0] as u32) {
                vstd::utf8::char_u32_cast(a[0], a[0] as u32);
                vstd::utf8::char_u32_cast(b[0], b[0] as u32);
            }
        }
    } else if a.len() == 0 && b.len() == 0 {
        assert(a =~= b);
    }
}

/// The order is transitive.
pub proof fn lemma_lex_transitive(a: Seq<char>, b: Seq<char>, c: Seq<char>)
    requires
        lex_lt(a, b),
        lex_lt(b, c),
    ensures
        lex_lt(a, c),
    decreases a.len(),
{
    if a.len() > 0 && b.len() > 0 && c.len() > 0 {
        if a[0] == b[0] && b[0] == c[0] {
            lemma_lex_transitive(a.drop_first(), b.drop_first(), c.drop_first());
        } else {
            assert((a[0] as u32) <= (b[0] as u32));
        }
    }
}

/// With equal prefixes of length `i`, the order is decided by what follows.
proof fn lemma_lex_skip(a: Seq<char>, b: Seq<char>, i: int)
    requires
        0 <= i <= a.len(),
        i <= b.len(),
        a.subrange(0, i) == b.subrange(0, i),
    ensures
        lex_lt(a, b) == lex_lt(a.subrange(i, a.len() as int), b.subrange(i, b.len() as int)),
    decreases i,
{
    if i > 0 {
        assert(a[0] == a.subrange(0, i)[0]);
        assert(b[0] == b.subrange(0, i)[0]);
        assert(a.drop_first().subrange(0, i - 1) =~= a.subrange(0, i).drop_first());
        assert(b.drop_first().subrange(0, i - 1) =~= b.subrange(0, i).drop_first());
        lemma_lex_skip(a.drop_first(), b.drop_first(), i - 1);
        assert(a.drop_first().subrange(i - 1, a.len() - 1) =~= a.subrange(i, a.len() as int));
        assert(b.drop_first().subrange(i - 1, b.len() - 1) =~= b.subrange(i, b.len() as int));
    } else {
        assert(a.subrange(0, a.len() as int) =~= a);
        assert(b.subrange(0, b.len() as int) =~= b);
    }
}

/// `a < b` in the order `str` compares in.
pub fn lex_less(a: &Vec<char>, b: &Vec<char>) -> (r: bool)
    ensures
        r == lex_lt(a@, b@),
{
    let mut i: usize = 0;
    while i < a.len() && i < b.len() && a[i] == b[i]
        invariant
            i <= a@.len(),
            i <= b@.len(),
            a@.subrange(0, i as int) == b@.subrange(0, i as int),
        decreases a@.len() - i,
    {
        assert(a@.subrange(0, i + 1) =~= a@.subrange(0, i as int).push(a@[i as int]));
        assert(b@.subrange(0, i + 1) =~= b@.subrange(0, i as int).push(b@[i as int]));
        i += 1;
    }
    proof {
        lemma_lex_skip(a@, b@, i as int);
    }
    let ghost sa = a@.subrange(i as int, a@.len() as int);
    let ghost sb = b@.subrange(i as int, b@.len() as int);
    if i == a.len() {
        i < b.len()
    } else if i == b.len() {
        false
    } else {
        assert(sa[0] == a@[i as int]);
        assert(sb[0] == b@[i as int]);
        (a[i] as u32) < (b[i] as u32)
    }
}


/// White-space-separated words: the finished ones and the one in progress.
pub open spec fn word_runs(s: Seq<char>) -> (Seq<Seq<char>>, Seq<char>)
    decreases s.len(),
{
    if s.len() == 0 {
        (Seq::empty(), Seq::empty())
    } else {
        let (ws, cur) = word_runs(s.drop_last());
        let c = s.last();
        if is_white_space(c) {
            if cur.len() > 0 {
                (ws.push(cur), Seq::empty())
            } else {
                (ws, Seq::empty())
            }
        } else {
            (ws, cur.push(c))
        }
    }
}

/// `str::split_whitespace`.
pub open spec fn words(s: Seq<char>) -> Seq<Seq<char>> {
    let (ws, cur) = word_runs(s);
    if cur.len() > 0 {
        ws.push(cur)
    } else {
        ws
    }
}

/// `str::split_whitespace`.
pub fn split_whitespace_of(v: &Vec<char>) -> (r: Vec<Vec<char>>)
    ensures
        views(r@) == words(v@),
{
    let mut ws: Vec<Vec<char>> = Vec::new();
    let mut cur: Vec<char> = Vec::new();
    let mut i: usize = 0;
    assert(v@.subrange(0, 0) =~= Seq::<char>::empty());
    while i < v.len()
        invariant
            i <= v@.len(),
            (views(ws@), cur@) == word_runs(v@.subrange(0, i as int)),
        decreases v@.len() - i,
    {
        let c = v[i];
        assert(v@.subrange(0, i + 1).drop_last() =~= v@.subrange(0, i as int));
        let ghost before = ws@;
        if is_whitespace(c) {
            if cur.len() > 0 {
                ws.push(cur);
                assert(views(ws@) =~= views(before).push(word_runs(v@.subrange(0, i as int)).1));
            }
            cur = Vec::new();
        } else {
            cur.push(c);
        }
        i += 1;
    }
    assert(v@.subrange(0, i as int) =~= v@);
    if cur.len() > 0 {
        let ghost before = ws@;
        ws.push(cur);
        assert(views(ws@) =~= views(before).push(word_runs(v@).1));
    }
    ws
}


/// Appends the characters of a string slice.
pub fn push_str(v: &mut Vec<char>, s: &str)
    ensures
        final(v)@ == old(v)@ + s@,
{
    let c = chars_of(s);
    let ghost start = v@;
    let mut i: usize = 0;
    while i < c.len()
        invariant
            i <= c@.len(),
            v@ == start + c@.subrange(0, i as int),
        decreases c@.len() - i,
    {
        v.push(c[i]);
        i += 1;
        assert(v@ =~= start + c@.subrange(0, i as int));
    }
    assert(c@.subrange(0, i as int) =~= c@);
}

/// Appends some characters.
pub fn push_chars(v: &mut Vec<char>, c: &Vec<char>)
    ensures
        final(v)@ == old(v)@ + c@,
{
    let ghost start = v@;
    let mut i: usize = 0;
    while i < c.len()
        invariant
            i <= c@.len(),
            v@ == start + c@.subrange(0, i as int),
        decreases c@.len() - i,
    {
        v.push(c[i]);
        i += 1;
        assert(v@ =~= start + c@.subrange(0, i as int));
    }
    assert(c@.subrange(0, i as int) =~= c@);
}

/// The decimal digit for `d < 10`.
pub open spec fn digit_char(d: nat) -> char {
    ((d + 48) as u8) as char
}

/// The decimal representation of `n` (as `{}` formats it).
pub open spec fn decimal(n: nat) -> Seq<char>
    decreases n,
{
    if n < 10 {
        seq![digit_char(n)]
    } else {
        decimal(n / 10).push(digit_char(n % 10))
    }
}

/// `n` in decimal, left-padded with zeros to at least `w` characters (as
/// `{:0w}` formats a non-negative number).
pub open spec fn zero_padded(n: nat, w: nat) -> Seq<char> {
    let d = decimal(n);
    if d.len() < w {
        Seq::new((w - d.len()) as nat, |i: int| '0') + d
    } else {
        d
    }
}

/// The decimal representation of `n`.
pub fn decimal_of(n: u64) -> (r: Vec<char>)
    ensures
        r@ == decimal(n as nat),
    decreases n,
{
    if n < 10 {
        let mut r: Vec<char> = Vec::new();
        r.push(((n + 48) as u8) as char);
        r
    } else {
        let mut r = decimal_of(n / 10);
        r.push(((n % 10 + 48) as u8) as char);
        r
    }
}

/// `n` in decimal, zero-padded to at least `w` characters.
pub fn zero_padded_of(n: u64, w: usize) -> (r: Vec<char>)
    ensures
        r@ == zero_padded(n as nat, w as nat),
{
    let d = decimal_of(n);
    if d.len() < w {
        let mut r: Vec<char> = Vec::new();
        let pad = w - d.len();
        let mut i: usize = 0;
        while i < pad
            invariant
                i <= pad,
                r@ == Seq::new(i as nat, |k: int| '0'),
            decreases pad - i,
        {
            r.push('0');
            i += 1;
            assert(r@ =~= Seq::new(i as nat, |k: int| '0'));
        }
        push_chars(&mut r, &d);
        r
    } else {
        d
    }
}


/// The pieces joined end to end.
pub open spec fn concat(ss: Seq<Seq<char>>) -> Seq<char>
    decreases ss.len(),
{
    if ss.len() == 0 {
        Seq::empty()
    } else {
        concat(ss.drop_last()) + ss.last()
    }
}

/// UTF-8 length adds up over concatenation.
pub proof fn lemma_utf8_len_add(a: Seq<char>, b: Seq<char>)
    ensures
        utf8_len(a + b) == utf8_len(a) + utf8_len(b),
    decreases b.len(),
{
    if b.len() == 0 {
        assert(a + b =~= a);
    } else {
        lemma_utf8_len_add(a, b.drop_last());
        assert((a + b).drop_last() =~= a + b.drop_last());
        assert((a + b).last() == b.last());
    }
}

/// Longer prefixes take strictly more bytes.
pub proof fn lemma_utf8_prefix_monotone(s: Seq<char>, k1: int, k2: int)
    requires
        0 <= k1 <= k2 <= s.len(),
    ensures
        utf8_len(s.subrange(0, k1)) <= utf8_len(s.subrange(0, k2)),
        k1 < k2 ==> utf8_len(s.subrange(0, k1)) < utf8_len(s.subrange(0, k2)),
    decreases k2 - k1,
{
    if k1 < k2 {
        lemma_utf8_prefix_monotone(s, k1, k2 - 1);
        assert(s.subrange(0, k2).drop_last() =~= s.subrange(0, k2 - 1));
    }
}

/// Concatenation distributes over splitting the pieces.
pub proof fn lemma_concat_split(ss: Seq<Seq<char>>, j: int)
    requires
        0 <= j <= ss.len(),
    ensures
        concat(ss) == concat(ss.subrange(0, j)) + concat(ss.subrange(j, ss.len() as int)),
    decreases ss.len(),
{
    if j == ss.len() {
        assert(ss.subrange(0, j) =~= ss);
        assert(ss.subrange(j, ss.len() as int) =~= Seq::<Seq<char>>::empty());
        assert(concat(ss) + Seq::<char>::empty() =~= concat(ss));
    } else {
        lemma_concat_split(ss.drop_last(), j);
        assert(ss.drop_last().subrange(0, j) =~= ss.subrange(0, j));
        let rest = ss.subrange(j, ss.len() as int);
        assert(rest.drop_last() =~= ss.drop_last().subrange(j, ss.len() - 1));
        assert(rest.last() == ss.last());
    }
}

} // verus!
