//! Character-level text utilities: whitespace, trimming, line splitting,
//! decimal numbers. Strings are handled as `Vec<char>` inside the library
//! and converted at the edges.

use vstd::prelude::*;

verus! {

// ---------------------------------------------------------------------------
// Whitespace
// ---------------------------------------------------------------------------

/// The Unicode `White_Space` property (what `char::is_whitespace`, `str::trim`
/// and the regex class `\s` accept).
pub open spec fn is_ws(c: char) -> bool {
    let x = c as u32;
    ||| (0x9 <= x && x <= 0xd)
    ||| x == 0x20
    ||| x == 0x85
    ||| x == 0xa0
    ||| x == 0x1680
    ||| (0x2000 <= x && x <= 0x200a)
    ||| x == 0x2028
    ||| x == 0x2029
    ||| x == 0x202f
    ||| x == 0x205f
    ||| x == 0x3000
}

pub fn is_ws_char(c: char) -> (b: bool)
    ensures
        b == is_ws(c),
{
    let x = c as u32;
    (0x9 <= x && x <= 0xd) || x == 0x20 || x == 0x85 || x == 0xa0 || x == 0x1680 || (0x2000
        <= x && x <= 0x200a) || x == 0x2028 || x == 0x2029 || x == 0x202f || x == 0x205f || x
        == 0x3000
}

pub open spec fn is_ascii_digit(c: char) -> bool {
    '0' <= c && c <= '9'
}

/// Index of the first non-whitespace character at or after `i`.
pub open spec fn skip_ws_from(s: Seq<char>, i: int) -> int
    decreases s.len() - i,
{
    if 0 <= i < s.len() && is_ws(s[i]) {
        skip_ws_from(s, i + 1)
    } else {
        i
    }
}

/// One past the last non-whitespace character at or before `j`.
pub open spec fn back_ws_from(s: Seq<char>, j: int) -> int
    decreases j,
{
    if 0 < j <= s.len() && is_ws(s[j - 1]) {
        back_ws_from(s, j - 1)
    } else {
        j
    }
}

pub open spec fn trim_start(s: Seq<char>) -> Seq<char> {
    s.skip(skip_ws_from(s, 0))
}

pub open spec fn trim_end(s: Seq<char>) -> Seq<char> {
    s.take(back_ws_from(s, s.len() as int))
}

/// What `str::trim` returns.
pub open spec fn trim(s: Seq<char>) -> Seq<char> {
    trim_end(trim_start(s))
}

pub proof fn lemma_skip_ws_from(s: Seq<char>, i: int)
    requires
        0 <= i <= s.len(),
    ensures
        i <= skip_ws_from(s, i) <= s.len(),
        forall|k: int| i <= k < skip_ws_from(s, i) ==> is_ws(#[trigger] s[k]),
        skip_ws_from(s, i) < s.len() ==> !is_ws(s[skip_ws_from(s, i)]),
    decreases s.len() - i,
{
    if i < s.len() && is_ws(s[i]) {
        lemma_skip_ws_from(s, i + 1);
    }
}

pub proof fn lemma_back_ws_from(s: Seq<char>, j: int)
    requires
        0 <= j <= s.len(),
    ensures
        0 <= back_ws_from(s, j) <= j,
        forall|k: int| back_ws_from(s, j) <= k < j ==> is_ws(#[trigger] s[k]),
        back_ws_from(s, j) > 0 ==> !is_ws(s[back_ws_from(s, j) - 1]),
    decreases j,
{
    if j > 0 && is_ws(s[j - 1]) {
        lemma_back_ws_from(s, j - 1);
    }
}

// ---------------------------------------------------------------------------
// Conversions between `&str`/`String` and `Vec<char>`
// ---------------------------------------------------------------------------

/// The characters of a string slice, in order.
#[verifier::external_body]
pub(crate) fn chars_of(s: &str) -> (v: Vec<char>)
    ensures
        v@ == s@,
{
    s.chars().collect()
}

/// The string made of the given characters.
#[verifier::external_body]
pub(crate) fn string_of(v: &[char]) -> (s: String)
    ensures
        s@ == v@,
{
    v.iter().collect()
}

/// A copy of `v[from..to]`.
pub fn slice_chars(v: &Vec<char>, from: usize, to: usize) -> (r: Vec<char>)
    requires
        from <= to <= v.len(),
    ensures
        r@ == v@.subrange(from as int, to as int),
{
    let mut r: Vec<char> = Vec::new();
    let mut i = from;
    while i < to
        invariant
            from <= i <= to <= v.len(),
            r@ == v@.subrange(from as int, i as int),
        decreases to - i,
    {
        r.push(v[i]);
        i = i + 1;
    }
    r
}

/// The string made of `v[from..to]`.
pub fn string_of_range(v: &Vec<char>, from: usize, to: usize) -> (s: String)
    requires
        from <= to <= v.len(),
    ensures
        s@ == v@.subrange(from as int, to as int),
{
    let r = slice_chars(v, from, to);
    string_of(r.as_slice())
}

/// Appends all characters of `w` to `v`.
pub fn push_all(v: &mut Vec<char>, w: &Vec<char>)
    ensures
        final(v)@ == old(v)@ + w@,
{
    let mut i: usize = 0;
    let ghost v0 = v@;
    while i < w.len()
        invariant
            i <= w.len(),
            v@ == v0 + w@.take(i as int),
        decreases w.len() - i,
    {
        v.push(w[i]);
        i = i + 1;
        assert(w@.take(i as int) == w@.take((i - 1) as int).push(w@[i - 1]));
    }
    assert(w@.take(w.len() as int) == w@);
}

/// Appends all characters of `s` to `v`.
pub fn push_str(v: &mut Vec<char>, s: &str)
    ensures
        final(v)@ == old(v)@ + s@,
{
    let w = chars_of(s);
    push_all(v, &w);
}

/// Whether two character sequences are equal.
pub fn chars_eq(a: &Vec<char>, b: &Vec<char>) -> (r: bool)
    ensures
        r == (a@ == b@),
{
    if a.len() != b.len() {
        return false;
    }
    let mut i: usize = 0;
    while i < a.len()
        invariant
            a.len() == b.len(),
            i <= a.len(),
            forall|k: int| 0 <= k < i ==> a@[k] == b@[k],
        decreases a.len() - i,
    {
        if a[i] != b[i] {
            return false;
        }
        i = i + 1;
    }
    assert(a@ =~= b@);
    true
}

/// Whether `a` equals the string `s`.
pub fn chars_eq_str(a: &Vec<char>, s: &str) -> (r: bool)
    ensures
        r == (a@ == s@),
{
    let b = chars_of(s);
    chars_eq(a, &b)
}

/// Whether two string slices are equal.
pub fn str_eq(a: &str, b: &str) -> (r: bool)
    ensures
        r == (a@ == b@),
{
    let x = chars_of(a);
    let y = chars_of(b);
    chars_eq(&x, &y)
}

/// Whether `v[at..]` starts with `p`.
pub open spec fn has_prefix_at(v: Seq<char>, at: int, p: Seq<char>) -> bool {
    0 <= at && at + p.len() <= v.len() && v.subrange(at, at + p.len()) == p
}

pub fn starts_with_at(v: &Vec<char>, at: usize, p: &Vec<char>) -> (r: bool)
    requires
        at <= v.len(),
    ensures
        r == has_prefix_at(v@, at as int, p@),
{
    if p.len() > v.len() - at {
        return false;
    }
    let mut i: usize = 0;
    while i < p.len()
        invariant
            at + p.len() <= v.len(),
            i <= p.len(),
            forall|k: int| 0 <= k < i ==> v@[at + k] == p@[k],
        decreases p.len() - i,
    {
        if v[at + i] != p[i] {
            return false;
        }
        i = i + 1;
    }
    assert(v@.subrange(at as int, at + p.len()) =~= p@);
    true
}

pub fn starts_with_str_at(v: &Vec<char>, at: usize, p: &str) -> (r: bool)
    requires
        at <= v.len(),
    ensures
        r == has_prefix_at(v@, at as int, p@),
{
    let w = chars_of(p);
    starts_with_at(v, at, &w)
}

/// Whether `s` ends with `p`.
pub open spec fn has_suffix(s: Seq<char>, p: Seq<char>) -> bool {
    p.len() <= s.len() && s.subrange(s.len() - p.len(), s.len() as int) == p
}

pub fn ends_with_str(v: &Vec<char>, p: &str) -> (r: bool)
    ensures
        r == has_suffix(v@, p@),
{
    let w = chars_of(p);
    if w.len() > v.len() {
        return false;
    }
    let at = v.len() - w.len();
    let r = starts_with_at(v, at, &w);
    assert(r == has_suffix(v@, p@));
    r
}

// ---------------------------------------------------------------------------
// Searching
// ---------------------------------------------------------------------------

/// Index of the first occurrence of `c` in `s` at or after `i`, if any.
pub open spec fn find_from(s: Seq<char>, c: char, i: int) -> Option<int>
    decreases s.len() - i,
{
    if i < 0 || i >= s.len() {
        None
    } else if s[i] == c {
        Some(i)
    } else {
        find_from(s, c, i + 1)
    }
}

pub proof fn lemma_find_from(s: Seq<char>, c: char, i: int)
    requires
        0 <= i <= s.len(),
    ensures
        match find_from(s, c, i) {
            Some(k) => i <= k < s.len() && s[k] == c && forall|j: int|
                i <= j < k ==> #[trigger] s[j] != c,
            None => forall|j: int| i <= j < s.len() ==> #[trigger] s[j] != c,
        },
    decreases s.len() - i,
{
    if i < s.len() && s[i] != c {
        lemma_find_from(s, c, i + 1);
    }
}

/// The first `c` at or after `i` is at `k`.
pub proof fn lemma_find_from_at(s: Seq<char>, c: char, i: int, k: int)
    requires
        0 <= i <= k < s.len(),
        s[k] == c,
        forall|j: int| i <= j < k ==> #[trigger] s[j] != c,
    ensures
        find_from(s, c, i) == Some(k),
    decreases k - i,
{
    if i < k {
        lemma_find_from_at(s, c, i + 1, k);
    }
}

/// No `c` at or after `i`.
pub proof fn lemma_find_from_none(s: Seq<char>, c: char, i: int)
    requires
        0 <= i,
        forall|j: int| i <= j < s.len() ==> #[trigger] s[j] != c,
    ensures
        find_from(s, c, i) is None,
    decreases s.len() - i,
{
    if i < s.len() {
        lemma_find_from_none(s, c, i + 1);
    }
}

pub fn find_char_from(v: &Vec<char>, c: char, i: usize) -> (r: Option<usize>)
    requires
        i <= v.len(),
    ensures
        match r {
            Some(k) => find_from(v@, c, i as int) == Some(k as int),
            None => find_from(v@, c, i as int) is None,
        },
{
    let mut k = i;
    while k < v.len()
        invariant
            i <= k <= v.len(),
            find_from(v@, c, i as int) == find_from(v@, c, k as int),
        decreases v.len() - k,
    {
        if v[k] == c {
            return Some(k);
        }
        k = k + 1;
    }
    None
}

pub fn contains_char(v: &Vec<char>, c: char) -> (r: bool)
    ensures
        r == v@.contains(c),
{
    let mut k: usize = 0;
    while k < v.len()
        invariant
            k <= v.len(),
            forall|j: int| 0 <= j < k ==> v@[j] != c,
        decreases v.len() - k,
    {
        if v[k] == c {
            assert(v@[k as int] == c);
            return true;
        }
        k = k + 1;
    }
    false
}

// ---------------------------------------------------------------------------
// Trimming
// ---------------------------------------------------------------------------

pub fn skip_ws(v: &Vec<char>, i: usize) -> (r: usize)
    requires
        i <= v.len(),
    ensures
        r == skip_ws_from(v@, i as int),
        i <= r <= v.len(),
{
    let mut k = i;
    while k < v.len() && is_ws_char(v[k])
        invariant
            i <= k <= v.len(),
            skip_ws_from(v@, k as int) == skip_ws_from(v@, i as int),
        decreases v.len() - k,
    {
        k = k + 1;
    }
    k
}

pub fn back_ws(v: &Vec<char>, j: usize) -> (r: usize)
    requires
        j <= v.len(),
    ensures
        r == back_ws_from(v@, j as int),
        r <= j,
{
    let mut k = j;
    while k > 0 && is_ws_char(v[k - 1])
        invariant
            k <= j <= v.len(),
            back_ws_from(v@, k as int) == back_ws_from(v@, j as int),
        decreases k,
    {
        k = k - 1;
    }
    k
}

pub fn trim_start_chars(v: &Vec<char>) -> (r: Vec<char>)
    ensures
        r@ == trim_start(v@),
{
    let a = skip_ws(v, 0);
    let r = slice_chars(v, a, v.len());
    assert(r@ =~= v@.skip(a as int));
    r
}

pub fn trim_end_chars(v: &Vec<char>) -> (r: Vec<char>)
    ensures
        r@ == trim_end(v@),
{
    let b = back_ws(v, v.len());
    let r = slice_chars(v, 0, b);
    assert(r@ =~= v@.take(b as int));
    r
}

pub fn trim_chars(v: &Vec<char>) -> (r: Vec<char>)
    ensures
        r@ == trim(v@),
{
    let t = trim_start_chars(v);
    trim_end_chars(&t)
}

/// `trim` of a string, as a `String`.
pub fn trim_string(s: &str) -> (r: String)
    ensures
        r@ == trim(s@),
{
    let v = chars_of(s);
    let t = trim_chars(&v);
    string_of(t.as_slice())
}

// ---------------------------------------------------------------------------
// Lines (`str::lines`)
// ---------------------------------------------------------------------------

/// A line without the `\r` of a `\r\n` ending.
pub open spec fn strip_cr(s: Seq<char>) -> Seq<char> {
    if s.len() > 0 && s.last() == '\r' {
        s.drop_last()
    } else {
        s
    }
}

/// The lines of `s` starting at index `i`, as `str::lines` yields them.
pub open spec fn lines_from(s: Seq<char>, i: int) -> Seq<Seq<char>>
    decreases s.len() - i,
{
    if i < 0 || i >= s.len() {
        seq![]
    } else {
        proof {
            lemma_find_from(s, '\n', i);
        }
        match find_from(s, '\n', i) {
            None => seq![s.subrange(i, s.len() as int)],
            Some(k) => seq![strip_cr(s.subrange(i, k))] + lines_from(s, k + 1),
        }
    }
}

/// What `str::lines` yields: pieces split at `\n`, each without a trailing
/// `\r` that preceded the `\n`; no final empty piece.
pub open spec fn lines(s: Seq<char>) -> Seq<Seq<char>> {
    lines_from(s, 0)
}

/// Lines, each followed by a line feed.
pub open spec fn nl_text(ls: Seq<Seq<char>>) -> Seq<char>
    decreases ls.len(),
{
    if ls.len() == 0 {
        seq![]
    } else {
        nl_text(ls.drop_last()) + ls.last() + seq!['\n']
    }
}

/// A line `str::lines` gives back as it is: no line feed in it, and no
/// carriage return at its end.
pub open spec fn plain_line(l: Seq<char>) -> bool {
    &&& forall|i: int| 0 <= i < l.len() ==> #[trigger] l[i] != '\n'
    &&& l.len() > 0 ==> l.last() != '\r'
}

pub proof fn lemma_lines_from_shift(s: Seq<char>, i: int)
    requires
        0 <= i <= s.len(),
    ensures
        lines_from(s, i) == lines_from(s.skip(i), 0),
    decreases s.len() - i,
{
    let t = s.skip(i);
    lemma_find_from_skip(s, '\n', i, 0);
    if i < s.len() {
        lemma_find_from(s, '\n', i);
        match find_from(s, '\n', i) {
            None => {
                assert(s.subrange(i, s.len() as int) =~= t.subrange(0, t.len() as int));
            },
            Some(k) => {
                assert(s.subrange(i, k) =~= t.subrange(0, k - i));
                lemma_lines_from_shift(s, k + 1);
                lemma_lines_from_shift(t, k - i + 1);
                assert(t.skip(k - i + 1) =~= s.skip(k + 1));
            },
        }
    }
}

pub proof fn lemma_nl_text_append(a: Seq<Seq<char>>, b: Seq<Seq<char>>)
    ensures
        nl_text(a + b) == nl_text(a) + nl_text(b),
    decreases b.len(),
{
    if b.len() == 0 {
        assert(a + b =~= a);
    } else {
        lemma_nl_text_append(a, b.drop_last());
        assert((a + b).drop_last() =~= a + b.drop_last());
        assert((a + b).last() == b.last());
    }
}

/// Reading the lines of lines each followed by a line feed gives them back.
pub proof fn lemma_lines_nl_text(ls: Seq<Seq<char>>)
    requires
        forall|i: int| 0 <= i < ls.len() ==> plain_line(#[trigger] ls[i]),
    ensures
        lines(nl_text(ls)) == ls,
    decreases ls.len(),
{
    if ls.len() == 0 {
        assert(lines(nl_text(ls)) =~= ls);
    } else {
        let l0 = ls[0];
        let rest = ls.skip(1);
        assert(ls =~= seq![l0] + rest);
        lemma_nl_text_append(seq![l0], rest);
        assert(seq![l0].drop_last() =~= Seq::<Seq<char>>::empty());
        assert(seq![l0].last() == l0);
        assert(nl_text(Seq::<Seq<char>>::empty()) =~= Seq::<char>::empty());
        assert(nl_text(seq![l0]) =~= l0 + seq!['\n']);
        let s = nl_text(ls);
        assert(s == l0 + seq!['\n'] + nl_text(rest));
        assert(plain_line(ls[0]));
        assert forall|j: int| 0 <= j < l0.len() implies #[trigger] s[j] != '\n' by {
            assert(s[j] == l0[j]);
        }
        lemma_find_from_at(s, '\n', 0, l0.len() as int);
        assert(s.subrange(0, l0.len() as int) =~= l0);
        lemma_lines_from_shift(s, l0.len() + 1int);
        assert(s.skip(l0.len() + 1int) =~= nl_text(rest));
        assert forall|i: int| 0 <= i < rest.len() implies plain_line(#[trigger] rest[i]) by {
            assert(rest[i] == ls[i + 1]);
        }
        lemma_lines_nl_text(rest);
        assert(lines(s) =~= seq![l0] + rest);
    }
}

/// Reading the lines of plain lines, each followed by a line feed, and then
/// more text gives those lines, then the lines of the rest.
pub proof fn lemma_lines_nl_text_then(ls: Seq<Seq<char>>, b: Seq<char>)
    requires
        forall|i: int| 0 <= i < ls.len() ==> plain_line(#[trigger] ls[i]),
    ensures
        lines(nl_text(ls) + b) == ls + lines(b),
    decreases ls.len(),
{
    if ls.len() == 0 {
        assert(nl_text(ls) + b =~= b);
        assert(ls + lines(b) =~= lines(b));
    } else {
        let l0 = ls[0];
        let rest = ls.skip(1);
        assert(ls =~= seq![l0] + rest);
        lemma_nl_text_append(seq![l0], rest);
        assert(seq![l0].drop_last() =~= Seq::<Seq<char>>::empty());
        assert(nl_text(Seq::<Seq<char>>::empty()) =~= Seq::<char>::empty());
        assert(nl_text(seq![l0]) =~= l0 + seq!['\n']);
        let s = nl_text(ls) + b;
        assert(s =~= l0 + seq!['\n'] + (nl_text(rest) + b));
        assert(plain_line(ls[0]));
        assert forall|j: int| 0 <= j < l0.len() implies #[trigger] s[j] != '\n' by {
            assert(s[j] == l0[j]);
        }
        lemma_find_from_at(s, '\n', 0, l0.len() as int);
        assert(s.subrange(0, l0.len() as int) =~= l0);
        lemma_lines_from_shift(s, l0.len() + 1int);
        assert(s.skip(l0.len() + 1int) =~= nl_text(rest) + b);
        assert forall|i: int| 0 <= i < rest.len() implies plain_line(#[trigger] rest[i]) by {
            assert(rest[i] == ls[i + 1]);
        }
        lemma_lines_nl_text_then(rest, b);
        assert(lines(s) =~= seq![l0] + (rest + lines(b)));
        assert(seq![l0] + (rest + lines(b)) =~= ls + lines(b));
    }
}

/// Splits `v` into its lines.
pub fn split_lines(v: &Vec<char>) -> (r: Vec<Vec<char>>)
    ensures
        r@.len() == lines(v@).len(),
        forall|i: int| 0 <= i < r@.len() ==> (#[trigger] r@[i])@ == lines(v@)[i],
{
    let mut r: Vec<Vec<char>> = Vec::new();
    let mut i: usize = 0;
    let ghost done: Seq<Seq<char>> = seq![];
    while i < v.len()
        invariant
            i <= v.len(),
            r@.len() == done.len(),
            forall|j: int| 0 <= j < r@.len() ==> (#[trigger] r@[j])@ == done[j],
            done + lines_from(v@, i as int) == lines(v@),
        decreases v.len() - i,
    {
        proof {
            lemma_find_from(v@, '\n', i as int);
        }
        match find_char_from(v, '\n', i) {
            None => {
                let line = slice_chars(v, i, v.len());
                proof {
                    done = done.push(line@);
                }
                r.push(line);
                i = v.len();
                assert(lines_from(v@, i as int) == Seq::<Seq<char>>::empty());
            },
            Some(k) => {
                let mut end = k;
                if end > i && v[end - 1] == '\r' {
                    end = end - 1;
                }
                let line = slice_chars(v, i, end);
                assert(line@ == strip_cr(v@.subrange(i as int, k as int)));
                proof {
                    done = done.push(line@);
                }
                r.push(line);
                i = k + 1;
            },
        }
    }
    assert(lines_from(v@, i as int) == Seq::<Seq<char>>::empty());
    assert(done =~= lines(v@));
    r
}

// ---------------------------------------------------------------------------
// Decimal numbers
// ---------------------------------------------------------------------------

pub open spec fn digit_value(c: char) -> int {
    c as int - '0' as int
}

pub open spec fn all_digits(s: Seq<char>) -> bool {
    forall|i: int| 0 <= i < s.len() ==> is_ascii_digit(#[trigger] s[i])
}

/// The value of a run of ASCII digits.
pub open spec fn decimal_value(s: Seq<char>) -> nat
    decreases s.len(),
{
    if s.len() == 0 {
        0
    } else {
        (decimal_value(s.drop_last()) * 10 + digit_value(s.last())) as nat
    }
}

/// What `str::parse::<u32>` accepts: an optional `+`, then at least one ASCII
/// digit, with a value that fits in a `u32`.
pub open spec fn parse_u32_spec(s: Seq<char>) -> Option<u32> {
    let d = if s.len() > 0 && s[0] == '+' {
        s.drop_first()
    } else {
        s
    };
    if d.len() > 0 && all_digits(d) && decimal_value(d) <= u32::MAX {
        Some(decimal_value(d) as u32)
    } else {
        None
    }
}

/// What `str::parse::<i32>` accepts: an optional sign, then at least one ASCII
/// digit, with a value that fits in an `i32`.
pub open spec fn parse_i32_spec(s: Seq<char>) -> Option<i32> {
    let neg = s.len() > 0 && s[0] == '-';
    let d = if s.len() > 0 && (s[0] == '+' || s[0] == '-') {
        s.drop_first()
    } else {
        s
    };
    if d.len() > 0 && all_digits(d) {
        if neg && decimal_value(d) <= 0x8000_0000 {
            Some((0 - decimal_value(d)) as i32)
        } else if !neg && decimal_value(d) <= i32::MAX {
            Some(decimal_value(d) as i32)
        } else {
            None
        }
    } else {
        None
    }
}

pub proof fn lemma_decimal_value_prefix(s: Seq<char>, k: int)
    requires
        0 <= k <= s.len(),
        all_digits(s),
    ensures
        decimal_value(s.take(k)) <= decimal_value(s),
    decreases s.len() - k,
{
    if k < s.len() {
        lemma_decimal_value_prefix(s, k + 1);
        let t = s.take(k + 1);
        assert(t.drop_last() =~= s.take(k));
        assert(is_ascii_digit(s[k]));
        assert(decimal_value(t) == decimal_value(s.take(k)) * 10 + digit_value(s[k]));
    } else {
        assert(s.take(k) =~= s);
    }
}

/// Parses the digits `v[from..to]`; `None` when some character is not an
/// ASCII digit, the run is empty, or the value exceeds `u32::MAX`.
pub fn parse_digits_u32(v: &Vec<char>, from: usize, to: usize) -> (r: Option<u32>)
    requires
        from <= to <= v.len(),
    ensures
        ({
            let d = v@.subrange(from as int, to as int);
            r == (if d.len() > 0 && all_digits(d) && decimal_value(d) <= u32::MAX {
                Some(decimal_value(d) as u32)
            } else {
                None
            })
        }),
{
    let ghost d = v@.subrange(from as int, to as int);
    if from == to {
        return None;
    }
    let mut acc: u64 = 0;
    let mut i = from;
    while i < to
        invariant
            from <= i <= to <= v.len(),
            d == v@.subrange(from as int, to as int),
            all_digits(d.take(i - from)),
            acc == decimal_value(d.take(i - from)),
            acc <= u32::MAX,
        decreases to - i,
    {
        let c = v[i];
        if c < '0' || c > '9' {
            assert(!is_ascii_digit(d[i - from]));
            return None;
        }
        let dv = (c as u32 - '0' as u32) as u64;
        let next = acc * 10 + dv;
        proof {
            let t = d.take(i - from + 1);
            assert(t.drop_last() =~= d.take(i - from));
            assert(t.last() == c);
            assert(all_digits(t));
        }
        if next > 0xffff_ffff {
            proof {
                if all_digits(d) {
                    lemma_decimal_value_prefix(d, i - from + 1);
                }
            }
            return None;
        }
        acc = next;
        i = i + 1;
    }
    assert(d.take(to - from) =~= d);
    Some(acc as u32)
}

/// `str::parse::<u32>` on `v[from..to]`.
pub fn parse_u32_range(v: &Vec<char>, from: usize, to: usize) -> (r: Option<u32>)
    requires
        from <= to <= v.len(),
    ensures
        r == parse_u32_spec(v@.subrange(from as int, to as int)),
{
    let ghost s = v@.subrange(from as int, to as int);
    if from < to && v[from] == '+' {
        assert(s.drop_first() =~= v@.subrange(from + 1, to as int));
        parse_digits_u32(v, from + 1, to)
    } else {
        parse_digits_u32(v, from, to)
    }
}

/// `str::parse::<u32>`.
pub fn parse_u32(v: &Vec<char>) -> (r: Option<u32>)
    ensures
        r == parse_u32_spec(v@),
{
    assert(v@.subrange(0, v.len() as int) =~= v@);
    parse_u32_range(v, 0, v.len())
}

pub open spec fn digit_char(d: int) -> char {
    (d + '0' as int) as char
}

/// The decimal representation of `n` without leading zeros (`"0"` for zero),
/// as `format!("{}", n)` writes it.
pub open spec fn decimal(n: nat) -> Seq<char>
    decreases n,
{
    if n < 10 {
        seq![digit_char(n as int)]
    } else {
        decimal(n / 10).push(digit_char((n % 10) as int))
    }
}

pub proof fn lemma_decimal_digits(n: nat)
    ensures
        all_digits(decimal(n)),
        decimal(n).len() >= 1,
        decimal_value(decimal(n)) == n,
        n >= 10 ==> decimal(n)[0] != '0',
    decreases n,
{
    if n >= 10 {
        lemma_decimal_digits(n / 10);
        let s = decimal(n);
        assert(s.drop_last() =~= decimal(n / 10));
        assert(s[0] == decimal(n / 10)[0]);
        assert(digit_value(digit_char((n % 10) as int)) == n % 10);
        assert((n / 10) * 10 + n % 10 == n);
        assert(s.last() == digit_char((n % 10) as int));
        assert(decimal_value(s) == decimal_value(s.drop_last()) * 10 + digit_value(s.last()));
        assert(all_digits(s)) by {
            assert forall|i: int| 0 <= i < s.len() implies is_ascii_digit(#[trigger] s[i]) by {
                if i < s.len() - 1 {
                    assert(s[i] == decimal(n / 10)[i]);
                }
            }
        }
    } else {
        assert(digit_value(digit_char(n as int)) == n);
        assert(decimal(n).drop_last() =~= Seq::<char>::empty());
        assert(decimal_value(Seq::<char>::empty()) == 0);
        assert(decimal_value(decimal(n)) == decimal_value(decimal(n).drop_last()) * 10
            + digit_value(decimal(n).last()));
    }
}

/// A decimal numeral reads back as its number.
pub proof fn lemma_parse_u32_decimal(n: u32)
    ensures
        parse_u32_spec(decimal(n as nat)) == Some(n),
{
    lemma_decimal_digits(n as nat);
    let d = decimal(n as nat);
    assert(d[0] != '+') by {
        assert(is_ascii_digit(d[0]));
    }
}

/// Text that neither starts nor ends with whitespace is its own trim.
pub proof fn lemma_trim_no_ws(s: Seq<char>)
    requires
        s.len() > 0 ==> !is_ws(s[0]) && !is_ws(s.last()),
    ensures
        trim(s) == s,
{
    if s.len() > 0 {
        assert(skip_ws_from(s, 0) == 0);
        assert(s.skip(0) =~= s);
        assert(back_ws_from(s, s.len() as int) == s.len());
        assert(s.take(s.len() as int) =~= s);
    } else {
        assert(s.skip(0) =~= s);
        assert(s.take(0) =~= s);
    }
}

/// Whether the text has no whitespace at either end.
pub open spec fn trimmed(s: Seq<char>) -> bool {
    s.len() > 0 ==> !is_ws(s[0]) && !is_ws(s.last())
}

/// The whitespace run from `i` ends at `k`.
pub proof fn lemma_skip_ws_at(s: Seq<char>, i: int, k: int)
    requires
        0 <= i <= k <= s.len(),
        forall|j: int| i <= j < k ==> is_ws(#[trigger] s[j]),
        k < s.len() ==> !is_ws(s[k]),
    ensures
        skip_ws_from(s, i) == k,
    decreases k - i,
{
    if i < k {
        lemma_skip_ws_at(s, i + 1, k);
    }
}

/// The whitespace run before `j` starts at `k`.
pub proof fn lemma_back_ws_at(s: Seq<char>, j: int, k: int)
    requires
        0 <= k <= j <= s.len(),
        forall|m: int| k <= m < j ==> is_ws(#[trigger] s[m]),
        k > 0 ==> !is_ws(s[k - 1]),
    ensures
        back_ws_from(s, j) == k,
    decreases j - k,
{
    if k < j {
        lemma_back_ws_at(s, j - 1, k);
    }
}

/// Trimming whitespace followed by a trimmed text gives that text.
pub proof fn lemma_trim_ws_then(w: Seq<char>, x: Seq<char>)
    requires
        forall|i: int| 0 <= i < w.len() ==> is_ws(#[trigger] w[i]),
        trimmed(x),
    ensures
        trim(w + x) == x,
{
    let s = w + x;
    let n = w.len() as int;
    if x.len() == 0 {
        assert forall|j: int| 0 <= j < s.len() implies is_ws(#[trigger] s[j]) by {
            assert(s[j] == w[j]);
        }
        lemma_skip_ws_at(s, 0, s.len() as int);
        assert(trim_start(s) =~= Seq::<char>::empty());
        assert(trim(s) =~= x);
    } else {
        assert forall|j: int| 0 <= j < n implies is_ws(#[trigger] s[j]) by {
            assert(s[j] == w[j]);
        }
        assert(s[n] == x[0]);
        lemma_skip_ws_at(s, 0, n);
        assert(trim_start(s) =~= x);
        lemma_trim_no_ws(x);
    }
}

/// Appends the decimal representation of `n` to `v`.
pub fn push_decimal(v: &mut Vec<char>, n: u64)
    ensures
        final(v)@ == old(v)@ + decimal(n as nat),
    decreases n,
{
    if n >= 10 {
        push_decimal(v, n / 10);
    }
    let d = (n % 10) as u32;
    let c = char_from_digit(d);
    v.push(c);
    proof {
        if n >= 10 {
            assert(decimal(n as nat) == decimal((n / 10) as nat).push(digit_char((n % 10) as int)));
        }
    }
}

pub fn char_from_digit(d: u32) -> (c: char)
    requires
        d < 10,
    ensures
        c == digit_char(d as int),
{
    match d {
        0 => '0',
        1 => '1',
        2 => '2',
        3 => '3',
        4 => '4',
        5 => '5',
        6 => '6',
        7 => '7',
        8 => '8',
        _ => '9',
    }
}

/// The decimal representation of `n`.
pub fn decimal_string(n: u64) -> (s: String)
    ensures
        s@ == decimal(n as nat),
{
    let mut v: Vec<char> = Vec::new();
    push_decimal(&mut v, n);
    assert(v@ =~= decimal(n as nat));
    string_of(v.as_slice())
}

/// Two-digit zero-padded representation (`%02`), for `n < 100`.
pub open spec fn two_digits(n: int) -> Seq<char> {
    seq![digit_char(n / 10), digit_char(n % 10)]
}

/// Four-digit zero-padded representation (`%04`), for `0 <= n < 10000`.
pub open spec fn four_digits(n: int) -> Seq<char> {
    seq![digit_char(n / 1000), digit_char((n / 100) % 10), digit_char((n / 10) % 10), digit_char(n % 10)]
}

pub fn push_two_digits(v: &mut Vec<char>, n: u32)
    requires
        n < 100,
    ensures
        final(v)@ == old(v)@ + two_digits(n as int),
{
    v.push(char_from_digit(n / 10));
    v.push(char_from_digit(n % 10));
    assert(v@ =~= old(v)@ + two_digits(n as int));
}

pub fn push_four_digits(v: &mut Vec<char>, n: u32)
    requires
        n < 10000,
    ensures
        final(v)@ == old(v)@ + four_digits(n as int),
{
    v.push(char_from_digit(n / 1000));
    v.push(char_from_digit((n / 100) % 10));
    v.push(char_from_digit((n / 10) % 10));
    v.push(char_from_digit(n % 10));
    assert(v@ =~= old(v)@ + four_digits(n as int));
}


// ---------------------------------------------------------------------------
// Splitting and joining
// ---------------------------------------------------------------------------

/// What `str::split(c)` yields: the pieces between occurrences of `c`,
/// empty pieces included (one empty piece for the empty text).
pub open spec fn split_on(s: Seq<char>, c: char) -> Seq<Seq<char>>
    decreases s.len(),
{
    match find_from(s, c, 0) {
        None => seq![s],
        Some(k) => {
            proof {
                lemma_find_from(s, c, 0);
            }
            seq![s.take(k)] + split_on(s.skip(k + 1), c)
        },
    }
}

pub proof fn lemma_find_from_skip(s: Seq<char>, c: char, a: int, i: int)
    requires
        0 <= a <= s.len(),
        0 <= i,
    ensures
        find_from(s.skip(a), c, i) == match find_from(s, c, a + i) {
            Some(k) => Some(k - a),
            None => None,
        },
    decreases s.len() - a - i,
{
    if a + i < s.len() && s[a + i] != c {
        lemma_find_from_skip(s, c, a, i + 1);
    }
}

/// The characters of each piece of a list of character vectors.
pub open spec fn views(v: Seq<Vec<char>>) -> Seq<Seq<char>> {
    v.map_values(|x: Vec<char>| x@)
}

/// Splits `v` at each `c`.
pub fn split_chars(v: &Vec<char>, c: char) -> (r: Vec<Vec<char>>)
    ensures
        views(r@) == split_on(v@, c),
{
    let mut r: Vec<Vec<char>> = Vec::new();
    let mut start: usize = 0;
    assert(v@.skip(0) =~= v@);
    assert(views(r@) =~= Seq::<Seq<char>>::empty());
    loop
        invariant
            start <= v.len(),
            views(r@) + split_on(v@.skip(start as int), c) == split_on(v@, c),
        decreases v.len() - start,
    {
        let ghost rest = v@.skip(start as int);
        proof {
            lemma_find_from_skip(v@, c, start as int, 0);
            lemma_find_from(v@, c, start as int);
        }
        match find_char_from(v, c, start) {
            None => {
                let piece = slice_chars(v, start, v.len());
                assert(piece@ =~= rest);
                assert(split_on(rest, c) == seq![rest]);
                r.push(piece);
                assert(views(r@) =~= split_on(v@, c)) by {
                    assert(views(r@) =~= views(r@.drop_last()).push(piece@));
                }
                return r;
            },
            Some(k) => {
                let piece = slice_chars(v, start, k);
                assert(piece@ =~= rest.take(k - start));
                assert(rest.skip(k - start + 1) =~= v@.skip(k + 1));
                assert(split_on(rest, c) == seq![rest.take(k - start)] + split_on(v@.skip(k + 1), c));
                let ghost before = views(r@);
                r.push(piece);
                assert(views(r@) =~= before.push(piece@));
                assert(views(r@) + split_on(v@.skip(k + 1), c) =~= before + split_on(rest, c));
                start = k + 1;
            },
        }
    }
}

/// The pieces joined with `sep` between them.
pub open spec fn join(parts: Seq<Seq<char>>, sep: Seq<char>) -> Seq<char>
    decreases parts.len(),
{
    if parts.len() == 0 {
        seq![]
    } else if parts.len() == 1 {
        parts[0]
    } else {
        join(parts.drop_last(), sep) + sep + parts.last()
    }
}

/// Appends the strings of `parts`, with `sep` between them, to `v`.
pub fn push_joined(v: &mut Vec<char>, parts: &Vec<String>, sep: &str)
    ensures
        final(v)@ == old(v)@ + join(parts@.map_values(|s: String| s@), sep@),
{
    let ghost ps = parts@.map_values(|s: String| s@);
    let ghost start = v@;
    let mut i: usize = 0;
    while i < parts.len()
        invariant
            i <= parts.len(),
            ps == parts@.map_values(|s: String| s@),
            v@ == start + join(ps.take(i as int), sep@),
        decreases parts.len() - i,
    {
        if i > 0 {
            push_str(v, sep);
        }
        push_str(v, parts[i].as_str());
        proof {
            let t = ps.take(i + 1);
            assert(t.drop_last() =~= ps.take(i as int));
            assert(t.last() == parts@[i as int]@);
            if i == 0 {
                assert(join(ps.take(0), sep@) =~= Seq::<char>::empty());
                assert(join(t, sep@) == t[0]);
            }
        }
        i = i + 1;
    }
    assert(ps.take(parts.len() as int) =~= ps);
}

/// Strings made from character vectors.
pub fn strings_of(v: &Vec<Vec<char>>) -> (r: Vec<String>)
    ensures
        r@.map_values(|s: String| s@) == views(v@),
{
    let mut r: Vec<String> = Vec::new();
    let mut i: usize = 0;
    while i < v.len()
        invariant
            i <= v.len(),
            r@.map_values(|s: String| s@) =~= views(v@).take(i as int),
        decreases v.len() - i,
    {
        let s = string_of(v[i].as_slice());
        let ghost before = r@;
        r.push(s);
        assert(r@.map_values(|s: String| s@) =~= before.map_values(|s: String| s@).push(v@[i as int]@));
        assert(views(v@).take(i + 1) =~= views(v@).take(i as int).push(v@[i as int]@));
        i = i + 1;
    }
    assert(views(v@).take(v.len() as int) =~= views(v@));
    r
}

// ---------------------------------------------------------------------------
// Brackets and words
// ---------------------------------------------------------------------------

pub open spec fn is_bracket(c: char) -> bool {
    c == '[' || c == ']'
}

/// One past the last non-bracket character at or before `j`.
pub open spec fn back_brackets_from(s: Seq<char>, j: int) -> int
    decreases j,
{
    if 0 < j <= s.len() && is_bracket(s[j - 1]) {
        back_brackets_from(s, j - 1)
    } else {
        j
    }
}

pub open spec fn skip_brackets_from(s: Seq<char>, i: int) -> int
    decreases s.len() - i,
{
    if 0 <= i < s.len() && is_bracket(s[i]) {
        skip_brackets_from(s, i + 1)
    } else {
        i
    }
}

/// What `str::trim_matches(|c| c == '[' || c == ']')` returns.
pub open spec fn strip_brackets(s: Seq<char>) -> Seq<char> {
    let a = skip_brackets_from(s, 0);
    let t = s.skip(a);
    t.take(back_brackets_from(t, t.len() as int))
}

proof fn lemma_brackets(s: Seq<char>, i: int, j: int)
    requires
        0 <= i <= s.len(),
        0 <= j <= s.len(),
    ensures
        i <= skip_brackets_from(s, i) <= s.len(),
        0 <= back_brackets_from(s, j) <= j,
    decreases s.len() - i + j,
{
    if i < s.len() && is_bracket(s[i]) {
        lemma_brackets(s, i + 1, j);
    } else if j > 0 && is_bracket(s[j - 1]) {
        lemma_brackets(s, i, j - 1);
    }
}

pub fn strip_brackets_chars(v: &Vec<char>) -> (r: Vec<char>)
    ensures
        r@ == strip_brackets(v@),
{
    let mut a: usize = 0;
    while a < v.len() && (v[a] == '[' || v[a] == ']')
        invariant
            a <= v.len(),
            skip_brackets_from(v@, a as int) == skip_brackets_from(v@, 0),
        decreases v.len() - a,
    {
        a = a + 1;
    }
    let t = slice_chars(v, a, v.len());
    assert(t@ =~= v@.skip(a as int));
    let mut b: usize = t.len();
    while b > 0 && (t[b - 1] == '[' || t[b - 1] == ']')
        invariant
            b <= t.len(),
            back_brackets_from(t@, b as int) == back_brackets_from(t@, t.len() as int),
        decreases b,
    {
        b = b - 1;
    }
    let r = slice_chars(&t, 0, b);
    assert(r@ =~= t@.take(b as int));
    r
}

/// What `str::split_whitespace` yields from position `i` on.
pub open spec fn words_from(s: Seq<char>, i: int) -> Seq<Seq<char>>
    decreases s.len() - i,
{
    let a = skip_ws_from(s, i);
    if i < 0 || a >= s.len() {
        seq![]
    } else {
        let b = word_end_from(s, a);
        proof {
            lemma_skip_ws_from(s, i);
            lemma_word_end_from(s, a);
        }
        seq![s.subrange(a, b)] + words_from(s, b)
    }
}

pub open spec fn word_end_from(s: Seq<char>, i: int) -> int
    decreases s.len() - i,
{
    if 0 <= i < s.len() && !is_ws(s[i]) {
        word_end_from(s, i + 1)
    } else {
        i
    }
}

pub proof fn lemma_word_end_from(s: Seq<char>, i: int)
    requires
        0 <= i < s.len(),
        !is_ws(s[i]),
    ensures
        i < word_end_from(s, i) <= s.len(),
    decreases s.len() - i,
{
    assert(word_end_from(s, i) == word_end_from(s, i + 1));
    if i + 1 < s.len() && !is_ws(s[i + 1]) {
        lemma_word_end_from(s, i + 1);
    } else {
        assert(word_end_from(s, i + 1) == i + 1);
    }
}

/// Splits at whitespace runs, dropping empty pieces.
pub fn split_words(v: &Vec<char>) -> (r: Vec<Vec<char>>)
    ensures
        views(r@) == words_from(v@, 0),
{
    let mut r: Vec<Vec<char>> = Vec::new();
    let mut i: usize = 0;
    assert(views(r@) =~= Seq::<Seq<char>>::empty());
    while i < v.len()
        invariant
            i <= v.len(),
            views(r@) + words_from(v@, i as int) == words_from(v@, 0),
        decreases v.len() - i,
    {
        let a = skip_ws(v, i);
        proof {
            lemma_skip_ws_from(v@, i as int);
        }
        if a >= v.len() {
            assert(words_from(v@, i as int) =~= Seq::<Seq<char>>::empty());
            i = v.len();
            assert(words_from(v@, i as int) =~= Seq::<Seq<char>>::empty());
        } else {
            let mut b = a;
            while b < v.len() && !is_ws_char(v[b])
                invariant
                    a <= b <= v.len(),
                    word_end_from(v@, b as int) == word_end_from(v@, a as int),
                decreases v.len() - b,
            {
                b = b + 1;
            }
            proof {
                lemma_word_end_from(v@, a as int);
            }
            let w = slice_chars(v, a, b);
            let ghost before = views(r@);
            r.push(w);
            assert(views(r@) =~= before.push(w@));
            assert(words_from(v@, i as int) == seq![w@] + words_from(v@, b as int));
            assert(views(r@) + words_from(v@, b as int) =~= before + words_from(v@, i as int));
            i = b;
        }
    }
    assert(words_from(v@, i as int) =~= Seq::<Seq<char>>::empty());
    r
}

/// The first line of a text (empty when the text has none).
pub open spec fn first_line(s: Seq<char>) -> Seq<char> {
    if lines(s).len() > 0 {
        lines(s)[0]
    } else {
        seq![]
    }
}

pub fn first_line_chars(v: &Vec<char>) -> (r: Vec<char>)
    ensures
        r@ == first_line(v@),
{
    let ls = split_lines(v);
    if ls.len() > 0 {
        let mut r: Vec<char> = Vec::new();
        push_all(&mut r, &ls[0]);
        assert(r@ =~= ls@[0]@);
        r
    } else {
        Vec::new()
    }
}

// ---------------------------------------------------------------------------
// Substrings
// ---------------------------------------------------------------------------

/// Index of the first occurrence of `p` in `s` at or after `i`.
pub open spec fn find_sub(s: Seq<char>, p: Seq<char>, i: int) -> Option<int>
    decreases s.len() + 1 - i,
{
    if i < 0 || i + p.len() > s.len() {
        None
    } else if s.subrange(i, i + p.len()) == p {
        Some(i)
    } else {
        find_sub(s, p, i + 1)
    }
}

pub proof fn lemma_find_sub(s: Seq<char>, p: Seq<char>, i: int)
    requires
        0 <= i,
    ensures
        find_sub(s, p, i) matches Some(k) ==> i <= k && k + p.len() <= s.len() && s.subrange(
            k,
            k + p.len(),
        ) == p,
    decreases s.len() + 1 - i,
{
    if i + p.len() <= s.len() && s.subrange(i, i + p.len()) != p {
        lemma_find_sub(s, p, i + 1);
    }
}

pub fn find_sub_from(v: &Vec<char>, p: &Vec<char>, i: usize) -> (r: Option<usize>)
    requires
        i <= v.len(),
    ensures
        match r {
            Some(k) => find_sub(v@, p@, i as int) == Some(k as int),
            None => find_sub(v@, p@, i as int) is None,
        },
{
    let mut k = i;
    loop
        invariant
            i <= k <= v.len(),
            find_sub(v@, p@, k as int) == find_sub(v@, p@, i as int),
        decreases v.len() - k,
    {
        if p.len() > v.len() - k {
            return None;
        }
        if starts_with_at(v, k, p) {
            assert(v@.subrange(k as int, k + p@.len()) == p@);
            return Some(k);
        }
        if k == v.len() {
            assert(v@.subrange(k as int, k as int) =~= p@);
            return None;
        }
        k = k + 1;
    }
}

/// What `str::splitn(3, p)` yields.
pub open spec fn splitn3(s: Seq<char>, p: Seq<char>) -> Seq<Seq<char>> {
    match find_sub(s, p, 0) {
        None => seq![s],
        Some(k1) => {
            let r = s.skip(k1 + p.len());
            match find_sub(r, p, 0) {
                None => seq![s.take(k1), r],
                Some(k2) => seq![s.take(k1), r.take(k2), r.skip(k2 + p.len())],
            }
        },
    }
}

pub fn splitn3_chars(v: &Vec<char>, p: &Vec<char>) -> (r: Vec<Vec<char>>)
    requires
        p.len() > 0,
    ensures
        views(r@) == splitn3(v@, p@),
{
    let mut r: Vec<Vec<char>> = Vec::new();
    proof {
        lemma_find_sub(v@, p@, 0);
    }
    match find_sub_from(v, p, 0) {
        None => {
            r.push(slice_chars(v, 0, v.len()));
            assert(views(r@) =~= seq![v@]) by {
                assert(v@.subrange(0, v.len() as int) =~= v@);
            }
        },
        Some(k1) => {
            let rest = slice_chars(v, k1 + p.len(), v.len());
            assert(rest@ =~= v@.skip(k1 + p@.len()));
            let first = slice_chars(v, 0, k1);
            assert(first@ =~= v@.take(k1 as int));
            proof {
                lemma_find_sub(rest@, p@, 0);
            }
            match find_sub_from(&rest, p, 0) {
                None => {
                    r.push(first);
                    r.push(rest);
                    assert(views(r@) =~= splitn3(v@, p@));
                },
                Some(k2) => {
                    let second = slice_chars(&rest, 0, k2);
                    let third = slice_chars(&rest, k2 + p.len(), rest.len());
                    assert(second@ =~= rest@.take(k2 as int));
                    assert(third@ =~= rest@.skip(k2 + p@.len()));
                    r.push(first);
                    r.push(second);
                    r.push(third);
                    assert(views(r@) =~= splitn3(v@, p@));
                },
            }
        },
    }
    r
}
/// What `str::to_uppercase` returns (Unicode case mapping).
pub uninterp spec fn unicode_upper(s: Seq<char>) -> Seq<char>;

/// The ASCII upper case of a character.
pub open spec fn ascii_upper_char(c: char) -> char {
    if 'a' <= c <= 'z' {
        ((c as u32) - 32) as char
    } else {
        c
    }
}

/// `str::to_uppercase`, named `unicode_upper`; on ASCII text it maps
/// `a`-`z` to `A`-`Z` and keeps the rest, as its documentation says.
#[verifier::external_body]
pub(crate) fn to_upper(s: &str) -> (r: String)
    ensures
        r@ == unicode_upper(s@),
        (forall|i: int| 0 <= i < s@.len() ==> (#[trigger] s@[i] as u32) < 0x80) ==> r@
            == s@.map_values(|c: char| ascii_upper_char(c)),
{
    s.to_uppercase()
}

} // verus!
