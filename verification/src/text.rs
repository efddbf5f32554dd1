use vstd::prelude::*;

verus! {

// ---------------------------------------------------------------------------
// Character classes
// ---------------------------------------------------------------------------

/// ASCII lower-casing of one character; every other character is unchanged.
pub open spec fn lower_char(c: char) -> char {
    if 'A' <= c && c <= 'Z' {
        ((c as u32) + 32) as char
    } else {
        c
    }
}

/// ASCII upper-casing of one character.
pub open spec fn upper_char(c: char) -> char {
    if 'a' <= c && c <= 'z' {
        ((c as u32) - 32) as char
    } else {
        c
    }
}

/// ASCII lower-casing of a character sequence.
pub open spec fn lower(s: Seq<char>) -> Seq<char> {
    s.map_values(|c: char| lower_char(c))
}

/// The Unicode `White_Space` property, which is what `char::is_whitespace` tests.
pub open spec fn is_white(c: char) -> bool {
    ||| '\u{9}' <= c && c <= '\u{d}'
    ||| c == ' '
    ||| c == '\u{85}'
    ||| c == '\u{a0}'
    ||| c == '\u{1680}'
    ||| '\u{2000}' <= c && c <= '\u{200a}'
    ||| c == '\u{2028}'
    ||| c == '\u{2029}'
    ||| c == '\u{202f}'
    ||| c == '\u{205f}'
    ||| c == '\u{3000}'
}

/// The characters that a trim removes.
#[derive(Clone, Copy, PartialEq, Eq, Structural)]
pub enum Strip {
    /// Unicode white space (`str::trim`).
    White,
    /// The double quote (`str::trim_matches('"')`).
    Quote,
}

pub open spec fn strips(p: Strip, c: char) -> bool {
    match p {
        Strip::White => is_white(c),
        Strip::Quote => c == '"',
    }
}

/// `s` without its leading characters of class `p`.
pub open spec fn trim_start(s: Seq<char>, p: Strip) -> Seq<char>
    decreases s.len(),
{
    if s.len() > 0 && strips(p, s[0]) {
        trim_start(s.drop_first(), p)
    } else {
        s
    }
}

/// `s` without its trailing characters of class `p`.
pub open spec fn trim_end(s: Seq<char>, p: Strip) -> Seq<char>
    decreases s.len(),
{
    if s.len() > 0 && strips(p, s.last()) {
        trim_end(s.drop_last(), p)
    } else {
        s
    }
}

/// `s` without its leading and trailing characters of class `p`.
pub open spec fn trim(s: Seq<char>, p: Strip) -> Seq<char> {
    trim_end(trim_start(s, p), p)
}

/// `p` occurs in `s` at position `i`.
pub open spec fn occurs_at(s: Seq<char>, p: Seq<char>, i: int) -> bool {
    0 <= i && i + p.len() <= s.len() && s.subrange(i, i + p.len()) == p
}

/// `p` occurs somewhere in `s` (`str::contains`).
pub open spec fn has_infix(s: Seq<char>, p: Seq<char>) -> bool {
    exists|i: int| occurs_at(s, p, i)
}

/// The decimal digit of a value below ten.
pub open spec fn digit(d: nat) -> char {
    ((d + 48) as u32) as char
}

/// The decimal notation of a natural number, without leading zeros.
pub open spec fn decimal(n: nat) -> Seq<char>
    decreases n,
{
    if n < 10 {
        seq![digit(n)]
    } else {
        decimal(n / 10).push(digit(n % 10))
    }
}

/// The decimal notation of an integer, with a leading minus sign when it is negative.
pub open spec fn signed_decimal(i: int) -> Seq<char> {
    if i < 0 {
        seq!['-'] + decimal((-i) as nat)
    } else {
        decimal(i as nat)
    }
}

// ---------------------------------------------------------------------------
// Conversions between strings and character vectors
// ---------------------------------------------------------------------------

/// std `String::push`: appends one character.
#[verifier::external_body]
pub(crate) fn push_char(s: &mut String, c: char)
    ensures
        final(s)@ == old(s)@.push(c),
{
    s.push(c);
}

/// The characters of a string slice, in order.
pub fn chars_of(s: &str) -> (r: Vec<char>)
    ensures
        r@ == s@,
{
    let mut r: Vec<char> = Vec::new();
    for c in it: s.chars()
        invariant
            r@ == it.seq().take(it.index() as int),
            it.seq() == s@,
    {
        r.push(c);
    }
    r
}

/// The string made of the characters of `v`.
pub fn string_of(v: &Vec<char>) -> (r: String)
    ensures
        r@ == v@,
{
    let mut r = String::new();
    for i in 0..v.len()
        invariant
            r@ == v@.take(i as int),
    {
        push_char(&mut r, v[i]);
        assert(v@.take(i + 1) == v@.take(i as int).push(v@[i as int]));
    }
    assert(v@.take(v.len() as int) == v@);
    r
}

/// Appends the characters of `s` to `v`.
pub fn extend_chars(v: &mut Vec<char>, s: &Vec<char>)
    ensures
        final(v)@ == old(v)@ + s@,
{
    for i in 0..s.len()
        invariant
            v@ == old(v)@ + s@.take(i as int),
    {
        v.push(s[i]);
        assert(s@.take(i + 1) == s@.take(i as int).push(s@[i as int]));
    }
    assert(s@.take(s.len() as int) == s@);
}

/// Appends the characters of a string slice to `v`.
pub fn extend_str(v: &mut Vec<char>, s: &str)
    ensures
        final(v)@ == old(v)@ + s@,
{
    let c = chars_of(s);
    extend_chars(v, &c);
}

/// The concatenation of two string slices.
pub fn concat2(a: &str, b: &str) -> (r: String)
    ensures
        r@ == a@ + b@,
{
    let mut v = chars_of(a);
    extend_str(&mut v, b);
    string_of(&v)
}

// ---------------------------------------------------------------------------
// Character tests and case mapping
// ---------------------------------------------------------------------------

/// `char::to_ascii_lowercase`.
pub fn lower_ascii_char(c: char) -> (r: char)
    ensures
        r == lower_char(c),
{
    if 'A' <= c && c <= 'Z' {
        let b: u8 = c as u8;
        assert(b == c as u32);
        (b + 32) as char
    } else {
        c
    }
}

/// `str::to_ascii_lowercase` on a character vector.
pub fn upper_ascii_char(c: char) -> (r: char)
    ensures
        r == upper_char(c),
{
    if 'a' <= c && c <= 'z' {
        let b: u8 = c as u8;
        assert(b == c as u32);
        (b - 32) as char
    } else {
        c
    }
}

pub fn lower_ascii(v: &Vec<char>) -> (r: Vec<char>)
    ensures
        r@ == lower(v@),
{
    let mut r: Vec<char> = Vec::new();
    for i in 0..v.len()
        invariant
            r@ == lower(v@.take(i as int)),
    {
        r.push(lower_ascii_char(v[i]));
        assert(lower(v@.take(i + 1)) == lower(v@.take(i as int)).push(lower_char(v@[i as int])));
    }
    assert(v@.take(v.len() as int) == v@);
    r
}

/// `char::is_whitespace`.
pub fn is_whitespace(c: char) -> (r: bool)
    ensures
        r == is_white(c),
{
    ('\u{9}' <= c && c <= '\u{d}') || c == ' ' || c == '\u{85}' || c == '\u{a0}' || c
        == '\u{1680}' || ('\u{2000}' <= c && c <= '\u{200a}') || c == '\u{2028}' || c
        == '\u{2029}' || c == '\u{202f}' || c == '\u{205f}' || c == '\u{3000}'
}

fn strips_char(p: Strip, c: char) -> (r: bool)
    ensures
        r == strips(p, c),
{
    match p {
        Strip::White => is_whitespace(c),
        Strip::Quote => c == '"',
    }
}

/// The part of `v` between indices `lo` and `hi`.
pub fn slice_chars(v: &Vec<char>, lo: usize, hi: usize) -> (r: Vec<char>)
    requires
        lo <= hi <= v.len(),
    ensures
        r@ == v@.subrange(lo as int, hi as int),
{
    let mut r: Vec<char> = Vec::new();
    let mut i = lo;
    while i < hi
        invariant
            lo <= i <= hi <= v.len(),
            r@ == v@.subrange(lo as int, i as int),
        decreases hi - i,
    {
        r.push(v[i]);
        assert(v@.subrange(lo as int, i + 1) == v@.subrange(lo as int, i as int).push(v@[i as int]));
        i = i + 1;
    }
    r
}

proof fn lemma_trim_start_step(s: Seq<char>, p: Strip, i: int)
    requires
        0 <= i < s.len(),
        strips(p, s[i]),
    ensures
        trim_start(s.subrange(i, s.len() as int), p) == trim_start(s.subrange(i + 1, s.len() as int), p),
{
    let t = s.subrange(i, s.len() as int);
    assert(t.drop_first() == s.subrange(i + 1, s.len() as int));
}

proof fn lemma_trim_end_step(s: Seq<char>, p: Strip, j: int)
    requires
        0 < j <= s.len(),
        strips(p, s[j - 1]),
    ensures
        trim_end(s.subrange(0, j), p) == trim_end(s.subrange(0, j - 1), p),
{
    let t = s.subrange(0, j);
    assert(t.drop_last() == s.subrange(0, j - 1));
}

/// `str::trim` (for `Strip::White`) or `str::trim_matches('"')` (for `Strip::Quote`).
pub fn trim_chars(v: &Vec<char>, p: Strip) -> (r: Vec<char>)
    ensures
        r@ == trim(v@, p),
{
    let n = v.len();
    let mut i: usize = 0;
    assert(v@.subrange(0, n as int) == v@);
    while i < n && strips_char(p, v[i])
        invariant
            i <= n == v.len(),
            trim_start(v@, p) == trim_start(v@.subrange(i as int, n as int), p),
        decreases n - i,
    {
        proof {
            lemma_trim_start_step(v@, p, i as int);
        }
        i = i + 1;
    }
    assert(v@.subrange(0, n as int) == v@);
    let mid = slice_chars(v, i, n);
    assert(trim_start(v@, p) == mid@);
    let m = mid.len();
    let mut j: usize = m;
    assert(mid@.subrange(0, m as int) == mid@);
    while j > 0 && strips_char(p, mid[j - 1])
        invariant
            j <= m == mid.len(),
            trim_end(mid@, p) == trim_end(mid@.subrange(0, j as int), p),
        decreases j,
    {
        proof {
            lemma_trim_end_step(mid@, p, j as int);
        }
        j = j - 1;
    }
    assert(mid@.subrange(0, m as int) == mid@);
    let r = slice_chars(&mid, 0, j);
    assert(trim_end(mid@.subrange(0, j as int), p) == mid@.subrange(0, j as int));
    r
}

// ---------------------------------------------------------------------------
// Searching
// ---------------------------------------------------------------------------

/// Whether two character vectors are equal.
pub fn chars_eq(a: &Vec<char>, b: &Vec<char>) -> (r: bool)
    ensures
        r == (a@ == b@),
{
    if a.len() != b.len() {
        return false;
    }
    for i in 0..a.len()
        invariant
            a.len() == b.len(),
            forall|k: int| 0 <= k < i ==> a@[k] == b@[k],
    {
        if a[i] != b[i] {
            return false;
        }
    }
    assert(a@ =~= b@);
    true
}

/// Whether `p` occurs in `s` at position `at`.
pub fn matches_at(s: &Vec<char>, p: &Vec<char>, at: usize) -> (r: bool)
    ensures
        r == occurs_at(s@, p@, at as int),
{
    if at > s.len() || p.len() > s.len() - at {
        return false;
    }
    for k in 0..p.len()
        invariant
            at + p.len() <= s.len(),
            forall|m: int| 0 <= m < k ==> s@[at + m] == p@[m],
    {
        if s[at + k] != p[k] {
            assert(s@.subrange(at as int, at + p.len())[k as int] != p@[k as int]);
            return false;
        }
    }
    assert(s@.subrange(at as int, at + p.len()) =~= p@);
    true
}

/// `str::starts_with`.
pub fn starts_with(s: &Vec<char>, p: &Vec<char>) -> (r: bool)
    ensures
        r == p@.is_prefix_of(s@),
{
    let r = matches_at(s, p, 0);
    assert(r == occurs_at(s@, p@, 0));
    r
}

/// `str::ends_with`.
pub fn ends_with(s: &Vec<char>, p: &Vec<char>) -> (r: bool)
    ensures
        r == p@.is_suffix_of(s@),
{
    if p.len() > s.len() {
        return false;
    }
    matches_at(s, p, s.len() - p.len())
}

/// `str::contains` for a pattern string.
pub fn contains_chars(s: &Vec<char>, p: &Vec<char>) -> (r: bool)
    ensures
        r == has_infix(s@, p@),
{
    if p.len() > s.len() {
        assert forall|i: int| !occurs_at(s@, p@, i) by {}
        return false;
    }
    if p.len() == 0 {
        assert(s@.subrange(0, 0) =~= p@);
        assert(occurs_at(s@, p@, 0));
        return true;
    }
    let last = s.len() - p.len();
    let mut i: usize = 0;
    while i <= last
        invariant
            last + p.len() == s.len(),
            p.len() >= 1,
            forall|k: int| 0 <= k < i ==> !occurs_at(s@, p@, k),
        decreases last + 1 - i,
    {
        if matches_at(s, p, i) {
            return true;
        }
        i = i + 1;
    }
    assert forall|k: int| !occurs_at(s@, p@, k) by {
        if 0 <= k && k + p@.len() <= s@.len() {
            assert(k < i);
        }
    }
    false
}

/// `str::contains` for a single character.
pub fn contains_char(s: &Vec<char>, c: char) -> (r: bool)
    ensures
        r == s@.contains(c),
{
    for i in 0..s.len()
        invariant
            forall|k: int| 0 <= k < i ==> s@[k] != c,
    {
        if s[i] == c {
            return true;
        }
    }
    false
}

/// The position of the first occurrence of `c` in `s`, if any (`str::find`).
pub fn find_char(s: &Vec<char>, c: char) -> (r: Option<usize>)
    ensures
        match r {
            Some(i) => i < s.len() && s@[i as int] == c && forall|k: int| 0 <= k < i ==> s@[k] != c,
            None => !s@.contains(c),
        },
{
    for i in 0..s.len()
        invariant
            forall|k: int| 0 <= k < i ==> s@[k] != c,
    {
        if s[i] == c {
            return Some(i);
        }
    }
    None
}

/// The position of the last occurrence of `c` in `s`, if any (`str::rfind`).
pub fn rfind_char(s: &Vec<char>, c: char) -> (r: Option<usize>)
    ensures
        match r {
            Some(i) => i < s.len() && s@[i as int] == c && forall|k: int| i < k < s.len() ==> s@[k] != c,
            None => !s@.contains(c),
        },
{
    let mut j = s.len();
    while j > 0
        invariant
            j <= s.len(),
            forall|k: int| j <= k < s.len() ==> s@[k] != c,
        decreases j,
    {
        if s[j - 1] == c {
            return Some(j - 1);
        }
        j = j - 1;
    }
    None
}

/// The position of the last `c` in `s`, or -1 when there is none.
pub open spec fn last_pos(s: Seq<char>, c: char) -> int {
    if s.contains(c) {
        choose|k: int| 0 <= k < s.len() && s[k] == c && forall|m: int| k < m < s.len() ==> s[m] != c
    } else {
        -1
    }
}

pub proof fn lemma_last_pos(s: Seq<char>, c: char, i: int)
    requires
        0 <= i < s.len(),
        s[i] == c,
        forall|m: int| i < m < s.len() ==> s[m] != c,
    ensures
        last_pos(s, c) == i,
{
    assert(s.contains(c));
    let k = last_pos(s, c);
    assert(0 <= k < s.len() && s[k] == c && forall|m: int| k < m < s.len() ==> s[m] != c);
    if k < i {
        assert(s[i] != c);
    }
    if k > i {
        assert(s[k] != c);
    }
}

// ---------------------------------------------------------------------------
// Decimal notation
// ---------------------------------------------------------------------------


/// The decimal notation of `n`.
pub fn decimal_chars(n: u64) -> (r: Vec<char>)
    ensures
        r@ == decimal(n as nat),
{
    let mut m: u64 = n;
    let mut tail: Vec<char> = Vec::new();
    while m >= 10
        invariant
            decimal(n as nat) == decimal(m as nat) + tail@,
        decreases m,
    {
        let d: u64 = m % 10;
        let c: char = ((d as u8) + 48) as char;
        assert(c == digit(d as nat));
        assert(decimal(m as nat) == decimal((m / 10) as nat).push(digit((m % 10) as nat)));
        let ghost old_tail = tail@;
        tail.insert(0, c);
        assert(tail@ == seq![c] + old_tail);
        assert(decimal((m / 10) as nat).push(c) + old_tail == decimal((m / 10) as nat) + (seq![c] + old_tail));
        m = m / 10;
    }
    let c: char = ((m as u8) + 48) as char;
    assert(c == digit(m as nat));
    let mut r: Vec<char> = Vec::new();
    r.push(c);
    extend_chars(&mut r, &tail);
    assert(decimal(m as nat) == seq![c]);
    r
}

/// The decimal notation of `n` as a string.
pub fn decimal_string(n: u64) -> (r: String)
    ensures
        r@ == decimal(n as nat),
{
    let v = decimal_chars(n);
    string_of(&v)
}

/// The decimal notation of a signed integer.
pub fn signed_decimal_chars(i: i64) -> (r: Vec<char>)
    ensures
        r@ == signed_decimal(i as int),
{
    if i < 0 {
        let m: i128 = -(i as i128);
        let u: u64 = m as u64;
        let mut r: Vec<char> = Vec::new();
        r.push('-');
        let d = decimal_chars(u);
        extend_chars(&mut r, &d);
        r
    } else {
        decimal_chars(i as u64)
    }
}

} // verus!
