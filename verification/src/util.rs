use vstd::prelude::*;
use vstd::arithmetic::div_mod::{lemma_fundamental_div_mod, lemma_div_denominator};

use crate::text::{
    chars_of, decimal, decimal_chars, digit, extend_chars, extend_str, signed_decimal,
    signed_decimal_chars, string_of,
};

verus! {

// ---------------------------------------------------------------------------
// Human-readable sizes
// ---------------------------------------------------------------------------

pub open spec fn kib() -> nat {
    1024
}

pub open spec fn mib() -> nat {
    1048576
}

pub open spec fn gib() -> nat {
    1073741824
}

/// 2 to the power `s`.
pub open spec fn two_pow(s: nat) -> nat
    decreases s,
{
    if s == 0 {
        1
    } else {
        2 * two_pow((s - 1) as nat)
    }
}

/// The number of low bits that a 53-bit significand cannot hold.
pub open spec fn dropped_bits(b: nat) -> nat
    decreases b,
{
    if b < 9007199254740992 {
        0
    } else {
        1 + dropped_bits(b / 2)
    }
}

/// The integer that `b as f64` holds: `b` rounded to 53 significant bits, ties to even.
pub open spec fn as_f64(b: nat) -> nat {
    let p = two_pow(dropped_bits(b));
    let q = b / p;
    let r = b % p;
    if r * 2 > p || (r * 2 == p && q % 2 == 1) {
        (q + 1) * p
    } else {
        q * p
    }
}

/// `n / d` rounded to the nearest integer, ties to even.
pub open spec fn div_round_even(n: nat, d: nat) -> nat {
    let q = n / d;
    let r = n % d;
    if r * 2 > d || (r * 2 == d && q % 2 == 1) {
        q + 1
    } else {
        q
    }
}

/// `v / unit` written with two decimals, rounded to nearest with ties to even
/// (how `{:.2}` writes the exact quotient).
pub open spec fn two_decimals(v: nat, unit: nat) -> Seq<char> {
    let h = div_round_even(v * 100, unit);
    decimal(h / 100) + seq!['.', digit((h % 100) / 10), digit(h % 10)]
}

/// The text that `format_size` gives for `bytes`.
pub open spec fn size_text(bytes: u64) -> Seq<char> {
    if bytes >= gib() {
        two_decimals(as_f64(bytes as nat), gib()) + " GB"@
    } else if bytes >= mib() {
        two_decimals(as_f64(bytes as nat), mib()) + " MB"@
    } else if bytes >= kib() {
        two_decimals(as_f64(bytes as nat), kib()) + " KB"@
    } else {
        decimal(bytes as nat) + " B"@
    }
}

/// The value of `bytes as f64`, as an exact integer.
fn f64_value(b: u64) -> (r: u128)
    ensures
        r == as_f64(b as nat),
        r <= 2 * (b as nat),
{
    let mut p: u128 = 1;
    let ghost mut s: nat = 0;
    let bb: u128 = b as u128;
    while bb / p >= 9007199254740992
        invariant
            bb == b,
            0 < p,
            p <= bb || p == 1,
            p == two_pow(s),
            dropped_bits(b as nat) == s + dropped_bits((b as nat) / (p as nat)),
        decreases bb - p,
    {
        proof {
            lemma_div_denominator(b as int, p as int, 2);
            lemma_fundamental_div_mod(b as int, p as int);
            let t = (b as nat) / (p as nat);
            assert(p * t >= p * 2) by (nonlinear_arith)
                requires
                    t >= 2,
                    p > 0,
            ;
            assert(b as nat == p * t + (b as nat) % (p as nat));
            assert(dropped_bits(t) == 1 + dropped_bits(t / 2));
            assert(t / 2 == (b as nat) / ((p * 2) as nat));
        }
        p = p * 2;
        proof {
            s = s + 1;
        }
    }
    let q: u128 = bb / p;
    let r: u128 = bb % p;
    proof {
        assert(dropped_bits((b as nat) / (p as nat)) == 0);
        lemma_fundamental_div_mod(b as int, p as int);
    }
    let v: u128 = if r * 2 > p || (r * 2 == p && q % 2 == 1) {
        proof {
            assert((q + 1) * p == q * p + p) by (nonlinear_arith);
        }
        (q + 1) * p
    } else {
        q * p
    };
    v
}

/// `v / unit` with two decimals, as `{:.2}` writes it.
fn two_decimal_chars(v: u128, unit: u128) -> (r: Vec<char>)
    requires
        v <= 2 * 18446744073709551616u128,
        1024 <= unit <= 1073741824,
    ensures
        r@ == two_decimals(v as nat, unit as nat),
{
    let n: u128 = v * 100;
    let q: u128 = n / unit;
    let rem: u128 = n % unit;
    let h: u128 = if rem * 2 > unit || (rem * 2 == unit && q % 2 == 1) {
        q + 1
    } else {
        q
    };
    assert(h == div_round_even(v as nat * 100, unit as nat));
    assert(q <= n / 1024) by {
        vstd::arithmetic::div_mod::lemma_div_is_ordered_by_denominator(n as int, 1024, unit as int);
    }
    let whole: u128 = h / 100;
    assert(whole < 18446744073709551616u128);
    let frac: u128 = h % 100;
    let mut out = decimal_chars(whole as u64);
    out.push('.');
    let d1: u8 = (frac / 10) as u8;
    let d2: u8 = (frac % 10) as u8;
    out.push((d1 + 48) as char);
    out.push((d2 + 48) as char);
    assert(frac % 10 == h % 10) by {
        vstd::arithmetic::div_mod::lemma_mod_mod(h as int, 10, 10);
    }
    out
}

/// A byte count in B, KB, MB or GB (powers of 1024), with two decimals above one KB.
pub fn format_size(bytes: u64) -> (r: String)
    ensures
        r@ == size_text(bytes),
{
    if bytes >= 1073741824 {
        let v = f64_value(bytes);
        let mut out = two_decimal_chars(v, 1073741824);
        extend_str(&mut out, " GB");
        string_of(&out)
    } else if bytes >= 1048576 {
        let v = f64_value(bytes);
        let mut out = two_decimal_chars(v, 1048576);
        extend_str(&mut out, " MB");
        string_of(&out)
    } else if bytes >= 1024 {
        let v = f64_value(bytes);
        let mut out = two_decimal_chars(v, 1024);
        extend_str(&mut out, " KB");
        string_of(&out)
    } else {
        let mut out = decimal_chars(bytes);
        extend_str(&mut out, " B");
        string_of(&out)
    }
}


// ---------------------------------------------------------------------------
// Locked files
// ---------------------------------------------------------------------------

/// The operating-system error codes that mean a file is in use or protected:
/// 32 (sharing violation), 33 (lock violation) and 5 (access denied).
pub open spec fn locked_code(code: Option<i32>) -> bool {
    code == Some(32i32) || code == Some(33i32) || code == Some(5i32)
}

/// Whether an operating-system error code means that a file is in use or protected.
pub fn is_locked_code(code: Option<i32>) -> (r: bool)
    ensures
        r == locked_code(code),
{
    match code {
        Some(c) => c == 32 || c == 33 || c == 5,
        None => false,
    }
}

/// std `io::Error`, carried through as an opaque value.
#[verifier::external_type_specification]
#[verifier::external_body]
pub struct ExIoError(std::io::Error);

/// The operating-system error code that an I/O error carries, if any.
pub uninterp spec fn os_error_code(err: std::io::Error) -> Option<i32>;

/// std `io::Error::raw_os_error`: the contract says only that the code is the one
/// the error carries, which depends on the error alone.
#[verifier::external_body]
fn raw_os_error(err: &std::io::Error) -> (r: Option<i32>)
    ensures
        r == os_error_code(*err),
{
    err.raw_os_error()
}

/// Whether an I/O error means that the file is in use or protected.
pub fn is_locked_error(err: &std::io::Error) -> (r: bool)
    ensures
        r == locked_code(os_error_code(*err)),
{
    is_locked_code(raw_os_error(err))
}

// ---------------------------------------------------------------------------
// Environment variables in paths
// ---------------------------------------------------------------------------

/// A snapshot of the process environment: names and values, in the order read.
pub struct EnvVars {
    entries: Vec<(String, String)>,
}

/// The value of variable `name` in `entries`: the first entry whose name equals
/// `name` up to ASCII case (as Windows compares variable names), or the empty
/// text when there is none.
pub open spec fn env_lookup(entries: Seq<(Seq<char>, Seq<char>)>, name: Seq<char>) -> Seq<char>
    decreases entries.len(),
{
    if entries.len() == 0 {
        Seq::empty()
    } else if crate::text::lower(entries[0].0) == crate::text::lower(name) {
        entries[0].1
    } else {
        env_lookup(entries.drop_first(), name)
    }
}

/// The position of the first `c` in `s`, or the length of `s` when there is none.
pub open spec fn pos_of(s: Seq<char>, c: char) -> nat
    decreases s.len(),
{
    if s.len() == 0 {
        0
    } else if s[0] == c {
        0
    } else {
        1 + pos_of(s.drop_first(), c)
    }
}

/// `s` with each `%NAME%` replaced by the value of `NAME` (empty when unset); a `%`
/// with no closing `%` takes the rest of the text as the name.
pub open spec fn expand_env(s: Seq<char>, env: Seq<(Seq<char>, Seq<char>)>) -> Seq<char>
    decreases s.len(),
{
    if s.len() == 0 {
        Seq::empty()
    } else if s[0] == '%' {
        let rest = s.drop_first();
        let k = pos_of(rest, '%');
        if k < rest.len() {
            env_lookup(env, rest.take(k as int)) + expand_env(rest.skip((k + 1) as int), env)
        } else {
            env_lookup(env, rest)
        }
    } else {
        seq![s[0]] + expand_env(s.drop_first(), env)
    }
}

/// `pos_of` is the first position of `c`.
pub proof fn lemma_pos_of_at(s: Seq<char>, c: char, k: int)
    requires
        0 <= k <= s.len(),
        forall|m: int| 0 <= m < k ==> s[m] != c,
        k == s.len() || s[k] == c,
    ensures
        pos_of(s, c) == k,
    decreases k,
{
    if k > 0 {
        lemma_pos_of_at(s.drop_first(), c, k - 1);
    }
}

impl EnvVars {
    /// The entries, as character sequences.
    pub closed spec fn view_entries(&self) -> Seq<(Seq<char>, Seq<char>)> {
        self.entries@.map_values(|e: (String, String)| (e.0@, e.1@))
    }

    /// An empty environment.
    pub fn new() -> (r: Self)
        ensures
            r.view_entries() == Seq::<(Seq<char>, Seq<char>)>::empty(),
    {
        let r = EnvVars { entries: Vec::new() };
        assert(r.view_entries() =~= Seq::<(Seq<char>, Seq<char>)>::empty());
        r
    }

    /// Records one more variable, after those already there.
    pub fn push(&mut self, name: String, value: String)
        ensures
            final(self).view_entries() == old(self).view_entries().push((name@, value@)),
    {
        self.entries.push((name, value));
        assert(self.view_entries() =~= old(self).view_entries().push((name@, value@)));
    }

    /// The value of variable `name`, or the empty text when it is unset.
    pub fn lookup(&self, name: &Vec<char>) -> (r: Vec<char>)
        ensures
            r@ == env_lookup(self.view_entries(), name@),
    {
        let want = crate::text::lower_ascii(name);
        let n = self.entries.len();
        let mut i: usize = 0;
        assert(self.view_entries().skip(0) == self.view_entries());
        while i < n
            invariant
                n == self.entries.len(),
                i <= n,
                env_lookup(self.view_entries(), name@) == env_lookup(
                    self.view_entries().skip(i as int),
                    name@,
                ),
                want@ == crate::text::lower(name@),
            decreases n - i,
        {
            let ghost rest = self.view_entries().skip(i as int);
            let key = crate::text::chars_of(self.entries[i].0.as_str());
            let key_lower = crate::text::lower_ascii(&key);
            assert(rest[0] == (self.entries@[i as int].0@, self.entries@[i as int].1@));
            if crate::text::chars_eq(&key_lower, &want) {
                return crate::text::chars_of(self.entries[i].1.as_str());
            }
            assert(rest.drop_first() == self.view_entries().skip(i + 1));
            i = i + 1;
        }
        assert(self.view_entries().skip(n as int) =~= Seq::<(Seq<char>, Seq<char>)>::empty());
        Vec::new()
    }
}

/// `raw` with each `%NAME%` replaced by the value of `NAME` in `env`.
pub fn expand_env_path(raw: &Vec<char>, env: &EnvVars) -> (r: Vec<char>)
    ensures
        r@ == expand_env(raw@, env.view_entries()),
{
    let ghost e = env.view_entries();
    let n = raw.len();
    let mut out: Vec<char> = Vec::new();
    let mut i: usize = 0;
    assert(raw@.skip(0) == raw@);
    while i < n
        invariant
            n == raw.len(),
            i <= n,
            e == env.view_entries(),
            expand_env(raw@, e) == out@ + expand_env(raw@.skip(i as int), e),
        decreases n - i,
    {
        let ghost s = raw@.skip(i as int);
        if raw[i] == '%' {
            let mut j: usize = i + 1;
            while j < n && raw[j] != '%'
                invariant
                    i < j <= n == raw.len(),
                    forall|m: int| i < m < j ==> raw@[m] != '%',
                decreases n - j,
            {
                j = j + 1;
            }
            let ghost rest = s.drop_first();
            assert(rest == raw@.skip(i + 1));
            proof {
                lemma_pos_of_at(rest, '%', j - i - 1);
            }
            let name = crate::text::slice_chars(raw, i + 1, j);
            assert(name@ == rest.take(j - i - 1));
            let value = env.lookup(&name);
            extend_chars(&mut out, &value);
            if j < n {
                assert(rest.skip(j - i - 1 + 1) == raw@.skip(j + 1));
                i = j + 1;
            } else {
                assert(rest.take(j - i - 1) == rest);
                assert(raw@.skip(n as int) == Seq::<char>::empty());
                i = n;
            }
        } else {
            out.push(raw[i]);
            assert(s.drop_first() == raw@.skip(i + 1));
            i = i + 1;
        }
    }
    assert(raw@.skip(n as int) == Seq::<char>::empty());
    out
}

// ---------------------------------------------------------------------------
// Restarting as administrator
// ---------------------------------------------------------------------------

/// The message when the shell refuses to start the program as administrator.
pub open spec fn elevation_failure(code: int) -> Seq<char> {
    "无法以管理员身份启动 (code: "@ + signed_decimal(code) + ")"@
}

/// What a request to restart as administrator came to, from the value that the shell
/// returned for it: a value above 32 means the new process is starting; 32 or less is
/// an error, reported with its code.
pub fn elevation_outcome(code: i64) -> (r: Result<(), String>)
    ensures
        r is Ok <==> code > 32,
        r matches Err(e) ==> e@ == elevation_failure(code as int),
{
    if code <= 32 {
        let mut m = chars_of("无法以管理员身份启动 (code: ");
        extend_chars(&mut m, &signed_decimal_chars(code));
        extend_str(&mut m, ")");
        Err(string_of(&m))
    } else {
        Ok(())
    }
}

} // verus!
