//! Text primitives shared by the record-parsing layer: character access
//! and string building at the trusted edge, and verified trimming and
//! numeric-literal parsing over character sequences.
//!
//! A real number read from text is kept exactly as a `Decimal`:
//! sign, 64-bit mantissa and power-of-ten exponent. Literals whose
//! mantissa does not fit 64 bits, and non-finite forms, are not
//! representable and are reported as unparsable.

use vstd::prelude::*;

verus! {

/// Relies on str::chars: yields exactly the string's characters in order
/// (the view of a `str` is that character sequence).
#[verifier::external_body]
pub fn chars_of(s: &str) -> (r: Vec<char>)
    ensures
        r@ == s@,
{
    s.chars().collect()
}

/// Relies on String::push: appends the character to the end.
#[verifier::external_body]
pub fn push_char(s: &mut String, c: char)
    ensures
        final(s)@ == old(s)@.push(c),
{
    s.push(c)
}

/// Relies on str's PartialEq: equality of the two character sequences.
#[verifier::external_body]
pub fn str_eq(a: &str, b: &str) -> (r: bool)
    ensures
        r == (a@ == b@),
{
    a == b
}

/// Builds an owned string from a character sequence.
pub fn string_from_chars(v: &Vec<char>) -> (r: String)
    ensures
        r@ == v@,
{
    let mut s = String::new();
    let mut i: usize = 0;
    while i < v.len()
        invariant
            0 <= i <= v@.len(),
            s@ == v@.subrange(0, i as int),
        decreases v@.len() - i,
    {
        push_char(&mut s, v[i]);
        proof {
            assert(v@.subrange(0, i as int).push(v@[i as int]) =~= v@.subrange(0, i + 1));
        }
        i += 1;
    }
    proof {
        assert(v@.subrange(0, v@.len() as int) =~= v@);
    }
    s
}

/// ASCII whitespace: space, tab, line feed, form feed, carriage return.
pub open spec fn is_space(c: char) -> bool {
    c == ' ' || c == '\t' || c == '\n' || c == '\u{c}' || c == '\r'
}

/// `s` with leading ASCII whitespace removed.
pub open spec fn trim_front(s: Seq<char>) -> Seq<char>
    decreases s.len(),
{
    if s.len() > 0 && is_space(s[0]) {
        trim_front(s.subrange(1, s.len() as int))
    } else {
        s
    }
}

/// `s` with trailing ASCII whitespace removed.
pub open spec fn trim_back(s: Seq<char>) -> Seq<char>
    decreases s.len(),
{
    if s.len() > 0 && is_space(s[s.len() - 1]) {
        trim_back(s.subrange(0, s.len() - 1))
    } else {
        s
    }
}

/// `s` with ASCII whitespace removed at both ends.
pub open spec fn trim_spec(s: Seq<char>) -> Seq<char> {
    trim_back(trim_front(s))
}

/// Whether `c` is a decimal digit.
pub open spec fn is_digit_c(c: char) -> bool {
    48 <= c as u32 <= 57
}

/// The value of the digit `c`.
pub open spec fn digit_val(c: char) -> int {
    c as u32 - 48
}

/// Every character of `s` is a decimal digit.
pub open spec fn all_digits(s: Seq<char>) -> bool {
    forall|i: int| 0 <= i < s.len() ==> is_digit_c(#[trigger] s[i])
}

/// The value of a digit string, most significant first.
pub open spec fn digits_value(s: Seq<char>) -> int
    decreases s.len(),
{
    if s.len() == 0 {
        0
    } else {
        10 * digits_value(s.drop_last()) + digit_val(s.last())
    }
}

/// What `u64` reads from text: an optional plus sign, then at least one
/// digit, whose value fits 64 bits.
pub open spec fn spec_parse_u64(s: Seq<char>) -> Option<u64> {
    let body = if s.len() > 0 && s[0] == '+' {
        s.subrange(1, s.len() as int)
    } else {
        s
    };
    if body.len() >= 1 && all_digits(body) && digits_value(body) <= u64::MAX {
        Some(digits_value(body) as u64)
    } else {
        None
    }
}

/// An exact decimal value: `(-1)^neg * mant * 10^exp`.
#[derive(Clone, Copy, Debug, PartialEq, Eq, Structural)]
pub struct Decimal {
    pub neg: bool,
    pub mant: u64,
    pub exp: i64,
}

impl Decimal {
    /// The value zero.
    pub fn zero() -> (r: Decimal)
        ensures
            r == (Decimal { neg: false, mant: 0u64, exp: 0i64 }),
    {
        Decimal { neg: false, mant: 0, exp: 0 }
    }

    /// The value one.
    pub fn one() -> (r: Decimal)
        ensures
            r == (Decimal { neg: false, mant: 1u64, exp: 0i64 }),
    {
        Decimal { neg: false, mant: 1, exp: 0 }
    }
}

/// The position of the first `e` or `E` in `s`, or its length.
pub open spec fn find_exp_mark(s: Seq<char>) -> int
    decreases s.len(),
{
    if s.len() == 0 {
        0
    } else if s[0] == 'e' || s[0] == 'E' {
        0
    } else {
        1 + find_exp_mark(s.subrange(1, s.len() as int))
    }
}

/// The position of the first `.` in `s`, or its length.
pub open spec fn find_dot(s: Seq<char>) -> int
    decreases s.len(),
{
    if s.len() == 0 {
        0
    } else if s[0] == '.' {
        0
    } else {
        1 + find_dot(s.subrange(1, s.len() as int))
    }
}

/// Strips an optional sign: `(negative, rest)`.
pub open spec fn strip_sign(s: Seq<char>) -> (bool, Seq<char>) {
    if s.len() > 0 && s[0] == '-' {
        (true, s.subrange(1, s.len() as int))
    } else if s.len() > 0 && s[0] == '+' {
        (false, s.subrange(1, s.len() as int))
    } else {
        (false, s)
    }
}

/// What the decimal-literal reader accepts, after trimming: an optional
/// sign; an integer part, a dot and a fraction part (at least one digit
/// between them); an optional exponent mark with an optionally signed
/// digit exponent. The mantissa (all digits) must fit 64 bits; the
/// exponent digits are capped at 32 bits and the fraction length at 32
/// bits, so the final exponent fits 64 bits. Anything else — including
/// non-finite forms — is unparsable.
pub open spec fn spec_parse_decimal(s: Seq<char>) -> Option<Decimal> {
    let t = trim_spec(s);
    let (neg, u) = strip_sign(t);
    let epos = find_exp_mark(u);
    let mpart = u.subrange(0, epos);
    let dotpos = find_dot(mpart);
    let ipart = mpart.subrange(0, dotpos);
    let fpart = if dotpos < mpart.len() {
        mpart.subrange(dotpos + 1, mpart.len() as int)
    } else {
        Seq::<char>::empty()
    };
    if !(all_digits(ipart) && all_digits(fpart) && ipart.len() + fpart.len() >= 1) {
        None
    } else if digits_value(ipart + fpart) > u64::MAX || fpart.len() > u32::MAX {
        None
    } else if epos == u.len() {
        Some(
            Decimal {
                neg,
                mant: digits_value(ipart + fpart) as u64,
                exp: (0 - fpart.len()) as i64,
            },
        )
    } else {
        let epart = u.subrange(epos + 1, u.len() as int);
        let (eneg, ed) = strip_sign(epart);
        if !(ed.len() >= 1 && all_digits(ed) && digits_value(ed) <= u32::MAX) {
            None
        } else {
            let e = if eneg {
                0 - digits_value(ed)
            } else {
                digits_value(ed)
            };
            Some(
                Decimal {
                    neg,
                    mant: digits_value(ipart + fpart) as u64,
                    exp: (e - fpart.len()) as i64,
                },
            )
        }
    }
}

/// Characterises `trim_front` by the first non-space position.
proof fn lemma_trim_front_at(s: Seq<char>, a: int)
    requires
        0 <= a <= s.len(),
        forall|i: int| 0 <= i < a ==> is_space(#[trigger] s[i]),
        a < s.len() ==> !is_space(s[a]),
    ensures
        trim_front(s) == s.subrange(a, s.len() as int),
    decreases a,
{
    if a == 0 {
        assert(s.subrange(0, s.len() as int) =~= s);
    } else {
        let s1 = s.subrange(1, s.len() as int);
        lemma_trim_front_at(s1, a - 1);
        assert(s1.subrange(a - 1, s1.len() as int) =~= s.subrange(a, s.len() as int));
    }
}

/// Characterises `trim_back` by the position after the last non-space.
proof fn lemma_trim_back_at(s: Seq<char>, b: int)
    requires
        0 <= b <= s.len(),
        forall|i: int| b <= i < s.len() ==> is_space(#[trigger] s[i]),
        b > 0 ==> !is_space(s[b - 1]),
    ensures
        trim_back(s) == s.subrange(0, b),
    decreases s.len(),
{
    if b == s.len() {
        if s.len() > 0 && is_space(s[s.len() - 1]) {
            let s1 = s.subrange(0, s.len() - 1);
            lemma_trim_back_at(s1, b - 1);
            assert(s1.subrange(0, b - 1) =~= s.subrange(0, b - 1));
            assert(false);
        }
        assert(s.subrange(0, b) =~= s);
    } else {
        let s1 = s.subrange(0, s.len() - 1);
        lemma_trim_back_at(s1, b);
        assert(s1.subrange(0, b) =~= s.subrange(0, b));
    }
}

/// Trims ASCII whitespace from both ends.
#[verifier::loop_isolation(false)]
pub fn trim_chars(v: &Vec<char>) -> (r: Vec<char>)
    ensures
        r@ == trim_spec(v@),
{
    let n = v.len();
    let mut a: usize = 0;
    while a < n && is_space_exec(v[a])
        invariant
            0 <= a <= n,
            forall|i: int| 0 <= i < a ==> is_space(#[trigger] v@[i]),
        decreases n - a,
    {
        a += 1;
    }
    let mut b: usize = n;
    while b > a && is_space_exec(v[b - 1])
        invariant
            a <= b <= n,
            forall|i: int| b <= i < n ==> is_space(#[trigger] v@[i]),
        decreases b,
    {
        b -= 1;
    }
    let mut out: Vec<char> = Vec::new();
    let mut i: usize = a;
    while i < b
        invariant
            a <= i <= b,
            out@ == v@.subrange(a as int, i as int),
        decreases b - i,
    {
        out.push(v[i]);
        proof {
            assert(v@.subrange(a as int, i as int).push(v@[i as int]) =~= v@.subrange(
                a as int,
                i + 1,
            ));
        }
        i += 1;
    }
    proof {
        lemma_trim_front_at(v@, a as int);
        if b == a {
            lemma_trim_back_at(v@.subrange(a as int, n as int), 0);
        } else {
            lemma_trim_back_at(v@.subrange(a as int, n as int), b - a);
        }
        assert(v@.subrange(a as int, n as int).subrange(0, b - a) =~= v@.subrange(
            a as int,
            b as int,
        ));
    }
    out
}

/// Whether `c` is ASCII whitespace, computed.
pub fn is_space_exec(c: char) -> (r: bool)
    ensures
        r == is_space(c),
{
    c == ' ' || c == '\t' || c == '\n' || c == '\u{c}' || c == '\r'
}

/// Whether `c` is a decimal digit, computed.
pub fn is_digit_exec(c: char) -> (r: bool)
    ensures
        r == is_digit_c(c),
{
    let u = c as u32;
    48 <= u && u <= 57
}

/// Appending a digit multiplies the value by ten and adds it.
pub proof fn lemma_digits_push(p: Seq<char>, c: char)
    ensures
        digits_value(p.push(c)) == 10 * digits_value(p) + digit_val(c),
{
    assert(p.push(c).drop_last() =~= p);
    assert(p.push(c).last() == c);
}

/// The value of a digit string, or nothing where it exceeds 64 bits.
#[verifier::loop_isolation(false)]
pub fn digits_accum(v: &Vec<char>, from: usize, to: usize) -> (r: Option<u64>)
    requires
        0 <= from <= to <= v@.len(),
        all_digits(v@.subrange(from as int, to as int)),
    ensures
        r matches Some(x) ==> digits_value(v@.subrange(from as int, to as int)) == x,
        r is None ==> digits_value(v@.subrange(from as int, to as int)) > u64::MAX,
{
    let mut acc: u64 = 0;
    let mut i: usize = from;
    while i < to
        invariant
            from <= i <= to,
            digits_value(v@.subrange(from as int, i as int)) == acc,
        decreases to - i,
    {
        proof {
            assert(is_digit_c(v@.subrange(from as int, to as int)[i - from]));
        }
        let d = (v[i] as u32) - 48;
        proof {
            lemma_digits_push(v@.subrange(from as int, i as int), v@[i as int]);
            assert(v@.subrange(from as int, i as int).push(v@[i as int]) =~= v@.subrange(
                from as int,
                i + 1,
            ));
        }
        let wide: u128 = (acc as u128) * 10 + (d as u128);
        if wide > 0xFFFF_FFFF_FFFF_FFFFu128 {
            proof {
                lemma_digits_bigger(v@, from as int, i + 1, to as int);
            }
            return None;
        }
        acc = wide as u64;
        i += 1;
    }
    Some(acc)
}

/// A digit string's value is at least the value of any prefix scaled up:
/// once a prefix exceeds 64 bits, the whole string does.
proof fn lemma_digits_bigger(s: Seq<char>, from: int, mid: int, to: int)
    requires
        0 <= from <= mid <= to <= s.len(),
        all_digits(s.subrange(from, to)),
        digits_value(s.subrange(from, mid)) > u64::MAX,
    ensures
        digits_value(s.subrange(from, to)) > u64::MAX,
    decreases to - mid,
{
    if mid < to {
        lemma_digits_push(s.subrange(from, mid), s[mid]);
        assert(s.subrange(from, mid).push(s[mid]) =~= s.subrange(from, mid + 1));
        assert(is_digit_c(s.subrange(from, to)[mid - from]));
        assert(digits_value(s.subrange(from, mid + 1)) > u64::MAX);
        lemma_digits_bigger(s, from, mid + 1, to);
    }
}

/// Reads a `u64`: an optional plus sign, then digits.
#[verifier::loop_isolation(false)]
pub fn parse_u64_chars(v: &Vec<char>) -> (r: Option<u64>)
    ensures
        r == spec_parse_u64(v@),
{
    let n = v.len();
    let from: usize = if n > 0 && v[0] == '+' {
        1
    } else {
        0
    };
    let ghost body = if v@.len() > 0 && v@[0] == '+' {
        v@.subrange(1, v@.len() as int)
    } else {
        v@
    };
    proof {
        assert(body =~= v@.subrange(from as int, n as int));
    }
    if from == n {
        return None;
    }
    let mut i: usize = from;
    while i < n
        invariant
            from <= i <= n,
            forall|j: int| from <= j < i ==> is_digit_c(#[trigger] v@[j]),
        decreases n - i,
    {
        if !is_digit_exec(v[i]) {
            proof {
                assert(!is_digit_c(body[i - from]));
            }
            return None;
        }
        i += 1;
    }
    proof {
        assert(all_digits(body));
        assert(all_digits(v@.subrange(from as int, n as int)));
    }
    digits_accum(v, from, n)
}

/// Characterises `find_exp_mark` by the first mark position.
proof fn lemma_find_exp_at(s: Seq<char>, p: int)
    requires
        0 <= p <= s.len(),
        forall|i: int| 0 <= i < p ==> !((#[trigger] s[i]) == 'e' || s[i] == 'E'),
        p < s.len() ==> (s[p] == 'e' || s[p] == 'E'),
    ensures
        find_exp_mark(s) == p,
    decreases s.len(),
{
    if s.len() == 0 {
    } else if s[0] == 'e' || s[0] == 'E' {
        assert(p == 0);
    } else {
        let s1 = s.subrange(1, s.len() as int);
        lemma_find_exp_at(s1, p - 1);
    }
}

/// Characterises `find_dot` by the first dot position.
proof fn lemma_find_dot_at(s: Seq<char>, p: int)
    requires
        0 <= p <= s.len(),
        forall|i: int| 0 <= i < p ==> (#[trigger] s[i]) != '.',
        p < s.len() ==> s[p] == '.',
    ensures
        find_dot(s) == p,
    decreases s.len(),
{
    if s.len() == 0 {
    } else if s[0] == '.' {
        assert(p == 0);
    } else {
        let s1 = s.subrange(1, s.len() as int);
        lemma_find_dot_at(s1, p - 1);
    }
}

/// Whether every character in `t[from..to)` is a digit.
#[verifier::loop_isolation(false)]
fn scan_all_digits(t: &Vec<char>, from: usize, to: usize) -> (r: bool)
    requires
        from <= to <= t@.len(),
    ensures
        r == all_digits(t@.subrange(from as int, to as int)),
{
    let mut i: usize = from;
    while i < to
        invariant
            from <= i <= to,
            forall|j: int| from <= j < i ==> is_digit_c(#[trigger] t@[j]),
        decreases to - i,
    {
        if !is_digit_exec(t[i]) {
            proof {
                assert(!is_digit_c(t@.subrange(from as int, to as int)[i - from]));
            }
            return false;
        }
        i += 1;
    }
    proof {
        assert forall|j: int| 0 <= j < to - from implies is_digit_c(
            #[trigger] t@.subrange(from as int, to as int)[j],
        ) by {
            assert(is_digit_c(t@[j + from]));
        }
    }
    true
}

/// Copies `t[from..to)`.
#[verifier::loop_isolation(false)]
fn copy_range(t: &Vec<char>, from: usize, to: usize) -> (r: Vec<char>)
    requires
        from <= to <= t@.len(),
    ensures
        r@ == t@.subrange(from as int, to as int),
{
    let mut out: Vec<char> = Vec::new();
    let mut i: usize = from;
    while i < to
        invariant
            from <= i <= to,
            out@ == t@.subrange(from as int, i as int),
        decreases to - i,
    {
        out.push(t[i]);
        proof {
            assert(t@.subrange(from as int, i as int).push(t@[i as int]) =~= t@.subrange(
                from as int,
                i + 1,
            ));
        }
        i += 1;
    }
    out
}

/// Appends `t[from..to)` to `v`.
#[verifier::loop_isolation(false)]
fn append_range(v: &mut Vec<char>, t: &Vec<char>, from: usize, to: usize)
    requires
        from <= to <= t@.len(),
    ensures
        final(v)@ == old(v)@ + t@.subrange(from as int, to as int),
{
    let ghost base = v@;
    let mut i: usize = from;
    while i < to
        invariant
            from <= i <= to,
            v@ == base + t@.subrange(from as int, i as int),
        decreases to - i,
    {
        v.push(t[i]);
        proof {
            assert((base + t@.subrange(from as int, i as int)).push(t@[i as int]) =~= base
                + t@.subrange(from as int, i + 1));
        }
        i += 1;
    }
}

/// Reads a decimal literal as `spec_parse_decimal` describes.
#[verifier::loop_isolation(false)]
#[verifier::rlimit(100)]
#[verifier::spinoff_prover]
pub fn parse_decimal_chars(v: &Vec<char>) -> (r: Option<Decimal>)
    ensures
        r == spec_parse_decimal(v@),
{
    let t = trim_chars(v);
    let n = t.len();
    let mut neg = false;
    let mut s0: usize = 0;
    if n > 0 && t[0] == '-' {
        neg = true;
        s0 = 1;
    } else if n > 0 && t[0] == '+' {
        s0 = 1;
    }
    let ghost u = strip_sign(trim_spec(v@)).1;
    proof {
        assert(strip_sign(trim_spec(v@)).0 == neg);
        assert(u =~= t@.subrange(s0 as int, n as int));
    }

    let mut ep: usize = s0;
    while ep < n && !(t[ep] == 'e' || t[ep] == 'E')
        invariant
            s0 <= ep <= n,
            forall|i: int| s0 <= i < ep ==> !((#[trigger] t@[i]) == 'e' || t@[i] == 'E'),
        decreases n - ep,
    {
        ep += 1;
    }
    let ghost epos = find_exp_mark(u);
    proof {
        lemma_find_exp_at(u, ep - s0);
        assert(epos == ep - s0);
    }
    let ghost mpart = u.subrange(0, epos);
    proof {
        assert(mpart =~= t@.subrange(s0 as int, ep as int));
    }

    let mut dp: usize = s0;
    while dp < ep && t[dp] != '.'
        invariant
            s0 <= dp <= ep,
            forall|i: int| s0 <= i < dp ==> (#[trigger] t@[i]) != '.',
        decreases ep - dp,
    {
        dp += 1;
    }
    let ghost dotpos = find_dot(mpart);
    proof {
        lemma_find_dot_at(mpart, dp - s0);
        assert(dotpos == dp - s0);
    }
    let ghost ipart = mpart.subrange(0, dotpos);
    let ghost fpart = if dotpos < mpart.len() {
        mpart.subrange(dotpos + 1, mpart.len() as int)
    } else {
        Seq::<char>::empty()
    };
    proof {
        assert(ipart =~= t@.subrange(s0 as int, dp as int));
        if dp < ep {
            assert(fpart =~= t@.subrange(dp + 1, ep as int));
        } else {
            assert(fpart =~= t@.subrange(ep as int, ep as int));
        }
    }

    if !scan_all_digits(&t, s0, dp) {
        return None;
    }
    let fstart = if dp < ep {
        dp + 1
    } else {
        ep
    };
    if !scan_all_digits(&t, fstart, ep) {
        return None;
    }
    let flen = ep - fstart;
    proof {
        assert(flen == fpart.len());
    }
    if flen > 0xFFFF_FFFFusize {
        return None;
    }
    let mut md = copy_range(&t, s0, dp);
    append_range(&mut md, &t, fstart, ep);
    proof {
        assert(md@ =~= ipart + fpart);
        assert(all_digits(md@)) by {
            assert(forall|j: int|
                0 <= j < md@.len() ==> (#[trigger] md@[j]) == (if j < ipart.len() {
                    ipart[j]
                } else {
                    fpart[j - ipart.len()]
                }));
        }
        assert(md@.subrange(0, md@.len() as int) =~= md@);
    }
    if md.len() == 0 {
        return None;
    }
    let m = match digits_accum(&md, 0, md.len()) {
        Some(m) => m,
        None => {
            return None;
        },
    };

    if ep == n {
        return Some(Decimal { neg, mant: m, exp: 0i64 - (flen as i64) });
    }

    // Exponent part.
    let ghost epart = u.subrange(epos + 1, u.len() as int);
    proof {
        assert(epart =~= t@.subrange(ep + 1, n as int));
    }
    let mut eneg = false;
    let mut es0: usize = ep + 1;
    if ep + 1 < n && t[ep + 1] == '-' {
        eneg = true;
        es0 = ep + 2;
    } else if ep + 1 < n && t[ep + 1] == '+' {
        es0 = ep + 2;
    }
    let ghost ed = strip_sign(epart).1;
    proof {
        assert(strip_sign(epart).0 == eneg);
        assert(ed =~= t@.subrange(es0 as int, n as int));
    }
    if es0 == n {
        return None;
    }
    if !scan_all_digits(&t, es0, n) {
        return None;
    }
    let e = match digits_accum(&t, es0, n) {
        Some(e) => e,
        None => {
            return None;
        },
    };
    if e > 0xFFFF_FFFFu64 {
        return None;
    }
    let ee: i64 = if eneg {
        0i64 - (e as i64)
    } else {
        e as i64
    };
    Some(Decimal { neg, mant: m, exp: ee - (flen as i64) })
}

/// The position of the first occurrence of `c` in `s`, or its length.
pub open spec fn find_ch(s: Seq<char>, c: char) -> int
    decreases s.len(),
{
    if s.len() == 0 {
        0
    } else if s[0] == c {
        0
    } else {
        1 + find_ch(s.subrange(1, s.len() as int), c)
    }
}

/// The position of the last occurrence of `c` in `s`, or `-1`.
pub open spec fn rfind_ch(s: Seq<char>, c: char) -> int
    decreases s.len(),
{
    if s.len() == 0 {
        -1
    } else if s[s.len() - 1] == c {
        s.len() - 1
    } else {
        rfind_ch(s.subrange(0, s.len() - 1), c)
    }
}

/// The number of leading digits of `s`.
pub open spec fn digits_prefix_len(s: Seq<char>) -> int
    decreases s.len(),
{
    if s.len() > 0 && is_digit_c(s[0]) {
        1 + digits_prefix_len(s.subrange(1, s.len() as int))
    } else {
        0
    }
}

/// Characterises `find_ch` by the first occurrence.
pub proof fn lemma_find_ch_at(s: Seq<char>, c: char, p: int)
    requires
        0 <= p <= s.len(),
        forall|i: int| 0 <= i < p ==> (#[trigger] s[i]) != c,
        p < s.len() ==> s[p] == c,
    ensures
        find_ch(s, c) == p,
    decreases s.len(),
{
    if s.len() == 0 {
    } else if s[0] == c {
        assert(p == 0);
    } else {
        lemma_find_ch_at(s.subrange(1, s.len() as int), c, p - 1);
    }
}

/// Characterises `rfind_ch` by the last occurrence.
pub proof fn lemma_rfind_ch_at(s: Seq<char>, c: char, p: int)
    requires
        -1 <= p < s.len(),
        forall|i: int| p < i < s.len() ==> (#[trigger] s[i]) != c,
        p >= 0 ==> s[p] == c,
    ensures
        rfind_ch(s, c) == p,
    decreases s.len(),
{
    if s.len() == 0 {
    } else if s[s.len() - 1] == c {
        assert(p == s.len() - 1);
    } else {
        let s1 = s.subrange(0, s.len() - 1);
        lemma_rfind_ch_at(s1, c, p);
    }
}

/// Characterises `digits_prefix_len` by the first non-digit.
pub proof fn lemma_digits_prefix_at(s: Seq<char>, p: int)
    requires
        0 <= p <= s.len(),
        forall|i: int| 0 <= i < p ==> is_digit_c(#[trigger] s[i]),
        p < s.len() ==> !is_digit_c(s[p]),
    ensures
        digits_prefix_len(s) == p,
    decreases s.len(),
{
    if s.len() > 0 && is_digit_c(s[0]) {
        lemma_digits_prefix_at(s.subrange(1, s.len() as int), p - 1);
    } else {
        assert(p == 0);
    }
}

/// Finds the first occurrence of `c` in `t[from..)`, or the length.
#[verifier::loop_isolation(false)]
pub fn find_char_from(t: &Vec<char>, from: usize, c: char) -> (r: usize)
    requires
        from <= t@.len(),
    ensures
        from <= r <= t@.len(),
        find_ch(t@.subrange(from as int, t@.len() as int), c) == r - from,
{
    let n = t.len();
    let mut i: usize = from;
    while i < n && t[i] != c
        invariant
            from <= i <= n,
            forall|j: int| from <= j < i ==> (#[trigger] t@[j]) != c,
        decreases n - i,
    {
        i += 1;
    }
    proof {
        lemma_find_ch_at(t@.subrange(from as int, n as int), c, i - from);
    }
    i
}

/// Finds the last occurrence of `c` in `t`, as a position one past it,
/// or zero when absent.
#[verifier::loop_isolation(false)]
pub fn rfind_char(t: &Vec<char>, c: char) -> (r: usize)
    ensures
        r <= t@.len(),
        rfind_ch(t@, c) == r - 1,
{
    let n = t.len();
    let mut i: usize = n;
    while i > 0 && t[i - 1] != c
        invariant
            0 <= i <= n,
            forall|j: int| i <= j < n ==> (#[trigger] t@[j]) != c,
        decreases i,
    {
        i -= 1;
    }
    proof {
        lemma_rfind_ch_at(t@, c, i - 1);
    }
    i
}

/// The decimal digits of `v`, most significant first.
pub open spec fn spec_u64_digits(v: int) -> Seq<char>
    decreases v,
{
    if v < 10 {
        seq![digit_char(v)]
    } else {
        spec_u64_digits(v / 10).push(digit_char(v % 10))
    }
}

/// The digit character for a value below ten.
pub open spec fn digit_char(v: int) -> char {
    ((48 + v) as u8) as char
}

/// Writes `v` in decimal.
#[verifier::loop_isolation(false)]
#[verifier::rlimit(60)]
pub fn u64_to_string(v: u64) -> (r: String)
    ensures
        r@ == spec_u64_digits(v as int),
{
    if v == 0 {
        let mut out: Vec<char> = Vec::new();
        out.push(48u8 as char);
        proof {
            assert(out@ =~= spec_u64_digits(0));
        }
        return string_from_chars(&out);
    }
    let mut tmp: Vec<char> = Vec::new();
    let mut x = v;
    while x > 0
        invariant
            spec_u64_digits(v as int) =~= (if x > 0 {
                spec_u64_digits(x as int)
            } else {
                Seq::<char>::empty()
            }) + tmp@.reverse(),
        decreases x,
    {
        let ghost tmp0 = tmp@;
        let d = (x % 10) as u8;
        tmp.push((48 + d) as char);
        proof {
            assert(tmp@.reverse() =~= seq![digit_char(x as int % 10)] + tmp0.reverse());
        }
        x = x / 10;
    }
    let mut out: Vec<char> = Vec::new();
    let n = tmp.len();
    let mut i: usize = 0;
    while i < n
        invariant
            0 <= i <= n,
            out@.len() == i,
            forall|j: int| 0 <= j < i ==> out@[j] == tmp@[n - 1 - j],
            spec_u64_digits(v as int) == Seq::<char>::empty() + tmp@.reverse(),
        decreases n - i,
    {
        out.push(tmp[n - 1 - i]);
        i += 1;
    }
    proof {
        assert(out@ =~= tmp@.reverse());
        assert(Seq::<char>::empty() + tmp@.reverse() =~= tmp@.reverse());
        assert(out@ == spec_u64_digits(v as int));
    }
    string_from_chars(&out)
}

} // verus!
