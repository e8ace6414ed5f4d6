//! Line-level reading of STEP-style interchange records.
//!
//! A record line such as `#47= IFCCARTESIANPOINT((1.5,0.,3.));` is split
//! into its numeric identifier, its type name and its raw argument text;
//! argument text is further split at top-level commas, and entity
//! references (`#NNN`) and real-number lists are read out of it. All
//! parsing is exact over character sequences; real numbers are kept as
//! `Decimal` values (see `text`).

use vstd::prelude::*;
use crate::text::{
    all_digits, chars_of, digits_accum, digits_prefix_len, digits_value, digit_val, find_ch,
    find_char_from, is_digit_c, is_digit_exec, lemma_digits_prefix_at, parse_decimal_chars,
    parse_u64_chars, rfind_ch, rfind_char, spec_parse_decimal, spec_parse_u64, string_from_chars,
    trim_chars, trim_spec, Decimal,
};

verus! {

/// A parsed record: its numeric identifier, its type name, and the raw
/// argument text between the outer parentheses.
#[derive(Debug, Clone)]
pub struct IfcRawEntity {
    pub entity_id: u64,
    pub entity_type: String,
    pub raw_args: String,
}

/// What `parse_entity_line` reads from a record line, when it is
/// well-formed: the identifier after the leading marker character and
/// before `=`; the type name up to the first `(`; and the text between
/// that `(` and the last `)`.
pub open spec fn spec_parse_entity_line(line: Seq<char>) -> Option<(u64, Seq<char>, Seq<char>)> {
    let tl = trim_spec(line);
    let eq = find_ch(tl, '=');
    if eq == tl.len() || eq < 1 {
        None
    } else {
        let id_str = trim_spec(tl.subrange(1, eq));
        match spec_parse_u64(id_str) {
            None => None,
            Some(id) => {
                let ts = trim_spec(tl.subrange(eq + 1, tl.len() as int));
                let paren = find_ch(ts, '(');
                if paren == ts.len() {
                    None
                } else {
                    let args_end = rfind_ch(ts, ')');
                    if args_end < paren + 1 {
                        None
                    } else {
                        Some((id, trim_spec(ts.subrange(0, paren)), ts.subrange(paren + 1, args_end)))
                    }
                }
            },
        }
    }
}

/// Reads one record line (`#47= IFCCARTESIANPOINT((...));`) into its
/// identifier, type name and raw argument text, or nothing where the
/// line has no `=`, no identifier, no parenthesised argument list, or no
/// closing parenthesis after the opening one.
#[verifier::loop_isolation(false)]
pub fn parse_entity_line(line: &str) -> (r: Option<IfcRawEntity>)
    ensures
        match r {
            Some(e) => spec_parse_entity_line(line@) matches Some(t) && e.entity_id == t.0
                && e.entity_type@ == t.1 && e.raw_args@ == t.2,
            None => spec_parse_entity_line(line@) is None,
        },
{
    let cs = chars_of(line);
    let tl = trim_chars(&cs);
    let eq = find_char_from(&tl, 0, '=');
    proof {
        assert(tl@.subrange(0, tl@.len() as int) =~= tl@);
    }
    if eq == tl.len() || eq < 1 {
        return None;
    }
    let id_piece = slice_range(&tl, 1, eq);
    let id_trimmed = trim_chars(&id_piece);
    let id = match parse_u64_chars(&id_trimmed) {
        Some(id) => id,
        None => {
            return None;
        },
    };
    let ts_piece = slice_range(&tl, eq + 1, tl.len());
    let ts = trim_chars(&ts_piece);
    let paren = find_char_from(&ts, 0, '(');
    proof {
        assert(ts@.subrange(0, ts@.len() as int) =~= ts@);
    }
    if paren == ts.len() {
        return None;
    }
    let args_end = rfind_char(&ts, ')');
    if args_end <= paren + 1 {
        return None;
    }
    let type_piece = slice_range(&ts, 0, paren);
    let type_trimmed = trim_chars(&type_piece);
    let raw_args = slice_range(&ts, paren + 1, args_end - 1);
    Some(
        IfcRawEntity {
            entity_id: id,
            entity_type: string_from_chars(&type_trimmed),
            raw_args: string_from_chars(&raw_args),
        },
    )
}

/// Copies `t[from..to)` into a fresh vector.
#[verifier::loop_isolation(false)]
fn slice_range(t: &Vec<char>, from: usize, to: usize) -> (r: Vec<char>)
    requires
        from <= to <= t@.len(),
    ensures
        r@ == t@.subrange(from as int, to as int),
{
    let mut out: Vec<char> = Vec::new();
    let mut i: usize = from;
    while i < to
        invariant
            from <= i <= to,
            out@ == t@.subrange(from as int, i as int),
        decreases to - i,
    {
        out.push(t[i]);
        proof {
            assert(t@.subrange(from as int, i as int).push(t@[i as int]) =~= t@.subrange(
                from as int,
                i + 1,
            ));
        }
        i += 1;
    }
    out
}

/// One step of the reference scan: `#` starts a number, digits extend
/// it, anything else ends it and keeps it if it has digits and fits.
pub open spec fn refs_step(
    st: (Seq<u64>, Option<(bool, Option<u64>)>),
    c: char,
) -> (Seq<u64>, Option<(bool, Option<u64>)>) {
    if c == '#' {
        (st.0, Some((false, Some(0u64))))
    } else {
        match st.1 {
            None => st,
            Some(p) => if is_digit_c(c) {
                (st.0, Some((true, refs_acc_digit(p.1, c))))
            } else {
                (refs_keep(st.0, p), None)
            },
        }
    }
}

/// Extends an accumulated number by a digit; a number over 64 bits
/// is dropped when it ends.
pub open spec fn refs_acc_digit(val: Option<u64>, c: char) -> Option<u64> {
    match val {
        Some(v) => if 10 * v + digit_val(c) <= u64::MAX {
            Some((10 * v + digit_val(c)) as u64)
        } else {
            None
        },
        None => None,
    }
}

/// Keeps a finished number if it has at least one digit and fits.
pub open spec fn refs_keep(refs: Seq<u64>, p: (bool, Option<u64>)) -> Seq<u64> {
    if p.0 && p.1 is Some {
        refs.push(p.1->0)
    } else {
        refs
    }
}

/// The reference scan folded over the first `i` characters.
pub open spec fn refs_fold(s: Seq<char>, i: int) -> (Seq<u64>, Option<(bool, Option<u64>)>)
    decreases i,
{
    if i <= 0 {
        (Seq::empty(), None)
    } else {
        refs_step(refs_fold(s, i - 1), s[i - 1])
    }
}

/// The entity references read from argument text: each `#` followed by
/// digits, in order, numbers over 64 bits dropped.
pub open spec fn spec_parse_entity_refs(s: Seq<char>) -> Seq<u64> {
    let st = refs_fold(s, s.len() as int);
    match st.1 {
        Some(p) => refs_keep(st.0, p),
        None => st.0,
    }
}

/// Reads entity references (`#NNN`) out of argument text such as
/// `(#55,#56,#57)`, in order of appearance.
#[verifier::loop_isolation(false)]
pub fn parse_entity_refs(raw_args: &str) -> (r: Vec<u64>)
    ensures
        r@ == spec_parse_entity_refs(raw_args@),
{
    let cs = chars_of(raw_args);
    let n = cs.len();
    let mut refs: Vec<u64> = Vec::new();
    let mut in_hash = false;
    let mut started = false;
    let mut val: u64 = 0;
    let mut overflowed = false;
    let mut i: usize = 0;
    while i < n
        invariant
            0 <= i <= n,
            refs_fold(cs@, i as int) == (
                refs@,
                if in_hash {
                    Some((started, if overflowed {
                        None
                    } else {
                        Some(val)
                    }))
                } else {
                    None::<(bool, Option<u64>)>
                },
            ),
        decreases n - i,
    {
        let c = cs[i];
        if c == '#' {
            in_hash = true;
            started = false;
            val = 0;
            overflowed = false;
        } else if in_hash {
            if is_digit_exec(c) {
                started = true;
                if !overflowed {
                    let d = (c as u32) - 48;
                    let wide: u128 = (val as u128) * 10 + (d as u128);
                    if wide > 0xFFFF_FFFF_FFFF_FFFFu128 {
                        overflowed = true;
                    } else {
                        val = wide as u64;
                    }
                }
            } else {
                if started && !overflowed {
                    refs.push(val);
                }
                in_hash = false;
            }
        }
        i += 1;
    }
    if in_hash && started && !overflowed {
        refs.push(val);
    }
    refs
}

/// One step of the argument splitter: quotes toggle string mode,
/// parentheses adjust depth, a comma at depth zero outside a string ends
/// the current argument (trimmed), everything else accumulates.
pub open spec fn split_step(
    st: (Seq<Seq<char>>, Seq<char>, int, bool),
    c: char,
) -> (Seq<Seq<char>>, Seq<char>, int, bool) {
    let (res, cur, depth, instr) = st;
    if c == '\'' {
        (res, cur.push(c), depth, !instr)
    } else if c == '(' && !instr {
        (res, cur.push(c), depth + 1, instr)
    } else if c == ')' && !instr {
        (res, cur.push(c), depth - 1, instr)
    } else if c == ',' && depth == 0 && !instr {
        (res.push(trim_spec(cur)), Seq::empty(), depth, instr)
    } else {
        (res, cur.push(c), depth, instr)
    }
}

/// The argument splitter folded over the first `i` characters.
pub open spec fn split_fold(s: Seq<char>, i: int) -> (Seq<Seq<char>>, Seq<char>, int, bool)
    decreases i,
{
    if i <= 0 {
        (Seq::empty(), Seq::empty(), 0, false)
    } else {
        split_step(split_fold(s, i - 1), s[i - 1])
    }
}

/// The arguments of a record, split at top-level commas with nested
/// parentheses and quoted strings respected, each trimmed; a trailing
/// argument is kept only if non-empty.
pub open spec fn spec_split_ifc_args(s: Seq<char>) -> Seq<Seq<char>> {
    let st = split_fold(s, s.len() as int);
    if trim_spec(st.1).len() > 0 {
        st.0.push(trim_spec(st.1))
    } else {
        st.0
    }
}

/// Splits argument text at top-level commas, respecting nested
/// parentheses and quoted strings; each piece is trimmed.
#[verifier::loop_isolation(false)]
pub fn split_ifc_args(raw_args: &str) -> (r: Vec<String>)
    ensures
        r@.len() == spec_split_ifc_args(raw_args@).len(),
        forall|i: int|
            0 <= i < r@.len() ==> (#[trigger] r@[i])@ == spec_split_ifc_args(raw_args@)[i],
{
    let cs = chars_of(raw_args);
    let n = cs.len();
    let mut result: Vec<String> = Vec::new();
    let mut current: Vec<char> = Vec::new();
    let mut depth: i128 = 0;
    let mut in_string = false;
    let mut i: usize = 0;
    while i < n
        invariant
            0 <= i <= n,
            -(i as int) <= depth <= i as int,
            split_fold(cs@, i as int).0.len() == result@.len(),
            forall|j: int|
                0 <= j < result@.len() ==> (#[trigger] result@[j])@ == split_fold(
                    cs@,
                    i as int,
                ).0[j],
            split_fold(cs@, i as int).1 == current@,
            split_fold(cs@, i as int).2 == depth,
            split_fold(cs@, i as int).3 == in_string,
        decreases n - i,
    {
        let c = cs[i];
        if c == '\'' {
            in_string = !in_string;
            current.push(c);
        } else if c == '(' && !in_string {
            depth = depth + 1;
            current.push(c);
        } else if c == ')' && !in_string {
            depth = depth - 1;
            current.push(c);
        } else if c == ',' && depth == 0 && !in_string {
            let piece = trim_chars(&current);
            result.push(string_from_chars(&piece));
            current = Vec::new();
        } else {
            current.push(c);
        }
        i += 1;
    }
    let last = trim_chars(&current);
    if last.len() > 0 {
        result.push(string_from_chars(&last));
    }
    result
}

/// One step of the real-list scan: parentheses
/// open and close the list (a finished piece is read at the closing
/// one), commas at depth one end a piece, and characters inside the
/// list accumulate.
pub open spec fn reals_step(
    st: (Seq<Decimal>, Seq<char>, int),
    c: char,
) -> (Seq<Decimal>, Seq<char>, int) {
    let (nums, cur, depth) = st;
    if c == '(' {
        if depth + 1 > 1 {
            (nums, cur.push(c), depth + 1)
        } else {
            (nums, cur, depth + 1)
        }
    } else if c == ')' {
        if depth - 1 > 0 {
            (nums, cur.push(c), depth - 1)
        } else {
            (reals_keep(nums, cur), cur, depth - 1)
        }
    } else if c == ',' {
        if depth == 1 {
            (reals_keep(nums, cur), Seq::empty(), depth)
        } else {
            (nums, cur.push(c), depth)
        }
    } else {
        if depth > 0 {
            (nums, cur.push(c), depth)
        } else {
            (nums, cur, depth)
        }
    }
}

/// Keeps a finished piece when it reads as a decimal literal.
pub open spec fn reals_keep(nums: Seq<Decimal>, cur: Seq<char>) -> Seq<Decimal> {
    match spec_parse_decimal(cur) {
        Some(d) => nums.push(d),
        None => nums,
    }
}

/// The real-list scan folded over the first `i` characters.
pub open spec fn reals_fold(s: Seq<char>, i: int) -> (Seq<Decimal>, Seq<char>, int)
    decreases i,
{
    if i <= 0 {
        (Seq::empty(), Seq::empty(), 0)
    } else {
        reals_step(reals_fold(s, i - 1), s[i - 1])
    }
}

/// The decimal values read from list text such as `(1.5,0.,3e2)`, in
/// order; unparsable pieces are dropped.
pub open spec fn spec_parse_real_list(s: Seq<char>) -> Seq<Decimal> {
    reals_fold(s, s.len() as int).0
}

/// Reads comma-separated real numbers from parenthesised list text,
/// keeping each piece that parses as a decimal literal.
#[verifier::loop_isolation(false)]
pub fn parse_real_list(text: &str) -> (r: Vec<Decimal>)
    ensures
        r@ == spec_parse_real_list(text@),
{
    let cs = chars_of(text);
    let n = cs.len();
    let mut numbers: Vec<Decimal> = Vec::new();
    let mut current: Vec<char> = Vec::new();
    let mut depth: i128 = 0;
    let mut i: usize = 0;
    while i < n
        invariant
            0 <= i <= n,
            -(i as int) <= depth <= i as int,
            reals_fold(cs@, i as int) == (numbers@, current@, depth as int),
        decreases n - i,
    {
        let c = cs[i];
        if c == '(' {
            depth = depth + 1;
            if depth > 1 {
                current.push(c);
            }
        } else if c == ')' {
            depth = depth - 1;
            if depth > 0 {
                current.push(c);
            } else {
                match parse_decimal_chars(&current) {
                    Some(d) => {
                        numbers.push(d);
                    },
                    None => {},
                }
            }
        } else if c == ',' {
            if depth == 1 {
                match parse_decimal_chars(&current) {
                    Some(d) => {
                        numbers.push(d);
                    },
                    None => {},
                }
                current = Vec::new();
            } else {
                current.push(c);
            }
        } else {
            if depth > 0 {
                current.push(c);
            }
        }
        i += 1;
    }
    numbers
}

/// What `extract_single_ref` reads: nothing for `$` or empty text, else
/// the digits right after the first `#`, if any and if they fit.
pub open spec fn spec_extract_single_ref(s: Seq<char>) -> Option<u64> {
    let t = trim_spec(s);
    if t.len() == 0 || (t.len() == 1 && t[0] == '$') {
        None
    } else {
        let h = find_ch(t, '#');
        if h == t.len() {
            None
        } else {
            let after = t.subrange(h + 1, t.len() as int);
            let num = after.subrange(0, digits_prefix_len(after));
            if num.len() == 0 {
                None
            } else if digits_value(num) <= u64::MAX {
                Some(digits_value(num) as u64)
            } else {
                None
            }
        }
    }
}

/// Reads one entity reference (`#NNN`) from a positional argument, or
/// nothing for `$`, empty text, or text without a referenced number.
#[verifier::loop_isolation(false)]
pub fn extract_single_ref(arg: &str) -> (r: Option<u64>)
    ensures
        r == spec_extract_single_ref(arg@),
{
    let cs = chars_of(arg);
    let t = trim_chars(&cs);
    let n = t.len();
    if n == 0 || (n == 1 && t[0] == '$') {
        return None;
    }
    let h = find_char_from(&t, 0, '#');
    proof {
        assert(t@.subrange(0, t@.len() as int) =~= t@);
    }
    if h == n {
        return None;
    }
    let ghost after = t@.subrange(h + 1, n as int);
    let mut j: usize = h + 1;
    while j < n && is_digit_exec(t[j])
        invariant
            h + 1 <= j <= n,
            forall|k: int| h + 1 <= k < j ==> is_digit_c(#[trigger] t@[k]),
        decreases n - j,
    {
        j += 1;
    }
    proof {
        lemma_digits_prefix_at(after, j - (h + 1));
        assert(after.subrange(0, j - (h + 1)) =~= t@.subrange(h + 1, j as int));
        assert(all_digits(t@.subrange(h + 1, j as int)));
    }
    if j == h + 1 {
        return None;
    }
    digits_accum(&t, h + 1, j)
}

} // verus!
