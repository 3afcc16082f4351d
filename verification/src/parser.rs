use crate::ast::{
    Block, Expr, Function, FunctionCall, MathToken, BoolToken, RelToken, VarToken, Op, Param,
    Type, SpecExpr,
};
use vstd::prelude::*;

verus! {

/// A parse failure: no grammar rule matches at the current position.
#[derive(Debug, Clone, Copy, PartialEq, Eq, Structural)]
pub struct ParseErr;

// ---------------------------------------------------------------------------
// Character classes and low-level scanning, over sequences of characters.
// ---------------------------------------------------------------------------

/// The whitespace the grammar ignores around tokens.
pub open spec fn is_ws_char(c: char) -> bool {
    c == ' ' || c == '\n' || c == '\t' || c == '\r'
}

pub open spec fn is_digit_char(c: char) -> bool {
    ('0' as u32) <= (c as u32) && (c as u32) <= ('9' as u32)
}

/// The characters an identifier may consist of.
pub open spec fn is_alnum_char(c: char) -> bool {
    is_digit_char(c) || (('a' as u32) <= (c as u32) && (c as u32) <= ('z' as u32)) || (('A' as u32)
        <= (c as u32) && (c as u32) <= ('Z' as u32))
}

/// The position of the first non-whitespace character at or after `i`.
pub open spec fn spec_ws(s: Seq<char>, i: int) -> int
    decreases s.len() - i,
{
    if 0 <= i < s.len() && is_ws_char(s[i]) {
        spec_ws(s, i + 1)
    } else {
        i
    }
}

/// Skipping whitespace stays within the input and never goes backwards.
pub proof fn lemma_ws_bounds(s: Seq<char>, i: int)
    requires
        0 <= i <= s.len(),
    ensures
        i <= spec_ws(s, i) <= s.len(),
    decreases s.len() - i,
{
    if i < s.len() && is_ws_char(s[i]) {
        lemma_ws_bounds(s, i + 1);
    }
}

/// The end of the maximal run of characters satisfying the digit class,
/// starting at `i`.
pub open spec fn spec_digits_end(s: Seq<char>, i: int) -> int
    decreases s.len() - i,
{
    if 0 <= i < s.len() && is_digit_char(s[i]) {
        spec_digits_end(s, i + 1)
    } else {
        i
    }
}

pub proof fn lemma_digits_end_bounds(s: Seq<char>, i: int)
    requires
        0 <= i <= s.len(),
    ensures
        i <= spec_digits_end(s, i) <= s.len(),
    decreases s.len() - i,
{
    if i < s.len() && is_digit_char(s[i]) {
        lemma_digits_end_bounds(s, i + 1);
    }
}

/// The end of the maximal run of identifier characters starting at `i`.
pub open spec fn spec_alnum_end(s: Seq<char>, i: int) -> int
    decreases s.len() - i,
{
    if 0 <= i < s.len() && is_alnum_char(s[i]) {
        spec_alnum_end(s, i + 1)
    } else {
        i
    }
}

pub proof fn lemma_alnum_end_bounds(s: Seq<char>, i: int)
    requires
        0 <= i <= s.len(),
    ensures
        i <= spec_alnum_end(s, i) <= s.len(),
    decreases s.len() - i,
{
    if i < s.len() && is_alnum_char(s[i]) {
        lemma_alnum_end_bounds(s, i + 1);
    }
}

/// Whether the literal `t` stands at position `i`, and where it ends.
pub open spec fn spec_tag(s: Seq<char>, i: int, t: Seq<char>) -> Option<int> {
    if 0 <= i && i + t.len() <= s.len() && s.subrange(i, i + t.len()) == t {
        Some(i + t.len())
    } else {
        None
    }
}

// ---------------------------------------------------------------------------
// Conversions between strings and character vectors.
// ---------------------------------------------------------------------------

/// Relies on str::chars: the characters of the string, in order.
#[verifier::external_body]
fn str_chars(s: &str) -> (r: Vec<char>)
    ensures
        r@ == s@,
{
    s.chars().collect()
}

/// Relies on String's FromIterator over characters: the collected string
/// holds exactly the characters given.
#[verifier::external_body]
fn vec_to_string(v: &Vec<char>) -> (r: String)
    ensures
        r@ == v@,
{
    v.iter().collect()
}

/// Copies a range of characters out of the input.
fn collect_range(src: &Vec<char>, from: usize, to: usize) -> (r: Vec<char>)
    requires
        from <= to <= src@.len(),
    ensures
        r@ == src@.subrange(from as int, to as int),
{
    let mut r: Vec<char> = Vec::new();
    let mut i: usize = from;
    while i < to
        invariant
            from <= i <= to <= src@.len(),
            r@.len() == i - from,
            forall|m: int| 0 <= m < r@.len() ==> r@[m] == src@[from + m],
        decreases to - i,
    {
        r.push(src[i]);
        i = i + 1;
    }
    assert(r@ =~= src@.subrange(from as int, to as int));
    r
}

/// The input left over from a position on, as a string.
fn rest_string(src: &Vec<char>, from: usize) -> (r: String)
    requires
        from <= src@.len(),
    ensures
        r@ == src@.skip(from as int),
{
    let v = collect_range(src, from, src.len());
    proof {
        assert(src@.subrange(from as int, src@.len() as int) =~= src@.skip(from as int));
    }
    vec_to_string(&v)
}

fn is_ws(c: char) -> (r: bool)
    ensures
        r == is_ws_char(c),
{
    c == ' ' || c == '\n' || c == '\t' || c == '\r'
}

fn is_digit(c: char) -> (r: bool)
    ensures
        r == is_digit_char(c),
{
    let u = c as u32;
    48 <= u && u <= 57
}

fn is_alnum(c: char) -> (r: bool)
    ensures
        r == is_alnum_char(c),
{
    let u = c as u32;
    (48 <= u && u <= 57) || (97 <= u && u <= 122) || (65 <= u && u <= 90)
}

/// Skips the whitespace at a position.
fn skip_ws(src: &Vec<char>, pos: usize) -> (r: usize)
    requires
        pos <= src@.len(),
    ensures
        r as int == spec_ws(src@, pos as int),
        pos <= r <= src@.len(),
{
    let mut i = pos;
    while i < src.len() && is_ws(src[i])
        invariant
            pos <= i <= src@.len(),
            spec_ws(src@, pos as int) == spec_ws(src@, i as int),
        decreases src@.len() - i,
    {
        i = i + 1;
    }
    i
}

/// Scans to the end of the digit run at a position.
fn scan_digits(src: &Vec<char>, pos: usize) -> (r: usize)
    requires
        pos <= src@.len(),
    ensures
        r as int == spec_digits_end(src@, pos as int),
        pos <= r <= src@.len(),
{
    let mut i = pos;
    while i < src.len() && is_digit(src[i])
        invariant
            pos <= i <= src@.len(),
            spec_digits_end(src@, pos as int) == spec_digits_end(src@, i as int),
        decreases src@.len() - i,
    {
        i = i + 1;
    }
    i
}

/// Scans to the end of the identifier-character run at a position.
fn scan_alnum(src: &Vec<char>, pos: usize) -> (r: usize)
    requires
        pos <= src@.len(),
    ensures
        r as int == spec_alnum_end(src@, pos as int),
        pos <= r <= src@.len(),
{
    let mut i = pos;
    while i < src.len() && is_alnum(src[i])
        invariant
            pos <= i <= src@.len(),
            spec_alnum_end(src@, pos as int) == spec_alnum_end(src@, i as int),
        decreases src@.len() - i,
    {
        i = i + 1;
    }
    i
}

/// Matches a literal at a position, without surrounding whitespace.
fn match_tag(src: &Vec<char>, pos: usize, tag: &str) -> (r: Option<usize>)
    requires
        pos <= src@.len(),
    ensures
        match r {
            Some(p) => spec_tag(src@, pos as int, tag@) == Some(p as int) && pos <= p <= src@.len()
                && p as int == pos + tag@.len(),
            None => spec_tag(src@, pos as int, tag@) is None,
        },
{
    let tv = str_chars(tag);
    if src.len() < pos || src.len() - pos < tv.len() {
        return None;
    }
    let mut i: usize = 0;
    while i < tv.len()
        invariant
            0 <= i <= tv@.len(),
            pos + tv@.len() <= src@.len(),
            src.len() == src@.len(),
            tv.len() == tv@.len(),
            tv@ == tag@,
            forall|m: int| 0 <= m < i ==> src@[pos + m] == tv@[m],
        decreases tv@.len() - i,
    {
        if src[pos + i] != tv[i] {
            proof {
                assert(src@.subrange(pos as int, pos + tag@.len())[i as int] != tag@[i as int]);
            }
            return None;
        }
        i = i + 1;
    }
    proof {
        assert(src@.subrange(pos as int, pos + tag@.len()) =~= tag@);
    }
    Some(pos + tv.len())
}

// ---------------------------------------------------------------------------
// Token-level grammar: literals, identifiers, types and operators.
// ---------------------------------------------------------------------------

/// Folds a run of unary minus signs, each wrapped in whitespace, into a
/// parity: where the run ends, and whether the signs negate.
pub open spec fn spec_signs(s: Seq<char>, i: int, neg: bool) -> (int, bool)
    decreases s.len() - i,
    via spec_signs_dec
{
    if 0 <= i <= s.len() {
        let j = spec_ws(s, i);
        if j < s.len() && s[j] == '-' {
            spec_signs(s, spec_ws(s, j + 1), !neg)
        } else {
            (i, neg)
        }
    } else {
        (i, neg)
    }
}

#[via_fn]
proof fn spec_signs_dec(s: Seq<char>, i: int, neg: bool) {
    if 0 <= i <= s.len() {
        lemma_ws_bounds(s, i);
        let j = spec_ws(s, i);
        if j < s.len() && s[j] == '-' {
            lemma_ws_bounds(s, j + 1);
        }
    }
}

/// The value of a digit run, folded left, failing as soon as the
/// accumulator leaves the `i32` range.
pub open spec fn spec_digits_val(s: Seq<char>, from: int, to: int, acc: int) -> Option<int>
    decreases to - from,
{
    if acc > i32::MAX {
        None
    } else if from >= to {
        Some(acc)
    } else {
        spec_digits_val(s, from + 1, to, acc * 10 + ((s[from] as u32) as int - 48))
    }
}

/// Every character of a digit run is a digit.
pub proof fn lemma_digits_run(s: Seq<char>, i: int)
    requires
        0 <= i <= s.len(),
    ensures
        forall|m: int| i <= m < spec_digits_end(s, i) ==> is_digit_char(#[trigger] s[m]),
    decreases s.len() - i,
{
    if i < s.len() && is_digit_char(s[i]) {
        lemma_digits_run(s, i + 1);
    }
}

/// An integer literal: a run of minus signs, a digit run, whitespace
/// around both; its value must fit an `i32`.
pub open spec fn spec_parse_i32(s: Seq<char>, i: int) -> Option<(int, i32)> {
    if 0 <= i <= s.len() {
        let (p, neg) = spec_signs(s, i, false);
        let d0 = spec_ws(s, p);
        let d1 = spec_digits_end(s, d0);
        if d1 > d0 {
            match spec_digits_val(s, d0, d1, 0) {
                Some(v) => Some(
                    (spec_ws(s, d1), (if neg {
                        -v
                    } else {
                        v
                    }) as i32),
                ),
                None => None,
            }
        } else {
            None
        }
    } else {
        None
    }
}

/// A boolean literal, whitespace around it.
pub open spec fn spec_parse_bool(s: Seq<char>, i: int) -> Option<(int, bool)> {
    let j = spec_ws(s, i);
    match spec_tag(s, j, "true"@) {
        Some(k) => Some((spec_ws(s, k), true)),
        None => match spec_tag(s, j, "false"@) {
            Some(k) => Some((spec_ws(s, k), false)),
            None => None,
        },
    }
}

/// A type name, whitespace around it.
pub open spec fn spec_parse_type(s: Seq<char>, i: int) -> Option<(int, Type)> {
    let j = spec_ws(s, i);
    match spec_tag(s, j, "i32"@) {
        Some(k) => Some((spec_ws(s, k), Type::Int32)),
        None => match spec_tag(s, j, "bool"@) {
            Some(k) => Some((spec_ws(s, k), Type::Bool)),
            None => match spec_tag(s, j, "()"@) {
                Some(k) => Some((spec_ws(s, k), Type::Void)),
                None => None,
            },
        },
    }
}

/// An identifier: a nonempty alphanumeric run, whitespace around it.
pub open spec fn spec_parse_var(s: Seq<char>, i: int) -> Option<(int, Seq<char>)> {
    let j = spec_ws(s, i);
    let e = spec_alnum_end(s, j);
    if e > j {
        Some((spec_ws(s, e), s.subrange(j, e)))
    } else {
        None
    }
}

/// A boolean operator token; alternatives tried in the grammar's order.
pub open spec fn spec_parse_bool_op(s: Seq<char>, i: int) -> Option<(int, Op)> {
    let j = spec_ws(s, i);
    match spec_tag(s, j, "&&"@) {
        Some(k) => Some((spec_ws(s, k), Op::BoolOp(BoolToken::And))),
        None => match spec_tag(s, j, "||"@) {
            Some(k) => Some((spec_ws(s, k), Op::BoolOp(BoolToken::Or))),
            None => match spec_tag(s, j, "!"@) {
                Some(k) => Some((spec_ws(s, k), Op::BoolOp(BoolToken::Not))),
                None => None,
            },
        },
    }
}

/// A relational operator token; `==` is tried before `<` and `>`.
pub open spec fn spec_parse_rel_op(s: Seq<char>, i: int) -> Option<(int, Op)> {
    let j = spec_ws(s, i);
    match spec_tag(s, j, "=="@) {
        Some(k) => Some((spec_ws(s, k), Op::RelOp(RelToken::Equal))),
        None => match spec_tag(s, j, "<"@) {
            Some(k) => Some((spec_ws(s, k), Op::RelOp(RelToken::Leq))),
            None => match spec_tag(s, j, ">"@) {
                Some(k) => Some((spec_ws(s, k), Op::RelOp(RelToken::Geq))),
                None => match spec_tag(s, j, "!="@) {
                    Some(k) => Some((spec_ws(s, k), Op::RelOp(RelToken::Neq))),
                    None => None,
                },
            },
        },
    }
}

/// An arithmetic operator token.
pub open spec fn spec_parse_math_op(s: Seq<char>, i: int) -> Option<(int, Op)> {
    match spec_parse_math_token(s, i) {
        Some((k, t)) => Some((k, Op::MathOp(t))),
        None => None,
    }
}

/// The arithmetic token itself, for callers that want the bare token.
pub open spec fn spec_parse_math_token(s: Seq<char>, i: int) -> Option<(int, MathToken)> {
    let j = spec_ws(s, i);
    match spec_tag(s, j, "/"@) {
        Some(k) => Some((spec_ws(s, k), MathToken::Division)),
        None => match spec_tag(s, j, "%"@) {
            Some(k) => Some((spec_ws(s, k), MathToken::Modulo)),
            None => match spec_tag(s, j, "*"@) {
                Some(k) => Some((spec_ws(s, k), MathToken::Multiply)),
                None => match spec_tag(s, j, "-"@) {
                    Some(k) => Some((spec_ws(s, k), MathToken::Minus)),
                    None => match spec_tag(s, j, "+"@) {
                        Some(k) => Some((spec_ws(s, k), MathToken::Plus)),
                        None => None,
                    },
                },
            },
        },
    }
}

/// An assignment operator token; `=` is tried before the compound forms.
pub open spec fn spec_parse_var_op(s: Seq<char>, i: int) -> Option<(int, Op)> {
    let j = spec_ws(s, i);
    match spec_tag(s, j, "="@) {
        Some(k) => Some((spec_ws(s, k), Op::VarOp(VarToken::Assign))),
        None => match spec_tag(s, j, "+="@) {
            Some(k) => Some((spec_ws(s, k), Op::VarOp(VarToken::PlusEq))),
            None => match spec_tag(s, j, "-="@) {
                Some(k) => Some((spec_ws(s, k), Op::VarOp(VarToken::MinEq))),
                None => match spec_tag(s, j, "*="@) {
                    Some(k) => Some((spec_ws(s, k), Op::VarOp(VarToken::MulEq))),
                    None => None,
                },
            },
        },
    }
}

/// Any non-assignment operator: boolean, then arithmetic, then
/// relational.
pub open spec fn spec_parse_any_op(s: Seq<char>, i: int) -> Option<(int, Op)> {
    match spec_parse_bool_op(s, i) {
        Some(r) => Some(r),
        None => match spec_parse_math_op(s, i) {
            Some(r) => Some(r),
            None => spec_parse_rel_op(s, i),
        },
    }
}

// ---------------------------------------------------------------------------
// Executable token parsers, position in, position out.
// ---------------------------------------------------------------------------

/// Parses an integer literal with its sign run.
fn p_i32(src: &Vec<char>, pos: usize) -> (r: Option<(usize, i32)>)
    requires
        pos <= src@.len(),
    ensures
        match r {
            Some((p, n)) => spec_parse_i32(src@, pos as int) == Some((p as int, n)) && pos < p
                <= src@.len(),
            None => spec_parse_i32(src@, pos as int) is None,
        },
{
    let mut p = pos;
    let mut neg = false;
    loop
        invariant
            pos <= p <= src@.len(),
            spec_signs(src@, pos as int, false) == spec_signs(src@, p as int, neg),
        ensures
            pos <= p <= src@.len(),
            spec_signs(src@, pos as int, false) == spec_signs(src@, p as int, neg),
            !(spec_ws(src@, p as int) < src@.len() && src@[spec_ws(src@, p as int)] == '-'),
        decreases src@.len() - p,
    {
        let j = skip_ws(src, p);
        if j < src.len() && src[j] == '-' {
            proof {
                lemma_ws_bounds(src@, j as int + 1);
            }
            p = skip_ws(src, j + 1);
            neg = !neg;
        } else {
            break;
        }
    }
    proof {
        assert(spec_signs(src@, p as int, neg) == (p as int, neg));
    }
    let d0 = skip_ws(src, p);
    let d1 = scan_digits(src, d0);
    if d1 == d0 {
        proof {
            assert(spec_parse_i32(src@, pos as int) is None);
        }
        return None;
    }
    proof {
        lemma_digits_run(src@, d0 as int);
    }
    let mut acc: u64 = 0;
    let mut q = d0;
    while q < d1
        invariant
            pos <= p <= src@.len(),
            spec_signs(src@, pos as int, false) == (p as int, neg),
            d0 as int == spec_ws(src@, p as int),
            d1 as int == spec_digits_end(src@, d0 as int),
            d0 < d1,
            d0 <= q <= d1 <= src@.len(),
            acc <= 2147483647,
            forall|m: int| d0 <= m < d1 ==> is_digit_char(#[trigger] src@[m]),
            spec_digits_val(src@, d0 as int, d1 as int, 0) == spec_digits_val(
                src@,
                q as int,
                d1 as int,
                acc as int,
            ),
        decreases d1 - q,
    {
        let dg = (src[q] as u32 - 48) as u64;
        proof {
            assert(is_digit_char(src@[q as int]));
            assert(dg <= 9);
        }
        let acc2: u64 = acc * 10 + dg;
        if acc2 > 2147483647 {
            proof {
                assert(acc2 as int == acc as int * 10 + ((src@[q as int] as u32) as int - 48));
                assert(spec_digits_val(src@, q as int + 1, d1 as int, acc2 as int) is None);
                assert(spec_digits_val(src@, q as int, d1 as int, acc as int) is None);
                assert(spec_digits_val(src@, d0 as int, d1 as int, 0) is None);
                assert(spec_parse_i32(src@, pos as int) is None);
            }
            return None;
        }
        acc = acc2;
        q = q + 1;
    }
    let v = acc as i32;
    let n: i32 = if neg {
        -v
    } else {
        v
    };
    let k = skip_ws(src, d1);
    Some((k, n))
}

/// Parses a boolean literal.
fn p_bool(src: &Vec<char>, pos: usize) -> (r: Option<(usize, bool)>)
    requires
        pos <= src@.len(),
    ensures
        match r {
            Some((p, b)) => spec_parse_bool(src@, pos as int) == Some((p as int, b)) && pos < p
                <= src@.len(),
            None => spec_parse_bool(src@, pos as int) is None,
        },
{
    proof {
        reveal_strlit("true");
        reveal_strlit("false");
    }
    let j = skip_ws(src, pos);
    match match_tag(src, j, "true") {
        Some(k) => Some((skip_ws(src, k), true)),
        None => match match_tag(src, j, "false") {
            Some(k) => Some((skip_ws(src, k), false)),
            None => None,
        },
    }
}

/// Parses a type name.
fn p_type(src: &Vec<char>, pos: usize) -> (r: Option<(usize, Type)>)
    requires
        pos <= src@.len(),
    ensures
        match r {
            Some((p, t)) => spec_parse_type(src@, pos as int) == Some((p as int, t)) && pos < p
                <= src@.len(),
            None => spec_parse_type(src@, pos as int) is None,
        },
{
    proof {
        reveal_strlit("i32");
        reveal_strlit("bool");
        reveal_strlit("()");
    }
    let j = skip_ws(src, pos);
    match match_tag(src, j, "i32") {
        Some(k) => Some((skip_ws(src, k), Type::Int32)),
        None => match match_tag(src, j, "bool") {
            Some(k) => Some((skip_ws(src, k), Type::Bool)),
            None => match match_tag(src, j, "()") {
                Some(k) => Some((skip_ws(src, k), Type::Void)),
                None => None,
            },
        },
    }
}

/// Parses an identifier.
fn p_var(src: &Vec<char>, pos: usize) -> (r: Option<(usize, String)>)
    requires
        pos <= src@.len(),
    ensures
        match r {
            Some((p, name)) => spec_parse_var(src@, pos as int) matches Some(sp) && sp.0
                == p as int && name@ == sp.1 && pos < p <= src@.len(),
            None => spec_parse_var(src@, pos as int) is None,
        },
{
    let j = skip_ws(src, pos);
    let e = scan_alnum(src, j);
    if e > j {
        let v = collect_range(src, j, e);
        let name = vec_to_string(&v);
        Some((skip_ws(src, e), name))
    } else {
        None
    }
}

/// Parses a boolean operator.
fn p_bool_op(src: &Vec<char>, pos: usize) -> (r: Option<(usize, Op)>)
    requires
        pos <= src@.len(),
    ensures
        match r {
            Some((p, op)) => spec_parse_bool_op(src@, pos as int) == Some((p as int, op)) && pos
                < p <= src@.len(),
            None => spec_parse_bool_op(src@, pos as int) is None,
        },
{
    proof {
        reveal_strlit("&&");
        reveal_strlit("||");
        reveal_strlit("!");
    }
    let j = skip_ws(src, pos);
    match match_tag(src, j, "&&") {
        Some(k) => Some((skip_ws(src, k), Op::BoolOp(BoolToken::And))),
        None => match match_tag(src, j, "||") {
            Some(k) => Some((skip_ws(src, k), Op::BoolOp(BoolToken::Or))),
            None => match match_tag(src, j, "!") {
                Some(k) => Some((skip_ws(src, k), Op::BoolOp(BoolToken::Not))),
                None => None,
            },
        },
    }
}

/// Parses a relational operator.
fn p_rel_op(src: &Vec<char>, pos: usize) -> (r: Option<(usize, Op)>)
    requires
        pos <= src@.len(),
    ensures
        match r {
            Some((p, op)) => spec_parse_rel_op(src@, pos as int) == Some((p as int, op)) && pos < p
                <= src@.len(),
            None => spec_parse_rel_op(src@, pos as int) is None,
        },
{
    proof {
        reveal_strlit("==");
        reveal_strlit("<");
        reveal_strlit(">");
        reveal_strlit("!=");
    }
    let j = skip_ws(src, pos);
    match match_tag(src, j, "==") {
        Some(k) => Some((skip_ws(src, k), Op::RelOp(RelToken::Equal))),
        None => match match_tag(src, j, "<") {
            Some(k) => Some((skip_ws(src, k), Op::RelOp(RelToken::Leq))),
            None => match match_tag(src, j, ">") {
                Some(k) => Some((skip_ws(src, k), Op::RelOp(RelToken::Geq))),
                None => match match_tag(src, j, "!=") {
                    Some(k) => Some((skip_ws(src, k), Op::RelOp(RelToken::Neq))),
                    None => None,
                },
            },
        },
    }
}

/// Parses an arithmetic operator token.
fn p_math_token(src: &Vec<char>, pos: usize) -> (r: Option<(usize, MathToken)>)
    requires
        pos <= src@.len(),
    ensures
        match r {
            Some((p, t)) => spec_parse_math_token(src@, pos as int) == Some((p as int, t)) && pos
                < p <= src@.len(),
            None => spec_parse_math_token(src@, pos as int) is None,
        },
{
    proof {
        reveal_strlit("/");
        reveal_strlit("%");
        reveal_strlit("*");
        reveal_strlit("-");
        reveal_strlit("+");
    }
    let j = skip_ws(src, pos);
    match match_tag(src, j, "/") {
        Some(k) => Some((skip_ws(src, k), MathToken::Division)),
        None => match match_tag(src, j, "%") {
            Some(k) => Some((skip_ws(src, k), MathToken::Modulo)),
            None => match match_tag(src, j, "*") {
                Some(k) => Some((skip_ws(src, k), MathToken::Multiply)),
                None => match match_tag(src, j, "-") {
                    Some(k) => Some((skip_ws(src, k), MathToken::Minus)),
                    None => match match_tag(src, j, "+") {
                        Some(k) => Some((skip_ws(src, k), MathToken::Plus)),
                        None => None,
                    },
                },
            },
        },
    }
}

/// Parses an arithmetic operator.
fn p_math_op(src: &Vec<char>, pos: usize) -> (r: Option<(usize, Op)>)
    requires
        pos <= src@.len(),
    ensures
        match r {
            Some((p, op)) => spec_parse_math_op(src@, pos as int) == Some((p as int, op)) && pos
                < p <= src@.len(),
            None => spec_parse_math_op(src@, pos as int) is None,
        },
{
    match p_math_token(src, pos) {
        Some((p, t)) => Some((p, Op::MathOp(t))),
        None => None,
    }
}

/// Parses an assignment operator.
fn p_var_op(src: &Vec<char>, pos: usize) -> (r: Option<(usize, Op)>)
    requires
        pos <= src@.len(),
    ensures
        match r {
            Some((p, op)) => spec_parse_var_op(src@, pos as int) == Some((p as int, op)) && pos < p
                <= src@.len(),
            None => spec_parse_var_op(src@, pos as int) is None,
        },
{
    proof {
        reveal_strlit("=");
        reveal_strlit("+=");
        reveal_strlit("-=");
        reveal_strlit("*=");
    }
    let j = skip_ws(src, pos);
    match match_tag(src, j, "=") {
        Some(k) => Some((skip_ws(src, k), Op::VarOp(VarToken::Assign))),
        None => match match_tag(src, j, "+=") {
            Some(k) => Some((skip_ws(src, k), Op::VarOp(VarToken::PlusEq))),
            None => match match_tag(src, j, "-=") {
                Some(k) => Some((skip_ws(src, k), Op::VarOp(VarToken::MinEq))),
                None => match match_tag(src, j, "*=") {
                    Some(k) => Some((skip_ws(src, k), Op::VarOp(VarToken::MulEq))),
                    None => None,
                },
            },
        },
    }
}

/// Parses any non-assignment operator.
fn p_any_op(src: &Vec<char>, pos: usize) -> (r: Option<(usize, Op)>)
    requires
        pos <= src@.len(),
    ensures
        match r {
            Some((p, op)) => spec_parse_any_op(src@, pos as int) == Some((p as int, op)) && pos < p
                <= src@.len(),
            None => spec_parse_any_op(src@, pos as int) is None,
        },
{
    match p_bool_op(src, pos) {
        Some(r) => Some(r),
        None => match p_math_op(src, pos) {
            Some(r) => Some(r),
            None => p_rel_op(src, pos),
        },
    }
}

// ---------------------------------------------------------------------------
// The grammar's composite rules, as ordered-alternative descent over the
// character sequence. Alternatives are tried in the order written; the
// first that matches wins. Recursion is guarded on strict consumption,
// which the executable parser shows at every call.
// ---------------------------------------------------------------------------

/// An operand of a binary expression: a literal, a parenthesized
/// expression, or a variable, in that order.
pub open spec fn spec_parse_operand(s: Seq<char>, i: int) -> Option<(int, SpecExpr)>
    decreases s.len() - i, 2int,
{
    if 0 <= i <= s.len() {
        match spec_parse_bool(s, i) {
            Some((p, b)) => Some((p, SpecExpr::Bool(b))),
            None => match spec_parse_i32(s, i) {
                Some((p, n)) => Some((p, SpecExpr::Num(n))),
                None => match spec_parse_parens(s, i) {
                    Some(r) => Some(r),
                    None => match spec_parse_var(s, i) {
                        Some((p, name)) => Some((p, SpecExpr::Var(name))),
                        None => None,
                    },
                },
            },
        }
    } else {
        None
    }
}

/// A parenthesized expression, whitespace around the parentheses.
pub open spec fn spec_parse_parens(s: Seq<char>, i: int) -> Option<(int, SpecExpr)>
    decreases s.len() - i, 1int,
    via spec_parse_parens_dec
{
    if 0 <= i <= s.len() {
        match spec_tag(s, spec_ws(s, i), "("@) {
            Some(j) => {
                if i < j <= s.len() {
                    match spec_parse_right_expr(s, j) {
                        Some((k, e)) => match spec_tag(s, k, ")"@) {
                            Some(m) => Some((spec_ws(s, m), e)),
                            None => None,
                        },
                        None => None,
                    }
                } else {
                    None
                }
            },
            None => None,
        }
    } else {
        None
    }
}

#[via_fn]
proof fn spec_parse_parens_dec(s: Seq<char>, i: int) {
    if 0 <= i <= s.len() {
        lemma_ws_bounds(s, i);
    }
}

/// A binary expression: an operand, optionally followed by an operator
/// and another binary expression, right-associatively.
pub open spec fn spec_parse_bin_expr(s: Seq<char>, i: int) -> Option<(int, SpecExpr)>
    decreases s.len() - i, 3int,
{
    if 0 <= i <= s.len() {
        match spec_parse_operand(s, i) {
            Some((j, lhs)) => {
                if i <= j <= s.len() {
                    match spec_parse_any_op(s, j) {
                        Some((k, op)) => {
                            if i < k <= s.len() {
                                match spec_parse_bin_expr(s, k) {
                                    Some((m, rhs)) => Some(
                                        (m, SpecExpr::BinOp(Box::new(lhs), op, Box::new(rhs))),
                                    ),
                                    None => Some((j, lhs)),
                                }
                            } else {
                                Some((j, lhs))
                            }
                        },
                        None => Some((j, lhs)),
                    }
                } else {
                    None
                }
            },
            None => None,
        }
    } else {
        None
    }
}

/// A call site: an identifier followed by an argument list.
pub open spec fn spec_parse_func_call(s: Seq<char>, i: int) -> Option<(int, SpecExpr)>
    decreases s.len() - i, 4int,
{
    if 0 <= i <= s.len() {
        match spec_parse_var(s, i) {
            Some((j, name)) => {
                if i < j <= s.len() {
                    match spec_parse_fn_args(s, j) {
                        Some((k, args)) => Some(
                            (k, SpecExpr::FuncCall(crate::ast::SpecFunctionCall { name, args })),
                        ),
                        None => None,
                    }
                } else {
                    None
                }
            },
            None => None,
        }
    } else {
        None
    }
}

/// A right-hand expression: a call, or a binary expression.
pub open spec fn spec_parse_right_expr(s: Seq<char>, i: int) -> Option<(int, SpecExpr)>
    decreases s.len() - i, 5int,
    via spec_parse_right_expr_dec
{
    if 0 <= i <= s.len() {
        let j = spec_ws(s, i);
        match spec_parse_func_call(s, j) {
            Some((k, e)) => Some((spec_ws(s, k), e)),
            None => match spec_parse_bin_expr(s, j) {
                Some((k, e)) => Some((spec_ws(s, k), e)),
                None => None,
            },
        }
    } else {
        None
    }
}

#[via_fn]
proof fn spec_parse_right_expr_dec(s: Seq<char>, i: int) {
    if 0 <= i <= s.len() {
        lemma_ws_bounds(s, i);
    }
}

/// One argument, with its trailing whitespace.
pub open spec fn spec_parse_single_arg(s: Seq<char>, i: int) -> Option<(int, SpecExpr)>
    decreases s.len() - i, 6int,
{
    if 0 <= i <= s.len() {
        match spec_parse_right_expr(s, i) {
            Some((k, e)) => Some((spec_ws(s, k), e)),
            None => None,
        }
    } else {
        None
    }
}

/// One element of an argument list: an argument, or a comma followed by
/// an argument.
pub open spec fn spec_parse_arg_item(s: Seq<char>, i: int) -> Option<(int, SpecExpr)>
    decreases s.len() - i, 7int,
{
    if 0 <= i <= s.len() {
        match spec_parse_single_arg(s, i) {
            Some(r) => Some(r),
            None => match spec_tag(s, i, ","@) {
                Some(k) => spec_parse_single_arg(s, k),
                None => None,
            },
        }
    } else {
        None
    }
}

/// As many argument-list elements as will match.
pub open spec fn spec_parse_args_list(s: Seq<char>, i: int) -> (int, Seq<SpecExpr>)
    decreases s.len() - i, 8int,
{
    if 0 <= i <= s.len() {
        match spec_parse_arg_item(s, i) {
            Some((p, e)) => {
                if i < p <= s.len() {
                    let (end, rest) = spec_parse_args_list(s, p);
                    (end, seq![e] + rest)
                } else {
                    (i, Seq::empty())
                }
            },
            None => (i, Seq::empty()),
        }
    } else {
        (i, Seq::empty())
    }
}

/// A parenthesized argument list.
pub open spec fn spec_parse_fn_args(s: Seq<char>, i: int) -> Option<(int, Seq<SpecExpr>)>
    decreases s.len() - i, 9int,
    via spec_parse_fn_args_dec
{
    if 0 <= i <= s.len() {
        match spec_tag(s, spec_ws(s, i), "("@) {
            Some(j) => {
                if i < j <= s.len() {
                    let (m, items) = spec_parse_args_list(s, j);
                    if i <= m <= s.len() {
                        match spec_tag(s, m, ")"@) {
                            Some(q) => Some((spec_ws(s, q), items)),
                            None => None,
                        }
                    } else {
                        None
                    }
                } else {
                    None
                }
            },
            None => None,
        }
    } else {
        None
    }
}

#[via_fn]
proof fn spec_parse_fn_args_dec(s: Seq<char>, i: int) {
    if 0 <= i <= s.len() {
        lemma_ws_bounds(s, i);
    }
}

/// A `return` statement.
pub open spec fn spec_parse_return(s: Seq<char>, i: int) -> Option<(int, SpecExpr)>
    decreases s.len() - i, 10int,
{
    if 0 <= i <= s.len() {
        match spec_tag(s, i, "return"@) {
            Some(k) => match spec_parse_right_expr(s, k) {
                Some((m, e)) => Some((m, SpecExpr::Return(Box::new(e)))),
                None => None,
            },
            None => None,
        }
    } else {
        None
    }
}

/// A declaration: `let name: type = expression`.
pub open spec fn spec_parse_declaration(s: Seq<char>, i: int) -> Option<(int, SpecExpr)>
    decreases s.len() - i, 10int,
    via spec_parse_declaration_dec
{
    if 0 <= i <= s.len() {
        match spec_tag(s, spec_ws(s, i), "let"@) {
            Some(k) => {
                if i < k <= s.len() {
                    match spec_parse_var(s, k) {
                        Some((m, name)) => {
                            if i < m <= s.len() {
                                match spec_tag(s, spec_ws(s, m), ":"@) {
                                    Some(c1) => {
                                        if i < c1 <= s.len() {
                                            match spec_parse_type(s, c1) {
                                                Some((t_end, t)) => {
                                                    if i < t_end <= s.len() {
                                                        match spec_tag(
                                                            s,
                                                            spec_ws(s, t_end),
                                                            "="@,
                                                        ) {
                                                            Some(e1) => {
                                                                if i < e1 <= s.len() {
                                                                    match spec_parse_right_expr(
                                                                        s,
                                                                        e1,
                                                                    ) {
                                                                        Some((r_end, rhs)) => Some(
                                                                            (
                                                                                spec_ws(s, r_end),
                                                                                SpecExpr::Let(
                                                                                    Box::new(
                                                                                        SpecExpr::Var(
                                                                                            name,
                                                                                        ),
                                                                                    ),
                                                                                    t,
                                                                                    Box::new(rhs),
                                                                                ),
                                                                            ),
                                                                        ),
                                                                        None => None,
                                                                    }
                                                                } else {
                                                                    None
                                                                }
                                                            },
                                                            None => None,
                                                        }
                                                    } else {
                                                        None
                                                    }
                                                },
                                                None => None,
                                            }
                                        } else {
                                            None
                                        }
                                    },
                                    None => None,
                                }
                            } else {
                                None
                            }
                        },
                        None => None,
                    }
                } else {
                    None
                }
            },
            None => None,
        }
    } else {
        None
    }
}

#[via_fn]
proof fn spec_parse_declaration_dec(s: Seq<char>, i: int) {
    if 0 <= i <= s.len() {
        lemma_ws_bounds(s, i);
    }
}

/// An assignment statement on an already declared name.
pub open spec fn spec_parse_var_expr(s: Seq<char>, i: int) -> Option<(int, SpecExpr)>
    decreases s.len() - i, 10int,
{
    if 0 <= i <= s.len() {
        match spec_parse_var(s, i) {
            Some((j, name)) => {
                if i <= j <= s.len() {
                    match spec_parse_var_op(s, j) {
                        Some((k, op)) => {
                            if i < k <= s.len() {
                                match spec_parse_right_expr(s, k) {
                                    Some((m, rhs)) => Some(
                                        (
                                            m,
                                            SpecExpr::VarOp(
                                                Box::new(SpecExpr::Var(name)),
                                                op,
                                                Box::new(rhs),
                                            ),
                                        ),
                                    ),
                                    None => None,
                                }
                            } else {
                                None
                            }
                        },
                        None => None,
                    }
                } else {
                    None
                }
            },
            None => None,
        }
    } else {
        None
    }
}

/// A one-armed conditional statement.
pub open spec fn spec_parse_if(s: Seq<char>, i: int) -> Option<(int, SpecExpr)>
    decreases s.len() - i, 11int,
    via spec_parse_if_dec
{
    if 0 <= i <= s.len() {
        match spec_tag(s, spec_ws(s, i), "if"@) {
            Some(k) => {
                if i < k <= s.len() {
                    let m = spec_ws(s, k);
                    let cond = match spec_parse_bin_expr(s, m) {
                        Some(r) => Some(r),
                        None => spec_parse_var_expr(s, m),
                    };
                    match cond {
                        Some((q, c)) => {
                            if i < q <= s.len() {
                                let b0 = spec_ws(s, q);
                                if i < b0 <= s.len() {
                                    match spec_parse_block(s, b0) {
                                        Some((r_end, stmts)) => Some(
                                            (spec_ws(s, r_end), SpecExpr::If(Box::new(c), stmts)),
                                        ),
                                        None => None,
                                    }
                                } else {
                                    None
                                }
                            } else {
                                None
                            }
                        },
                        None => None,
                    }
                } else {
                    None
                }
            },
            None => None,
        }
    } else {
        None
    }
}

#[via_fn]
proof fn spec_parse_if_dec(s: Seq<char>, i: int) {
    if 0 <= i <= s.len() {
        lemma_ws_bounds(s, i);
        let k = spec_tag(s, spec_ws(s, i), "if"@);
        if k is Some && i < k->0 <= s.len() {
            lemma_ws_bounds(s, k->0);
        }
    }
}

/// A loop statement.
pub open spec fn spec_parse_while(s: Seq<char>, i: int) -> Option<(int, SpecExpr)>
    decreases s.len() - i, 11int,
    via spec_parse_while_dec
{
    if 0 <= i <= s.len() {
        match spec_tag(s, spec_ws(s, i), "while"@) {
            Some(k) => {
                if i < k <= s.len() {
                    match spec_parse_right_expr(s, k) {
                        Some((q, c)) => {
                            if i < q <= s.len() {
                                match spec_parse_block(s, q) {
                                    Some((r_end, stmts)) => Some(
                                        (r_end, SpecExpr::While(Box::new(c), stmts)),
                                    ),
                                    None => None,
                                }
                            } else {
                                None
                            }
                        },
                        None => None,
                    }
                } else {
                    None
                }
            },
            None => None,
        }
    } else {
        None
    }
}

#[via_fn]
proof fn spec_parse_while_dec(s: Seq<char>, i: int) {
    if 0 <= i <= s.len() {
        lemma_ws_bounds(s, i);
    }
}

/// A statement: the keyword alternatives, in the grammar's order, with
/// whitespace around the match.
pub open spec fn spec_parse_keyword(s: Seq<char>, i: int) -> Option<(int, SpecExpr)>
    decreases s.len() - i, 12int,
    via spec_parse_keyword_dec
{
    if 0 <= i <= s.len() {
        let j = spec_ws(s, i);
        let inner = match spec_parse_return(s, j) {
            Some(r) => Some(r),
            None => match spec_parse_declaration(s, j) {
                Some(r) => Some(r),
                None => match spec_parse_if(s, j) {
                    Some(r) => Some(r),
                    None => match spec_parse_while(s, j) {
                        Some(r) => Some(r),
                        None => match spec_parse_var_expr(s, j) {
                            Some(r) => Some(r),
                            None => spec_parse_func_call(s, j),
                        },
                    },
                },
            },
        };
        match inner {
            Some((p, e)) => {
                if p <= s.len() {
                    Some((spec_ws(s, p), e))
                } else {
                    None
                }
            },
            None => None,
        }
    } else {
        None
    }
}

#[via_fn]
proof fn spec_parse_keyword_dec(s: Seq<char>, i: int) {
    if 0 <= i <= s.len() {
        lemma_ws_bounds(s, i);
    }
}

/// One block statement: a keyword terminated by a semicolon, or a bare
/// `return`.
pub open spec fn spec_parse_stmt(s: Seq<char>, i: int) -> Option<(int, SpecExpr)>
    decreases s.len() - i, 13int,
{
    if 0 <= i <= s.len() {
        let first = match spec_parse_keyword(s, i) {
            Some((p, e)) => {
                if p <= s.len() {
                    match spec_tag(s, p, ";"@) {
                        Some(q) => Some((spec_ws(s, q), e)),
                        None => None,
                    }
                } else {
                    None
                }
            },
            None => None,
        };
        match first {
            Some(r) => Some(r),
            None => spec_parse_return(s, i),
        }
    } else {
        None
    }
}

/// As many block statements as will match.
pub open spec fn spec_parse_stmt_list(s: Seq<char>, i: int) -> (int, Seq<SpecExpr>)
    decreases s.len() - i, 14int,
{
    if 0 <= i <= s.len() {
        match spec_parse_stmt(s, i) {
            Some((p, e)) => {
                if i < p <= s.len() {
                    let (end, rest) = spec_parse_stmt_list(s, p);
                    (end, seq![e] + rest)
                } else {
                    (i, Seq::empty())
                }
            },
            None => (i, Seq::empty()),
        }
    } else {
        (i, Seq::empty())
    }
}

/// A braced block of statements; the brace must stand at the position
/// itself.
pub open spec fn spec_parse_block(s: Seq<char>, i: int) -> Option<(int, Seq<SpecExpr>)>
    decreases s.len() - i, 15int,
{
    if 0 <= i <= s.len() {
        match spec_tag(s, i, "{"@) {
            Some(j) => {
                let (m, stmts) = spec_parse_stmt_list(s, j);
                if i <= m <= s.len() {
                    match spec_tag(s, m, "}"@) {
                        Some(q) => Some((q, stmts)),
                        None => None,
                    }
                } else {
                    None
                }
            },
            None => None,
        }
    } else {
        None
    }
}

/// One parameter: a name, a colon, a type.
pub open spec fn spec_parse_single_param(s: Seq<char>, i: int) -> Option<(int, crate::ast::SpecParam)> {
    match spec_parse_var(s, i) {
        Some((j, name)) => match spec_tag(s, j, ":"@) {
            Some(k) => {
                if k <= s.len() {
                    match spec_parse_type(s, k) {
                        Some((m, t)) => Some((m, crate::ast::SpecParam { name, param_type: t })),
                        None => None,
                    }
                } else {
                    None
                }
            },
            None => None,
        },
        None => None,
    }
}

/// One element of a parameter list: a parameter, or a comma followed by
/// a parameter.
pub open spec fn spec_parse_param_item(s: Seq<char>, i: int) -> Option<(int, crate::ast::SpecParam)> {
    match spec_parse_single_param(s, i) {
        Some(r) => Some(r),
        None => match spec_tag(s, i, ","@) {
            Some(k) => {
                if k <= s.len() {
                    spec_parse_single_param(s, k)
                } else {
                    None
                }
            },
            None => None,
        },
    }
}

/// As many parameter-list elements as will match.
pub open spec fn spec_parse_params_list(s: Seq<char>, i: int) -> (int, Seq<crate::ast::SpecParam>)
    decreases s.len() - i,
{
    if 0 <= i <= s.len() {
        match spec_parse_param_item(s, i) {
            Some((p, prm)) => {
                if i < p <= s.len() {
                    let (end, rest) = spec_parse_params_list(s, p);
                    (end, seq![prm] + rest)
                } else {
                    (i, Seq::empty())
                }
            },
            None => (i, Seq::empty()),
        }
    } else {
        (i, Seq::empty())
    }
}

/// A parenthesized parameter list.
pub open spec fn spec_parse_fn_params(s: Seq<char>, i: int) -> Option<(int, Seq<crate::ast::SpecParam>)> {
    if 0 <= i <= s.len() {
        match spec_tag(s, spec_ws(s, i), "("@) {
            Some(j) => {
                if j <= s.len() {
                    let (m, ps) = spec_parse_params_list(s, j);
                    if 0 <= m <= s.len() {
                        match spec_tag(s, m, ")"@) {
                            Some(q) => Some((spec_ws(s, q), ps)),
                            None => None,
                        }
                    } else {
                        None
                    }
                } else {
                    None
                }
            },
            None => None,
        }
    } else {
        None
    }
}

/// A function definition.
pub open spec fn spec_parse_function(s: Seq<char>, i: int) -> Option<(int, crate::ast::SpecFunction)>
    decreases s.len() - i, 16int,
    via spec_parse_function_dec
{
    if 0 <= i <= s.len() {
        match spec_tag(s, spec_ws(s, i), "fn"@) {
            Some(k) => {
                if i < k <= s.len() {
                    match spec_parse_var(s, k) {
                        Some((m, name)) => {
                            if i < m <= s.len() {
                                let m2 = spec_ws(s, m);
                                match spec_parse_fn_params(s, m2) {
                                    Some((q, params)) => {
                                        if i < q <= s.len() {
                                            match spec_tag(s, spec_ws(s, q), "->"@) {
                                                Some(q3) => {
                                                    if i < q3 <= s.len() {
                                                        match spec_parse_type(s, q3) {
                                                            Some((r_end, rt)) => {
                                                                if i < r_end <= s.len() {
                                                                    let r2 = spec_ws(s, r_end);
                                                                    match spec_parse_block(
                                                                        s,
                                                                        r2,
                                                                    ) {
                                                                        Some((end, stmts)) => {
                                                                            if end <= s.len() {
                                                                                Some(
                                                                                    (
                                                                                        spec_ws(
                                                                                            s,
                                                                                            end,
                                                                                        ),
                                                                                        crate::ast::SpecFunction {
                                                                                            name,
                                                                                            params,
                                                                                            block:
                                                                                                stmts,
                                                                                            return_type:
                                                                                                rt,
                                                                                        },
                                                                                    ),
                                                                                )
                                                                            } else {
                                                                                None
                                                                            }
                                                                        },
                                                                        None => None,
                                                                    }
                                                                } else {
                                                                    None
                                                                }
                                                            },
                                                            None => None,
                                                        }
                                                    } else {
                                                        None
                                                    }
                                                },
                                                None => None,
                                            }
                                        } else {
                                            None
                                        }
                                    },
                                    None => None,
                                }
                            } else {
                                None
                            }
                        },
                        None => None,
                    }
                } else {
                    None
                }
            },
            None => None,
        }
    } else {
        None
    }
}

#[via_fn]
proof fn spec_parse_function_dec(s: Seq<char>, i: int) {
    if 0 <= i <= s.len() {
        lemma_ws_bounds(s, i);
    }
}

/// One program element: a function with whitespace around it.
pub open spec fn spec_parse_func_item(s: Seq<char>, i: int) -> Option<(int, crate::ast::SpecFunction)>
    decreases s.len() - i, 17int,
    via spec_parse_func_item_dec
{
    if 0 <= i <= s.len() {
        match spec_parse_function(s, spec_ws(s, i)) {
            Some((p, f)) => {
                if p <= s.len() {
                    Some((spec_ws(s, p), f))
                } else {
                    None
                }
            },
            None => None,
        }
    } else {
        None
    }
}

#[via_fn]
proof fn spec_parse_func_item_dec(s: Seq<char>, i: int) {
    if 0 <= i <= s.len() {
        lemma_ws_bounds(s, i);
    }
}

/// As many function definitions as will match.
pub open spec fn spec_parse_funcs(s: Seq<char>, i: int) -> (int, Seq<crate::ast::SpecFunction>)
    decreases s.len() - i, 18int,
{
    if 0 <= i <= s.len() {
        match spec_parse_func_item(s, i) {
            Some((p, f)) => {
                if i < p <= s.len() {
                    let (end, rest) = spec_parse_funcs(s, p);
                    (end, seq![f] + rest)
                } else {
                    (i, Seq::empty())
                }
            },
            None => (i, Seq::empty()),
        }
    } else {
        (i, Seq::empty())
    }
}

/// A whole program: its functions, and where the unconsumed input
/// starts.
pub open spec fn spec_parse_program(s: Seq<char>) -> (int, Seq<crate::ast::SpecFunction>) {
    spec_parse_funcs(s, 0)
}

// ---------------------------------------------------------------------------
// Executable composite parsers. Each returns exactly what the grammar's
// spec rule says at its position.
// ---------------------------------------------------------------------------

/// Parses an operand of a binary expression.
fn p_operand(src: &Vec<char>, pos: usize) -> (r: Option<(usize, Expr)>)
    requires
        pos <= src@.len(),
    ensures
        match r {
            Some((p, e)) => spec_parse_operand(src@, pos as int) matches Some(sp) && sp.0
                == p as int && sp.1 == e.deep_view() && pos < p <= src@.len(),
            None => spec_parse_operand(src@, pos as int) is None,
        },
    decreases src@.len() - pos, 2int,
{
    match p_bool(src, pos) {
        Some((p, b)) => Some((p, Expr::Bool(b))),
        None => match p_i32(src, pos) {
            Some((p, n)) => Some((p, Expr::Num(n))),
            None => match p_parens(src, pos) {
                Some(r) => Some(r),
                None => match p_var(src, pos) {
                    Some((p, name)) => Some((p, Expr::Var(name))),
                    None => None,
                },
            },
        },
    }
}

/// Parses a parenthesized expression.
fn p_parens(src: &Vec<char>, pos: usize) -> (r: Option<(usize, Expr)>)
    requires
        pos <= src@.len(),
    ensures
        match r {
            Some((p, e)) => spec_parse_parens(src@, pos as int) matches Some(sp) && sp.0
                == p as int && sp.1 == e.deep_view() && pos < p <= src@.len(),
            None => spec_parse_parens(src@, pos as int) is None,
        },
    decreases src@.len() - pos, 1int,
{
    proof {
        reveal_strlit("(");
        reveal_strlit(")");
    }
    let j0 = skip_ws(src, pos);
    match match_tag(src, j0, "(") {
        Some(j) => match p_right_expr(src, j) {
            Some((k, e)) => match match_tag(src, k, ")") {
                Some(m) => Some((skip_ws(src, m), e)),
                None => None,
            },
            None => None,
        },
        None => None,
    }
}

/// Parses a binary expression, right-associatively.
fn p_bin_expr(src: &Vec<char>, pos: usize) -> (r: Option<(usize, Expr)>)
    requires
        pos <= src@.len(),
    ensures
        match r {
            Some((p, e)) => spec_parse_bin_expr(src@, pos as int) matches Some(sp) && sp.0
                == p as int && sp.1 == e.deep_view() && pos < p <= src@.len(),
            None => spec_parse_bin_expr(src@, pos as int) is None,
        },
    decreases src@.len() - pos, 3int,
{
    match p_operand(src, pos) {
        Some((j, lhs)) => match p_any_op(src, j) {
            Some((k, op)) => match p_bin_expr(src, k) {
                Some((m, rhs)) => Some((m, Expr::BinOp(Box::new(lhs), op, Box::new(rhs)))),
                None => Some((j, lhs)),
            },
            None => Some((j, lhs)),
        },
        None => None,
    }
}

/// Parses a call site.
fn p_func_call(src: &Vec<char>, pos: usize) -> (r: Option<(usize, Expr)>)
    requires
        pos <= src@.len(),
    ensures
        match r {
            Some((p, e)) => spec_parse_func_call(src@, pos as int) matches Some(sp) && sp.0
                == p as int && sp.1 == e.deep_view() && pos < p <= src@.len(),
            None => spec_parse_func_call(src@, pos as int) is None,
        },
    decreases src@.len() - pos, 4int,
{
    match p_var(src, pos) {
        Some((j, name)) => match p_fn_args(src, j) {
            Some((k, args)) => {
                let r = Expr::FuncCall(FunctionCall { name, args });
                proof {
                    crate::ast::lemma_exprs_deep_elemwise(
                        (r->FuncCall_0).args.content@,
                    );
                }
                Some((k, r))
            },
            None => None,
        },
        None => None,
    }
}

/// Parses a right-hand expression: a call, or a binary expression.
fn p_right_expr(src: &Vec<char>, pos: usize) -> (r: Option<(usize, Expr)>)
    requires
        pos <= src@.len(),
    ensures
        match r {
            Some((p, e)) => spec_parse_right_expr(src@, pos as int) matches Some(sp) && sp.0
                == p as int && sp.1 == e.deep_view() && pos < p <= src@.len(),
            None => spec_parse_right_expr(src@, pos as int) is None,
        },
    decreases src@.len() - pos, 5int,
{
    let j = skip_ws(src, pos);
    match p_func_call(src, j) {
        Some((k, e)) => Some((skip_ws(src, k), e)),
        None => match p_bin_expr(src, j) {
            Some((k, e)) => Some((skip_ws(src, k), e)),
            None => None,
        },
    }
}

/// Parses one argument, eating its trailing whitespace.
fn p_single_arg(src: &Vec<char>, pos: usize) -> (r: Option<(usize, Expr)>)
    requires
        pos <= src@.len(),
    ensures
        match r {
            Some((p, e)) => spec_parse_single_arg(src@, pos as int) matches Some(sp) && sp.0
                == p as int && sp.1 == e.deep_view() && pos < p <= src@.len(),
            None => spec_parse_single_arg(src@, pos as int) is None,
        },
    decreases src@.len() - pos, 6int,
{
    match p_right_expr(src, pos) {
        Some((k, e)) => Some((skip_ws(src, k), e)),
        None => None,
    }
}

/// Parses one argument-list element.
fn p_arg_item(src: &Vec<char>, pos: usize) -> (r: Option<(usize, Expr)>)
    requires
        pos <= src@.len(),
    ensures
        match r {
            Some((p, e)) => spec_parse_arg_item(src@, pos as int) matches Some(sp) && sp.0
                == p as int && sp.1 == e.deep_view() && pos < p <= src@.len(),
            None => spec_parse_arg_item(src@, pos as int) is None,
        },
    decreases src@.len() - pos, 7int,
{
    proof {
        reveal_strlit(",");
    }
    match p_single_arg(src, pos) {
        Some(r) => Some(r),
        None => match match_tag(src, pos, ",") {
            Some(k) => p_single_arg(src, k),
            None => None,
        },
    }
}

/// Parses as many argument-list elements as will match.
#[verifier::loop_isolation(false)]
fn p_args_list(src: &Vec<char>, pos: usize) -> (r: (usize, Vec<Expr>))
    requires
        pos <= src@.len(),
    ensures
        spec_parse_args_list(src@, pos as int).0 == r.0 as int,
        spec_parse_args_list(src@, pos as int).1 == crate::ast::exprs_deep(r.1@),
        pos <= r.0 <= src@.len(),
    decreases src@.len() - pos, 8int,
{
    let mut items: Vec<Expr> = Vec::new();
    let mut cur = pos;
    let mut done = false;
    proof {
        crate::ast::lemma_exprs_deep_elemwise(items@);
        assert(crate::ast::exprs_deep(items@) =~= Seq::<SpecExpr>::empty());
    }
    while !done
        invariant
            pos <= cur <= src@.len(),
            done ==> spec_parse_arg_item(src@, cur as int) is None,
            spec_parse_args_list(src@, pos as int).0 == spec_parse_args_list(
                src@,
                cur as int,
            ).0,
            spec_parse_args_list(src@, pos as int).1 == crate::ast::exprs_deep(items@)
                + spec_parse_args_list(src@, cur as int).1,
        decreases src@.len() - cur, (if done { 0int } else { 1int }),
    {
        match p_arg_item(src, cur) {
            None => {
                done = true;
            },
            Some((p, e)) => {
                proof {
                    crate::ast::lemma_exprs_deep_elemwise(items@);
                    crate::ast::lemma_exprs_deep_elemwise(items@.push(e));
                    assert(crate::ast::exprs_deep(items@.push(e)) =~= crate::ast::exprs_deep(
                        items@,
                    ).push(e.deep_view()));
                    assert(crate::ast::exprs_deep(items@) + (seq![e.deep_view()]
                        + spec_parse_args_list(src@, p as int).1) =~= crate::ast::exprs_deep(
                        items@.push(e),
                    ) + spec_parse_args_list(src@, p as int).1);
                }
                items.push(e);
                cur = p;
            },
        }
    }
    proof {
        assert(spec_parse_args_list(src@, cur as int).1 =~= Seq::<SpecExpr>::empty());
        assert(crate::ast::exprs_deep(items@) + Seq::<SpecExpr>::empty() =~= crate::ast::exprs_deep(
            items@,
        ));
    }
    (cur, items)
}

/// Parses a parenthesized argument list.
fn p_fn_args(src: &Vec<char>, pos: usize) -> (r: Option<(usize, Block)>)
    requires
        pos <= src@.len(),
    ensures
        match r {
            Some((p, b)) => spec_parse_fn_args(src@, pos as int) matches Some(sp) && sp.0
                == p as int && sp.1 == crate::ast::exprs_deep(b.content@) && pos < p <= src@.len(),
            None => spec_parse_fn_args(src@, pos as int) is None,
        },
    decreases src@.len() - pos, 9int,
{
    proof {
        reveal_strlit("(");
        reveal_strlit(")");
    }
    let j0 = skip_ws(src, pos);
    match match_tag(src, j0, "(") {
        Some(j) => {
            let (m, items) = p_args_list(src, j);
            match match_tag(src, m, ")") {
                Some(q) => Some((skip_ws(src, q), Block { content: items })),
                None => None,
            }
        },
        None => None,
    }
}

/// Parses a `return` statement.
fn p_return(src: &Vec<char>, pos: usize) -> (r: Option<(usize, Expr)>)
    requires
        pos <= src@.len(),
    ensures
        match r {
            Some((p, e)) => spec_parse_return(src@, pos as int) matches Some(sp) && sp.0
                == p as int && sp.1 == e.deep_view() && pos < p <= src@.len(),
            None => spec_parse_return(src@, pos as int) is None,
        },
    decreases src@.len() - pos, 10int,
{
    proof {
        reveal_strlit("return");
    }
    match match_tag(src, pos, "return") {
        Some(k) => match p_right_expr(src, k) {
            Some((m, e)) => Some((m, Expr::Return(Box::new(e)))),
            None => None,
        },
        None => None,
    }
}

/// Parses a declaration.
fn p_declaration(src: &Vec<char>, pos: usize) -> (r: Option<(usize, Expr)>)
    requires
        pos <= src@.len(),
    ensures
        match r {
            Some((p, e)) => spec_parse_declaration(src@, pos as int) matches Some(sp) && sp.0
                == p as int && sp.1 == e.deep_view() && pos < p <= src@.len(),
            None => spec_parse_declaration(src@, pos as int) is None,
        },
    decreases src@.len() - pos, 10int,
{
    proof {
        reveal_strlit("let");
        reveal_strlit(":");
        reveal_strlit("=");
    }
    let j0 = skip_ws(src, pos);
    match match_tag(src, j0, "let") {
        Some(k) => match p_var(src, k) {
            Some((m, name)) => {
                let c0 = skip_ws(src, m);
                match match_tag(src, c0, ":") {
                    Some(c1) => match p_type(src, c1) {
                        Some((t_end, t)) => {
                            let e0 = skip_ws(src, t_end);
                            match match_tag(src, e0, "=") {
                                Some(e1) => match p_right_expr(src, e1) {
                                    Some((r_end, rhs)) => {
                                        let ghost nv = name@;
                                        let ghost rv = rhs.deep_view();
                                        let var_e = Expr::Var(name);
                                        proof {
                                            assert(var_e.deep_view() == SpecExpr::Var(nv));
                                        }
                                        let ghost vd = var_e.deep_view();
                                        let e = Expr::Let(Box::new(var_e), t, Box::new(rhs));
                                        proof {
                                            assert(e.deep_view() == SpecExpr::Let(
                                                Box::new(vd),
                                                t,
                                                Box::new(rv),
                                            ));
                                        }
                                        Some((skip_ws(src, r_end), e))
                                    },
                                    None => None,
                                },
                                None => None,
                            }
                        },
                        None => None,
                    },
                    None => None,
                }
            },
            None => None,
        },
        None => None,
    }
}

/// Parses an assignment statement.
fn p_var_expr(src: &Vec<char>, pos: usize) -> (r: Option<(usize, Expr)>)
    requires
        pos <= src@.len(),
    ensures
        match r {
            Some((p, e)) => spec_parse_var_expr(src@, pos as int) matches Some(sp) && sp.0
                == p as int && sp.1 == e.deep_view() && pos < p <= src@.len(),
            None => spec_parse_var_expr(src@, pos as int) is None,
        },
    decreases src@.len() - pos, 10int,
{
    match p_var(src, pos) {
        Some((j, name)) => match p_var_op(src, j) {
            Some((k, op)) => match p_right_expr(src, k) {
                Some((m, rhs)) => {
                    let ghost nv = name@;
                    let ghost rv = rhs.deep_view();
                    let var_e = Expr::Var(name);
                    proof {
                        assert(var_e.deep_view() == SpecExpr::Var(nv));
                    }
                    let ghost vd = var_e.deep_view();
                    let e = Expr::VarOp(Box::new(var_e), op, Box::new(rhs));
                    proof {
                        assert(e.deep_view() == SpecExpr::VarOp(Box::new(vd), op, Box::new(rv)));
                    }
                    Some((m, e))
                },
                None => None,
            },
            None => None,
        },
        None => None,
    }
}

/// Parses a one-armed conditional.
fn p_if(src: &Vec<char>, pos: usize) -> (r: Option<(usize, Expr)>)
    requires
        pos <= src@.len(),
    ensures
        match r {
            Some((p, e)) => spec_parse_if(src@, pos as int) matches Some(sp) && sp.0 == p as int
                && sp.1 == e.deep_view() && pos < p <= src@.len(),
            None => spec_parse_if(src@, pos as int) is None,
        },
    decreases src@.len() - pos, 11int,
{
    proof {
        reveal_strlit("if");
    }
    let j0 = skip_ws(src, pos);
    match match_tag(src, j0, "if") {
        Some(k) => {
            let m = skip_ws(src, k);
            let cond = match p_bin_expr(src, m) {
                Some(r) => Some(r),
                None => p_var_expr(src, m),
            };
            match cond {
                Some((q, c)) => {
                    let b0 = skip_ws(src, q);
                    match p_block_at(src, b0) {
                        Some((r_end, stmts)) => {
                            let e = Expr::If(Box::new(c), Block { content: stmts });
                            proof {
                                crate::ast::lemma_exprs_deep_elemwise(
                                    (e->If_1).content@,
                                );
                            }
                            Some((skip_ws(src, r_end), e))
                        },
                        None => None,
                    }
                },
                None => None,
            }
        },
        None => None,
    }
}

/// Parses a loop.
fn p_while(src: &Vec<char>, pos: usize) -> (r: Option<(usize, Expr)>)
    requires
        pos <= src@.len(),
    ensures
        match r {
            Some((p, e)) => spec_parse_while(src@, pos as int) matches Some(sp) && sp.0 == p as int
                && sp.1 == e.deep_view() && pos < p <= src@.len(),
            None => spec_parse_while(src@, pos as int) is None,
        },
    decreases src@.len() - pos, 11int,
{
    proof {
        reveal_strlit("while");
    }
    let j0 = skip_ws(src, pos);
    match match_tag(src, j0, "while") {
        Some(k) => match p_right_expr(src, k) {
            Some((q, c)) => match p_block_at(src, q) {
                Some((r_end, stmts)) => {
                    let e = Expr::While(Box::new(c), Block { content: stmts });
                    proof {
                        crate::ast::lemma_exprs_deep_elemwise((e->While_1).content@);
                    }
                    Some((r_end, e))
                },
                None => None,
            },
            None => None,
        },
        None => None,
    }
}

/// Parses one keyword statement, whitespace around it.
fn p_keyword(src: &Vec<char>, pos: usize) -> (r: Option<(usize, Expr)>)
    requires
        pos <= src@.len(),
    ensures
        match r {
            Some((p, e)) => spec_parse_keyword(src@, pos as int) matches Some(sp) && sp.0
                == p as int && sp.1 == e.deep_view() && pos < p <= src@.len(),
            None => spec_parse_keyword(src@, pos as int) is None,
        },
    decreases src@.len() - pos, 12int,
{
    let j = skip_ws(src, pos);
    let inner = match p_return(src, j) {
        Some(r) => Some(r),
        None => match p_declaration(src, j) {
            Some(r) => Some(r),
            None => match p_if(src, j) {
                Some(r) => Some(r),
                None => match p_while(src, j) {
                    Some(r) => Some(r),
                    None => match p_var_expr(src, j) {
                        Some(r) => Some(r),
                        None => p_func_call(src, j),
                    },
                },
            },
        },
    };
    match inner {
        Some((p, e)) => Some((skip_ws(src, p), e)),
        None => None,
    }
}

/// Parses one block statement.
fn p_stmt(src: &Vec<char>, pos: usize) -> (r: Option<(usize, Expr)>)
    requires
        pos <= src@.len(),
    ensures
        match r {
            Some((p, e)) => spec_parse_stmt(src@, pos as int) matches Some(sp) && sp.0 == p as int
                && sp.1 == e.deep_view() && pos < p <= src@.len(),
            None => spec_parse_stmt(src@, pos as int) is None,
        },
    decreases src@.len() - pos, 13int,
{
    proof {
        reveal_strlit(";");
    }
    let first = match p_keyword(src, pos) {
        Some((p, e)) => match match_tag(src, p, ";") {
            Some(q) => Some((skip_ws(src, q), e)),
            None => None,
        },
        None => None,
    };
    match first {
        Some(r) => Some(r),
        None => p_return(src, pos),
    }
}

/// Parses as many block statements as will match.
#[verifier::loop_isolation(false)]
fn p_stmt_list(src: &Vec<char>, pos: usize) -> (r: (usize, Vec<Expr>))
    requires
        pos <= src@.len(),
    ensures
        spec_parse_stmt_list(src@, pos as int).0 == r.0 as int,
        spec_parse_stmt_list(src@, pos as int).1 == crate::ast::exprs_deep(r.1@),
        pos <= r.0 <= src@.len(),
    decreases src@.len() - pos, 14int,
{
    let mut items: Vec<Expr> = Vec::new();
    let mut cur = pos;
    let mut done = false;
    proof {
        crate::ast::lemma_exprs_deep_elemwise(items@);
        assert(crate::ast::exprs_deep(items@) =~= Seq::<SpecExpr>::empty());
    }
    while !done
        invariant
            pos <= cur <= src@.len(),
            done ==> spec_parse_stmt(src@, cur as int) is None,
            spec_parse_stmt_list(src@, pos as int).0 == spec_parse_stmt_list(
                src@,
                cur as int,
            ).0,
            spec_parse_stmt_list(src@, pos as int).1 == crate::ast::exprs_deep(items@)
                + spec_parse_stmt_list(src@, cur as int).1,
        decreases src@.len() - cur, (if done { 0int } else { 1int }),
    {
        match p_stmt(src, cur) {
            None => {
                done = true;
            },
            Some((p, e)) => {
                proof {
                    crate::ast::lemma_exprs_deep_elemwise(items@);
                    crate::ast::lemma_exprs_deep_elemwise(items@.push(e));
                    assert(crate::ast::exprs_deep(items@.push(e)) =~= crate::ast::exprs_deep(
                        items@,
                    ).push(e.deep_view()));
                    assert(crate::ast::exprs_deep(items@) + (seq![e.deep_view()]
                        + spec_parse_stmt_list(src@, p as int).1) =~= crate::ast::exprs_deep(
                        items@.push(e),
                    ) + spec_parse_stmt_list(src@, p as int).1);
                }
                items.push(e);
                cur = p;
            },
        }
    }
    proof {
        assert(spec_parse_stmt_list(src@, cur as int).1 =~= Seq::<SpecExpr>::empty());
        assert(crate::ast::exprs_deep(items@) + Seq::<SpecExpr>::empty() =~= crate::ast::exprs_deep(
            items@,
        ));
    }
    (cur, items)
}

/// Parses a braced block, the brace standing at the position itself.
fn p_block_at(src: &Vec<char>, pos: usize) -> (r: Option<(usize, Vec<Expr>)>)
    requires
        pos <= src@.len(),
    ensures
        match r {
            Some((p, v)) => spec_parse_block(src@, pos as int) matches Some(sp) && sp.0 == p as int
                && sp.1 == crate::ast::exprs_deep(v@) && pos < p <= src@.len(),
            None => spec_parse_block(src@, pos as int) is None,
        },
    decreases src@.len() - pos, 15int,
{
    proof {
        reveal_strlit("{");
        reveal_strlit("}");
    }
    match match_tag(src, pos, "{") {
        Some(j) => {
            let (m, items) = p_stmt_list(src, j);
            match match_tag(src, m, "}") {
                Some(q) => Some((q, items)),
                None => None,
            }
        },
        None => None,
    }
}

/// Parses one parameter.
fn p_single_param(src: &Vec<char>, pos: usize) -> (r: Option<(usize, Param)>)
    requires
        pos <= src@.len(),
    ensures
        match r {
            Some((p, prm)) => spec_parse_single_param(src@, pos as int) matches Some(sp) && sp.0
                == p as int && sp.1 == prm.deep_view() && pos < p <= src@.len(),
            None => spec_parse_single_param(src@, pos as int) is None,
        },
{
    proof {
        reveal_strlit(":");
    }
    match p_var(src, pos) {
        Some((j, name)) => match match_tag(src, j, ":") {
            Some(k) => match p_type(src, k) {
                Some((m, t)) => Some((m, Param { name, param_type: t })),
                None => None,
            },
            None => None,
        },
        None => None,
    }
}

/// Parses one parameter-list element.
fn p_param_item(src: &Vec<char>, pos: usize) -> (r: Option<(usize, Param)>)
    requires
        pos <= src@.len(),
    ensures
        match r {
            Some((p, prm)) => spec_parse_param_item(src@, pos as int) matches Some(sp) && sp.0
                == p as int && sp.1 == prm.deep_view() && pos < p <= src@.len(),
            None => spec_parse_param_item(src@, pos as int) is None,
        },
{
    proof {
        reveal_strlit(",");
    }
    match p_single_param(src, pos) {
        Some(r) => Some(r),
        None => match match_tag(src, pos, ",") {
            Some(k) => p_single_param(src, k),
            None => None,
        },
    }
}

/// Parses as many parameter-list elements as will match.
#[verifier::loop_isolation(false)]
fn p_params_list(src: &Vec<char>, pos: usize) -> (r: (usize, Vec<Param>))
    requires
        pos <= src@.len(),
    ensures
        spec_parse_params_list(src@, pos as int).0 == r.0 as int,
        spec_parse_params_list(src@, pos as int).1 == crate::ast::params_deep(r.1@),
        pos <= r.0 <= src@.len(),
{
    let mut items: Vec<Param> = Vec::new();
    let mut cur = pos;
    let mut done = false;
    proof {
        assert(crate::ast::params_deep(items@) =~= Seq::<crate::ast::SpecParam>::empty());
    }
    while !done
        invariant
            pos <= cur <= src@.len(),
            done ==> spec_parse_param_item(src@, cur as int) is None,
            spec_parse_params_list(src@, pos as int).0 == spec_parse_params_list(
                src@,
                cur as int,
            ).0,
            spec_parse_params_list(src@, pos as int).1 == crate::ast::params_deep(items@)
                + spec_parse_params_list(src@, cur as int).1,
        decreases src@.len() - cur, (if done { 0int } else { 1int }),
    {
        match p_param_item(src, cur) {
            None => {
                done = true;
            },
            Some((p, prm)) => {
                proof {
                    assert(crate::ast::params_deep(items@.push(prm)) =~= crate::ast::params_deep(
                        items@,
                    ).push(prm.deep_view()));
                    assert(crate::ast::params_deep(items@) + (seq![prm.deep_view()]
                        + spec_parse_params_list(src@, p as int).1) =~= crate::ast::params_deep(
                        items@.push(prm),
                    ) + spec_parse_params_list(src@, p as int).1);
                }
                items.push(prm);
                cur = p;
            },
        }
    }
    proof {
        assert(spec_parse_params_list(src@, cur as int).1 =~= Seq::<
            crate::ast::SpecParam,
        >::empty());
        assert(crate::ast::params_deep(items@) + Seq::<crate::ast::SpecParam>::empty()
            =~= crate::ast::params_deep(items@));
    }
    (cur, items)
}

/// Parses a parenthesized parameter list.
fn p_fn_params(src: &Vec<char>, pos: usize) -> (r: Option<(usize, Vec<Param>)>)
    requires
        pos <= src@.len(),
    ensures
        match r {
            Some((p, v)) => spec_parse_fn_params(src@, pos as int) matches Some(sp) && sp.0
                == p as int && sp.1 == crate::ast::params_deep(v@) && pos < p <= src@.len(),
            None => spec_parse_fn_params(src@, pos as int) is None,
        },
{
    proof {
        reveal_strlit("(");
        reveal_strlit(")");
    }
    let j0 = skip_ws(src, pos);
    match match_tag(src, j0, "(") {
        Some(j) => {
            let (m, items) = p_params_list(src, j);
            match match_tag(src, m, ")") {
                Some(q) => Some((skip_ws(src, q), items)),
                None => None,
            }
        },
        None => None,
    }
}

/// Parses a function definition.
#[verifier::rlimit(60)]
fn p_function(src: &Vec<char>, pos: usize) -> (r: Option<(usize, Function)>)
    requires
        pos <= src@.len(),
    ensures
        match r {
            Some((p, f)) => spec_parse_function(src@, pos as int) matches Some(sp) && sp.0
                == p as int && sp.1 == f.deep_view() && pos < p <= src@.len(),
            None => spec_parse_function(src@, pos as int) is None,
        },
    decreases src@.len() - pos, 16int,
{
    proof {
        reveal_strlit("fn");
        reveal_strlit("->");
    }
    let j0 = skip_ws(src, pos);
    match match_tag(src, j0, "fn") {
        Some(k) => match p_var(src, k) {
            Some((m, name)) => {
                let m2 = skip_ws(src, m);
                match p_fn_params(src, m2) {
                    Some((q, params)) => {
                        let q2 = skip_ws(src, q);
                        match match_tag(src, q2, "->") {
                            Some(q3) => match p_type(src, q3) {
                                Some((r_end, rt)) => {
                                    let r2 = skip_ws(src, r_end);
                                    match p_block_at(src, r2) {
                                        Some((end, stmts)) => {
                                            let f = Function {
                                                name,
                                                params,
                                                block: Block { content: stmts },
                                                return_type: rt,
                                            };
                                            proof {
                                                let sp = spec_parse_function(
                                                    src@,
                                                    pos as int,
                                                )->0;
                                                assert(f.deep_view() =~~= sp.1);
                                            }
                                            Some((skip_ws(src, end), f))
                                        },
                                        None => None,
                                    }
                                },
                                None => None,
                            },
                            None => None,
                        }
                    },
                    None => None,
                }
            },
            None => None,
        },
        None => None,
    }
}

/// Parses one program element: a function with whitespace around it.
fn p_func_item(src: &Vec<char>, pos: usize) -> (r: Option<(usize, Function)>)
    requires
        pos <= src@.len(),
    ensures
        match r {
            Some((p, f)) => spec_parse_func_item(src@, pos as int) matches Some(sp) && sp.0
                == p as int && sp.1 == f.deep_view() && pos < p <= src@.len(),
            None => spec_parse_func_item(src@, pos as int) is None,
        },
    decreases src@.len() - pos, 17int,
{
    let j = skip_ws(src, pos);
    match p_function(src, j) {
        Some((p, f)) => Some((skip_ws(src, p), f)),
        None => None,
    }
}

/// Parses as many function definitions as will match.
#[verifier::rlimit(60)]
#[verifier::loop_isolation(false)]
fn p_funcs(src: &Vec<char>, pos: usize) -> (r: (usize, Vec<Function>))
    requires
        pos <= src@.len(),
    ensures
        spec_parse_funcs(src@, pos as int).0 == r.0 as int,
        spec_parse_funcs(src@, pos as int).1 == r.1.deep_view(),
        pos <= r.0 <= src@.len(),
    decreases src@.len() - pos, 18int,
{
    let mut items: Vec<Function> = Vec::new();
    let mut cur = pos;
    let mut done = false;
    proof {
        assert(items.deep_view() =~= Seq::<crate::ast::SpecFunction>::empty());
    }
    while !done
        invariant
            pos <= cur <= src@.len(),
            done ==> spec_parse_func_item(src@, cur as int) is None,
            spec_parse_funcs(src@, pos as int).0 == spec_parse_funcs(src@, cur as int).0,
            spec_parse_funcs(src@, pos as int).1 == items.deep_view() + spec_parse_funcs(
                src@,
                cur as int,
            ).1,
        decreases src@.len() - cur, (if done { 0int } else { 1int }),
    {
        match p_func_item(src, cur) {
            None => {
                done = true;
            },
            Some((p, f)) => {
                proof {
                    let ghost pushed = items@.push(f);
                    assert(pushed.len() == items@.len() + 1);
                    assert forall|m: int| 0 <= m < pushed.len() implies #[trigger] pushed[
                        m
                    ].deep_view() == items.deep_view().push(f.deep_view())[m] by {
                        if m < items@.len() {
                            assert(pushed[m] == items@[m]);
                            assert(items.deep_view()[m] == items@[m].deep_view());
                        }
                    }
                    assert(Seq::new(pushed.len(), |i: int| pushed[i].deep_view())
                        =~= items.deep_view().push(f.deep_view()));
                    assert(items.deep_view() + (seq![f.deep_view()] + spec_parse_funcs(
                        src@,
                        p as int,
                    ).1) =~= items.deep_view().push(f.deep_view()) + spec_parse_funcs(
                        src@,
                        p as int,
                    ).1);
                }
                items.push(f);
                cur = p;
            },
        }
    }
    proof {
        assert(spec_parse_funcs(src@, cur as int).1 =~= Seq::<crate::ast::SpecFunction>::empty());
        assert(items.deep_view() + Seq::<crate::ast::SpecFunction>::empty() =~= items.deep_view());
    }
    (cur, items)
}

// ---------------------------------------------------------------------------
// The public parsing surface: whole strings in, the unconsumed text and
// the parsed value out.
// ---------------------------------------------------------------------------

/// Parses an integer literal off the front of the input.
pub fn parse_i32(input: &str) -> (r: Result<(String, Expr), ParseErr>)
    ensures
        match spec_parse_i32(input@, 0) {
            Some((p, n)) => r matches Ok(t) && t.0@ == input@.skip(p) && t.1 == Expr::Num(n),
            None => r is Err,
        },
{
    let src = str_chars(input);
    match p_i32(&src, 0) {
        Some((p, n)) => Ok((rest_string(&src, p), Expr::Num(n))),
        None => Err(ParseErr),
    }
}

/// Parses a boolean literal off the front of the input.
pub fn parse_bool(input: &str) -> (r: Result<(String, Expr), ParseErr>)
    ensures
        match spec_parse_bool(input@, 0) {
            Some((p, b)) => r matches Ok(t) && t.0@ == input@.skip(p) && t.1 == Expr::Bool(b),
            None => r is Err,
        },
{
    let src = str_chars(input);
    match p_bool(&src, 0) {
        Some((p, b)) => Ok((rest_string(&src, p), Expr::Bool(b))),
        None => Err(ParseErr),
    }
}

/// Parses a type name off the front of the input.
pub fn parse_type(input: &str) -> (r: Result<(String, Type), ParseErr>)
    ensures
        match spec_parse_type(input@, 0) {
            Some((p, t)) => r matches Ok(x) && x.0@ == input@.skip(p) && x.1 == t,
            None => r is Err,
        },
{
    let src = str_chars(input);
    match p_type(&src, 0) {
        Some((p, t)) => Ok((rest_string(&src, p), t)),
        None => Err(ParseErr),
    }
}

/// Parses a bare arithmetic operator token off the front of the input.
pub fn parse_bin_op(input: &str) -> (r: Result<(String, MathToken), ParseErr>)
    ensures
        match spec_parse_math_token(input@, 0) {
            Some((p, t)) => r matches Ok(x) && x.0@ == input@.skip(p) && x.1 == t,
            None => r is Err,
        },
{
    let src = str_chars(input);
    match p_math_token(&src, 0) {
        Some((p, t)) => Ok((rest_string(&src, p), t)),
        None => Err(ParseErr),
    }
}

/// Parses an arithmetic operator off the front of the input.
pub fn parse_math_op(input: &str) -> (r: Result<(String, Op), ParseErr>)
    ensures
        match spec_parse_math_op(input@, 0) {
            Some((p, op)) => r matches Ok(x) && x.0@ == input@.skip(p) && x.1 == op,
            None => r is Err,
        },
{
    let src = str_chars(input);
    match p_math_op(&src, 0) {
        Some((p, op)) => Ok((rest_string(&src, p), op)),
        None => Err(ParseErr),
    }
}

/// Parses a boolean operator off the front of the input.
pub fn parse_bool_op(input: &str) -> (r: Result<(String, Op), ParseErr>)
    ensures
        match spec_parse_bool_op(input@, 0) {
            Some((p, op)) => r matches Ok(x) && x.0@ == input@.skip(p) && x.1 == op,
            None => r is Err,
        },
{
    let src = str_chars(input);
    match p_bool_op(&src, 0) {
        Some((p, op)) => Ok((rest_string(&src, p), op)),
        None => Err(ParseErr),
    }
}

/// Parses a relational operator off the front of the input.
pub fn parse_rel_op(input: &str) -> (r: Result<(String, Op), ParseErr>)
    ensures
        match spec_parse_rel_op(input@, 0) {
            Some((p, op)) => r matches Ok(x) && x.0@ == input@.skip(p) && x.1 == op,
            None => r is Err,
        },
{
    let src = str_chars(input);
    match p_rel_op(&src, 0) {
        Some((p, op)) => Ok((rest_string(&src, p), op)),
        None => Err(ParseErr),
    }
}

/// Parses an assignment operator off the front of the input.
pub fn parse_var_op(input: &str) -> (r: Result<(String, Op), ParseErr>)
    ensures
        match spec_parse_var_op(input@, 0) {
            Some((p, op)) => r matches Ok(x) && x.0@ == input@.skip(p) && x.1 == op,
            None => r is Err,
        },
{
    let src = str_chars(input);
    match p_var_op(&src, 0) {
        Some((p, op)) => Ok((rest_string(&src, p), op)),
        None => Err(ParseErr),
    }
}

/// Parses any non-assignment operator off the front of the input.
pub fn parse_any_op(input: &str) -> (r: Result<(String, Op), ParseErr>)
    ensures
        match spec_parse_any_op(input@, 0) {
            Some((p, op)) => r matches Ok(x) && x.0@ == input@.skip(p) && x.1 == op,
            None => r is Err,
        },
{
    let src = str_chars(input);
    match p_any_op(&src, 0) {
        Some((p, op)) => Ok((rest_string(&src, p), op)),
        None => Err(ParseErr),
    }
}

/// Parses a right-hand expression off the front of the input.
pub fn parse_right_expr(input: &str) -> (r: Result<(String, Expr), ParseErr>)
    ensures
        match spec_parse_right_expr(input@, 0) {
            Some(sp) => r matches Ok(t) && t.0@ == input@.skip(sp.0) && t.1.deep_view() == sp.1,
            None => r is Err,
        },
{
    let src = str_chars(input);
    match p_right_expr(&src, 0) {
        Some((p, e)) => Ok((rest_string(&src, p), e)),
        None => Err(ParseErr),
    }
}

/// Parses a keyword statement off the front of the input.
pub fn parse_keyword(input: &str) -> (r: Result<(String, Expr), ParseErr>)
    ensures
        match spec_parse_keyword(input@, 0) {
            Some(sp) => r matches Ok(t) && t.0@ == input@.skip(sp.0) && t.1.deep_view() == sp.1,
            None => r is Err,
        },
{
    let src = str_chars(input);
    match p_keyword(&src, 0) {
        Some((p, e)) => Ok((rest_string(&src, p), e)),
        None => Err(ParseErr),
    }
}

/// Parses a braced statement block off the front of the input.
pub fn parse_block(input: &str) -> (r: Result<(String, Vec<Expr>), ParseErr>)
    ensures
        match spec_parse_block(input@, 0) {
            Some(sp) => r matches Ok(t) && t.0@ == input@.skip(sp.0) && crate::ast::exprs_deep(
                t.1@,
            ) == sp.1,
            None => r is Err,
        },
{
    let src = str_chars(input);
    match p_block_at(&src, 0) {
        Some((p, v)) => Ok((rest_string(&src, p), v)),
        None => Err(ParseErr),
    }
}

/// Parses a whole program: as many function definitions as stand at the
/// front of the input, and the text they leave over.
pub fn parse_program(input: &str) -> (r: Result<(String, crate::ast::Functions), ParseErr>)
    ensures
        r matches Ok(t) && t.0@ == input@.skip(spec_parse_program(input@).0)
            && t.1.deep_view() == spec_parse_program(input@).1,
{
    let src = str_chars(input);
    let (p, funcs) = p_funcs(&src, 0);
    Ok((rest_string(&src, p), funcs))
}

} // verus!
