//! The question-variant assembler: decomposition of a write payload into the
//! four variant-row sets, including the legacy folding of a standalone
//! numeric answer into one synthetic blank, and the parsing of its free-text
//! tolerance into millionths.

use vstd::prelude::*;
use vstd::string::StringExecFns;
use crate::model::BlankRow;
use crate::types::{
    opt_seq, CreateQuestionOption, CreateQuestionBlank, CreateNumericData, CreateOrderItem,
    CreateMatchPair,
};

verus! {

pub open spec fn is_digit(c: char) -> bool {
    48 <= c as u32 && c as u32 <= 57
}

pub open spec fn digit_val(c: char) -> int {
    c as u32 - 48
}

pub open spec fn all_digits(s: Seq<char>) -> bool {
    forall|i: int| 0 <= i < s.len() ==> is_digit(#[trigger] s[i])
}

/// The value of a digit string read in base ten.
pub open spec fn digits_val(s: Seq<char>) -> int
    decreases s.len(),
{
    if s.len() == 0 {
        0
    } else {
        digits_val(s.drop_last()) * 10 + digit_val(s.last())
    }
}

pub open spec fn pow10(k: int) -> int
    decreases k,
{
    if k <= 0 {
        1
    } else {
        10 * pow10(k - 1)
    }
}

/// Position of the first dot, or the length when there is none.
pub open spec fn dot_pos(s: Seq<char>) -> int
    decreases s.len(),
{
    if s.len() == 0 {
        0
    } else if s[0] == '.' {
        0
    } else {
        1 + dot_pos(s.skip(1))
    }
}

/// The fractional digits weighted into millionths: digits beyond the sixth
/// are cut off (the stored grain is one millionth).
pub open spec fn frac_millionths(s: Seq<char>) -> int {
    if s.len() >= 6 {
        digits_val(s.take(6))
    } else {
        digits_val(s) * pow10(6 - s.len())
    }
}

/// The digit part of a tolerance string after the optional sign: digits with
/// at most one dot, at least one digit in all, and a whole part short enough
/// that the value fits the storage column.
pub open spec fn tol_body_ok(u: Seq<char>) -> bool {
    let d = dot_pos(u);
    &&& all_digits(u.take(d))
    &&& d < u.len() ==> all_digits(u.skip(d + 1))
    &&& u.len() >= 1
    &&& !(d == 0 && u.len() == 1)
    &&& d <= 12
}

pub open spec fn tol_sign(s: Seq<char>) -> int {
    if s.len() >= 1 && s[0] == '-' {
        -1
    } else {
        1
    }
}

pub open spec fn tol_unsigned(s: Seq<char>) -> Seq<char> {
    if s.len() >= 1 && (s[0] == '-' || s[0] == '+') {
        s.skip(1)
    } else {
        s
    }
}

/// Whether a tolerance string is well-formed: an optional sign, then digits
/// with at most one dot — the plain decimal forms; anything else falls back
/// to the default tolerance.
pub open spec fn tol_ok(s: Seq<char>) -> bool {
    tol_body_ok(tol_unsigned(s))
}

/// The value of a well-formed tolerance string, in millionths.
pub open spec fn tol_val(s: Seq<char>) -> int {
    let u = tol_unsigned(s);
    let d = dot_pos(u);
    let frac = if d < u.len() {
        frac_millionths(u.skip(d + 1))
    } else {
        0
    };
    tol_sign(s) * (digits_val(u.take(d)) * 1000000 + frac)
}

/// The default tolerance, 0.1, in millionths.
pub open spec fn default_tolerance() -> int {
    100000
}

/// What the tolerance parser returns: the written value for a well-formed
/// string, the default for a malformed one.
pub open spec fn parsed_tolerance(s: Seq<char>) -> int {
    if tol_ok(s) {
        tol_val(s)
    } else {
        default_tolerance()
    }
}

proof fn lemma_digits_val_bound(s: Seq<char>)
    requires
        all_digits(s),
    ensures
        0 <= digits_val(s) < pow10(s.len() as int),
    decreases s.len(),
{
    if s.len() > 0 {
        assert(all_digits(s.drop_last()));
        lemma_digits_val_bound(s.drop_last());
        lemma_pow10_pos(s.len() - 1);
    }
}

proof fn lemma_pow10_vals()
    ensures
        pow10(6) == 1000000,
        pow10(12) == 1000000000000,
    decreases 0int,
{
    reveal_with_fuel(pow10, 14);
}

proof fn lemma_pow10_pos(k: int)
    ensures
        pow10(k) >= 1,
    decreases k,
{
    if k > 0 {
        lemma_pow10_pos(k - 1);
    }
}

proof fn lemma_digits_val_step(s: Seq<char>, i: int)
    requires
        0 <= i < s.len(),
    ensures
        digits_val(s.take(i + 1)) == digits_val(s.take(i)) * 10 + digit_val(s[i]),
{
    assert(s.take(i + 1).drop_last() =~= s.take(i));
    assert(s.take(i + 1).last() == s[i]);
}

/// Reads the base-ten value of `s[from..to]`; `None` when some character is
/// no digit.  The span is at most 12 digits, so the value stays far inside
/// the range of the result type.
fn parse_digits(s: &str, from: usize, to: usize) -> (r: Option<i64>)
    requires
        from <= to <= s@.len(),
        to - from <= 12,
    ensures
        r matches Some(v) ==> all_digits(s@.subrange(from as int, to as int))
            && v == digits_val(s@.subrange(from as int, to as int)),
        r is None ==> !all_digits(s@.subrange(from as int, to as int)),
{
    let ghost part = s@.subrange(from as int, to as int);
    let mut acc: i64 = 0;
    let mut i: usize = from;
    while i < to
        invariant
            from <= i <= to <= s@.len(),
            to - from <= 12,
            part == s@.subrange(from as int, to as int),
            forall|j: int| 0 <= j < i - from ==> is_digit(#[trigger] part[j]),
            acc == digits_val(part.take(i - from)),
            0 <= acc < pow10(i - from),
        decreases to - i,
    {
        let c = s.get_char(i);
        let u = c as u32;
        proof {
            assert(part[i - from] == s@[i as int]);
        }
        if u < 48 || u > 57 {
            proof {
                assert(!is_digit(part[i - from]));
            }
            return None;
        }
        proof {
            lemma_pow10_vals();
            lemma_pow10_mono(i - from, 12);
            lemma_digits_val_step(part, i - from);
            assert(all_digits(part.take(i - from + 1))) by {
                assert forall|j: int| 0 <= j < i - from + 1 implies is_digit(
                    #[trigger] part.take(i - from + 1)[j]) by {
                    assert(part.take(i - from + 1)[j] == part[j]);
                }
            }
            lemma_digits_val_bound(part.take(i - from + 1));
        }
        acc = acc * 10 + ((u - 48) as i64);
        i += 1;
    }
    proof {
        assert(part.take(to - from) =~= part);
        assert(all_digits(part)) by {
            assert forall|j: int| 0 <= j < part.len() implies is_digit(#[trigger] part[j]) by {}
        }
    }
    Some(acc)
}

proof fn lemma_pow10_add(a: int, b: int)
    requires
        0 <= a,
        0 <= b,
    ensures
        pow10(a) * pow10(b) == pow10(a + b),
    decreases b,
{
    if b > 0 {
        lemma_pow10_add(a, b - 1);
        assert(pow10(a) * (10 * pow10(b - 1)) == 10 * (pow10(a) * pow10(b - 1)))
            by (nonlinear_arith);
    }
}

proof fn lemma_pow10_mono(a: int, b: int)
    requires
        a <= b,
    ensures
        pow10(a) <= pow10(b),
    decreases b - a,
{
    if a < b {
        lemma_pow10_mono(a, b - 1);
        lemma_pow10_pos(b - 1);
    }
}

proof fn lemma_dot_pos_range(s: Seq<char>)
    ensures
        0 <= dot_pos(s) <= s.len(),
        dot_pos(s) < s.len() ==> s[dot_pos(s)] == '.',
        forall|i: int| 0 <= i < dot_pos(s) ==> s[i] != '.',
    decreases s.len(),
{
    if s.len() > 0 && s[0] != '.' {
        lemma_dot_pos_range(s.skip(1));
        assert forall|i: int| 0 <= i < dot_pos(s) implies s[i] != '.' by {
            if i > 0 {
                assert(s.skip(1)[i - 1] == s[i]);
            }
        }
        assert(dot_pos(s) < s.len() ==> s.skip(1)[dot_pos(s) - 1] == s[dot_pos(s)]);
    }
}

/// Finds the first dot of `s[from..]`, as an offset into `s`.
fn find_dot(s: &str, from: usize) -> (r: usize)
    requires
        from <= s@.len(),
    ensures
        r - from == dot_pos(s@.skip(from as int)),
        from <= r <= s@.len(),
{
    let ghost part = s@.skip(from as int);
    let n = s.unicode_len();
    let mut i: usize = from;
    while i < n
        invariant
            from <= i <= n == s@.len(),
            part == s@.skip(from as int),
            forall|j: int| 0 <= j < i - from ==> part[j] != '.',
        decreases n - i,
    {
        let c = s.get_char(i);
        if c == '.' {
            proof {
                lemma_dot_pos_at(part, i - from);
            }
            return i;
        }
        proof {
            assert(part[i - from] == s@[i as int]);
        }
        i += 1;
    }
    proof {
        lemma_dot_pos_none(part);
    }
    n
}

proof fn lemma_dot_pos_at(s: Seq<char>, k: int)
    requires
        0 <= k < s.len(),
        s[k] == '.',
        forall|j: int| 0 <= j < k ==> s[j] != '.',
    ensures
        dot_pos(s) == k,
    decreases k,
{
    if k > 0 {
        lemma_dot_pos_at(s.skip(1), k - 1);
    }
}

proof fn lemma_dot_pos_none(s: Seq<char>)
    requires
        forall|j: int| 0 <= j < s.len() ==> s[j] != '.',
    ensures
        dot_pos(s) == s.len(),
    decreases s.len(),
{
    if s.len() > 0 {
        lemma_dot_pos_none(s.skip(1));
    }
}

/// Parses a numeric tolerance written as plain decimal text ("0.2", "3",
/// ".5", "-1.25") into millionths.  A malformed or oversized value does not
/// reject the write: it degrades to the default tolerance of 0.1, which is
/// 100_000 millionths.
#[verifier::rlimit(50)]
pub fn parse_tolerance(s: &str) -> (r: i64)
    ensures
        r == parsed_tolerance(s@),
{
    let n = s.unicode_len();
    let ghost sv = s@;
    let (neg, start): (bool, usize) = if n >= 1 {
        let c0 = s.get_char(0);
        if c0 == '-' {
            (true, 1)
        } else if c0 == '+' {
            (false, 1)
        } else {
            (false, 0)
        }
    } else {
        (false, 0)
    };
    proof {
        assert(tol_unsigned(sv) =~= if start == 1 { sv.skip(1) } else { sv });
        assert(tol_sign(sv) == if neg { -1int } else { 1int });
    }
    let ghost u = tol_unsigned(sv);
    let d = find_dot(s, start);
    proof {
        if start == 1 {
            assert(sv.skip(1) == u);
        } else {
            assert(sv.skip(0) =~= sv);
        }
        assert(d - start == dot_pos(u));
    }
    if n - start < 1 || (d == start && n - start == 1) {
        proof {
            assert(!tol_body_ok(u));
        }
        return 100000;
    }
    if d - start > 12 {
        proof {
            assert(!tol_body_ok(u));
        }
        return 100000;
    }
    let whole = match parse_digits(s, start, d) {
        Some(v) => v,
        None => {
            proof {
                assert(sv.subrange(start as int, d as int) =~= u.take(dot_pos(u)));
            }
            return 100000;
        },
    };
    proof {
        assert(sv.subrange(start as int, d as int) =~= u.take(dot_pos(u)));
    }
    let frac: i64 = if d < n {
        let fend = if n - (d + 1) >= 6 { d + 1 + 6 } else { n };
        match parse_digits(s, d + 1, fend) {
            Some(v) => {
                // the cut-off digits must still be digits for the string to
                // be well-formed
                if !check_digits(s, fend, n) {
                    proof {
                        assert(sv.subrange(fend as int, n as int) =~= u.skip(dot_pos(u) + 1).skip(
                            (fend - (d + 1)) as int));
                        assert(!all_digits(u.skip(dot_pos(u) + 1))) by {
                            let bad = choose|i: int| 0 <= i
                                < sv.subrange(fend as int, n as int).len() && !is_digit(
                                sv.subrange(fend as int, n as int)[i]);
                            assert(u.skip(dot_pos(u) + 1)[bad + (fend - (d + 1))] == sv.subrange(
                                fend as int, n as int)[bad]);
                        }
                    }
                    return 100000;
                }
                let scale: i64 = if n - (d + 1) >= 6 {
                    1
                } else {
                    pow10_exec(6 - (n - (d + 1)))
                };
                proof {
                    let f = u.skip(dot_pos(u) + 1);
                    assert(sv.subrange((d + 1) as int, fend as int) =~= if f.len() >= 6 {
                        f.take(6)
                    } else {
                        f
                    });
                    assert(sv.subrange(fend as int, n as int) =~= f.skip((fend - (d + 1)) as int));
                    assert(all_digits(f)) by {
                        assert forall|j: int| 0 <= j < f.len() implies is_digit(
                            #[trigger] f[j]) by {
                            if j < fend - (d + 1) {
                                assert(f[j] == sv.subrange((d + 1) as int, fend as int)[j]);
                            } else {
                                assert(f[j] == sv.subrange(fend as int, n as int)[j - (fend - (d
                                    + 1))]);
                            }
                        }
                    }
                    if f.len() >= 6 {
                        lemma_digits_val_bound(f.take(6));
                        lemma_pow10_vals();
                        assert(v * scale == frac_millionths(f));
                        assert(0 <= v * scale < 1000000);
                    } else {
                        lemma_digits_val_bound(f);
                        lemma_pow10_vals();
                        lemma_pow10_add(f.len() as int, 6 - f.len());
                        lemma_pow10_pos(6 - f.len());
                        assert(0 <= v * scale < 1000000 && v * scale == frac_millionths(f)) by (
                        nonlinear_arith)
                            requires
                                0 <= v < pow10(f.len() as int),
                                scale == pow10(6 - f.len()),
                                pow10(f.len() as int) * pow10(6 - f.len()) == pow10(6),
                                pow10(6) == 1000000,
                                frac_millionths(f) == v * pow10(6 - f.len()),
                                scale >= 1,
                        {}
                    }
                }
                v * scale
            },
            None => {
                proof {
                    assert(sv.subrange((d + 1) as int, fend as int) =~= if u.skip(
                        dot_pos(u) + 1).len() >= 6 {
                        u.skip(dot_pos(u) + 1).take(6)
                    } else {
                        u.skip(dot_pos(u) + 1)
                    });
                    assert(!all_digits(u.skip(dot_pos(u) + 1))) by {
                        let part = sv.subrange((d + 1) as int, fend as int);
                        let bad = choose|i: int| 0 <= i < part.len() && !is_digit(part[i]);
                        assert(u.skip(dot_pos(u) + 1)[bad] == part[bad]);
                    }
                }
                return 100000;
            },
        }
    } else {
        0
    };
    proof {
        assert(tol_body_ok(u));
        lemma_digits_val_bound(u.take(dot_pos(u)));
        lemma_pow10_mono(dot_pos(u), 12);
        lemma_pow10_vals();
    }
    let magnitude = whole * 1000000 + frac;
    if neg {
        -magnitude
    } else {
        magnitude
    }
}

/// True exactly when every character of `s[from..to]` is a digit.
fn check_digits(s: &str, from: usize, to: usize) -> (r: bool)
    requires
        from <= to <= s@.len(),
    ensures
        r == all_digits(s@.subrange(from as int, to as int)),
{
    let ghost part = s@.subrange(from as int, to as int);
    let mut i: usize = from;
    while i < to
        invariant
            from <= i <= to <= s@.len(),
            part == s@.subrange(from as int, to as int),
            forall|j: int| 0 <= j < i - from ==> is_digit(#[trigger] part[j]),
        decreases to - i,
    {
        let c = s.get_char(i);
        let u = c as u32;
        proof {
            assert(part[i - from] == s@[i as int]);
        }
        if u < 48 || u > 57 {
            proof {
                assert(!is_digit(part[i - from]));
            }
            return false;
        }
        i += 1;
    }
    proof {
        assert(all_digits(part)) by {
            assert forall|j: int| 0 <= j < part.len() implies is_digit(#[trigger] part[j]) by {}
        }
    }
    true
}

/// Ten to a small power, executable.
fn pow10_exec(k: usize) -> (r: i64)
    requires
        k <= 6,
    ensures
        r == pow10(k as int),
{
    let mut r: i64 = 1;
    let mut i: usize = 0;
    while i < k
        invariant
            i <= k <= 6,
            r == pow10(i as int),
            1 <= r <= 1000000,
        decreases k - i,
    {
        proof {
            lemma_pow10_vals();
            lemma_pow10_mono(i as int + 1, 6);
        }
        r = r * 10;
        i += 1;
    }
    r
}

/// The synthetic blank a standalone numeric answer is folded into: blank
/// index 0, numeric, with the parsed tolerance and plain input.
pub open spec fn synthetic_blank_row(nd: CreateNumericData, question_id: i64) -> BlankRow {
    BlankRow {
        question_id: question_id,
        blank_index: 0,
        correct_answer: nd.correct_answer@,
        acceptable_answers: Option::None,
        is_numeric: true,
        numeric_tolerance: Option::Some(parsed_tolerance(nd.tolerance@) as i64),
        unit: opt_seq(nd.unit),
        input_type: "INPUT"@,
        dropdown_options: Option::None,
    }
}

/// The four variant-row sets of one question payload, ready to write in the
/// fixed order: options, blanks, order items, match pairs.
pub struct QuestionRows {
    pub options: Vec<CreateQuestionOption>,
    pub blanks: Vec<CreateQuestionBlank>,
    pub order_items: Vec<CreateOrderItem>,
    pub match_pairs: Vec<CreateMatchPair>,
}

/// Decomposes the variant part of a create or update payload into the four
/// row sets.  Options, order items and match pairs pass through unchanged;
/// the blanks are the explicit blanks followed, when a standalone numeric
/// answer is present, by its synthetic blank.
pub fn decompose_variants(
    options: Vec<CreateQuestionOption>,
    blanks: Vec<CreateQuestionBlank>,
    numeric_data: Option<CreateNumericData>,
    order_items: Option<Vec<CreateOrderItem>>,
    match_pairs: Option<Vec<CreateMatchPair>>,
) -> (r: QuestionRows)
    ensures
        r.options@ == options@,
        r.order_items@ == (match order_items {
            Option::Some(v) => v@,
            Option::None => Seq::<CreateOrderItem>::empty(),
        }),
        r.match_pairs@ == (match match_pairs {
            Option::Some(v) => v@,
            Option::None => Seq::<CreateMatchPair>::empty(),
        }),
        r.blanks@.len() == blanks@.len() + (if numeric_data is Some {
            1int
        } else {
            0int
        }),
        forall|k: int| 0 <= k < blanks@.len() ==> r.blanks@[k] == blanks@[k],
        numeric_data matches Some(nd) ==> (forall|qid: i64|
            (#[trigger] r.blanks@.last().row(qid)) == synthetic_blank_row(nd, qid)),
{
    let mut blanks = blanks;
    match &numeric_data {
        Option::Some(nd) => {
            let tolerance = parse_tolerance(nd.tolerance.as_str());
            blanks.push(CreateQuestionBlank {
                blank_index: 0,
                correct_answer: nd.correct_answer.clone(),
                acceptable_answers: Option::None,
                is_numeric: true,
                numeric_tolerance: Option::Some(tolerance),
                unit: match &nd.unit {
                    Option::Some(u) => Option::Some(u.clone()),
                    Option::None => Option::None,
                },
                input_type: String::from_str("INPUT"),
                dropdown_options: Option::None,
            });
        },
        Option::None => {},
    }
    QuestionRows {
        options: options,
        blanks: blanks,
        order_items: match order_items {
            Option::Some(v) => v,
            Option::None => Vec::new(),
        },
        match_pairs: match match_pairs {
            Option::Some(v) => v,
            Option::None => Vec::new(),
        },
    }
}

} // verus!
