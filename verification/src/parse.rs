//! The response grammar: one engine verdict per line, as a single flat
//! JSON object in compact form. Values are strings without escapes,
//! decimal numbers (read in millionths, truncated past six fractional
//! digits), or arrays of such numbers. Anything else on a line is a
//! protocol violation.
use vstd::prelude::*;
use crate::model::Vertex;
use crate::numfmt::{digit_val, digits_val};

verus! {

/// A JSON value the response grammar admits. Numbers carry millionths.
pub ghost enum JVal {
    S(Seq<char>),
    N(int),
    A(Seq<int>),
}

/// Ten to the `k`.
pub open spec fn pow10(k: nat) -> nat
    decreases k,
{
    if k == 0 {
        1nat
    } else {
        10 * pow10((k - 1) as nat)
    }
}

/// Concrete powers of ten used by the grammar.
pub proof fn lemma_pow10_vals()
    ensures
        pow10(6) == 1000000,
        pow10(11) == 100000000000,
        pow10(12) == 1000000000000,
{
    assert(pow10(0) == 1);
    assert(pow10(1) == 10);
    assert(pow10(2) == 100);
    assert(pow10(3) == 1000);
    assert(pow10(4) == 10000);
    assert(pow10(5) == 100000);
    assert(pow10(6) == 1000000);
    assert(pow10(7) == 10000000);
    assert(pow10(8) == 100000000);
    assert(pow10(9) == 1000000000);
    assert(pow10(10) == 10000000000);
    assert(pow10(11) == 100000000000);
    assert(pow10(12) == 1000000000000);
}

/// A digit string's value stays below ten to its length.
pub proof fn lemma_digits_val_bound(s: Seq<char>)
    ensures
        digits_val(s) < pow10(s.len()),
    decreases s.len(),
{
    if s.len() == 0 {
    } else {
        let p = s.drop_last();
        lemma_digits_val_bound(p);
        let d = match digit_val(s.last()) {
            Some(d) => d,
            None => 0nat,
        };
        assert(d <= 9);
        assert(digits_val(s) == digits_val(p) * 10 + d);
        assert(pow10(s.len()) == 10 * pow10(p.len()));
        assert(digits_val(p) * 10 + d < 10 * pow10(p.len())) by (nonlinear_arith)
            requires
                digits_val(p) < pow10(p.len()),
                d <= 9,
        ;
    }
}

/// The position of the closing quote: the first `"` at or after `i`.
/// A backslash before it makes the string unreadable here (no escapes).
pub open spec fn find_quote(s: Seq<char>, i: int) -> Option<int>
    decreases s.len() - i,
{
    if i < 0 || i >= s.len() {
        None
    } else if s[i] == '"' {
        Some(i)
    } else if s[i] == '\\' {
        None
    } else {
        find_quote(s, i + 1)
    }
}

/// A found closing quote lies between `i` and the end of `s`.
pub proof fn lemma_find_quote_bounds(s: Seq<char>, i: int)
    requires
        find_quote(s, i) is Some,
    ensures
        i <= find_quote(s, i)->Some_0 < s.len(),
        s[find_quote(s, i)->Some_0] == '"',
    decreases s.len() - i,
{
    if i < 0 || i >= s.len() {
    } else if s[i] == '"' {
    } else if s[i] == '\\' {
    } else {
        lemma_find_quote_bounds(s, i + 1);
    }
}

/// The end of the digit run starting at `i`: the first position at or
/// after `i` holding no digit.
pub open spec fn digits_end(s: Seq<char>, i: int) -> int
    decreases s.len() - i,
{
    if i < 0 || i >= s.len() {
        i
    } else if digit_val(s[i]) is None {
        i
    } else {
        digits_end(s, i + 1)
    }
}

/// The digit run lies between `i` and the end of `s`, and each of its
/// characters is a digit.
pub proof fn lemma_digits_end_bounds(s: Seq<char>, i: int)
    requires
        0 <= i <= s.len(),
    ensures
        i <= digits_end(s, i) <= s.len(),
        forall|k: int| i <= k < digits_end(s, i) ==> digit_val(#[trigger] s[k]) is Some,
    decreases s.len() - i,
{
    if i >= s.len() {
    } else if digit_val(s[i]) is None {
    } else {
        lemma_digits_end_bounds(s, i + 1);
    }
}

/// Reads a quoted string at `i`: the text between the quotes and the
/// position after the closing quote. No escape sequences are admitted.
pub open spec fn parse_string(s: Seq<char>, i: int) -> Option<(Seq<char>, int)> {
    if 0 <= i < s.len() && s[i] == '"' {
        match find_quote(s, i + 1) {
            Some(j) => Some((s.subrange(i + 1, j), j + 1)),
            None => None,
        }
    } else {
        None
    }
}

/// A read string ends after at least two characters and inside `s`.
pub proof fn lemma_parse_string_adv(s: Seq<char>, i: int)
    requires
        parse_string(s, i) is Some,
    ensures
        i + 2 <= parse_string(s, i)->Some_0.1 <= s.len(),
{
    lemma_find_quote_bounds(s, i + 1);
}

/// The millionths denoted by a fraction digit string: its first six
/// digits, scaled; later digits are truncated away.
pub open spec fn frac_micros(fs: Seq<char>) -> nat {
    if fs.len() >= 6 {
        digits_val(fs.subrange(0, 6))
    } else {
        digits_val(fs) * pow10((6 - fs.len()) as nat)
    }
}

/// A fraction stays below one million millionths.
pub proof fn lemma_frac_micros_bound(fs: Seq<char>)
    ensures
        frac_micros(fs) < 1000000,
{
    if fs.len() >= 6 {
        lemma_digits_val_bound(fs.subrange(0, 6));
        lemma_pow10_vals();
    } else {
        lemma_digits_val_bound(fs);
        let l = fs.len();
        lemma_pow10_pos((6 - l) as nat);
        assert(digits_val(fs) * pow10((6 - l) as nat) < pow10(l) * pow10((6 - l) as nat))
            by (nonlinear_arith)
            requires
                digits_val(fs) < pow10(l),
                pow10((6 - l) as nat) >= 1,
        ;
        lemma_pow10_mul(l, (6 - l) as nat);
        lemma_pow10_vals();
    }
}

/// Powers of ten multiply by adding exponents.
pub proof fn lemma_pow10_mul(a: nat, b: nat)
    ensures
        pow10(a) * pow10(b) == pow10(a + b),
    decreases a,
{
    if a == 0 {
        assert(pow10(a) == 1);
        assert(pow10(a) * pow10(b) == pow10(b)) by (nonlinear_arith)
            requires
                pow10(a) == 1,
        ;
    } else {
        lemma_pow10_mul((a - 1) as nat, b);
        let x = pow10((a - 1) as nat);
        let y = pow10(b);
        assert(pow10(a) == 10 * x);
        assert(pow10(a + b) == 10 * pow10((a + b - 1) as nat));
        assert((a + b - 1) as nat == (a - 1) as nat + b);
        assert(pow10((a + b - 1) as nat) == x * y);
        assert(pow10(a) * y == 10 * (x * y)) by (nonlinear_arith)
            requires
                pow10(a) == 10 * x,
        ;
    }
}

/// `pow10` never vanishes.
pub proof fn lemma_pow10_pos(a: nat)
    ensures
        pow10(a) >= 1,
    decreases a,
{
    if a > 0 {
        lemma_pow10_pos((a - 1) as nat);
    }
}

/// Reads a decimal number at `i` into millionths: an optional minus
/// sign, one to twelve integer digits, and an optional fraction of at
/// least one digit, truncated past the sixth.
pub open spec fn parse_number(s: Seq<char>, i: int) -> Option<(int, int)> {
    if 0 <= i < s.len() {
        let neg = s[i] == '-';
        let i0 = if neg {
            i + 1
        } else {
            i
        };
        let e = digits_end(s, i0);
        if e == i0 || e - i0 > 12 {
            None
        } else {
            let ip = digits_val(s.subrange(i0, e));
            if e < s.len() && s[e] == '.' {
                let f = digits_end(s, e + 1);
                if f == e + 1 {
                    None
                } else {
                    let m = ip * 1000000 + frac_micros(s.subrange(e + 1, f));
                    Some(
                        (
                            if neg {
                                -(m as int)
                            } else {
                                m as int
                            },
                            f,
                        ),
                    )
                }
            } else {
                let m = ip * 1000000;
                Some(
                    (
                        if neg {
                            -(m as int)
                        } else {
                            m as int
                        },
                        e,
                    ),
                )
            }
        }
    } else {
        None
    }
}

/// A read number consumes at least one character and ends inside `s`.
pub proof fn lemma_parse_number_adv(s: Seq<char>, i: int)
    requires
        parse_number(s, i) is Some,
    ensures
        i + 1 <= parse_number(s, i)->Some_0.1 <= s.len(),
{
    let neg = s[i] == '-';
    let i0 = if neg {
        i + 1
    } else {
        i
    };
    lemma_digits_end_bounds(s, i0);
    let e = digits_end(s, i0);
    if e < s.len() && s[e] == '.' {
        lemma_digits_end_bounds(s, e + 1);
    }
}

/// `pow10` is monotone in its exponent.
pub proof fn lemma_pow10_le(a: nat, b: nat)
    requires
        a <= b,
    ensures
        pow10(a) <= pow10(b),
    decreases b,
{
    if a < b && b > 0 {
        lemma_pow10_le(a, (b - 1) as nat);
        lemma_pow10_pos((b - 1) as nat);
    }
}

/// Reads a comma-separated list of numbers ending at `]`, returning the
/// millionths and the position after the bracket.
pub open spec fn parse_num_list(s: Seq<char>, i: int) -> Option<(Seq<int>, int)>
    decreases s.len() - i,
    when 0 <= i
    via parse_num_list_dec
{
    match parse_number(s, i) {
        None => None,
        Some((v, j)) => {
            if j < s.len() && s[j] == ',' {
                match parse_num_list(s, j + 1) {
                    None => None,
                    Some((vs, k)) => Some((seq![v] + vs, k)),
                }
            } else if j < s.len() && s[j] == ']' {
                Some((seq![v], j + 1))
            } else {
                None
            }
        },
    }
}

#[via_fn]
proof fn parse_num_list_dec(s: Seq<char>, i: int) {
    if parse_number(s, i) is Some {
        lemma_parse_number_adv(s, i);
    }
}

/// A read number list ends inside `s`, past where it began.
pub proof fn lemma_parse_num_list_adv(s: Seq<char>, i: int)
    requires
        0 <= i,
        parse_num_list(s, i) is Some,
    ensures
        i + 1 <= parse_num_list(s, i)->Some_0.1 <= s.len(),
    decreases s.len() - i,
{
    let (v, j) = parse_number(s, i)->Some_0;
    lemma_parse_number_adv(s, i);
    if j < s.len() && s[j] == ',' {
        lemma_parse_num_list_adv(s, j + 1);
    }
}

/// Reads an array of numbers at `i`: `[]`, or numbers separated by
/// commas between brackets.
pub open spec fn parse_array(s: Seq<char>, i: int) -> Option<(Seq<int>, int)> {
    if 0 <= i < s.len() && s[i] == '[' {
        if i + 1 < s.len() && s[i + 1] == ']' {
            Some((Seq::<int>::empty(), i + 2))
        } else {
            parse_num_list(s, i + 1)
        }
    } else {
        None
    }
}

/// A read array ends inside `s`, past where it began.
pub proof fn lemma_parse_array_adv(s: Seq<char>, i: int)
    requires
        parse_array(s, i) is Some,
    ensures
        i + 2 <= parse_array(s, i)->Some_0.1 <= s.len(),
{
    if i + 1 < s.len() && s[i + 1] == ']' {
    } else {
        lemma_parse_num_list_adv(s, i + 1);
    }
}

/// Reads one value at `i`: a string, a number, or an array of numbers.
pub open spec fn parse_value(s: Seq<char>, i: int) -> Option<(JVal, int)> {
    if 0 <= i < s.len() {
        if s[i] == '"' {
            match parse_string(s, i) {
                Some((t, j)) => Some((JVal::S(t), j)),
                None => None,
            }
        } else if s[i] == '[' {
            match parse_array(s, i) {
                Some((a, j)) => Some((JVal::A(a), j)),
                None => None,
            }
        } else {
            match parse_number(s, i) {
                Some((v, j)) => Some((JVal::N(v), j)),
                None => None,
            }
        }
    } else {
        None
    }
}

/// A read value ends inside `s`, past where it began.
pub proof fn lemma_parse_value_adv(s: Seq<char>, i: int)
    requires
        parse_value(s, i) is Some,
    ensures
        i + 1 <= parse_value(s, i)->Some_0.1 <= s.len(),
{
    if s[i] == '"' {
        lemma_parse_string_adv(s, i);
    } else if s[i] == '[' {
        lemma_parse_array_adv(s, i);
    } else {
        lemma_parse_number_adv(s, i);
    }
}

/// The fields a response line may carry, each as read from the line.
pub ghost struct RawFields {
    pub id: Option<JVal>,
    pub winrate: Option<JVal>,
    pub score_lead: Option<JVal>,
    pub visits: Option<JVal>,
    pub suggested: Option<JVal>,
    pub ownership: Option<JVal>,
}

/// No field read yet.
pub open spec fn raw_fields_empty() -> RawFields {
    RawFields {
        id: None,
        winrate: None,
        score_lead: None,
        visits: None,
        suggested: None,
        ownership: None,
    }
}

/// Records a member under its key; a repeated key keeps the later
/// value, an unknown key is ignored.
pub open spec fn put_field(acc: RawFields, key: Seq<char>, v: JVal) -> RawFields {
    if key == "id"@ {
        RawFields { id: Some(v), ..acc }
    } else if key == "winrate"@ {
        RawFields { winrate: Some(v), ..acc }
    } else if key == "scoreLead"@ {
        RawFields { score_lead: Some(v), ..acc }
    } else if key == "visits"@ {
        RawFields { visits: Some(v), ..acc }
    } else if key == "suggestedMove"@ {
        RawFields { suggested: Some(v), ..acc }
    } else if key == "ownershipGrid"@ {
        RawFields { ownership: Some(v), ..acc }
    } else {
        acc
    }
}

/// Reads the members of an object from `i` to the closing brace:
/// `"key":value` pairs separated by commas, ending at `}`.
pub open spec fn parse_members(s: Seq<char>, i: int, acc: RawFields) -> Option<(RawFields, int)>
    decreases s.len() - i,
    when 0 <= i
    via parse_members_dec
{
    match parse_string(s, i) {
        None => None,
        Some((key, j)) => {
            if j < s.len() && s[j] == ':' {
                match parse_value(s, j + 1) {
                    None => None,
                    Some((v, k)) => {
                        if k < s.len() && s[k] == ',' {
                            parse_members(s, k + 1, put_field(acc, key, v))
                        } else if k < s.len() && s[k] == '}' {
                            Some((put_field(acc, key, v), k + 1))
                        } else {
                            None
                        }
                    },
                }
            } else {
                None
            }
        },
    }
}

#[via_fn]
proof fn parse_members_dec(s: Seq<char>, i: int, acc: RawFields) {
    if parse_string(s, i) is Some {
        lemma_parse_string_adv(s, i);
        let (key, j) = parse_string(s, i)->Some_0;
        if j < s.len() && s[j] == ':' {
            if parse_value(s, j + 1) is Some {
                lemma_parse_value_adv(s, j + 1);
            }
        }
    }
}

/// Reads a whole response line: one object covering the line exactly,
/// `{}` counting as an object with no members.
pub open spec fn parse_line(s: Seq<char>) -> Option<RawFields> {
    if s.len() >= 2 && s[0] == '{' {
        if s.len() == 2 && s[1] == '}' {
            Some(raw_fields_empty())
        } else {
            match parse_members(s, 1, raw_fields_empty()) {
                Some((acc, end)) => if end == s.len() {
                    Some(acc)
                } else {
                    None
                },
                None => None,
            }
        }
    } else {
        None
    }
}

} // verus!
