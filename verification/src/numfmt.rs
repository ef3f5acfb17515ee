//! Decimal digit strings: rendering numbers for the wire form, reading
//! them back, and the facts tying the two directions together.
use vstd::prelude::*;

verus! {

/// The digit character for a value below ten.
pub open spec fn digit_char(d: nat) -> char {
    if d == 0 {
        '0'
    } else if d == 1 {
        '1'
    } else if d == 2 {
        '2'
    } else if d == 3 {
        '3'
    } else if d == 4 {
        '4'
    } else if d == 5 {
        '5'
    } else if d == 6 {
        '6'
    } else if d == 7 {
        '7'
    } else if d == 8 {
        '8'
    } else {
        '9'
    }
}

/// The value of a digit character, if it is one.
pub open spec fn digit_val(c: char) -> Option<nat> {
    if c == '0' {
        Some(0nat)
    } else if c == '1' {
        Some(1nat)
    } else if c == '2' {
        Some(2nat)
    } else if c == '3' {
        Some(3nat)
    } else if c == '4' {
        Some(4nat)
    } else if c == '5' {
        Some(5nat)
    } else if c == '6' {
        Some(6nat)
    } else if c == '7' {
        Some(7nat)
    } else if c == '8' {
        Some(8nat)
    } else if c == '9' {
        Some(9nat)
    } else {
        None
    }
}

/// The canonical decimal rendering of `n`: most significant digit first,
/// no leading zero (a single `0` for zero itself).
pub open spec fn dec_seq(n: nat) -> Seq<char>
    decreases n,
{
    if n < 10 {
        seq![digit_char(n)]
    } else {
        dec_seq(n / 10).push(digit_char(n % 10))
    }
}

/// The number a digit string denotes, most significant digit first.
/// Non-digit characters count as zero; use `is_digits` to rule them out.
pub open spec fn digits_val(s: Seq<char>) -> nat
    decreases s.len(),
{
    if s.len() == 0 {
        0nat
    } else {
        digits_val(s.drop_last()) * 10 + match digit_val(s.last()) {
            Some(d) => d,
            None => 0nat,
        }
    }
}

/// True when every character of `s` is a decimal digit.
pub open spec fn is_digits(s: Seq<char>) -> bool {
    forall|i: int| 0 <= i < s.len() ==> digit_val(#[trigger] s[i]) is Some
}

/// True when `s` is the canonical decimal form of some number: nonempty,
/// digits only, and no leading zero.
pub open spec fn is_canonical_decimal(s: Seq<char>) -> bool {
    s.len() > 0 && is_digits(s) && (s.len() > 1 ==> s[0] != '0')
}

/// A digit value below ten reads back from its character.
pub proof fn lemma_digit_char_val(d: nat)
    requires
        d < 10,
    ensures
        digit_val(digit_char(d)) == Some(d),
{
}

/// A digit character renders back from its value.
pub proof fn lemma_digit_val_char(c: char)
    requires
        digit_val(c) is Some,
    ensures
        digit_char(digit_val(c)->Some_0) == c,
{
}

/// Rendering then reading a number gives the number back, and the
/// rendering is always in canonical form.
pub proof fn lemma_dec_seq_val(n: nat)
    ensures
        digits_val(dec_seq(n)) == n,
        is_canonical_decimal(dec_seq(n)),
    decreases n,
{
    if n < 10 {
        lemma_digit_char_val(n);
        assert(dec_seq(n) =~= seq![digit_char(n)]);
        assert(dec_seq(n).drop_last() =~= Seq::<char>::empty());
        assert(digits_val(Seq::<char>::empty()) == 0);
    } else {
        lemma_dec_seq_val(n / 10);
        lemma_digit_char_val(n % 10);
        let prefix = dec_seq(n / 10);
        let whole = dec_seq(n);
        assert(whole =~= prefix.push(digit_char(n % 10)));
        assert(whole.drop_last() =~= prefix);
        assert(whole.last() == digit_char(n % 10));
        assert(digits_val(whole) == digits_val(prefix) * 10 + n % 10);
        assert(digits_val(whole) == (n / 10) * 10 + n % 10);
        assert(prefix[0] == whole[0]);
        assert(n / 10 >= 1);
        if prefix[0] == '0' {
            assert(prefix.len() == 1) by {
                if prefix.len() > 1 {
                    assert(prefix[0] != '0');
                }
            };
            assert(prefix.drop_last() =~= Seq::<char>::empty());
            assert(digits_val(Seq::<char>::empty()) == 0);
            assert(prefix.last() == prefix[0]);
            assert(digits_val(prefix) == 0);
            assert(false);
        }
    }
}

/// A canonical digit string denotes a number at least one unless it is
/// the single digit zero; more precisely a nonzero leading digit forces
/// a nonzero value.
pub proof fn lemma_digits_lower_bound(s: Seq<char>)
    requires
        s.len() > 0,
        is_digits(s),
        s[0] != '0',
    ensures
        digits_val(s) >= 1,
    decreases s.len(),
{
    if s.len() == 1 {
        assert(s.drop_last() =~= Seq::<char>::empty());
    } else {
        let p = s.drop_last();
        assert(p[0] == s[0]);
        assert(forall|i: int| 0 <= i < p.len() ==> digit_val(#[trigger] p[i]) is Some);
        lemma_digits_lower_bound(p);
    }
}

/// Reading a canonical digit string and rendering the value gives the
/// same string back: rendering is a bijection between numbers and
/// canonical digit strings.
pub proof fn lemma_canonical_round_trip(s: Seq<char>)
    requires
        is_canonical_decimal(s),
    ensures
        dec_seq(digits_val(s)) =~= s,
    decreases s.len(),
{
    if s.len() == 1 {
        assert(s.drop_last() =~= Seq::<char>::empty());
        assert(digits_val(Seq::<char>::empty()) == 0);
        assert(s.last() == s[0]);
        let d = digit_val(s[0])->Some_0;
        lemma_digit_val_char(s[0]);
        assert(digits_val(s) == d);
        assert(dec_seq(d) =~= seq![digit_char(d)]);
        assert(digit_char(d) == s[0]);
    } else {
        let p = s.drop_last();
        let d = digit_val(s.last())->Some_0;
        assert(forall|i: int| 0 <= i < p.len() ==> digit_val(#[trigger] p[i]) is Some);
        assert(p[0] == s[0]);
        lemma_digits_lower_bound(p);
        lemma_canonical_round_trip(p);
        let v = digits_val(s);
        assert(v == digits_val(p) * 10 + d);
        assert(v >= 10) by {
            assert(digits_val(p) >= 1);
            assert(digits_val(p) * 10 >= 10) by (nonlinear_arith)
                requires
                    digits_val(p) >= 1,
            ;
        };
        assert(v / 10 == digits_val(p) && v % 10 == d) by (nonlinear_arith)
            requires
                v == digits_val(p) * 10 + d,
                0 <= d < 10,
        ;
        assert(digit_char(d) == s.last());
        assert(dec_seq(v) =~= dec_seq(v / 10).push(digit_char(v % 10)));
        assert(dec_seq(v) =~= p.push(s.last()));
        assert(p.push(s.last()) =~= s);
    }
}

/// The one-character string for a digit value.
pub fn digit_str(d: u8) -> (r: &'static str)
    requires
        d < 10,
    ensures
        r@ =~= seq![digit_char(d as nat)],
{
    proof {
        reveal_strlit("0");
        reveal_strlit("1");
        reveal_strlit("2");
        reveal_strlit("3");
        reveal_strlit("4");
        reveal_strlit("5");
        reveal_strlit("6");
        reveal_strlit("7");
        reveal_strlit("8");
        reveal_strlit("9");
    }
    match d {
        0 => "0",
        1 => "1",
        2 => "2",
        3 => "3",
        4 => "4",
        5 => "5",
        6 => "6",
        7 => "7",
        8 => "8",
        _ => "9",
    }
}

/// Appends the canonical decimal rendering of `n` to `out`.
pub fn push_dec(out: &mut String, n: u64)
    ensures
        final(out)@ == old(out)@ + dec_seq(n as nat),
    decreases n,
{
    if n < 10 {
        out.append(digit_str(n as u8));
    } else {
        push_dec(out, n / 10);
        out.append(digit_str((n % 10) as u8));
        proof {
            assert(out@ =~= old(out)@ + dec_seq(n as nat));
        }
    }
}

} // verus!
