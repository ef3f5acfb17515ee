//! The executable reader for the response grammar: it returns exactly
//! what the grammar functions of `parse` denote, position by position.
use vstd::prelude::*;
use crate::model::ErrorKind;
use crate::numfmt::{digit_val, digits_val, dec_seq};
use crate::parse::{
    JVal, RawFields, digits_end, find_quote, frac_micros, lemma_digits_end_bounds,
    lemma_digits_val_bound, lemma_parse_number_adv, lemma_parse_string_adv,
    lemma_parse_value_adv, lemma_pow10_le, lemma_pow10_vals, parse_line, parse_members,
    parse_number, parse_num_list, parse_string, parse_value, pow10, put_field,
    raw_fields_empty,
};
use crate::verdict::{AnalysisVerdict, interpret_response};

verus! {

/// A value read from a response line.
pub enum JsonValue {
    S(String),
    N(i64),
    A(Vec<i64>),
}

impl View for JsonValue {
    type V = JVal;

    open spec fn view(&self) -> JVal {
        match self {
            JsonValue::S(s) => JVal::S(s@),
            JsonValue::N(x) => JVal::N(*x as int),
            JsonValue::A(v) => JVal::A(v@.map_values(|e: i64| e as int)),
        }
    }
}

/// The response fields collected from a line, still as raw values.
pub struct FieldsAcc {
    pub id: Option<JsonValue>,
    pub winrate: Option<JsonValue>,
    pub score_lead: Option<JsonValue>,
    pub visits: Option<JsonValue>,
    pub suggested: Option<JsonValue>,
    pub ownership: Option<JsonValue>,
}

/// The raw field under its view, when present.
pub open spec fn field_view(o: Option<JsonValue>) -> Option<JVal> {
    match o {
        Some(j) => Some(j@),
        None => None,
    }
}

impl View for FieldsAcc {
    type V = RawFields;

    open spec fn view(&self) -> RawFields {
        RawFields {
            id: field_view(self.id),
            winrate: field_view(self.winrate),
            score_lead: field_view(self.score_lead),
            visits: field_view(self.visits),
            suggested: field_view(self.suggested),
            ownership: field_view(self.ownership),
        }
    }
}

/// Character-for-character string comparison.
pub fn str_eq(a: &str, b: &str) -> (r: bool)
    ensures
        r == (a@ == b@),
{
    let na = a.unicode_len();
    let nb = b.unicode_len();
    if na != nb {
        return false;
    }
    let mut i: usize = 0;
    while i < na
        invariant
            i <= na,
            na == a@.len(),
            na == b@.len(),
            forall|k: int| 0 <= k < i ==> a@[k] == b@[k],
        decreases na - i,
    {
        if a.get_char(i) != b.get_char(i) {
            return false;
        }
        i += 1;
    }
    proof {
        assert(a@ =~= b@);
    }
    true
}

/// Finds the closing quote from `i` on, as `find_quote` denotes.
fn scan_quote(s: &str, n: usize, i: usize) -> (r: Option<usize>)
    requires
        n == s@.len(),
        i <= n,
    ensures
        match r {
            Some(j) => find_quote(s@, i as int) == Some(j as int) && i <= j < n,
            None => find_quote(s@, i as int) is None,
        },
{
    let mut j = i;
    while j < n
        invariant
            i <= j <= n,
            n == s@.len(),
            find_quote(s@, i as int) == find_quote(s@, j as int),
        decreases n - j,
    {
        let c = s.get_char(j);
        if c == '"' {
            return Some(j);
        }
        if c == '\\' {
            return None;
        }
        j += 1;
    }
    None
}

/// Finds the end of the digit run from `i` on, as `digits_end` denotes.
fn scan_digits(s: &str, n: usize, i: usize) -> (j: usize)
    requires
        n == s@.len(),
        i <= n,
    ensures
        j as int == digits_end(s@, i as int),
        i <= j <= n,
{
    let mut j = i;
    while j < n
        invariant
            i <= j <= n,
            n == s@.len(),
            digits_end(s@, i as int) == digits_end(s@, j as int),
        decreases n - j,
    {
        let c = s.get_char(j);
        if crate::coords::digit_of_char(c).is_none() {
            return j;
        }
        j += 1;
    }
    j
}

/// Reads a quoted string, as `parse_string` denotes.
fn read_string(s: &str, n: usize, i: usize) -> (r: Option<(String, usize)>)
    requires
        n == s@.len(),
        i <= n,
    ensures
        match r {
            Some(t) => parse_string(s@, i as int) == Some((t.0@, t.1 as int)) && i < t.1 <= n,
            None => parse_string(s@, i as int) is None,
        },
{
    if i < n && s.get_char(i) == '"' {
        match scan_quote(s, n, i + 1) {
            Some(j) => {
                let t = s.substring_char(i + 1, j).to_owned();
                Some((t, j + 1))
            },
            None => None,
        }
    } else {
        None
    }
}

/// A small power of ten as a machine word.
fn pow10_u64(k: usize) -> (r: u64)
    requires
        k <= 6,
    ensures
        r as nat == pow10(k as nat),
{
    proof {
        assert(pow10(0) == 1);
        assert(pow10(1) == 10);
        assert(pow10(2) == 100);
        assert(pow10(3) == 1000);
        assert(pow10(4) == 10000);
        assert(pow10(5) == 100000);
        assert(pow10(6) == 1000000);
    }
    match k {
        0 => 1,
        1 => 10,
        2 => 100,
        3 => 1000,
        4 => 10000,
        5 => 100000,
        _ => 1000000,
    }
}

/// Reads the value of the digit run between `from` and `to`.
fn read_digits_val(s: &str, n: usize, from: usize, to: usize) -> (r: u64)
    requires
        n == s@.len(),
        from <= to <= n,
        to - from <= 12,
        forall|k: int| from <= k < to ==> digit_val(#[trigger] s@[k]) is Some,
    ensures
        r as nat == digits_val(s@.subrange(from as int, to as int)),
        r < 1000000000000,
{
    proof {
        lemma_pow10_vals();
    }
    let mut acc: u64 = 0;
    let mut k = from;
    proof {
        assert(s@.subrange(from as int, from as int) =~= Seq::<char>::empty());
    }
    while k < to
        invariant
            from <= k <= to,
            to <= n,
            n == s@.len(),
            to - from <= 12,
            forall|q: int| from <= q < to ==> digit_val(#[trigger] s@[q]) is Some,
            acc as nat == digits_val(s@.subrange(from as int, k as int)),
            (acc as nat) < pow10((k - from) as nat),
        decreases to - k,
    {
        let c = s.get_char(k);
        let d: u8 = match crate::coords::digit_of_char(c) {
            Some(d) => d,
            None => {
                proof {
                    assert(false);
                }
                0
            },
        };
        proof {
            lemma_pow10_vals();
            lemma_pow10_le((k - from) as nat, 11nat);
        }
        acc = acc * 10 + d as u64;
        proof {
            let pre = s@.subrange(from as int, k as int);
            let cur = s@.subrange(from as int, k + 1);
            assert(cur.drop_last() =~= pre);
            assert(cur.last() == s@[k as int]);
            assert(digits_val(cur) == digits_val(pre) * 10 + digit_val(s@[k as int])->Some_0);
            lemma_digits_val_bound(cur);
            assert(pow10(cur.len()) == pow10((k + 1 - from) as nat));
        }
        k += 1;
    }
    proof {
        lemma_pow10_le((to - from) as nat, 12nat);
    }
    acc
}

/// Reads a decimal number into millionths, as `parse_number` denotes.
fn read_number(s: &str, n: usize, i: usize) -> (r: Option<(i64, usize)>)
    requires
        n == s@.len(),
        i <= n,
    ensures
        match r {
            Some(t) => parse_number(s@, i as int) == Some((t.0 as int, t.1 as int)) && i < t.1
                <= n,
            None => parse_number(s@, i as int) is None,
        },
{
    if i >= n {
        return None;
    }
    let neg = s.get_char(i) == '-';
    let i0 = if neg {
        i + 1
    } else {
        i
    };
    let e = scan_digits(s, n, i0);
    if e == i0 || e - i0 > 12 {
        return None;
    }
    proof {
        lemma_digits_end_bounds(s@, i0 as int);
        lemma_pow10_vals();
    }
    let ip = read_digits_val(s, n, i0, e);
    if e < n && s.get_char(e) == '.' {
        let f = scan_digits(s, n, e + 1);
        if f == e + 1 {
            return None;
        }
        proof {
            lemma_digits_end_bounds(s@, e + 1);
        }
        let t = if f - (e + 1) >= 6 {
            e + 7
        } else {
            f
        };
        let fv = read_digits_val(s, n, e + 1, t);
        let cnt = t - (e + 1);
        let scale = pow10_u64(6 - cnt);
        proof {
            let fs = s@.subrange(e + 1, f as int);
            lemma_digits_val_bound(s@.subrange(e + 1, t as int));
            lemma_pow10_le((t - (e + 1)) as nat, 6nat);
            assert((fv as nat) < pow10(6nat));
            assert(scale as nat <= pow10(6nat)) by {
                lemma_pow10_le((6 - cnt) as nat, 6nat);
            };
            assert(fv * scale <= 1000000 * 1000000) by (nonlinear_arith)
                requires
                    fv <= 1000000,
                    scale <= 1000000,
            ;
            if f - (e + 1) >= 6 {
                assert(s@.subrange(e + 1, t as int) =~= fs.subrange(0, 6));
                assert(frac_micros(fs) == digits_val(fs.subrange(0, 6)));
                assert(pow10(0nat) == 1);
            } else {
                assert(s@.subrange(e + 1, t as int) =~= fs);
            }
            crate::parse::lemma_frac_micros_bound(fs);
        }
        let fm = fv * scale;
        proof {
            let fs = s@.subrange(e + 1, f as int);
            if f - (e + 1) >= 6 {
                assert(cnt == 6);
                assert(pow10(0nat) == 1);
                assert(scale == 1);
                assert(fm == fv) by (nonlinear_arith)
                    requires
                        fm == fv * scale,
                        scale == 1,
                ;
                assert(fm as nat == digits_val(fs.subrange(0, 6)));
            } else {
                assert(t == f);
                assert(cnt == fs.len());
                assert(fm as nat == digits_val(fs) * pow10((6 - fs.len()) as nat));
            }
            assert(fm as nat == frac_micros(fs));
            assert(fm < 1000000);
        }
        let mic = ip * 1000000 + fm;
        proof {
            assert(mic < 1000000000000000000);
        }
        let v: i64 = if neg {
            -(mic as i64)
        } else {
            mic as i64
        };
        return Some((v, f));
    }
    let mic = ip * 1000000;
    let v: i64 = if neg {
        -(mic as i64)
    } else {
        mic as i64
    };
    Some((v, e))
}

/// Reads a bracketed list of numbers after `[`, as `parse_num_list`
/// denotes.
fn read_num_list(s: &str, n: usize, i: usize) -> (r: Option<(Vec<i64>, usize)>)
    requires
        n == s@.len(),
        i <= n,
    ensures
        match r {
            Some(t) => parse_num_list(s@, i as int) == Some(
                (t.0@.map_values(|e: i64| e as int), t.1 as int),
            ) && t.1 <= n,
            None => parse_num_list(s@, i as int) is None,
        },
{
    let mut out: Vec<i64> = Vec::new();
    let mut cur = i;
    proof {
        assert(out@.map_values(|e: i64| e as int) =~= Seq::<int>::empty());
    }
    loop
        invariant
            i <= cur <= n,
            n == s@.len(),
            match parse_num_list(s@, cur as int) {
                Some((vs, k)) => parse_num_list(s@, i as int) == Some(
                    (out@.map_values(|e: i64| e as int) + vs, k),
                ),
                None => parse_num_list(s@, i as int) is None,
            },
        decreases n - cur,
    {
        match read_number(s, n, cur) {
            None => {
                return None;
            },
            Some((v, j)) => {
                proof {
                    lemma_parse_number_adv(s@, cur as int);
                }
                let ghost pref = out@.map_values(|e: i64| e as int);
                out.push(v);
                proof {
                    assert(out@.map_values(|e: i64| e as int) =~= pref + seq![v as int]);
                }
                if j < n && s.get_char(j) == ',' {
                    proof {
                        if parse_num_list(s@, j + 1) is Some {
                            let (vs, k) = parse_num_list(s@, j + 1)->Some_0;
                            assert(parse_num_list(s@, cur as int) == Some(
                                (seq![v as int] + vs, k),
                            ));
                            assert(pref + (seq![v as int] + vs) =~= (pref + seq![v as int]) + vs);
                        }
                    }
                    cur = j + 1;
                } else if j < n && s.get_char(j) == ']' {
                    proof {
                        assert(parse_num_list(s@, cur as int) == Some(
                            (seq![v as int], j + 1),
                        ));
                        assert(pref + seq![v as int] =~= out@.map_values(|e: i64| e as int));
                    }
                    return Some((out, j + 1));
                } else {
                    return None;
                }
            },
        }
    }
}

/// Reads one value, as `parse_value` denotes.
fn read_value(s: &str, n: usize, i: usize) -> (r: Option<(JsonValue, usize)>)
    requires
        n == s@.len(),
        i <= n,
    ensures
        match r {
            Some(t) => parse_value(s@, i as int) == Some((t.0@, t.1 as int)) && i < t.1 <= n,
            None => parse_value(s@, i as int) is None,
        },
{
    if i >= n {
        return None;
    }
    let c = s.get_char(i);
    if c == '"' {
        match read_string(s, n, i) {
            Some((t, j)) => Some((JsonValue::S(t), j)),
            None => None,
        }
    } else if c == '[' {
        if i + 1 < n && s.get_char(i + 1) == ']' {
            let empty: Vec<i64> = Vec::new();
            proof {
                assert(empty@.map_values(|e: i64| e as int) =~= Seq::<int>::empty());
            }
            Some((JsonValue::A(empty), i + 2))
        } else {
            match read_num_list(s, n, i + 1) {
                Some((a, j)) => {
                    proof {
                        crate::parse::lemma_parse_num_list_adv(s@, i + 1);
                    }
                    Some((JsonValue::A(a), j))
                },
                None => None,
            }
        }
    } else {
        match read_number(s, n, i) {
            Some((v, j)) => Some((JsonValue::N(v), j)),
            None => None,
        }
    }
}

/// Records a member under its key, as `put_field` denotes.
fn put_member(acc: &mut FieldsAcc, key: &String, v: JsonValue)
    ensures
        final(acc)@ == put_field(old(acc)@, key@, v@),
{
    if str_eq(key.as_str(), "id") {
        acc.id = Some(v);
    } else if str_eq(key.as_str(), "winrate") {
        acc.winrate = Some(v);
    } else if str_eq(key.as_str(), "scoreLead") {
        acc.score_lead = Some(v);
    } else if str_eq(key.as_str(), "visits") {
        acc.visits = Some(v);
    } else if str_eq(key.as_str(), "suggestedMove") {
        acc.suggested = Some(v);
    } else if str_eq(key.as_str(), "ownershipGrid") {
        acc.ownership = Some(v);
    }
}

/// Reads a whole line's fields, as `parse_line` denotes.
pub fn read_line_fields(s: &str) -> (r: Option<FieldsAcc>)
    ensures
        match r {
            Some(acc) => parse_line(s@) == Some(acc@),
            None => parse_line(s@) is None,
        },
{
    let n = s.unicode_len();
    if n < 2 || s.get_char(0) != '{' {
        return None;
    }
    let mut acc = FieldsAcc {
        id: None,
        winrate: None,
        score_lead: None,
        visits: None,
        suggested: None,
        ownership: None,
    };
    proof {
        assert(acc@ == raw_fields_empty());
    }
    if n == 2 && s.get_char(1) == '}' {
        return Some(acc);
    }
    let mut cur: usize = 1;
    loop
        invariant
            1 <= cur <= n,
            n == s@.len(),
            n >= 2,
            s@[0] == '{',
            !(n == 2 && s@[1] == '}'),
            parse_members(s@, 1, raw_fields_empty()) == parse_members(s@, cur as int, acc@),
        decreases n - cur,
    {
        match read_string(s, n, cur) {
            None => {
                return None;
            },
            Some((key, j)) => {
                proof {
                    lemma_parse_string_adv(s@, cur as int);
                }
                if j < n && s.get_char(j) == ':' {
                    match read_value(s, n, j + 1) {
                        None => {
                            return None;
                        },
                        Some((v, k)) => {
                            proof {
                                lemma_parse_value_adv(s@, j + 1);
                            }
                            let ghost old_acc = acc@;
                            put_member(&mut acc, &key, v);
                            if k < n && s.get_char(k) == ',' {
                                cur = k + 1;
                            } else if k < n && s.get_char(k) == '}' {
                                if k + 1 == n {
                                    return Some(acc);
                                } else {
                                    return None;
                                }
                            } else {
                                return None;
                            }
                        },
                    }
                } else {
                    return None;
                }
            },
        }
    }
}

/// Interprets one response line for the query with id `expect`, as
/// `interpret_response` denotes.
pub fn interpret_line(
    s: &str,
    expect: u64,
    include_policy: bool,
    include_ownership: bool,
) -> (r: Result<AnalysisVerdict, ErrorKind>)
    ensures
        match r {
            Ok(v) => interpret_response(
                s@,
                expect as nat,
                include_policy,
                include_ownership,
            ) == Ok::<crate::verdict::VerdictSpec, ErrorKind>(v@),
            Err(k) => interpret_response(
                s@,
                expect as nat,
                include_policy,
                include_ownership,
            ) == Err::<crate::verdict::VerdictSpec, ErrorKind>(k),
        },
{
    let acc = match read_line_fields(s) {
        None => {
            return Err(ErrorKind::ProtocolViolation);
        },
        Some(a) => a,
    };
    let ghost raw = acc@;
    let FieldsAcc { id, winrate, score_lead, visits: visits_raw, suggested, ownership } = acc;
    let id_ok: bool = match &id {
        Some(JsonValue::S(t)) => {
            let mut es = String::new();
            crate::numfmt::push_dec(&mut es, expect);
            proof {
                assert(es@ =~= dec_seq(expect as nat));
            }
            str_eq(t.as_str(), es.as_str())
        },
        _ => false,
    };
    proof {
        assert(id_ok == crate::verdict::id_matches(raw.id, expect as nat));
    }
    if !id_ok {
        return Err(ErrorKind::ProtocolViolation);
    }
    let w: i64 = match &winrate {
        None => {
            return Err(ErrorKind::IncompleteVerdict);
        },
        Some(JsonValue::N(x)) => *x,
        Some(_) => {
            return Err(ErrorKind::ProtocolViolation);
        },
    };
    let sl: i64 = match &score_lead {
        None => {
            return Err(ErrorKind::IncompleteVerdict);
        },
        Some(JsonValue::N(x)) => *x,
        Some(_) => {
            return Err(ErrorKind::ProtocolViolation);
        },
    };
    let vsx: i64 = match &visits_raw {
        None => {
            return Err(ErrorKind::IncompleteVerdict);
        },
        Some(JsonValue::N(x)) => *x,
        Some(_) => {
            return Err(ErrorKind::ProtocolViolation);
        },
    };
    if !(vsx >= 0 && vsx % 1000000 == 0) {
        return Err(ErrorKind::ProtocolViolation);
    }
    let visits: u64 = (vsx / 1000000) as u64;
    let sugg: Option<crate::model::Vertex> = match &suggested {
        None => {
            if include_policy {
                return Err(ErrorKind::IncompleteVerdict);
            }
            None
        },
        Some(JsonValue::S(t)) => {
            match crate::coords::parse_vertex(t.as_str()) {
                Some(vx) => Some(vx),
                None => {
                    return Err(ErrorKind::ProtocolViolation);
                },
            }
        },
        Some(_) => {
            return Err(ErrorKind::ProtocolViolation);
        },
    };
    let own: Option<Vec<i64>> = match ownership {
        None => {
            if include_ownership {
                return Err(ErrorKind::IncompleteVerdict);
            }
            None
        },
        Some(JsonValue::A(v)) => Some(v),
        Some(_) => {
            return Err(ErrorKind::ProtocolViolation);
        },
    };
    Ok(
        AnalysisVerdict {
            id: expect,
            winrate_micros: w,
            score_lead_micros: sl,
            visits,
            suggested: sugg,
            ownership: own,
        },
    )
}

} // verus!
