//! Wire coordinates: column letters run `A..H, J..T` (the letter `I` is
//! conventionally skipped), rows are one-based decimal numbers. The
//! mapping is a bijection on points of boards up to nineteen lines.
use vstd::prelude::*;
use crate::model::{Point, Vertex};
use crate::numfmt::{dec_seq, digit_char, digit_val};

verus! {

/// The column letter for a zero-based column index below nineteen.
pub open spec fn col_char(x: nat) -> char {
    if x == 0 {
        'A'
    } else if x == 1 {
        'B'
    } else if x == 2 {
        'C'
    } else if x == 3 {
        'D'
    } else if x == 4 {
        'E'
    } else if x == 5 {
        'F'
    } else if x == 6 {
        'G'
    } else if x == 7 {
        'H'
    } else if x == 8 {
        'J'
    } else if x == 9 {
        'K'
    } else if x == 10 {
        'L'
    } else if x == 11 {
        'M'
    } else if x == 12 {
        'N'
    } else if x == 13 {
        'O'
    } else if x == 14 {
        'P'
    } else if x == 15 {
        'Q'
    } else if x == 16 {
        'R'
    } else if x == 17 {
        'S'
    } else {
        'T'
    }
}

/// The zero-based column index a letter denotes, if any; `I` has none.
pub open spec fn col_index(c: char) -> Option<nat> {
    if c == 'A' {
        Some(0nat)
    } else if c == 'B' {
        Some(1nat)
    } else if c == 'C' {
        Some(2nat)
    } else if c == 'D' {
        Some(3nat)
    } else if c == 'E' {
        Some(4nat)
    } else if c == 'F' {
        Some(5nat)
    } else if c == 'G' {
        Some(6nat)
    } else if c == 'H' {
        Some(7nat)
    } else if c == 'J' {
        Some(8nat)
    } else if c == 'K' {
        Some(9nat)
    } else if c == 'L' {
        Some(10nat)
    } else if c == 'M' {
        Some(11nat)
    } else if c == 'N' {
        Some(12nat)
    } else if c == 'O' {
        Some(13nat)
    } else if c == 'P' {
        Some(14nat)
    } else if c == 'Q' {
        Some(15nat)
    } else if c == 'R' {
        Some(16nat)
    } else if c == 'S' {
        Some(17nat)
    } else if c == 'T' {
        Some(18nat)
    } else {
        None
    }
}

/// A column index below nineteen reads back from its letter.
pub proof fn lemma_col_char_index(x: nat)
    requires
        x < 19,
    ensures
        col_index(col_char(x)) == Some(x),
{
}

/// A column letter renders back from its index.
pub proof fn lemma_col_index_char(c: char)
    requires
        col_index(c) is Some,
    ensures
        col_index(c)->Some_0 < 19,
        col_char(col_index(c)->Some_0) == c,
{
}

/// The wire text of a vertex: the pass marker, or column letter followed
/// by the one-based row number.
pub open spec fn vertex_seq(v: Vertex) -> Seq<char> {
    match v {
        Vertex::Pass => seq!['p', 'a', 's', 's'],
        Vertex::At(p) => seq![col_char(p.x as nat)] + dec_seq((p.y + 1) as nat),
    }
}

/// The vertex a wire text denotes, if any: `pass`, or a column letter
/// and a one-based row between one and nineteen with no leading zero.
pub open spec fn vertex_of_seq(s: Seq<char>) -> Option<Vertex> {
    if s =~= seq!['p', 'a', 's', 's'] {
        Some(Vertex::Pass)
    } else if s.len() == 2 && col_index(s[0]) is Some && digit_val(s[1]) is Some && digit_val(
        s[1],
    )->Some_0 >= 1 {
        Some(
            Vertex::At(
                Point {
                    x: col_index(s[0])->Some_0 as u8,
                    y: (digit_val(s[1])->Some_0 - 1) as u8,
                },
            ),
        )
    } else if s.len() == 3 && col_index(s[0]) is Some && s[1] == '1' && digit_val(s[2]) is Some {
        Some(
            Vertex::At(
                Point {
                    x: col_index(s[0])->Some_0 as u8,
                    y: (9 + digit_val(s[2])->Some_0) as u8,
                },
            ),
        )
    } else {
        None
    }
}

/// Encoding a vertex of a nineteen-line board and decoding the text
/// gives the vertex back: encoding is injective on valid vertices.
pub proof fn lemma_vertex_round_trip(v: Vertex)
    requires
        match v {
            Vertex::Pass => true,
            Vertex::At(p) => p.x < 19 && p.y < 19,
        },
    ensures
        vertex_of_seq(vertex_seq(v)) == Some(v),
{
    match v {
        Vertex::Pass => {
        },
        Vertex::At(p) => {
            let x = p.x as nat;
            let row = (p.y + 1) as nat;
            lemma_col_char_index(x);
            if row < 10 {
                crate::numfmt::lemma_digit_char_val(row);
                assert(vertex_seq(v) =~= seq![col_char(x), digit_char(row)]);
            } else {
                assert(row / 10 == 1 && row % 10 == row - 10);
                crate::numfmt::lemma_digit_char_val(row % 10);
                assert(dec_seq(1nat) =~= seq![digit_char(1)]);
                assert(dec_seq(row) =~= seq![digit_char(1), digit_char((row - 10) as nat)]);
                assert(vertex_seq(v) =~= seq![
                    col_char(x),
                    digit_char(1),
                    digit_char((row - 10) as nat),
                ]);
                assert(digit_char(1) == '1');
            }
        },
    }
}

/// Decoding a wire text and re-encoding the vertex gives the same text
/// back: decoding inverts encoding exactly, so the two are a bijection
/// between valid vertices and their wire texts.
pub proof fn lemma_vertex_seq_inverse(s: Seq<char>)
    requires
        vertex_of_seq(s) is Some,
    ensures
        vertex_seq(vertex_of_seq(s)->Some_0) =~= s,
{
    let v = vertex_of_seq(s)->Some_0;
    if s =~= seq!['p', 'a', 's', 's'] {
    } else if s.len() == 2 {
        let x = col_index(s[0])->Some_0;
        let d = digit_val(s[1])->Some_0;
        lemma_col_index_char(s[0]);
        crate::numfmt::lemma_digit_val_char(s[1]);
        assert(dec_seq(d) =~= seq![digit_char(d)]);
    } else {
        let x = col_index(s[0])->Some_0;
        let d = digit_val(s[2])->Some_0;
        lemma_col_index_char(s[0]);
        crate::numfmt::lemma_digit_val_char(s[2]);
        let row = (10 + d) as nat;
        assert(row / 10 == 1 && row % 10 == d);
        assert(dec_seq(1nat) =~= seq![digit_char(1)]);
        assert(dec_seq(row) =~= seq![digit_char(1), digit_char(d)]);
        assert(digit_char(1) == '1');
    }
}

/// The column letter text for an index below nineteen.
pub fn col_str(x: u8) -> (r: &'static str)
    requires
        x < 19,
    ensures
        r@ =~= seq![col_char(x as nat)],
{
    proof {
        reveal_strlit("A");
        reveal_strlit("B");
        reveal_strlit("C");
        reveal_strlit("D");
        reveal_strlit("E");
        reveal_strlit("F");
        reveal_strlit("G");
        reveal_strlit("H");
        reveal_strlit("J");
        reveal_strlit("K");
        reveal_strlit("L");
        reveal_strlit("M");
        reveal_strlit("N");
        reveal_strlit("O");
        reveal_strlit("P");
        reveal_strlit("Q");
        reveal_strlit("R");
        reveal_strlit("S");
        reveal_strlit("T");
    }
    match x {
        0 => "A",
        1 => "B",
        2 => "C",
        3 => "D",
        4 => "E",
        5 => "F",
        6 => "G",
        7 => "H",
        8 => "J",
        9 => "K",
        10 => "L",
        11 => "M",
        12 => "N",
        13 => "O",
        14 => "P",
        15 => "Q",
        16 => "R",
        17 => "S",
        _ => "T",
    }
}

/// The zero-based column index of a letter, if it has one.
pub fn col_of_char(c: char) -> (r: Option<u8>)
    ensures
        match r {
            Some(x) => col_index(c) == Some(x as nat),
            None => col_index(c) is None,
        },
{
    match c {
        'A' => Some(0),
        'B' => Some(1),
        'C' => Some(2),
        'D' => Some(3),
        'E' => Some(4),
        'F' => Some(5),
        'G' => Some(6),
        'H' => Some(7),
        'J' => Some(8),
        'K' => Some(9),
        'L' => Some(10),
        'M' => Some(11),
        'N' => Some(12),
        'O' => Some(13),
        'P' => Some(14),
        'Q' => Some(15),
        'R' => Some(16),
        'S' => Some(17),
        'T' => Some(18),
        _ => None,
    }
}

/// The digit value of a character, if it is a decimal digit.
pub fn digit_of_char(c: char) -> (r: Option<u8>)
    ensures
        match r {
            Some(d) => digit_val(c) == Some(d as nat),
            None => digit_val(c) is None,
        },
{
    match c {
        '0' => Some(0),
        '1' => Some(1),
        '2' => Some(2),
        '3' => Some(3),
        '4' => Some(4),
        '5' => Some(5),
        '6' => Some(6),
        '7' => Some(7),
        '8' => Some(8),
        '9' => Some(9),
        _ => None,
    }
}

/// Appends the wire text of an in-bounds vertex to `out`.
pub fn push_vertex(out: &mut String, v: Vertex)
    requires
        match v {
            Vertex::Pass => true,
            Vertex::At(p) => p.x < 19 && p.y < 19,
        },
    ensures
        final(out)@ == old(out)@ + vertex_seq(v),
{
    match v {
        Vertex::Pass => {
            proof {
                reveal_strlit("pass");
            }
            out.append("pass");
            proof {
                assert(out@ =~= old(out)@ + vertex_seq(v));
            }
        },
        Vertex::At(p) => {
            out.append(col_str(p.x));
            crate::numfmt::push_dec(out, p.y as u64 + 1);
            proof {
                assert(out@ =~= old(out)@ + vertex_seq(v));
            }
        },
    }
}

/// Decodes the wire text of a vertex, if it is one.
pub fn parse_vertex(s: &str) -> (r: Option<Vertex>)
    ensures
        r == vertex_of_seq(s@),
{
    let n = s.unicode_len();
    if n == 4 {
        proof {
            reveal_strlit("pass");
        }
        if s.get_char(0) == 'p' && s.get_char(1) == 'a' && s.get_char(2) == 's' && s.get_char(3)
            == 's' {
            proof {
                assert(s@ =~= seq!['p', 'a', 's', 's']);
            }
            Some(Vertex::Pass)
        } else {
            None
        }
    } else if n == 2 {
        let cx = col_of_char(s.get_char(0));
        let cd = digit_of_char(s.get_char(1));
        match (cx, cd) {
            (Some(x), Some(d)) if d >= 1 => Some(Vertex::At(Point { x, y: d - 1 })),
            _ => None,
        }
    } else if n == 3 {
        let cx = col_of_char(s.get_char(0));
        let c1 = s.get_char(1);
        let cd = digit_of_char(s.get_char(2));
        match (cx, cd) {
            (Some(x), Some(d)) if c1 == '1' => Some(Vertex::At(Point { x, y: 9 + d })),
            _ => None,
        }
    } else {
        None
    }
}

} // verus!
