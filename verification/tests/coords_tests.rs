use go_analyzer::coords::{col_of_char, col_str, parse_vertex, push_vertex};
use go_analyzer::model::{Point, Vertex};

fn first_char(s: &str) -> char {
    s.chars().next().unwrap()
}

fn encode_vertex(v: Vertex) -> String {
    let mut out = String::new();
    push_vertex(&mut out, v);
    out
}

#[test]
fn column_letters_skip_i() {
    assert_eq!(col_str(0), "A");
    assert_eq!(col_str(7), "H");
    assert_eq!(col_str(8), "J");
    assert_eq!(col_str(18), "T");
    assert_eq!(col_of_char('I'), None);
    assert_eq!(col_of_char('H'), Some(7));
    assert_eq!(col_of_char('J'), Some(8));
    assert_eq!(col_of_char('a'), None);
}

#[test]
fn column_letters_round_trip() {
    for x in 0u8..19 {
        let c = first_char(col_str(x));
        assert_eq!(col_of_char(c), Some(x));
    }
}

#[test]
fn vertex_encoding_round_trips_on_nineteen_board() {
    for x in 0u8..19 {
        for y in 0u8..19 {
            let v = Vertex::At(Point { x, y });
            let text = encode_vertex(v);
            assert_eq!(parse_vertex(&text), Some(v));
        }
    }
    assert_eq!(encode_vertex(Vertex::Pass), "pass");
    assert_eq!(parse_vertex("pass"), Some(Vertex::Pass));
}

#[test]
fn vertex_decoding_inverts_encoding() {
    for text in ["A1", "D4", "H9", "J10", "T19", "Q16", "pass"] {
        let v = parse_vertex(text).unwrap();
        assert_eq!(encode_vertex(v), text);
    }
}

#[test]
fn vertex_decoding_rejects_bad_texts() {
    assert_eq!(parse_vertex(""), None);
    assert_eq!(parse_vertex("I5"), None);
    assert_eq!(parse_vertex("D0"), None);
    assert_eq!(parse_vertex("D01"), None);
    assert_eq!(parse_vertex("D20"), None);
    assert_eq!(parse_vertex("4D"), None);
    assert_eq!(parse_vertex("PASS"), None);
    assert_eq!(parse_vertex("D444"), None);
}

#[test]
fn concrete_coordinates() {
    assert_eq!(encode_vertex(Vertex::At(Point { x: 3, y: 3 })), "D4");
    assert_eq!(encode_vertex(Vertex::At(Point { x: 15, y: 15 })), "Q16");
    assert_eq!(encode_vertex(Vertex::At(Point { x: 8, y: 0 })), "J1");
    assert_eq!(encode_vertex(Vertex::At(Point { x: 0, y: 18 })), "A19");
}
