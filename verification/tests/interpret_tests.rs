use go_analyzer::model::{ErrorKind, Point, Vertex};
use go_analyzer::reader::interpret_line;

#[test]
fn echo_line_reads_back_exactly() {
    let line = "{\"id\":\"3\",\"winrate\":0.5,\"scoreLead\":0.0,\"visits\":500}";
    let v = interpret_line(line, 3, false, false).unwrap();
    assert_eq!(v.id, 3);
    assert_eq!(v.winrate_micros, 500_000);
    assert_eq!(v.score_lead_micros, 0);
    assert_eq!(v.visits, 500);
    assert_eq!(v.suggested, None);
    assert_eq!(v.ownership, None);
}

#[test]
fn field_order_does_not_matter() {
    let line = "{\"visits\":500,\"scoreLead\":-3.5,\"id\":\"0\",\"winrate\":0.25}";
    let v = interpret_line(line, 0, false, false).unwrap();
    assert_eq!(v.winrate_micros, 250_000);
    assert_eq!(v.score_lead_micros, -3_500_000);
}

#[test]
fn unknown_keys_are_ignored() {
    let line = "{\"id\":\"0\",\"winrate\":0.5,\"scoreLead\":1.0,\"visits\":500,\"extra\":42}";
    let v = interpret_line(line, 0, false, false).unwrap();
    assert_eq!(v.score_lead_micros, 1_000_000);
}

#[test]
fn suggested_move_decodes_as_a_vertex() {
    let line =
        "{\"id\":\"0\",\"winrate\":0.5,\"scoreLead\":0.0,\"visits\":500,\"suggestedMove\":\"Q16\"}";
    let v = interpret_line(line, 0, true, false).unwrap();
    assert_eq!(v.suggested, Some(Vertex::At(Point { x: 15, y: 15 })));
    let pass_line =
        "{\"id\":\"0\",\"winrate\":0.5,\"scoreLead\":0.0,\"visits\":500,\"suggestedMove\":\"pass\"}";
    let v2 = interpret_line(pass_line, 0, true, false).unwrap();
    assert_eq!(v2.suggested, Some(Vertex::Pass));
}

#[test]
fn missing_suggested_move_is_incomplete_only_when_requested() {
    let line = "{\"id\":\"0\",\"winrate\":0.5,\"scoreLead\":0.0,\"visits\":500}";
    assert!(interpret_line(line, 0, false, false).is_ok());
    assert_eq!(interpret_line(line, 0, true, false).err(), Some(ErrorKind::IncompleteVerdict));
}

#[test]
fn unreadable_suggested_move_is_a_violation() {
    let line =
        "{\"id\":\"0\",\"winrate\":0.5,\"scoreLead\":0.0,\"visits\":500,\"suggestedMove\":\"I5\"}";
    assert_eq!(interpret_line(line, 0, true, false).err(), Some(ErrorKind::ProtocolViolation));
}

#[test]
fn ownership_grid_reads_in_millionths() {
    let line = "{\"id\":\"0\",\"winrate\":0.5,\"scoreLead\":0.0,\"visits\":500,\
                \"ownershipGrid\":[0.5,-0.25,0,1]}";
    let v = interpret_line(line, 0, false, true).unwrap();
    assert_eq!(v.ownership, Some(vec![500_000, -250_000, 0, 1_000_000]));
}

#[test]
fn empty_ownership_grid_is_accepted() {
    let line = "{\"id\":\"0\",\"winrate\":0.5,\"scoreLead\":0.0,\"visits\":500,\
                \"ownershipGrid\":[]}";
    let v = interpret_line(line, 0, false, true).unwrap();
    assert_eq!(v.ownership, Some(vec![]));
}

#[test]
fn fractional_digits_truncate_past_the_sixth() {
    let line = "{\"id\":\"0\",\"winrate\":0.1234567,\"scoreLead\":0.0,\"visits\":500}";
    let v = interpret_line(line, 0, false, false).unwrap();
    assert_eq!(v.winrate_micros, 123_456);
}

#[test]
fn short_fractions_scale_up() {
    let line = "{\"id\":\"0\",\"winrate\":0.51,\"scoreLead\":2.5,\"visits\":500}";
    let v = interpret_line(line, 0, false, false).unwrap();
    assert_eq!(v.winrate_micros, 510_000);
    assert_eq!(v.score_lead_micros, 2_500_000);
}

#[test]
fn fractional_visit_counts_are_a_violation() {
    let line = "{\"id\":\"0\",\"winrate\":0.5,\"scoreLead\":0.0,\"visits\":500.5}";
    assert_eq!(interpret_line(line, 0, false, false).err(), Some(ErrorKind::ProtocolViolation));
    let negative = "{\"id\":\"0\",\"winrate\":0.5,\"scoreLead\":0.0,\"visits\":-500}";
    assert_eq!(interpret_line(negative, 0, false, false).err(), Some(ErrorKind::ProtocolViolation));
}

#[test]
fn missing_core_fields_are_incomplete() {
    let no_winrate = "{\"id\":\"0\",\"scoreLead\":0.0,\"visits\":500}";
    assert_eq!(interpret_line(no_winrate, 0, false, false).err(), Some(ErrorKind::IncompleteVerdict));
    let no_visits = "{\"id\":\"0\",\"winrate\":0.5,\"scoreLead\":0.0}";
    assert_eq!(interpret_line(no_visits, 0, false, false).err(), Some(ErrorKind::IncompleteVerdict));
}

#[test]
fn wrongly_typed_fields_are_violations() {
    let string_winrate = "{\"id\":\"0\",\"winrate\":\"high\",\"scoreLead\":0.0,\"visits\":500}";
    assert_eq!(
        interpret_line(string_winrate, 0, false, false).err(),
        Some(ErrorKind::ProtocolViolation)
    );
    let numeric_id = "{\"id\":0,\"winrate\":0.5,\"scoreLead\":0.0,\"visits\":500}";
    assert_eq!(
        interpret_line(numeric_id, 0, false, false).err(),
        Some(ErrorKind::ProtocolViolation)
    );
}

#[test]
fn lines_outside_the_grammar_are_violations() {
    for bad in [
        "",
        "{}",
        "nonsense",
        "{\"id\":\"0\"",
        "{\"id\":\"0\",}",
        "{\"id\":\"0\"} trailing",
        "[1,2,3]",
        "{\"id\":\"0\",\"winrate\":0.5,\"scoreLead\":0.0,\"visits\":500}{}",
    ] {
        assert_eq!(
            interpret_line(bad, 0, false, false).err(),
            Some(ErrorKind::ProtocolViolation),
            "line should be rejected: {}",
            bad
        );
    }
}

#[test]
fn id_must_match_the_awaited_query() {
    let line = "{\"id\":\"4\",\"winrate\":0.5,\"scoreLead\":0.0,\"visits\":500}";
    assert!(interpret_line(line, 4, false, false).is_ok());
    assert_eq!(interpret_line(line, 5, false, false).err(), Some(ErrorKind::ProtocolViolation));
}

#[test]
fn repeated_keys_keep_the_later_value() {
    let line = "{\"id\":\"0\",\"winrate\":0.1,\"winrate\":0.9,\"scoreLead\":0.0,\"visits\":500}";
    let v = interpret_line(line, 0, false, false).unwrap();
    assert_eq!(v.winrate_micros, 900_000);
}
