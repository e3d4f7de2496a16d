use bollwark::risk::load::{LoadLadder};

#[test]
fn empty_spec_is_a_no_op() {
    let ladder = LoadLadder::parse("").unwrap();
    assert_eq!(ladder.floor_for(0), 0);
    assert_eq!(ladder.floor_for(1_000_000), 0);
}

#[test]
fn whitespace_and_trailing_comma_are_ignored() {
    let ladder = LoadLadder::parse("  200:20 , 500:22 , ").unwrap();
    assert_eq!(ladder.floor_for(199), 0);
    assert_eq!(ladder.floor_for(200), 20);
    assert_eq!(ladder.floor_for(500), 22);
}

#[test]
fn floor_picks_highest_matching_rung_regardless_of_input_order() {
    // Deliberately unsorted input.
    let ladder = LoadLadder::parse("1000:24,200:20,500:22").unwrap();
    assert_eq!(ladder.floor_for(0), 0); // below lowest threshold
    assert_eq!(ladder.floor_for(199), 0);
    assert_eq!(ladder.floor_for(200), 20); // exact boundary
    assert_eq!(ladder.floor_for(350), 20); // between rungs
    assert_eq!(ladder.floor_for(500), 22);
    assert_eq!(ladder.floor_for(999), 22);
    assert_eq!(ladder.floor_for(1000), 24);
    assert_eq!(ladder.floor_for(50_000), 24); // above the top rung
}

#[test]
fn missing_colon_is_an_error() {
    let err = LoadLadder::parse("200:20,500").unwrap_err();
    assert!(err.contains("missing ':'"), "{err}");
}

#[test]
fn non_numeric_threshold_is_an_error() {
    assert!(LoadLadder::parse("abc:20").is_err());
}

#[test]
fn non_numeric_difficulty_is_an_error() {
    assert!(LoadLadder::parse("200:high").is_err());
}
