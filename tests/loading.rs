use tsg2425::loader::parse_table;
use tsg2425::text::{chars_of, parse_micro};
use tsg2425::{load_observations, Column, Fixture, MyError, ParseError, Teams};

const HEADER: &str = "team,match,game_week,total_ck_for,shots_from_ck,xg\n";

fn doc(rows: &[&str]) -> Vec<u8> {
    let mut s = String::from(HEADER);
    for r in rows {
        s.push_str(r);
        s.push('\n');
    }
    s.into_bytes()
}

fn cells(rows: &[&[&str]]) -> Vec<Vec<String>> {
    rows.iter().map(|r| r.iter().map(|c| c.to_string()).collect()).collect()
}

#[test]
fn reads_a_well_formed_document() {
    let bytes = doc(&[
        "AREMA FC,AREMA FC vs Bali United FC,1,5,2,0.3",
        "Bali United FC,AREMA FC vs Bali United FC,1,3,1,0.1",
    ]);
    let obs = load_observations(&bytes).unwrap();
    assert_eq!(obs.len(), 2);
    assert_eq!(obs[0].team, Teams::AremaFC);
    assert_eq!(
        obs[0].game,
        Fixture { home: Teams::AremaFC, away: Teams::BaliUnitedFC }
    );
    assert_eq!(obs[0].game_week, 1);
    assert_eq!(obs[0].total_ck_for, 5);
    assert_eq!(obs[0].shots_from_ck, 2);
    assert_eq!(obs[0].xg, 300_000);
    assert_eq!(obs[1].team, Teams::BaliUnitedFC);
    assert_eq!(obs[1].xg, 100_000);
}

#[test]
fn columns_may_stand_in_any_order() {
    let bytes = b"xg,game_week,team,extra,shots_from_ck,total_ck_for,match\n\
0.25,3,PSM Makassar,x,4,9,PSM Makassar vs PSIS Semarang\n"
        .to_vec();
    let obs = load_observations(&bytes).unwrap();
    assert_eq!(obs[0].team, Teams::PsmMakassar);
    assert_eq!(obs[0].game_week, 3);
    assert_eq!(obs[0].total_ck_for, 9);
    assert_eq!(obs[0].shots_from_ck, 4);
    assert_eq!(obs[0].xg, 250_000);
}

#[test]
fn non_numeric_week_is_a_parse_error_on_that_row() {
    let bytes = doc(&[
        "AREMA FC,AREMA FC vs Bali United FC,1,5,2,0.3",
        "Bali United FC,AREMA FC vs Bali United FC,one,3,1,0.1",
    ]);
    assert_eq!(
        load_observations(&bytes),
        Err(MyError::Parse(ParseError::BadValue { row: 1, column: Column::GameWeek }))
    );
}

#[test]
fn week_zero_is_refused() {
    let bytes = doc(&["AREMA FC,AREMA FC vs Bali United FC,0,5,2,0.3"]);
    assert_eq!(
        load_observations(&bytes),
        Err(MyError::Parse(ParseError::BadValue { row: 0, column: Column::GameWeek }))
    );
}

#[test]
fn unknown_team_is_a_parse_error() {
    let bytes = doc(&[
        "AREMA FC,AREMA FC vs Bali United FC,1,5,2,0.3",
        "Persipura Jayapura,AREMA FC vs Bali United FC,1,3,1,0.1",
    ]);
    assert_eq!(
        load_observations(&bytes),
        Err(MyError::Parse(ParseError::BadValue { row: 1, column: Column::Team }))
    );
}

#[test]
fn team_names_are_matched_exactly() {
    let bytes = doc(&["arema fc,AREMA FC vs Bali United FC,1,5,2,0.3"]);
    assert_eq!(
        load_observations(&bytes),
        Err(MyError::Parse(ParseError::BadValue { row: 0, column: Column::Team }))
    );
}

#[test]
fn fixture_with_unknown_side_is_refused() {
    let bytes = doc(&["AREMA FC,AREMA FC vs Nobody FC,1,5,2,0.3"]);
    assert_eq!(
        load_observations(&bytes),
        Err(MyError::Parse(ParseError::BadValue { row: 0, column: Column::Match }))
    );
}

#[test]
fn fixture_without_separator_is_refused() {
    let bytes = doc(&["AREMA FC,AREMA FC - Bali United FC,1,5,2,0.3"]);
    assert_eq!(
        load_observations(&bytes),
        Err(MyError::Parse(ParseError::BadValue { row: 0, column: Column::Match }))
    );
}

#[test]
fn bad_counts_and_xg_are_refused() {
    let bytes = doc(&["AREMA FC,AREMA FC vs Bali United FC,1,-5,2,0.3"]);
    assert_eq!(
        load_observations(&bytes),
        Err(MyError::Parse(ParseError::BadValue { row: 0, column: Column::TotalCkFor }))
    );
    let bytes = doc(&["AREMA FC,AREMA FC vs Bali United FC,1,5,4294967296,0.3"]);
    assert_eq!(
        load_observations(&bytes),
        Err(MyError::Parse(ParseError::BadValue { row: 0, column: Column::ShotsFromCk }))
    );
    let bytes = doc(&["AREMA FC,AREMA FC vs Bali United FC,1,5,2,0.3x"]);
    assert_eq!(
        load_observations(&bytes),
        Err(MyError::Parse(ParseError::BadValue { row: 0, column: Column::Xg }))
    );
}

#[test]
fn missing_column_is_reported() {
    let bytes = b"team,match,game_week,total_ck_for,xg\nAREMA FC,AREMA FC vs Bali United FC,1,5,0.3\n".to_vec();
    assert_eq!(
        load_observations(&bytes),
        Err(MyError::Parse(ParseError::MissingColumn(Column::ShotsFromCk)))
    );
}

#[test]
fn empty_document_lacks_every_column() {
    assert_eq!(
        load_observations(&[]),
        Err(MyError::Parse(ParseError::MissingColumn(Column::Team)))
    );
}

#[test]
fn header_only_gives_no_observations() {
    let obs = load_observations(HEADER.as_bytes()).unwrap();
    assert!(obs.is_empty());
}

#[test]
fn ragged_csv_is_a_csv_error() {
    let bytes = b"team,match,game_week,total_ck_for,shots_from_ck,xg\nAREMA FC,1\n".to_vec();
    match load_observations(&bytes) {
        Err(MyError::Csv(message)) => assert!(!message.is_empty()),
        other => panic!("expected a CSV error, got {other:?}"),
    }
}

#[test]
fn short_record_is_reported() {
    let table = cells(&[
        &["team", "match", "game_week", "total_ck_for", "shots_from_ck", "xg"],
        &["AREMA FC", "AREMA FC vs Bali United FC", "1"],
    ]);
    assert_eq!(parse_table(&table), Err(ParseError::ShortRow { row: 0 }));
}

#[test]
fn fixture_label_sides_are_trimmed() {
    let table = cells(&[
        &["team", "match", "game_week", "total_ck_for", "shots_from_ck", "xg"],
        &["PSS Sleman", "  PSS Sleman\tvs   PERSIK Kediri ", "2", "0", "0", "0"],
    ]);
    let obs = parse_table(&table).unwrap();
    assert_eq!(
        obs[0].game,
        Fixture { home: Teams::PssSleman, away: Teams::PersikKediri }
    );
}

fn micro(s: &str) -> Option<u32> {
    parse_micro(&chars_of(s))
}

#[test]
fn decimal_cells_in_millionths() {
    assert_eq!(micro("0.3"), Some(300_000));
    assert_eq!(micro("2"), Some(2_000_000));
    assert_eq!(micro("1.2345678"), Some(1_234_567));
    assert_eq!(micro("0.000001"), Some(1));
    assert_eq!(micro("4294.967295"), Some(u32::MAX));
    assert_eq!(micro("4294.967296"), None);
    assert_eq!(micro("5000"), None);
    assert_eq!(micro(".5"), None);
    assert_eq!(micro("1."), None);
    assert_eq!(micro(""), None);
    assert_eq!(micro("1.2.3"), None);
}

#[test]
fn roster_lookup_and_names() {
    assert_eq!(Teams::from_name("AREMA FC"), Some(Teams::AremaFC));
    assert_eq!(Teams::from_name("Semen Padang FC"), Some(Teams::SemenPadangFC));
    assert_eq!(Teams::from_name("PS Barito Putera"), Some(Teams::PSBaritoPutera));
    assert_eq!(Teams::from_name("Unknown FC"), None);
    assert_eq!(Teams::from_name(""), None);
    assert_eq!(Teams::PersijaJakarta.name(), "PERSIJA Jakarta");
    assert_eq!(Teams::from_name(Teams::PsbsBiak.name()), Some(Teams::PsbsBiak));
}
