use tsg2425::tilt::{join_tilt, share_of, tilt_season, FieldTilt, TiltSource};
use tsg2425::{parse_field_tilt, Column, Fixture, JoinError, MyError, ParseError, Teams};

fn src(team: Teams, home: Teams, away: Teams, w: u32, d: u32, l: u32) -> TiltSource {
    TiltSource { team, game: Fixture { home, away }, winning: w, drawing: d, losing: l }
}

#[test]
fn shares_in_millionths() {
    assert_eq!(share_of(1, 3), 250_000);
    assert_eq!(share_of(2, 1), 666_666);
    assert_eq!(share_of(5, 0), 1_000_000);
    assert_eq!(share_of(0, 7), 0);
    assert_eq!(share_of(0, 0), 0);
    assert_eq!(share_of(u32::MAX, u32::MAX), 500_000);
}

#[test]
fn records_are_set_against_the_opponent() {
    let (a, b) = (Teams::PersijaJakarta, Teams::PersibBandung);
    let rows = vec![
        src(a, a, b, 30_000_000, 50_000_000, 20_000_000),
        src(b, a, b, 10_000_000, 50_000_000, 40_000_000),
    ];
    let j = join_tilt(&rows).unwrap();
    assert_eq!(
        j[0],
        FieldTilt { team: a, opponent: b, winning: 428_571, drawing: 500_000, losing: 666_666 }
    );
    assert_eq!(
        j[1],
        FieldTilt { team: b, opponent: a, winning: 333_333, drawing: 500_000, losing: 571_428 }
    );
}

#[test]
fn zero_territory_gives_zero_share_and_counts_in_the_mean() {
    let (a, b, c) = (Teams::PersijaJakarta, Teams::PersibBandung, Teams::PsmMakassar);
    let rows = vec![
        src(a, a, b, 50_000_000, 0, 0),
        src(b, a, b, 0, 0, 50_000_000),
        src(a, c, a, 0, 0, 0),
        src(c, c, a, 0, 0, 0),
    ];
    let j = join_tilt(&rows).unwrap();
    assert_eq!(j[0].winning, 500_000);
    assert_eq!(j[0].drawing, 0);
    assert_eq!(j[2].winning, 0);
    let s = tilt_season(&j);
    assert_eq!(s.len(), 3);
    assert_eq!(s[0].team_name, a);
    assert_eq!(s[0].winning, 250_000);
    assert_eq!(s[0].drawing, 0);
    assert_eq!(s[1].team_name, b);
    assert_eq!(s[1].losing, 500_000);
    assert_eq!(s[2].team_name, c);
    assert_eq!(s[2].winning, 0);
}

#[test]
fn tilt_opponent_must_exist() {
    let (a, b) = (Teams::PersijaJakarta, Teams::PersibBandung);
    let rows = vec![src(a, a, b, 1, 1, 1)];
    assert_eq!(join_tilt(&rows), Err(JoinError::NoOpponent { row: 0 }));
}

#[test]
fn field_tilt_document() {
    let text = "Team,Match,Winning,Drawing,Losing\n\
PSIS Semarang,PSIS Semarang vs PSS Sleman,60,45.5,0\n\
PSS Sleman,PSIS Semarang vs PSS Sleman,0,54.5,40\n";
    let j = parse_field_tilt(text.as_bytes()).unwrap();
    assert_eq!(j.len(), 2);
    assert_eq!(j[0].team, Teams::PsisSemarang);
    assert_eq!(j[0].winning, 600_000);
    assert_eq!(j[0].drawing, 455_000);
    assert_eq!(j[0].losing, 0);
    assert_eq!(j[1].losing, 400_000);
    assert_eq!(j[1].drawing, 545_000);
}

#[test]
fn field_tilt_document_without_losing_column() {
    let text = "Team,Match,Winning,Drawing\nPSIS Semarang,PSIS Semarang vs PSS Sleman,60,45\n";
    assert_eq!(
        parse_field_tilt(text.as_bytes()),
        Err(MyError::Parse(ParseError::MissingColumn(Column::Losing)))
    );
}

#[test]
fn field_tilt_bad_percentage() {
    let text = "Team,Match,Winning,Drawing,Losing\nPSIS Semarang,PSIS Semarang vs PSS Sleman,sixty,45,1\n";
    assert_eq!(
        parse_field_tilt(text.as_bytes()),
        Err(MyError::Parse(ParseError::BadValue { row: 0, column: Column::Winning }))
    );
}
