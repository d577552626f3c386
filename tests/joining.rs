use tsg2425::join::join_fixtures;
use tsg2425::{parse_csv, DataSource, Fixture, JoinError, MyError, Teams};

fn obs(team: Teams, home: Teams, away: Teams, week: u32, ck: u32, shots: u32, xg: u32) -> DataSource {
    DataSource {
        team,
        game: Fixture { home, away },
        game_week: week,
        total_ck_for: ck,
        shots_from_ck: shots,
        xg,
    }
}

#[test]
fn arema_and_bali_mirror_each_other() {
    let a = Teams::AremaFC;
    let b = Teams::BaliUnitedFC;
    let rows = vec![
        obs(a, a, b, 1, 5, 2, 300_000),
        obs(b, a, b, 1, 3, 1, 100_000),
    ];
    let j = join_fixtures(&rows).unwrap();
    assert_eq!(j[0].team, a);
    assert_eq!(j[0].opponent, b);
    assert_eq!(j[0].total_ck_against, 3);
    assert_eq!(j[0].shots_against_from_ck, 1);
    assert_eq!(j[0].xg_against, 100_000);
    assert_eq!(j[1].team, b);
    assert_eq!(j[1].opponent, a);
    assert_eq!(j[1].total_ck_against, 5);
    assert_eq!(j[1].shots_against_from_ck, 2);
    assert_eq!(j[1].xg_against, 300_000);
}

#[test]
fn against_equals_opponents_for_across_a_season() {
    let (a, b, c, d) = (Teams::PersibBandung, Teams::PersijaJakarta, Teams::PsmMakassar, Teams::PsisSemarang);
    let rows = vec![
        obs(a, a, b, 1, 7, 3, 450_000),
        obs(c, c, d, 1, 2, 0, 0),
        obs(b, a, b, 1, 4, 2, 210_000),
        obs(d, c, d, 1, 6, 1, 80_000),
        obs(a, c, a, 2, 1, 1, 30_000),
        obs(c, c, a, 2, 9, 5, 700_000),
    ];
    let j = join_fixtures(&rows).unwrap();
    for x in 0..j.len() {
        for y in 0..j.len() {
            if rows[x].game == rows[y].game && rows[x].game_week == rows[y].game_week && rows[x].team != rows[y].team {
                assert_eq!(j[x].total_ck_against, j[y].total_ck_for);
                assert_eq!(j[x].shots_against_from_ck, j[y].shots_from_ck);
                assert_eq!(j[x].xg_against, j[y].xg);
                assert_eq!(j[x].opponent, j[y].team);
            }
        }
    }
}

#[test]
fn opponent_is_matched_by_week_too() {
    let (a, b) = (Teams::PersisSolo, Teams::PssSleman);
    let rows = vec![
        obs(a, a, b, 1, 1, 0, 0),
        obs(b, a, b, 2, 8, 0, 0),
    ];
    assert_eq!(join_fixtures(&rows), Err(JoinError::NoOpponent { row: 0 }));
}

#[test]
fn missing_opponent_fails() {
    let (a, b) = (Teams::PersisSolo, Teams::PssSleman);
    let rows = vec![obs(a, a, b, 1, 1, 0, 0)];
    assert_eq!(join_fixtures(&rows), Err(JoinError::NoOpponent { row: 0 }));
}

#[test]
fn duplicate_opponent_fails() {
    let (a, b) = (Teams::PersisSolo, Teams::PssSleman);
    let rows = vec![
        obs(a, a, b, 1, 1, 0, 0),
        obs(b, a, b, 1, 2, 0, 0),
        obs(b, a, b, 1, 3, 0, 0),
    ];
    assert_eq!(join_fixtures(&rows), Err(JoinError::AmbiguousOpponent { row: 0 }));
}

#[test]
fn team_outside_its_fixture_fails() {
    let (a, b, c) = (Teams::PersisSolo, Teams::PssSleman, Teams::PsbsBiak);
    let rows = vec![
        obs(a, a, b, 1, 1, 0, 0),
        obs(b, a, b, 1, 2, 0, 0),
        obs(c, a, b, 1, 2, 0, 0),
    ];
    assert_eq!(join_fixtures(&rows), Err(JoinError::ForeignTeam { row: 2 }));
}

#[test]
fn fixture_of_a_team_against_itself_fails() {
    let a = Teams::PersisSolo;
    let rows = vec![obs(a, a, a, 1, 1, 0, 0)];
    assert_eq!(join_fixtures(&rows), Err(JoinError::ForeignTeam { row: 0 }));
}

#[test]
fn empty_input_joins_to_nothing() {
    assert_eq!(join_fixtures(&Vec::new()), Ok(Vec::new()));
}

#[test]
fn document_to_joined_records() {
    let text = "team,match,game_week,total_ck_for,shots_from_ck,xg\n\
AREMA FC,AREMA FC vs Bali United FC,1,5,2,0.3\n\
Bali United FC,AREMA FC vs Bali United FC,1,3,1,0.1\n";
    let j = parse_csv(text.as_bytes()).unwrap();
    assert_eq!(j.len(), 2);
    assert_eq!(j[0].total_ck_against, 3);
    assert_eq!(j[1].xg_against, 300_000);
}

#[test]
fn document_with_lone_record_is_a_join_error() {
    let text = "team,match,game_week,total_ck_for,shots_from_ck,xg\n\
AREMA FC,AREMA FC vs Bali United FC,1,5,2,0.3\n";
    assert_eq!(
        parse_csv(text.as_bytes()),
        Err(MyError::Join(JoinError::NoOpponent { row: 0 }))
    );
}
