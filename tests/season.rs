use tsg2425::metrics::{extent, project_all, thousandths};
use tsg2425::season::missing_from_week_one;
use tsg2425::text::MICRO;
use tsg2425::{accumulate, create_dataframe, CornerKickData, Fixture, MyError, Ratio, TeamCKData, Teams};

fn row(team: Teams, opponent: Teams, week: u32, ck: u32, cka: u32, shots: u32, shotsa: u32, xg: u32, xga: u32) -> CornerKickData {
    CornerKickData {
        team,
        game: Fixture { home: team, away: opponent },
        game_week: week,
        opponent,
        total_ck_for: ck,
        total_ck_against: cka,
        shots_from_ck: shots,
        shots_against_from_ck: shotsa,
        xg,
        xg_against: xga,
    }
}

fn totals(team: Teams, ck: u64, cka: u64, shots: u64, shotsa: u64, xg: u64, xga: u64) -> TeamCKData {
    TeamCKData {
        team_name: team,
        total_ck_for: ck,
        total_ck_against: cka,
        shots_from_ck: shots,
        shots_against_from_ck: shotsa,
        xg,
        xg_against: xga,
    }
}

#[test]
fn two_weeks_of_corners_sum() {
    let (x, y, z) = (Teams::DewaUnitedFC, Teams::MaduraUnitedFC, Teams::MalutUnitedFC);
    let rows = vec![
        row(x, y, 1, 4, 2, 1, 0, 100_000, 0),
        row(y, x, 1, 2, 4, 0, 1, 0, 100_000),
        row(x, z, 2, 6, 3, 2, 1, 250_000, 40_000),
        row(z, x, 2, 3, 6, 1, 2, 40_000, 250_000),
    ];
    let s = accumulate(&rows);
    assert_eq!(s.len(), 2);
    assert_eq!(s[0].team_name, x);
    assert_eq!(s[0].total_ck_for, 10);
    assert_eq!(s[0].total_ck_against, 5);
    assert_eq!(s[0].shots_from_ck, 3);
    assert_eq!(s[0].shots_against_from_ck, 1);
    assert_eq!(s[0].xg, 350_000);
    assert_eq!(s[0].xg_against, 40_000);
    assert_eq!(s[1].team_name, y);
    assert_eq!(s[1].total_ck_for, 2);
}

#[test]
fn season_totals_equal_sum_over_weeks() {
    let (x, y) = (Teams::PersitaTangerang, Teams::PersebayaSurabaya);
    let mut rows = Vec::new();
    let mut expected = 0u64;
    for w in 1..=5u32 {
        rows.push(row(x, y, w, w * 3, w, 1, 1, 0, 0));
        rows.push(row(y, x, w, w, w * 3, 1, 1, 0, 0));
        expected += (w * 3) as u64;
    }
    let s = accumulate(&rows);
    assert_eq!(s[0].total_ck_for, expected);
    assert_eq!(s[1].total_ck_against, expected);
}

#[test]
fn team_without_week_one_is_left_out_and_reported() {
    let (x, y, z) = (Teams::PersikKediri, Teams::PsbsBiak, Teams::BorneoFCSamarinda);
    let rows = vec![
        row(x, y, 1, 1, 1, 0, 0, 0, 0),
        row(y, x, 1, 1, 1, 0, 0, 0, 0),
        row(x, z, 2, 1, 1, 0, 0, 0, 0),
        row(z, x, 2, 1, 1, 0, 0, 0, 0),
    ];
    let s = accumulate(&rows);
    assert_eq!(s.len(), 2);
    assert!(s.iter().all(|t| t.team_name != z));
    assert_eq!(missing_from_week_one(&rows), vec![z]);
}

#[test]
fn a_team_is_listed_once() {
    let (x, y, z) = (Teams::PersikKediri, Teams::PsbsBiak, Teams::BorneoFCSamarinda);
    let rows = vec![
        row(x, y, 1, 1, 1, 0, 0, 0, 0),
        row(x, z, 1, 2, 1, 0, 0, 0, 0),
    ];
    let s = accumulate(&rows);
    assert_eq!(s.len(), 1);
    assert_eq!(s[0].total_ck_for, 3);
}

#[test]
fn no_shots_in_a_fixture_gives_zero_xg_per_shot() {
    let d = row(Teams::AremaFC, Teams::PssSleman, 3, 4, 2, 0, 1, 0, 90_000);
    assert_eq!(d.xg_per_shot(), Ratio { num: 0, den: 1 });
    let e = row(Teams::AremaFC, Teams::PssSleman, 3, 4, 2, 3, 1, 90_000, 0);
    assert_eq!(e.xg_per_shot(), Ratio { num: 90_000, den: 3 });
}

#[test]
fn projection_of_a_season() {
    let t = totals(Teams::PersibBandung, 40, 50, 10, 0, 1_200_000, 0);
    let m = t.project().unwrap();
    assert_eq!(m.team_name, Teams::PersibBandung);
    assert_eq!(m.xg_per_shot, Ratio { num: 1_200_000, den: 10 });
    assert_eq!(m.shots_per_ck, Ratio { num: 10, den: 40 });
    assert_eq!(m.xg_conceded_per_shot, Ratio { num: 0, den: 1 });
    assert_eq!(m.shots_conceded_per_ck, Ratio { num: 0, den: 50 });
}

#[test]
fn projecting_twice_gives_the_same() {
    let t = totals(Teams::PsisSemarang, 12, 9, 0, 3, 0, 210_000);
    assert_eq!(t.project(), t.project());
    let u = totals(Teams::PsisSemarang, 0, 9, 0, 3, 0, 210_000);
    assert_eq!(u.project(), u.project());
}

#[test]
fn season_without_corners_is_a_computation_error() {
    let t = totals(Teams::PsmMakassar, 0, 9, 0, 3, 0, 210_000);
    assert_eq!(t.project(), Err(MyError::Computation(Teams::PsmMakassar)));
    let u = totals(Teams::PsmMakassar, 9, 0, 3, 0, 210_000, 0);
    assert_eq!(u.project(), Err(MyError::Computation(Teams::PsmMakassar)));
    let all = vec![totals(Teams::AremaFC, 1, 1, 0, 0, 0, 0), u];
    assert_eq!(project_all(&all), Err(MyError::Computation(Teams::PsmMakassar)));
}

#[test]
fn axis_quantisation() {
    assert_eq!(thousandths(Ratio { num: 1_200_000, den: 10 }, MICRO), 120);
    assert_eq!(thousandths(Ratio { num: 1, den: 3 }, 1), 333);
    assert_eq!(thousandths(Ratio { num: 2, den: 1 }, 1), 2000);
    assert_eq!(extent(&vec![5, 2, 9, 2]), Some((2, 9)));
    assert_eq!(extent(&vec![7]), Some((7, 7)));
    assert_eq!(extent(&Vec::new()), None);
}

#[test]
fn dataframe_columns_follow_records() {
    let data = vec![
        totals(Teams::AremaFC, 1, 2, 3, 4, 5, 6),
        totals(Teams::SemenPadangFC, 7, 8, 9, 10, 11, 12),
    ];
    let df = create_dataframe(data);
    assert_eq!(df.team_name, vec![Teams::AremaFC, Teams::SemenPadangFC]);
    assert_eq!(df.total_ck_for, vec![1, 7]);
    assert_eq!(df.total_ck_against, vec![2, 8]);
    assert_eq!(df.shots_from_ck, vec![3, 9]);
    assert_eq!(df.shots_against_from_ck, vec![4, 10]);
    assert_eq!(df.xg, vec![5, 11]);
    assert_eq!(df.xg_against, vec![6, 12]);
}
