use rebot::model::player_stat::{UggAllLifetimeStats, UggLifetimeStats, UggRank};
use rebot::player_store::PlayerWithStats;

fn player(rank: Option<UggRank>, matches_played: i32, wins: i32) -> PlayerWithStats {
    PlayerWithStats {
        discord_id: 1,
        display_name: "p".to_string(),
        rank,
        stats: UggLifetimeStats { all: UggAllLifetimeStats { matches_played, wins } },
    }
}

fn ranked(current_league: i32, current_division: i32) -> PlayerWithStats {
    player(Some(UggRank { current_league, current_division }), 0, 0)
}

#[test]
fn matches_wins_and_losses() {
    let p = player(None, 10, 4);
    assert_eq!(p.get_all_matches(), 10);
    assert_eq!(p.get_wins(), 4);
    assert_eq!(p.get_loses(), 6);
    assert_eq!(player(None, 0, 0).get_loses(), 0);
    assert_eq!(player(None, 3, 5).get_loses(), -2);
    assert_eq!(player(None, i32::MAX, 0).get_loses(), i32::MAX);
    assert_eq!(player(None, -1, i32::MAX).get_loses(), i32::MIN);
}

#[test]
fn pretty_stats() {
    assert_eq!(player(None, 10, 4).get_pretty_stats("40.0"), "4W 6L, 40.0% Win Rate");
    assert_eq!(player(None, 0, 0).get_pretty_stats("-"), "0W 0L, -% Win Rate");
    assert_eq!(player(None, 3, 5).get_pretty_stats(""), "5W -2L, % Win Rate");
}

#[test]
fn pretty_stats_beyond_the_range_of_losses() {
    assert_eq!(
        player(None, i32::MIN, i32::MAX).get_pretty_stats("x"),
        "2147483647W -4294967295L, x% Win Rate"
    );
    assert_eq!(
        player(None, i32::MAX, i32::MIN).get_pretty_stats("x"),
        "-2147483648W 4294967295L, x% Win Rate"
    );
}

#[test]
fn pretty_rank_of_an_unranked_player() {
    assert_eq!(player(None, 5, 5).pretty_rank(), "non classé");
}

#[test]
fn pretty_rank_of_each_league() {
    assert_eq!(ranked(0, 0).pretty_rank(), "bronze 3");
    assert_eq!(ranked(1, 1).pretty_rank(), "argent 2");
    assert_eq!(ranked(2, 2).pretty_rank(), "or 1");
    assert_eq!(ranked(3, 3).pretty_rank(), "platine 0");
    assert_eq!(ranked(4, 0).pretty_rank(), "diamant 3");
    assert_eq!(ranked(5, 1).pretty_rank(), "maître 2");
}

#[test]
fn pretty_rank_of_the_highest_league_has_no_division() {
    assert_eq!(ranked(6, 0).pretty_rank(), "élite");
    assert_eq!(ranked(6, 3).pretty_rank(), "élite");
    assert_eq!(ranked(6, -77).pretty_rank(), "élite");
}

#[test]
fn pretty_rank_of_an_unknown_league() {
    assert_eq!(ranked(7, 1).pretty_rank(), "inconnu 2");
    assert_eq!(ranked(-1, 0).pretty_rank(), "inconnu 3");
    assert_eq!(ranked(i32::MAX, 3).pretty_rank(), "inconnu 0");
}

#[test]
fn pretty_rank_of_a_division_out_of_range() {
    assert_eq!(ranked(0, 4).pretty_rank(), "bronze -1");
    assert_eq!(ranked(0, -1).pretty_rank(), "bronze 4");
    assert_eq!(ranked(0, i32::MIN).pretty_rank(), "bronze 2147483651");
    assert_eq!(ranked(0, i32::MAX).pretty_rank(), "bronze -2147483644");
}

#[test]
fn hours_played_at_six_minutes_a_match() {
    assert_eq!(player(None, 0, 0).estimate_hours_played(), 0);
    assert_eq!(player(None, 9, 0).estimate_hours_played(), 0);
    assert_eq!(player(None, 10, 0).estimate_hours_played(), 1);
    assert_eq!(player(None, 19, 0).estimate_hours_played(), 1);
    assert_eq!(player(None, 100, 0).estimate_hours_played(), 10);
    assert_eq!(player(None, 1234, 0).estimate_hours_played(), 123);
}

#[test]
fn hours_played_at_the_ends_of_the_range() {
    assert_eq!(player(None, i32::MAX, 0).estimate_hours_played(), 214748364);
    assert_eq!(player(None, i32::MIN, 0).estimate_hours_played(), -214748364);
    assert_eq!(player(None, -9, 0).estimate_hours_played(), 0);
    assert_eq!(player(None, -10, 0).estimate_hours_played(), -1);
    assert_eq!(player(None, -19, 0).estimate_hours_played(), -1);
}
