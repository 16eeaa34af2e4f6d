use rebot::database::{read_text, read_u64};
use rebot::json::Json;
use rebot::model::player_stat::{read_i32, UggAllLifetimeStats, UggLifetimeStats, UggPlayer, UggRank};
use rebot::player_store::{PlayerWithStats, RegisteredPlayer};

fn member(name: &str, value: Json) -> (String, Json) {
    (name.to_string(), value)
}

fn is_null(doc: Option<&Json>) -> bool {
    matches!(doc, Some(Json::Null))
}

#[test]
fn get_finds_a_member_by_name() {
    let doc = Json::Object(vec![
        member("a", Json::PosInt(1)),
        member("é", Json::Null),
        member("", Json::Bool(true)),
    ]);
    assert!(matches!(doc.get("a"), Some(Json::PosInt(1))));
    assert!(is_null(doc.get("é")));
    assert!(matches!(doc.get(""), Some(Json::Bool(true))));
    assert!(doc.get("b").is_none());
    assert!(doc.get("A").is_none());
}

#[test]
fn get_takes_the_first_of_two() {
    let doc = Json::Object(vec![member("a", Json::PosInt(1)), member("a", Json::PosInt(2))]);
    assert!(matches!(doc.get("a"), Some(Json::PosInt(1))));
}

#[test]
fn get_finds_nothing_in_what_is_no_object() {
    assert!(Json::Null.get("a").is_none());
    assert!(Json::Array(vec![Json::Null]).get("a").is_none());
    assert!(Json::Str("a".to_string()).get("a").is_none());
    assert!(Json::Object(vec![]).get("a").is_none());
}

#[test]
fn numbers_as_i32() {
    assert_eq!(Json::PosInt(0).as_i32(), Some(0));
    assert_eq!(Json::PosInt(2147483647).as_i32(), Some(2147483647));
    assert_eq!(Json::PosInt(2147483648).as_i32(), None);
    assert_eq!(Json::PosInt(u64::MAX).as_i32(), None);
    assert_eq!(Json::NegInt(-1).as_i32(), Some(-1));
    assert_eq!(Json::NegInt(-2147483648).as_i32(), Some(-2147483648));
    assert_eq!(Json::NegInt(-2147483649).as_i32(), None);
    assert_eq!(Json::NegInt(i64::MIN).as_i32(), None);
    assert_eq!(Json::NegInt(5).as_i32(), Some(5));
    assert_eq!(Json::NegInt(i64::MAX).as_i32(), None);
    assert_eq!(Json::Float.as_i32(), None);
    assert_eq!(Json::Str("1".to_string()).as_i32(), None);
    assert_eq!(Json::Null.as_i32(), None);
}

#[test]
fn numbers_as_u64() {
    assert_eq!(Json::PosInt(0).as_u64(), Some(0));
    assert_eq!(Json::PosInt(u64::MAX).as_u64(), Some(u64::MAX));
    assert_eq!(Json::NegInt(-1).as_u64(), None);
    assert_eq!(Json::NegInt(7).as_u64(), Some(7));
    assert_eq!(Json::Float.as_u64(), None);
    assert_eq!(Json::Bool(true).as_u64(), None);
}

#[test]
fn text_elements_and_null() {
    assert_eq!(Json::Str("né".to_string()).as_text(), Some("né"));
    assert_eq!(Json::Null.as_text(), None);
    assert_eq!(Json::Array(vec![Json::Null, Json::Float]).elements().unwrap().len(), 2);
    assert!(Json::Object(vec![]).elements().is_none());
    assert!(Json::Null.is_null());
    assert!(!Json::Bool(false).is_null());
    assert!(!Json::PosInt(0).is_null());
}

#[test]
fn an_integer_as_a_document() {
    assert!(matches!(Json::from_i64(0), Json::PosInt(0)));
    assert!(matches!(Json::from_i64(i64::MAX), Json::PosInt(9223372036854775807)));
    assert!(matches!(Json::from_i64(-1), Json::NegInt(-1)));
    assert!(matches!(Json::from_i64(i64::MIN), Json::NegInt(i64::MIN)));
}

#[test]
fn members_are_read_by_type() {
    let doc = Json::Object(vec![
        member("n", Json::NegInt(-4)),
        member("u", Json::PosInt(u64::MAX)),
        member("s", Json::Str("x".to_string())),
    ]);
    assert_eq!(read_i32(&doc, "n"), Some(-4));
    assert_eq!(read_i32(&doc, "u"), None);
    assert_eq!(read_i32(&doc, "s"), None);
    assert_eq!(read_i32(&doc, "missing"), None);
    assert_eq!(read_u64(&doc, "u"), Some(u64::MAX));
    assert_eq!(read_u64(&doc, "n"), None);
    assert_eq!(read_text(&doc, "s"), Some("x".to_string()));
    assert_eq!(read_text(&doc, "n"), None);
    assert_eq!(read_text(&doc, "missing"), None);
}

#[test]
fn a_rank_is_written_and_read() {
    let rank = UggRank { current_league: 5, current_division: -2 };
    let doc = rank.to_json();
    assert!(matches!(doc.get("current_league"), Some(Json::PosInt(5))));
    assert!(matches!(doc.get("current_division"), Some(Json::NegInt(-2))));
    assert_eq!(UggRank::from_json(&doc), Some(rank));
    assert_eq!(UggRank::from_json(&Json::Null), None);
}

#[test]
fn lifetime_counts_are_written_and_read() {
    let stats = UggLifetimeStats { all: UggAllLifetimeStats { matches_played: 12, wins: -1 } };
    let doc = stats.to_json();
    let all = doc.get("All").unwrap();
    assert!(matches!(all.get("matches_played"), Some(Json::PosInt(12))));
    assert!(matches!(all.get("wins"), Some(Json::NegInt(-1))));
    assert_eq!(UggLifetimeStats::from_json(&doc), Some(stats));
    assert_eq!(UggLifetimeStats::from_json(all), None);
}

#[test]
fn a_player_is_read() {
    let doc = Json::Object(vec![
        member("level", Json::PosInt(3)),
        member("display_name", Json::Str("Zoé".to_string())),
    ]);
    assert_eq!(
        UggPlayer::from_json(&doc),
        Some(UggPlayer { display_name: "Zoé".to_string(), level: 3 })
    );
    assert_eq!(UggPlayer::from_json(&Json::Object(vec![member("level", Json::PosInt(3))])), None);
}

#[test]
fn a_registration_is_written_and_read() {
    let target = RegisteredPlayer { discord_id: u64::MAX, rematch_url: "https://u.gg/é".to_string() };
    let doc = target.to_json();
    assert!(matches!(doc.get("discord_id"), Some(Json::PosInt(u64::MAX))));
    assert_eq!(doc.get("rematch_url").unwrap().as_text(), Some("https://u.gg/é"));
    assert_eq!(RegisteredPlayer::from_json(&doc), Some(target));
}

#[test]
fn a_snapshot_is_written_and_read() {
    let ranked = PlayerWithStats {
        discord_id: 8,
        display_name: "Huit".to_string(),
        rank: Some(UggRank { current_league: 1, current_division: 0 }),
        stats: UggLifetimeStats { all: UggAllLifetimeStats { matches_played: 2, wins: 1 } },
    };
    let doc = ranked.to_json();
    assert!(doc.get("rank").unwrap().get("current_league").is_some());
    assert_eq!(PlayerWithStats::from_json(&doc), Some(ranked.clone()));

    let mut unranked = ranked;
    unranked.rank = None;
    let doc = unranked.to_json();
    assert!(is_null(doc.get("rank")));
    assert_eq!(PlayerWithStats::from_json(&doc), Some(unranked));
}
