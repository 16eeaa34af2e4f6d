use rebot::json::Json;
use rebot::model::player_stat::{
    UggAllLifetimeStats, UggLifetimeStats, UggPlayer, UggPlayerStat, UggRank,
};
use rebot::player_store::{PlayerWithStats, RegisteredPlayer};
use rebot::scraper::{
    count_failures, decode_payload, get_players_stats, is_profile_request, parse_payload,
    run_trace, snapshot_of, CorrelatorAction, CorrelatorEvent, CorrelatorState, ScrapeError,
    WAIT_SECONDS,
};

const PAYLOAD: &str = r#"{
  "player": { "display_name": "Mésange", "level": 31 },
  "rank": { "current_league": 3, "current_division": 2 },
  "lifetime_stats": { "All": { "matches_played": 120, "wins": 70 } }
}"#;

fn mesange() -> UggPlayerStat {
    UggPlayerStat {
        player: UggPlayer { display_name: "Mésange".to_string(), level: 31 },
        rank: Some(UggRank { current_league: 3, current_division: 2 }),
        lifetime_stats: UggLifetimeStats { all: UggAllLifetimeStats { matches_played: 120, wins: 70 } },
    }
}

fn started(id: &str, method: &str, url: &str) -> CorrelatorEvent {
    CorrelatorEvent::RequestStarted {
        request_id: id.to_string(),
        method: method.to_string(),
        url: url.to_string(),
    }
}

fn finished(id: &str) -> CorrelatorEvent {
    CorrelatorEvent::RequestFinished { request_id: id.to_string() }
}

fn profile(id: &str) -> CorrelatorEvent {
    started(id, "GET", "https://u.gg/api/profiles/steam/1")
}

fn finish(outcome: Result<UggPlayerStat, ScrapeError>) -> (CorrelatorState, CorrelatorAction) {
    (CorrelatorState::Finished, CorrelatorAction::Finish { outcome })
}

#[test]
fn the_wait_is_ten_seconds() {
    assert_eq!(WAIT_SECONDS, 10);
}

#[test]
fn an_attempt_begins_by_opening_a_session() {
    assert_eq!(CorrelatorState::start(), (CorrelatorState::Opening, CorrelatorAction::OpenSession));
    assert_eq!(run_trace(vec![]), (CorrelatorState::Opening, CorrelatorAction::OpenSession));
}

#[test]
fn a_whole_attempt() {
    let mut trace = vec![CorrelatorEvent::Opened];
    assert_eq!(run_trace(trace.clone()), (CorrelatorState::Navigating, CorrelatorAction::Navigate));
    trace.push(CorrelatorEvent::Navigated);
    assert_eq!(run_trace(trace.clone()), (CorrelatorState::AwaitingStart, CorrelatorAction::AwaitStarted));
    trace.push(started("1", "GET", "https://u.gg/assets/app.js"));
    assert_eq!(run_trace(trace.clone()), (CorrelatorState::AwaitingStart, CorrelatorAction::AwaitStarted));
    trace.push(profile("77.1"));
    assert_eq!(
        run_trace(trace.clone()),
        (CorrelatorState::AwaitingFinish { request_id: "77.1".to_string() }, CorrelatorAction::AwaitFinished)
    );
    trace.push(finished("1"));
    assert_eq!(
        run_trace(trace.clone()),
        (CorrelatorState::AwaitingFinish { request_id: "77.1".to_string() }, CorrelatorAction::AwaitFinished)
    );
    trace.push(finished("77.1"));
    assert_eq!(
        run_trace(trace.clone()),
        (
            CorrelatorState::AwaitingBody { request_id: "77.1".to_string() },
            CorrelatorAction::FetchBody { request_id: "77.1".to_string() }
        )
    );
    trace.push(CorrelatorEvent::Body { text: PAYLOAD.to_string() });
    assert_eq!(
        run_trace(trace.clone()),
        (CorrelatorState::Closing { outcome: Ok(mesange()) }, CorrelatorAction::Close)
    );
    trace.push(CorrelatorEvent::Closed);
    assert_eq!(run_trace(trace.clone()), finish(Ok(mesange())));
    trace.push(CorrelatorEvent::Closed);
    assert_eq!(run_trace(trace), (CorrelatorState::Finished, CorrelatorAction::Halt));
}

#[test]
fn no_matching_request_gives_request_not_found() {
    let trace = vec![
        CorrelatorEvent::Opened,
        CorrelatorEvent::Navigated,
        started("1", "GET", "https://u.gg/rematch/profile/steam/a/1"),
        started("2", "POST", "https://u.gg/api/profiles/steam/1"),
        started("3", "GET", "https://tracker.example/api/profile"),
        started("4", "OPTIONS", "https://u.gg/api/profiles"),
        CorrelatorEvent::WaitElapsed,
    ];
    assert_eq!(
        run_trace(trace.clone()),
        (CorrelatorState::Closing { outcome: Err(ScrapeError::RequestNotFound) }, CorrelatorAction::Close)
    );
    let mut closed = trace;
    closed.push(CorrelatorEvent::Closed);
    assert_eq!(run_trace(closed), finish(Err(ScrapeError::RequestNotFound)));
}

#[test]
fn no_request_at_all_gives_request_not_found() {
    let trace = vec![
        CorrelatorEvent::Opened,
        CorrelatorEvent::Navigated,
        CorrelatorEvent::WaitElapsed,
        CorrelatorEvent::Closed,
    ];
    assert_eq!(run_trace(trace), finish(Err(ScrapeError::RequestNotFound)));
}

#[test]
fn an_unfinished_request_gives_timeout() {
    let trace = vec![
        CorrelatorEvent::Opened,
        CorrelatorEvent::Navigated,
        profile("9"),
        finished("8"),
        finished("90"),
        finished(""),
        CorrelatorEvent::WaitElapsed,
    ];
    assert_eq!(
        run_trace(trace.clone()),
        (CorrelatorState::Closing { outcome: Err(ScrapeError::Timeout) }, CorrelatorAction::Close)
    );
    let mut closed = trace;
    closed.push(CorrelatorEvent::Closed);
    assert_eq!(run_trace(closed), finish(Err(ScrapeError::Timeout)));
}

#[test]
fn the_first_matching_request_is_followed() {
    let (state, _) = run_trace(vec![
        CorrelatorEvent::Opened,
        CorrelatorEvent::Navigated,
        profile("first"),
    ]);
    let (state, action) = state.step(profile("second"));
    assert_eq!(state, CorrelatorState::AwaitingFinish { request_id: "first".to_string() });
    assert_eq!(action, CorrelatorAction::AwaitFinished);
    let (state, action) = state.step(finished("second"));
    assert_eq!(state, CorrelatorState::AwaitingFinish { request_id: "first".to_string() });
    assert_eq!(action, CorrelatorAction::AwaitFinished);
    let (state, action) = state.step(finished("first"));
    assert_eq!(state, CorrelatorState::AwaitingBody { request_id: "first".to_string() });
    assert_eq!(action, CorrelatorAction::FetchBody { request_id: "first".to_string() });
}

#[test]
fn a_body_that_cannot_be_had_gives_request_content() {
    let trace = vec![
        CorrelatorEvent::Opened,
        CorrelatorEvent::Navigated,
        profile("9"),
        finished("9"),
        CorrelatorEvent::BodyUnavailable,
        CorrelatorEvent::Closed,
    ];
    assert_eq!(run_trace(trace), finish(Err(ScrapeError::RequestContent)));
}

#[test]
fn a_body_that_is_no_payload_gives_payload_malformed() {
    for body in ["", "<html></html>", "{}", "{\"player\": {}}", "[]", "null"] {
        let trace = vec![
            CorrelatorEvent::Opened,
            CorrelatorEvent::Navigated,
            profile("9"),
            finished("9"),
            CorrelatorEvent::Body { text: body.to_string() },
        ];
        assert_eq!(
            run_trace(trace),
            (CorrelatorState::Closing { outcome: Err(ScrapeError::PayloadMalformed) }, CorrelatorAction::Close)
        );
    }
}

#[test]
fn a_session_that_does_not_open_is_not_closed() {
    let trace = vec![CorrelatorEvent::OpenFailed { message: "no context".to_string() }];
    assert_eq!(run_trace(trace), finish(Err(ScrapeError::PageInit("no context".to_string()))));
}

#[test]
fn a_failed_navigation_closes_the_session() {
    let trace = vec![
        CorrelatorEvent::Opened,
        CorrelatorEvent::NavigationFailed { message: "dns".to_string() },
    ];
    assert_eq!(
        run_trace(trace.clone()),
        (
            CorrelatorState::Closing { outcome: Err(ScrapeError::Navigation("dns".to_string())) },
            CorrelatorAction::Close
        )
    );
    let mut closed = trace;
    closed.push(CorrelatorEvent::Closed);
    assert_eq!(run_trace(closed), finish(Err(ScrapeError::Navigation("dns".to_string()))));
}

#[test]
fn an_event_out_of_turn_asks_again() {
    let (state, action) = CorrelatorState::Opening.step(CorrelatorEvent::WaitElapsed);
    assert_eq!((state, action), (CorrelatorState::Opening, CorrelatorAction::OpenSession));
    let (state, action) = CorrelatorState::Navigating.step(finished("1"));
    assert_eq!((state, action), (CorrelatorState::Navigating, CorrelatorAction::Navigate));
    let (state, action) = CorrelatorState::AwaitingStart.step(finished("1"));
    assert_eq!((state, action), (CorrelatorState::AwaitingStart, CorrelatorAction::AwaitStarted));
    let waiting = CorrelatorState::AwaitingFinish { request_id: "5".to_string() };
    let (state, action) = waiting.step(profile("5"));
    assert_eq!(state, CorrelatorState::AwaitingFinish { request_id: "5".to_string() });
    assert_eq!(action, CorrelatorAction::AwaitFinished);
    let fetching = CorrelatorState::AwaitingBody { request_id: "5".to_string() };
    let (state, action) = fetching.step(CorrelatorEvent::WaitElapsed);
    assert_eq!(state, CorrelatorState::AwaitingBody { request_id: "5".to_string() });
    assert_eq!(action, CorrelatorAction::FetchBody { request_id: "5".to_string() });
    let closing = CorrelatorState::Closing { outcome: Err(ScrapeError::Timeout) };
    let (state, action) = closing.step(CorrelatorEvent::Opened);
    assert_eq!(state, CorrelatorState::Closing { outcome: Err(ScrapeError::Timeout) });
    assert_eq!(action, CorrelatorAction::Close);
    let (state, action) = CorrelatorState::Finished.step(CorrelatorEvent::Opened);
    assert_eq!((state, action), (CorrelatorState::Finished, CorrelatorAction::Halt));
}

#[test]
fn pending_actions() {
    assert_eq!(CorrelatorState::Opening.pending_action(), CorrelatorAction::OpenSession);
    assert_eq!(CorrelatorState::Navigating.pending_action(), CorrelatorAction::Navigate);
    assert_eq!(CorrelatorState::AwaitingStart.pending_action(), CorrelatorAction::AwaitStarted);
    assert_eq!(
        CorrelatorState::AwaitingFinish { request_id: "a".to_string() }.pending_action(),
        CorrelatorAction::AwaitFinished
    );
    assert_eq!(
        CorrelatorState::AwaitingBody { request_id: "a".to_string() }.pending_action(),
        CorrelatorAction::FetchBody { request_id: "a".to_string() }
    );
    assert_eq!(
        CorrelatorState::Closing { outcome: Err(ScrapeError::Timeout) }.pending_action(),
        CorrelatorAction::Close
    );
    assert_eq!(CorrelatorState::Finished.pending_action(), CorrelatorAction::Halt);
}

#[test]
fn the_profile_request_is_a_get_of_the_profile_api() {
    assert!(is_profile_request("GET", "https://u.gg/api/profiles/steam/1"));
    assert!(is_profile_request("GET", "/api/profiles"));
    assert!(is_profile_request("GET", "x/api/profiles/api/profiles"));
    assert!(is_profile_request("GET", "https://u.gg/é/api/profiles?x=1"));
}

#[test]
fn other_requests_are_not_the_profile_request() {
    assert!(!is_profile_request("POST", "https://u.gg/api/profiles/steam/1"));
    assert!(!is_profile_request("get", "https://u.gg/api/profiles/steam/1"));
    assert!(!is_profile_request("GET ", "https://u.gg/api/profiles/steam/1"));
    assert!(!is_profile_request("", "https://u.gg/api/profiles/steam/1"));
    assert!(!is_profile_request("GET", "https://u.gg/api/profile/steam/1"));
    assert!(!is_profile_request("GET", "https://u.gg/API/PROFILES/steam/1"));
    assert!(!is_profile_request("GET", "/api/profile"));
    assert!(!is_profile_request("GET", "api/profiles"));
    assert!(!is_profile_request("GET", ""));
}

#[test]
fn a_ranked_payload() {
    assert_eq!(parse_payload(PAYLOAD), Ok(mesange()));
}

#[test]
fn an_unranked_payload_has_no_rank() {
    let null = r#"{"player": {"display_name": "Ann", "level": 1}, "rank": null,
        "lifetime_stats": {"All": {"matches_played": 4, "wins": 1}}}"#;
    let absent = r#"{"player": {"display_name": "Ann", "level": 1},
        "lifetime_stats": {"All": {"matches_played": 4, "wins": 1}}}"#;
    let expected = UggPlayerStat {
        player: UggPlayer { display_name: "Ann".to_string(), level: 1 },
        rank: None,
        lifetime_stats: UggLifetimeStats { all: UggAllLifetimeStats { matches_played: 4, wins: 1 } },
    };
    assert_eq!(parse_payload(null), Ok(expected.clone()));
    assert_eq!(parse_payload(absent), Ok(expected));
}

#[test]
fn a_malformed_rank_is_no_rank() {
    let ranks = [
        "{}",
        "[]",
        "7",
        "\"gold\"",
        "false",
        "{\"current_league\": 1}",
        "{\"current_division\": 1}",
        "{\"current_league\": \"1\", \"current_division\": 1}",
        "{\"current_league\": 1.5, \"current_division\": 1}",
        "{\"current_league\": 1, \"current_division\": 2147483648}",
    ];
    for rank in ranks {
        let body = format!(
            "{{\"player\": {{\"display_name\": \"Ann\", \"level\": 1}}, \"rank\": {}, \"lifetime_stats\": {{\"All\": {{\"matches_played\": 4, \"wins\": 1}}}}}}",
            rank
        );
        let stat = parse_payload(&body).unwrap();
        assert_eq!(stat.rank, None, "{}", rank);
        assert_eq!(stat.player.display_name, "Ann");
    }
}

#[test]
fn a_payload_takes_what_it_knows_and_leaves_the_rest() {
    let body = r#"{"status": "ok", "lifetime_stats": {"Ranked": {}, "All": {"goals": 3.5, "wins": -1, "matches_played": 0}},
        "player": {"id": [1, 2], "level": -3, "display_name": ""}, "rank": {"current_division": 3, "current_league": 0, "rating": 1200.5}}"#;
    let expected = UggPlayerStat {
        player: UggPlayer { display_name: String::new(), level: -3 },
        rank: Some(UggRank { current_league: 0, current_division: 3 }),
        lifetime_stats: UggLifetimeStats { all: UggAllLifetimeStats { matches_played: 0, wins: -1 } },
    };
    assert_eq!(parse_payload(body), Ok(expected));
}

#[test]
fn a_payload_with_the_widest_numbers() {
    let body = r#"{"player": {"display_name": "x", "level": 2147483647},
        "rank": {"current_league": -2147483648, "current_division": 2147483647},
        "lifetime_stats": {"All": {"matches_played": -2147483648, "wins": 2147483647}}}"#;
    let stat = parse_payload(body).unwrap();
    assert_eq!(stat.player.level, 2147483647);
    assert_eq!(stat.rank, Some(UggRank { current_league: -2147483648, current_division: 2147483647 }));
    assert_eq!(stat.lifetime_stats.all.matches_played, -2147483648);
    assert_eq!(stat.lifetime_stats.all.wins, 2147483647);
}

#[test]
fn malformed_payloads() {
    let bodies = [
        "",
        "not json",
        "{\"player\": ",
        "null",
        "[]",
        "{}",
        r#"{"player": {"display_name": "Ann", "level": 1}}"#,
        r#"{"lifetime_stats": {"All": {"matches_played": 4, "wins": 1}}}"#,
        r#"{"player": null, "lifetime_stats": {"All": {"matches_played": 4, "wins": 1}}}"#,
        r#"{"player": {"display_name": "Ann"}, "lifetime_stats": {"All": {"matches_played": 4, "wins": 1}}}"#,
        r#"{"player": {"level": 1}, "lifetime_stats": {"All": {"matches_played": 4, "wins": 1}}}"#,
        r#"{"player": {"display_name": 5, "level": 1}, "lifetime_stats": {"All": {"matches_played": 4, "wins": 1}}}"#,
        r#"{"player": {"display_name": "Ann", "level": 1.0}, "lifetime_stats": {"All": {"matches_played": 4, "wins": 1}}}"#,
        r#"{"player": {"display_name": "Ann", "level": 2147483648}, "lifetime_stats": {"All": {"matches_played": 4, "wins": 1}}}"#,
        r#"{"player": {"display_name": "Ann", "level": -2147483649}, "lifetime_stats": {"All": {"matches_played": 4, "wins": 1}}}"#,
        r#"{"player": {"display_name": "Ann", "level": 1}, "lifetime_stats": {}}"#,
        r#"{"player": {"display_name": "Ann", "level": 1}, "lifetime_stats": {"all": {"matches_played": 4, "wins": 1}}}"#,
        r#"{"player": {"display_name": "Ann", "level": 1}, "lifetime_stats": {"All": {"matches_played": 4}}}"#,
        r#"{"player": {"display_name": "Ann", "level": 1}, "lifetime_stats": {"All": {"matches_played": "4", "wins": 1}}}"#,
        r#"{"player": {"display_name": "Ann", "level": 1}, "lifetime_stats": {"All": [4, 1]}}"#,
    ];
    for body in bodies {
        assert_eq!(parse_payload(body), Err(ScrapeError::PayloadMalformed), "{}", body);
    }
}

#[test]
fn decode_payload_reads_a_built_document() {
    let member = |name: &str, value: Json| (name.to_string(), value);
    let doc = Json::Object(vec![
        member(
            "player",
            Json::Object(vec![
                member("display_name", Json::Str("Eve".to_string())),
                member("level", Json::PosInt(12)),
            ]),
        ),
        member("rank", Json::Float),
        member(
            "lifetime_stats",
            Json::Object(vec![member(
                "All",
                Json::Object(vec![
                    member("matches_played", Json::NegInt(-3)),
                    member("wins", Json::NegInt(2)),
                ]),
            )]),
        ),
    ]);
    let expected = UggPlayerStat {
        player: UggPlayer { display_name: "Eve".to_string(), level: 12 },
        rank: None,
        lifetime_stats: UggLifetimeStats { all: UggAllLifetimeStats { matches_played: -3, wins: 2 } },
    };
    assert_eq!(decode_payload(&doc), Ok(expected));
    assert_eq!(decode_payload(&Json::Null), Err(ScrapeError::PayloadMalformed));
    assert_eq!(decode_payload(&Json::Array(vec![doc])), Err(ScrapeError::PayloadMalformed));
}

#[test]
fn a_snapshot_takes_the_identity_of_its_target() {
    let target = RegisteredPlayer { discord_id: 99, rematch_url: "https://u.gg/rematch/profile/x".to_string() };
    assert_eq!(
        snapshot_of(&target, &mesange()),
        PlayerWithStats {
            discord_id: 99,
            display_name: "Mésange".to_string(),
            rank: Some(UggRank { current_league: 3, current_division: 2 }),
            stats: UggLifetimeStats { all: UggAllLifetimeStats { matches_played: 120, wins: 70 } },
        }
    );
}

#[test]
fn a_cycle_gathers_the_successes_in_order() {
    let targets = vec![
        RegisteredPlayer { discord_id: 3, rematch_url: "c".to_string() },
        RegisteredPlayer { discord_id: 1, rematch_url: "a".to_string() },
        RegisteredPlayer { discord_id: 2, rematch_url: "b".to_string() },
        RegisteredPlayer { discord_id: 4, rematch_url: "d".to_string() },
    ];
    let mut second = mesange();
    second.player.display_name = "Second".to_string();
    let outcomes = vec![
        Ok(mesange()),
        Err(ScrapeError::Timeout),
        Ok(second),
        Err(ScrapeError::PageInit("x".to_string())),
    ];
    let gathered = get_players_stats(&targets, &outcomes);
    assert_eq!(gathered.len(), 2);
    assert_eq!(gathered[0].discord_id, 3);
    assert_eq!(gathered[0].display_name, "Mésange");
    assert_eq!(gathered[1].discord_id, 2);
    assert_eq!(gathered[1].display_name, "Second");
    assert_eq!(count_failures(&outcomes), 2);
}

#[test]
fn a_cycle_without_targets_or_outcomes() {
    assert!(get_players_stats(&vec![], &vec![Ok(mesange())]).is_empty());
    let targets = vec![RegisteredPlayer { discord_id: 3, rematch_url: "c".to_string() }];
    assert!(get_players_stats(&targets, &vec![]).is_empty());
    assert_eq!(count_failures(&vec![]), 0);
    assert_eq!(count_failures(&vec![Ok(mesange())]), 0);
}
