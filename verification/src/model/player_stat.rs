//! The stats payload of a player's profile, and how it is laid out in JSON.

use crate::json::{lemma_object_view, member_views, Json, JsonView};
use vstd::prelude::*;
use vstd::string::StringExecFns;

verus! {

/// The stats payload of one profile.
#[derive(Debug, Clone, PartialEq, Eq)]
pub struct UggPlayerStat {
    pub player: UggPlayer,
    pub rank: Option<UggRank>,
    pub lifetime_stats: UggLifetimeStats,
}

/// Who the profile belongs to.
#[derive(Debug, Clone, PartialEq, Eq)]
pub struct UggPlayer {
    pub display_name: String,
    pub level: i32,
}

/// A ranked player's league and division.
#[derive(Debug, Clone, Copy, PartialEq, Eq)]
pub struct UggRank {
    pub current_league: i32,
    pub current_division: i32,
}

/// Lifetime counts, by queue.
#[derive(Debug, Clone, Copy, PartialEq, Eq)]
pub struct UggLifetimeStats {
    pub all: UggAllLifetimeStats,
}

/// Lifetime counts over all queues.
#[derive(Debug, Clone, Copy, PartialEq, Eq)]
pub struct UggAllLifetimeStats {
    pub matches_played: i32,
    pub wins: i32,
}

/// The reading of a [`UggPlayer`].
pub struct UggPlayerView {
    pub display_name: Seq<char>,
    pub level: i32,
}

/// The reading of a [`UggPlayerStat`].
pub struct UggPlayerStatView {
    pub player: UggPlayerView,
    pub rank: Option<UggRank>,
    pub lifetime_stats: UggLifetimeStats,
}

impl View for UggPlayer {
    type V = UggPlayerView;

    open spec fn view(&self) -> UggPlayerView {
        UggPlayerView { display_name: self.display_name@, level: self.level }
    }
}

impl View for UggPlayerStat {
    type V = UggPlayerStatView;

    open spec fn view(&self) -> UggPlayerStatView {
        UggPlayerStatView { player: self.player@, rank: self.rank, lifetime_stats: self.lifetime_stats }
    }
}

/// The `i32` that the member `name` of `doc` holds.
pub open spec fn i32_field(doc: JsonView, name: Seq<char>) -> Option<i32> {
    match doc.field(name) {
        Some(value) => match value.int_within(i32::MIN as int, i32::MAX as int) {
            Some(v) => Some(v as i32),
            None => None,
        },
        None => None,
    }
}

/// The rank that a JSON object holds: both of its members, each an `i32`.
pub open spec fn rank_of(doc: JsonView) -> Option<UggRank> {
    match (i32_field(doc, "current_league"@), i32_field(doc, "current_division"@)) {
        (Some(league), Some(division)) => Some(
            UggRank { current_league: league, current_division: division },
        ),
        _ => None,
    }
}

/// The rank of a payload: that of its member `rank` where it holds one, and
/// none where the member is missing, `null` or anything else.
pub open spec fn payload_rank(doc: JsonView) -> Option<UggRank> {
    match doc.field("rank"@) {
        Some(value) => rank_of(value),
        None => None,
    }
}

/// The counts that a JSON object holds under `All`.
pub open spec fn lifetime_of(doc: JsonView) -> Option<UggLifetimeStats> {
    match doc.field("All"@) {
        Some(all) => match (i32_field(all, "matches_played"@), i32_field(all, "wins"@)) {
            (Some(matches_played), Some(wins)) => Some(
                UggLifetimeStats { all: UggAllLifetimeStats { matches_played, wins } },
            ),
            _ => None,
        },
        None => None,
    }
}

/// The player that a JSON object holds.
pub open spec fn player_of(doc: JsonView) -> Option<UggPlayerView> {
    match (doc.field("display_name"@), i32_field(doc, "level"@)) {
        (Some(name), Some(level)) => match name.text() {
            Some(display_name) => Some(UggPlayerView { display_name, level }),
            None => None,
        },
        _ => None,
    }
}

/// The payload that a JSON document holds: an object with a `player` and
/// `lifetime_stats` of the right shape. Its `rank` never makes it fail.
pub open spec fn payload_of(doc: JsonView) -> Option<UggPlayerStatView> {
    match (doc.field("player"@), doc.field("lifetime_stats"@)) {
        (Some(player), Some(lifetime)) => match (player_of(player), lifetime_of(lifetime)) {
            (Some(player), Some(lifetime_stats)) => Some(
                UggPlayerStatView { player, rank: payload_rank(doc), lifetime_stats },
            ),
            _ => None,
        },
        _ => None,
    }
}

/// How a rank is written.
pub open spec fn rank_json(rank: UggRank) -> JsonView {
    JsonView::Object(
        seq![
            ("current_league"@, JsonView::Int(rank.current_league as int)),
            ("current_division"@, JsonView::Int(rank.current_division as int)),
        ],
    )
}

/// How an optional rank is written: `null` where there is none.
pub open spec fn optional_rank_json(rank: Option<UggRank>) -> JsonView {
    match rank {
        Some(rank) => rank_json(rank),
        None => JsonView::Null,
    }
}

/// How lifetime counts are written.
pub open spec fn lifetime_json(stats: UggLifetimeStats) -> JsonView {
    JsonView::Object(
        seq![
            (
                "All"@,
                JsonView::Object(
                    seq![
                        ("matches_played"@, JsonView::Int(stats.all.matches_played as int)),
                        ("wins"@, JsonView::Int(stats.all.wins as int)),
                    ],
                ),
            ),
        ],
    )
}

/// The `i32` that the member `name` of `doc` holds.
pub fn read_i32(doc: &Json, name: &str) -> (r: Option<i32>)
    ensures
        r == i32_field(doc@, name@),
{
    match doc.get(name) {
        Some(value) => value.as_i32(),
        None => None,
    }
}

impl UggRank {
    /// Reads a rank from a JSON object.
    pub fn from_json(doc: &Json) -> (r: Option<UggRank>)
        ensures
            r == rank_of(doc@),
    {
        let league = read_i32(doc, "current_league");
        let division = read_i32(doc, "current_division");
        match (league, division) {
            (Some(current_league), Some(current_division)) => Some(
                UggRank { current_league, current_division },
            ),
            _ => None,
        }
    }

    /// Writes the rank as a JSON object.
    pub fn to_json(&self) -> (r: Json)
        ensures
            r@ == rank_json(*self),
    {
        let members = vec![
            (String::from_str("current_league"), Json::from_i64(self.current_league as i64)),
            (String::from_str("current_division"), Json::from_i64(self.current_division as i64)),
        ];
        proof {
            lemma_object_view(members);
            assert(member_views(members@) =~= rank_json(*self)->Object_0);
        }
        Json::Object(members)
    }
}

impl UggLifetimeStats {
    /// Reads lifetime counts from a JSON object.
    pub fn from_json(doc: &Json) -> (r: Option<UggLifetimeStats>)
        ensures
            r == lifetime_of(doc@),
    {
        match doc.get("All") {
            Some(all) => {
                let matches_played = read_i32(all, "matches_played");
                let wins = read_i32(all, "wins");
                match (matches_played, wins) {
                    (Some(matches_played), Some(wins)) => Some(
                        UggLifetimeStats { all: UggAllLifetimeStats { matches_played, wins } },
                    ),
                    _ => None,
                }
            },
            None => None,
        }
    }

    /// Writes the counts as a JSON object.
    pub fn to_json(&self) -> (r: Json)
        ensures
            r@ == lifetime_json(*self),
    {
        let inner = vec![
            (String::from_str("matches_played"), Json::from_i64(self.all.matches_played as i64)),
            (String::from_str("wins"), Json::from_i64(self.all.wins as i64)),
        ];
        proof {
            lemma_object_view(inner);
            assert(member_views(inner@) =~= lifetime_json(*self)->Object_0[0].1->Object_0);
        }
        let outer = vec![(String::from_str("All"), Json::Object(inner))];
        proof {
            lemma_object_view(outer);
            assert(member_views(outer@) =~= lifetime_json(*self)->Object_0);
        }
        Json::Object(outer)
    }
}

impl UggPlayer {
    /// Reads a player from a JSON object.
    pub fn from_json(doc: &Json) -> (r: Option<UggPlayer>)
        ensures
            match r {
                Some(player) => player_of(doc@) == Some(player@),
                None => player_of(doc@) is None,
            },
    {
        let level = read_i32(doc, "level");
        match (doc.get("display_name"), level) {
            (Some(name), Some(level)) => match name.as_text() {
                Some(text) => Some(UggPlayer { display_name: String::from_str(text), level }),
                None => None,
            },
            _ => None,
        }
    }
}

impl UggPlayerStat {
    /// Reads a payload from a JSON document.
    pub fn from_json(doc: &Json) -> (r: Option<UggPlayerStat>)
        ensures
            match r {
                Some(stat) => payload_of(doc@) == Some(stat@),
                None => payload_of(doc@) is None,
            },
    {
        let player = match doc.get("player") {
            Some(value) => UggPlayer::from_json(value),
            None => None,
        };
        let lifetime = match doc.get("lifetime_stats") {
            Some(value) => UggLifetimeStats::from_json(value),
            None => None,
        };
        let rank = match doc.get("rank") {
            Some(value) => UggRank::from_json(value),
            None => None,
        };
        match (player, lifetime) {
            (Some(player), Some(lifetime_stats)) => Some(UggPlayerStat { player, rank, lifetime_stats }),
            _ => None,
        }
    }
}

/// Reading back a rank that was written gives the rank.
pub proof fn lemma_rank_round_trip(rank: UggRank)
    ensures
        rank_of(rank_json(rank)) == Some(rank),
{
    reveal_strlit("current_league");
    reveal_strlit("current_division");
    reveal_with_fuel(crate::json::first_named, 3);
    let members = rank_json(rank)->Object_0;
    assert(members[0].0 == "current_league"@);
    assert(members[1].0 == "current_division"@);
    assert("current_league"@.len() != "current_division"@.len());
}

/// Reading back lifetime counts that were written gives the counts.
pub proof fn lemma_lifetime_round_trip(stats: UggLifetimeStats)
    ensures
        lifetime_of(lifetime_json(stats)) == Some(stats),
{
    reveal_strlit("All");
    reveal_strlit("matches_played");
    reveal_strlit("wins");
    reveal_with_fuel(crate::json::first_named, 3);
    let outer = lifetime_json(stats)->Object_0;
    assert(outer[0].0 == "All"@);
    let inner = outer[0].1->Object_0;
    assert(inner[0].0 == "matches_played"@);
    assert(inner[1].0 == "wins"@);
    assert("matches_played"@.len() != "wins"@.len());
}

/// The document has a `player` of the right shape.
pub open spec fn has_player(doc: JsonView) -> bool {
    match doc.field("player"@) {
        Some(player) => player_of(player) is Some,
        None => false,
    }
}

/// The document has `lifetime_stats` of the right shape.
pub open spec fn has_lifetime(doc: JsonView) -> bool {
    match doc.field("lifetime_stats"@) {
        Some(lifetime) => lifetime_of(lifetime) is Some,
        None => false,
    }
}

/// A payload whose `rank` is missing or `null` is read, and has no rank.
pub proof fn lemma_unranked_payload(doc: JsonView)
    requires
        has_player(doc),
        has_lifetime(doc),
        doc.field("rank"@) is None || doc.field("rank"@) == Some(JsonView::Null),
    ensures
        payload_of(doc) is Some,
        payload_of(doc)->Some_0.rank is None,
{
}

/// Whether a payload is read does not depend on its `rank`: only `player`
/// and `lifetime_stats` decide.
pub proof fn lemma_rank_never_fails(doc: JsonView)
    ensures
        payload_of(doc) is Some <==> has_player(doc) && has_lifetime(doc),
{
}

} // verus!
