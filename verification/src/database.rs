//! How the store is laid out as a JSON document, read back, and that
//! reading back what was written gives the same store.

use crate::json::{lemma_array_view, lemma_object_view, member_views, views_of, Json, JsonView};
use crate::model::player_stat::{
    lemma_lifetime_round_trip, lemma_rank_round_trip, lifetime_json, lifetime_of,
    optional_rank_json, rank_of, UggLifetimeStats, UggRank,
};
use crate::player_store::{
    snapshot_views, target_views, PlayerWithStats, RegisteredPlayer, SnapshotView, StoreModel,
    TargetView,
};
use vstd::prelude::*;
use vstd::string::StringExecFns;

verus! {

/// The `u64` that the member `name` of `doc` holds.
pub open spec fn u64_field(doc: JsonView, name: Seq<char>) -> Option<u64> {
    match doc.field(name) {
        Some(value) => match value.int_within(0, u64::MAX as int) {
            Some(v) => Some(v as u64),
            None => None,
        },
        None => None,
    }
}

/// The characters that the member `name` of `doc` holds.
pub open spec fn text_field(doc: JsonView, name: Seq<char>) -> Option<Seq<char>> {
    match doc.field(name) {
        Some(value) => value.text(),
        None => None,
    }
}

/// How a registration is written.
pub open spec fn target_json(target: TargetView) -> JsonView {
    JsonView::Object(
        seq![
            ("discord_id"@, JsonView::Int(target.discord_id as int)),
            ("rematch_url"@, JsonView::Str(target.rematch_url)),
        ],
    )
}

/// The registration that a JSON object holds.
pub open spec fn target_of(doc: JsonView) -> Option<TargetView> {
    match (u64_field(doc, "discord_id"@), text_field(doc, "rematch_url"@)) {
        (Some(discord_id), Some(rematch_url)) => Some(TargetView { discord_id, rematch_url }),
        _ => None,
    }
}

/// How a snapshot is written.
pub open spec fn snapshot_json(snapshot: SnapshotView) -> JsonView {
    JsonView::Object(
        seq![
            ("discord_id"@, JsonView::Int(snapshot.discord_id as int)),
            ("display_name"@, JsonView::Str(snapshot.display_name)),
            ("rank"@, optional_rank_json(snapshot.rank)),
            ("stats"@, lifetime_json(snapshot.stats)),
        ],
    )
}

/// The rank of a stored snapshot: none where the member `rank` is missing
/// or `null`, and the rank that it holds otherwise. `None` where it holds
/// something that is no rank.
pub open spec fn stored_rank(doc: JsonView) -> Option<Option<UggRank>> {
    match doc.field("rank"@) {
        None => Some(None),
        Some(JsonView::Null) => Some(None),
        Some(value) => match rank_of(value) {
            Some(rank) => Some(Some(rank)),
            None => None,
        },
    }
}

/// The lifetime counts of a stored snapshot.
pub open spec fn stored_stats(doc: JsonView) -> Option<UggLifetimeStats> {
    match doc.field("stats"@) {
        Some(value) => lifetime_of(value),
        None => None,
    }
}

/// The snapshot that a JSON object holds.
pub open spec fn snapshot_of(doc: JsonView) -> Option<SnapshotView> {
    match (
        u64_field(doc, "discord_id"@),
        text_field(doc, "display_name"@),
        stored_rank(doc),
        stored_stats(doc),
    ) {
        (Some(discord_id), Some(display_name), Some(rank), Some(stats)) => Some(
            SnapshotView { discord_id, display_name, rank, stats },
        ),
        _ => None,
    }
}

/// How the targets are written.
pub open spec fn targets_json(targets: Seq<TargetView>) -> Seq<JsonView> {
    Seq::new(targets.len(), |i: int| target_json(targets[i]))
}

/// How the snapshots are written.
pub open spec fn snapshots_json(snapshots: Seq<SnapshotView>) -> Seq<JsonView> {
    Seq::new(snapshots.len(), |i: int| snapshot_json(snapshots[i]))
}

/// The targets that a JSON array holds: every element is one.
pub open spec fn targets_of(items: Seq<JsonView>) -> Option<Seq<TargetView>> {
    if forall|i: int| 0 <= i < items.len() ==> target_of(#[trigger] items[i]) is Some {
        Some(Seq::new(items.len(), |i: int| target_of(items[i])->Some_0))
    } else {
        None
    }
}

/// The snapshots that a JSON array holds: every element is one.
pub open spec fn snapshots_of(items: Seq<JsonView>) -> Option<Seq<SnapshotView>> {
    if forall|i: int| 0 <= i < items.len() ==> snapshot_of(#[trigger] items[i]) is Some {
        Some(Seq::new(items.len(), |i: int| snapshot_of(items[i])->Some_0))
    } else {
        None
    }
}

/// How a store is written: its targets under `registered_players`, its
/// snapshots under `players`.
pub open spec fn store_json(store: StoreModel) -> JsonView {
    JsonView::Object(
        seq![
            ("registered_players"@, JsonView::Array(targets_json(store.targets))),
            ("players"@, JsonView::Array(snapshots_json(store.snapshots))),
        ],
    )
}

/// The targets that a document holds under `registered_players`.
pub open spec fn stored_targets(doc: JsonView) -> Option<Seq<TargetView>> {
    match doc.field("registered_players"@) {
        Some(JsonView::Array(items)) => targets_of(items),
        _ => None,
    }
}

/// The snapshots that a document holds under `players`.
pub open spec fn stored_snapshots(doc: JsonView) -> Option<Seq<SnapshotView>> {
    match doc.field("players"@) {
        Some(JsonView::Array(items)) => snapshots_of(items),
        _ => None,
    }
}

/// The store that a document holds: both arrays are there, every element
/// has its shape, and what they hold is a well-formed store.
pub open spec fn store_of(doc: JsonView) -> Option<StoreModel> {
    match (stored_targets(doc), stored_snapshots(doc)) {
        (Some(targets), Some(snapshots)) => {
            let store = StoreModel { targets, snapshots };
            if store.wf() {
                Some(store)
            } else {
                None
            }
        },
        _ => None,
    }
}

/// The `u64` that the member `name` of `doc` holds.
pub fn read_u64(doc: &Json, name: &str) -> (r: Option<u64>)
    ensures
        r == u64_field(doc@, name@),
{
    match doc.get(name) {
        Some(value) => value.as_u64(),
        None => None,
    }
}

/// The characters that the member `name` of `doc` holds.
pub fn read_text(doc: &Json, name: &str) -> (r: Option<String>)
    ensures
        match r {
            Some(text) => text_field(doc@, name@) == Some(text@),
            None => text_field(doc@, name@) is None,
        },
{
    match doc.get(name) {
        Some(value) => match value.as_text() {
            Some(text) => Some(String::from_str(text)),
            None => None,
        },
        None => None,
    }
}

impl RegisteredPlayer {
    /// Writes the registration as a JSON object.
    pub fn to_json(&self) -> (r: Json)
        ensures
            r@ == target_json(self@),
    {
        let members = vec![
            (String::from_str("discord_id"), Json::PosInt(self.discord_id)),
            (String::from_str("rematch_url"), Json::Str(self.rematch_url.clone())),
        ];
        proof {
            lemma_object_view(members);
            assert(member_views(members@) =~= target_json(self@)->Object_0);
        }
        Json::Object(members)
    }

    /// Reads a registration from a JSON object.
    pub fn from_json(doc: &Json) -> (r: Option<RegisteredPlayer>)
        ensures
            match r {
                Some(target) => target_of(doc@) == Some(target@),
                None => target_of(doc@) is None,
            },
    {
        let discord_id = read_u64(doc, "discord_id");
        let rematch_url = read_text(doc, "rematch_url");
        match (discord_id, rematch_url) {
            (Some(discord_id), Some(rematch_url)) => Some(
                RegisteredPlayer { discord_id, rematch_url },
            ),
            _ => None,
        }
    }
}

impl PlayerWithStats {
    /// Writes the snapshot as a JSON object.
    pub fn to_json(&self) -> (r: Json)
        ensures
            r@ == snapshot_json(self@),
    {
        let rank = match &self.rank {
            Some(rank) => rank.to_json(),
            None => Json::Null,
        };
        let members = vec![
            (String::from_str("discord_id"), Json::PosInt(self.discord_id)),
            (String::from_str("display_name"), Json::Str(self.display_name.clone())),
            (String::from_str("rank"), rank),
            (String::from_str("stats"), self.stats.to_json()),
        ];
        proof {
            lemma_object_view(members);
            assert(member_views(members@) =~= snapshot_json(self@)->Object_0);
        }
        Json::Object(members)
    }

    /// Reads a snapshot from a JSON object.
    pub fn from_json(doc: &Json) -> (r: Option<PlayerWithStats>)
        ensures
            match r {
                Some(snapshot) => snapshot_of(doc@) == Some(snapshot@),
                None => snapshot_of(doc@) is None,
            },
    {
        let discord_id = read_u64(doc, "discord_id");
        let display_name = read_text(doc, "display_name");
        let rank: Option<Option<UggRank>> = match doc.get("rank") {
            None => Some(None),
            Some(value) => if value.is_null() {
                Some(None)
            } else {
                match UggRank::from_json(value) {
                    Some(rank) => Some(Some(rank)),
                    None => None,
                }
            },
        };
        let stats = match doc.get("stats") {
            Some(value) => UggLifetimeStats::from_json(value),
            None => None,
        };
        match (discord_id, display_name, rank, stats) {
            (Some(discord_id), Some(display_name), Some(rank), Some(stats)) => Some(
                PlayerWithStats { discord_id, display_name, rank, stats },
            ),
            _ => None,
        }
    }
}

/// Writes the registrations as a JSON array.
pub fn encode_targets(targets: &Vec<RegisteredPlayer>) -> (r: Json)
    ensures
        r@ == JsonView::Array(targets_json(target_views(targets@))),
{
    let mut items: Vec<Json> = Vec::new();
    let mut i: usize = 0;
    while i < targets.len()
        invariant
            i <= targets@.len(),
            items@.len() == i,
            forall|j: int| 0 <= j < i ==> (#[trigger] items@[j])@ == target_json(targets@[j]@),
        decreases targets@.len() - i,
    {
        items.push(targets[i].to_json());
        i += 1;
    }
    proof {
        lemma_array_view(items);
        assert(views_of(items@) =~= targets_json(target_views(targets@)));
    }
    Json::Array(items)
}

/// Writes the snapshots as a JSON array.
pub fn encode_snapshots(snapshots: &Vec<PlayerWithStats>) -> (r: Json)
    ensures
        r@ == JsonView::Array(snapshots_json(snapshot_views(snapshots@))),
{
    let mut items: Vec<Json> = Vec::new();
    let mut i: usize = 0;
    while i < snapshots.len()
        invariant
            i <= snapshots@.len(),
            items@.len() == i,
            forall|j: int| 0 <= j < i ==> (#[trigger] items@[j])@ == snapshot_json(snapshots@[j]@),
        decreases snapshots@.len() - i,
    {
        items.push(snapshots[i].to_json());
        i += 1;
    }
    proof {
        lemma_array_view(items);
        assert(views_of(items@) =~= snapshots_json(snapshot_views(snapshots@)));
    }
    Json::Array(items)
}

/// Reads the registrations that the member `registered_players` holds.
pub fn decode_targets(doc: &Json) -> (r: Option<Vec<RegisteredPlayer>>)
    ensures
        match r {
            Some(targets) => stored_targets(doc@) == Some(target_views(targets@)),
            None => stored_targets(doc@) is None,
        },
{
    let items = match doc.get("registered_players") {
        Some(array) => match array.elements() {
            Some(items) => items,
            None => {
                return None;
            },
        },
        None => {
            return None;
        },
    };
    let ghost readings = views_of(items@);
    assert(stored_targets(doc@) == targets_of(readings));
    let mut targets: Vec<RegisteredPlayer> = Vec::new();
    let mut i: usize = 0;
    while i < items.len()
        invariant
            i <= items@.len(),
            readings == views_of(items@),
            stored_targets(doc@) == targets_of(readings),
            targets@.len() == i,
            forall|j: int| 0 <= j < i ==> target_of(#[trigger] readings[j]) == Some(targets@[j]@),
        decreases items@.len() - i,
    {
        match RegisteredPlayer::from_json(&items[i]) {
            Some(target) => {
                targets.push(target);
            },
            None => {
                assert(target_of(readings[i as int]) is None);
                return None;
            },
        }
        i += 1;
    }
    proof {
        assert(targets_of(readings)->Some_0 =~= target_views(targets@));
    }
    Some(targets)
}

/// Reads the snapshots that the member `players` holds.
pub fn decode_snapshots(doc: &Json) -> (r: Option<Vec<PlayerWithStats>>)
    ensures
        match r {
            Some(snapshots) => stored_snapshots(doc@) == Some(snapshot_views(snapshots@)),
            None => stored_snapshots(doc@) is None,
        },
{
    let items = match doc.get("players") {
        Some(array) => match array.elements() {
            Some(items) => items,
            None => {
                return None;
            },
        },
        None => {
            return None;
        },
    };
    let ghost readings = views_of(items@);
    assert(stored_snapshots(doc@) == snapshots_of(readings));
    let mut snapshots: Vec<PlayerWithStats> = Vec::new();
    let mut i: usize = 0;
    while i < items.len()
        invariant
            i <= items@.len(),
            readings == views_of(items@),
            stored_snapshots(doc@) == snapshots_of(readings),
            snapshots@.len() == i,
            forall|j: int|
                0 <= j < i ==> snapshot_of(#[trigger] readings[j]) == Some(snapshots@[j]@),
        decreases items@.len() - i,
    {
        match PlayerWithStats::from_json(&items[i]) {
            Some(snapshot) => {
                snapshots.push(snapshot);
            },
            None => {
                assert(snapshot_of(readings[i as int]) is None);
                return None;
            },
        }
        i += 1;
    }
    proof {
        assert(snapshots_of(readings)->Some_0 =~= snapshot_views(snapshots@));
    }
    Some(snapshots)
}

/// Reading back a registration that was written gives the registration.
pub proof fn lemma_target_round_trip(target: TargetView)
    ensures
        target_of(target_json(target)) == Some(target),
{
    reveal_strlit("discord_id");
    reveal_strlit("rematch_url");
    reveal_with_fuel(crate::json::first_named, 3);
    let members = target_json(target)->Object_0;
    assert(members[0].0 == "discord_id"@);
    assert(members[1].0 == "rematch_url"@);
    assert("discord_id"@.len() != "rematch_url"@.len());
}

/// Reading back a snapshot that was written gives the snapshot.
pub proof fn lemma_snapshot_round_trip(snapshot: SnapshotView)
    ensures
        snapshot_of(snapshot_json(snapshot)) == Some(snapshot),
{
    reveal_strlit("discord_id");
    reveal_strlit("display_name");
    reveal_strlit("rank");
    reveal_strlit("stats");
    reveal_with_fuel(crate::json::first_named, 5);
    let members = snapshot_json(snapshot)->Object_0;
    assert(members[0].0 == "discord_id"@);
    assert(members[1].0 == "display_name"@);
    assert(members[2].0 == "rank"@);
    assert(members[3].0 == "stats"@);
    assert("discord_id"@.len() == 10);
    assert("display_name"@.len() == 12);
    assert("rank"@.len() == 4);
    assert("stats"@.len() == 5);
    lemma_lifetime_round_trip(snapshot.stats);
    match snapshot.rank {
        Some(rank) => {
            lemma_rank_round_trip(rank);
        },
        None => {},
    }
}

/// Reading back a store that was written gives the store.
pub proof fn lemma_store_round_trip(store: StoreModel)
    requires
        store.wf(),
    ensures
        store_of(store_json(store)) == Some(store),
{
    reveal_strlit("registered_players");
    reveal_strlit("players");
    reveal_with_fuel(crate::json::first_named, 3);
    let members = store_json(store)->Object_0;
    assert(members[0].0 == "registered_players"@);
    assert(members[1].0 == "players"@);
    assert("registered_players"@.len() != "players"@.len());
    let written_targets = targets_json(store.targets);
    let written_snapshots = snapshots_json(store.snapshots);
    assert forall|i: int| 0 <= i < written_targets.len() implies target_of(
        #[trigger] written_targets[i],
    ) == Some(store.targets[i]) by {
        lemma_target_round_trip(store.targets[i]);
    }
    assert forall|i: int| 0 <= i < written_snapshots.len() implies snapshot_of(
        #[trigger] written_snapshots[i],
    ) == Some(store.snapshots[i]) by {
        lemma_snapshot_round_trip(store.snapshots[i]);
    }
    assert(targets_of(written_targets)->Some_0 =~= store.targets);
    assert(snapshots_of(written_snapshots)->Some_0 =~= store.snapshots);
}

} // verus!
