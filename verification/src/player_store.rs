//! The player store: who is registered, and the stats last scraped for
//! each of them.

use crate::config::Config;
use crate::database::{
    decode_snapshots, decode_targets, encode_snapshots, encode_targets, lemma_store_round_trip,
    store_json, store_of,
};
use crate::json::{
    json_parse, json_render, lemma_object_view, member_views, parse_json, render_json, Json,
};
use crate::model::player_stat::{UggLifetimeStats, UggPlayerStat, UggPlayerStatView, UggRank};
use crate::scraper::{
    gathered, get_players_stats, lemma_gathered_wf, lemma_snapshot_origin, lemma_success_kept,
    outcome_views, snapshot_from, ScrapeError, ScrapeErrorView, ScraperInitError,
};
use crate::text::{decimal, push_decimal, same_text, starts_with};
use vstd::prelude::*;
use vstd::string::StringExecFns;

verus! {

/// A registration: whose profile to scrape, and where it is.
#[derive(Debug, Clone, PartialEq, Eq)]
pub struct RegisteredPlayer {
    pub discord_id: u64,
    pub rematch_url: String,
}

/// The stats last scraped for a registered player.
#[derive(Debug, Clone, PartialEq, Eq)]
pub struct PlayerWithStats {
    pub discord_id: u64,
    pub display_name: String,
    pub rank: Option<UggRank>,
    pub stats: UggLifetimeStats,
}

/// Why a registration was refused.
#[derive(Debug, Clone, PartialEq, Eq)]
pub enum RegisterError {
    /// The URL is not a profile URL. Holds the message for the user.
    WrongUrl(String),
}

/// Why a refresh did not take place.
#[derive(Debug, Clone, Copy, PartialEq, Eq)]
pub enum RefreshError {
    /// No scraper could be made.
    NoScraper,
}

/// The reading of a [`RegisteredPlayer`].
pub struct TargetView {
    pub discord_id: u64,
    pub rematch_url: Seq<char>,
}

/// The reading of a [`PlayerWithStats`].
pub struct SnapshotView {
    pub discord_id: u64,
    pub display_name: Seq<char>,
    pub rank: Option<UggRank>,
    pub stats: UggLifetimeStats,
}

impl View for RegisteredPlayer {
    type V = TargetView;

    open spec fn view(&self) -> TargetView {
        TargetView { discord_id: self.discord_id, rematch_url: self.rematch_url@ }
    }
}

impl View for PlayerWithStats {
    type V = SnapshotView;

    open spec fn view(&self) -> SnapshotView {
        SnapshotView {
            discord_id: self.discord_id,
            display_name: self.display_name@,
            rank: self.rank,
            stats: self.stats,
        }
    }
}

/// The readings of a sequence of registrations.
pub open spec fn target_views(targets: Seq<RegisteredPlayer>) -> Seq<TargetView> {
    Seq::new(targets.len(), |i: int| targets[i]@)
}

/// The readings of a sequence of snapshots.
pub open spec fn snapshot_views(snapshots: Seq<PlayerWithStats>) -> Seq<SnapshotView> {
    Seq::new(snapshots.len(), |i: int| snapshots[i]@)
}

/// What every profile URL begins with.
pub open spec fn profile_url_prefix() -> Seq<char> {
    "https://u.gg/rematch/profile/"@
}

/// A URL is accepted at registration iff it begins with the profile prefix.
pub open spec fn is_profile_url(url: Seq<char>) -> bool {
    profile_url_prefix().is_prefix_of(url)
}

/// What the user is told when a URL is refused.
pub open spec fn wrong_url_message() -> Seq<char> {
    "ton URL doit ressembler à https://u.gg/rematch/profile/steam/La%20m%C3%A9sange%20du%20Val%20d'Oise/76561198355389674"@
}

/// No identity occurs twice among the targets.
pub open spec fn distinct_targets(targets: Seq<TargetView>) -> bool {
    forall|i: int, j: int|
        0 <= i < j < targets.len() ==> (#[trigger] targets[i]).discord_id != (
        #[trigger] targets[j]).discord_id
}

/// No identity occurs twice among the snapshots.
pub open spec fn distinct_snapshots(snapshots: Seq<SnapshotView>) -> bool {
    forall|i: int, j: int|
        0 <= i < j < snapshots.len() ==> (#[trigger] snapshots[i]).discord_id != (
        #[trigger] snapshots[j]).discord_id
}

/// `at` is the first of the snapshots with the most matches played.
pub open spec fn is_first_busiest(snapshots: Seq<SnapshotView>, at: int) -> bool {
    &&& 0 <= at < snapshots.len()
    &&& forall|j: int|
        0 <= j < snapshots.len() ==> (#[trigger] snapshots[j]).stats.all.matches_played
            <= snapshots[at].stats.all.matches_played
    &&& forall|j: int|
        0 <= j < at ==> (#[trigger] snapshots[j]).stats.all.matches_played
            < snapshots[at].stats.all.matches_played
}

/// The store as mathematics: the targets in the order of their first
/// registration, and the snapshots in the order of the targets.
pub struct StoreModel {
    pub targets: Seq<TargetView>,
    pub snapshots: Seq<SnapshotView>,
}

impl StoreModel {
    /// The store with no target and no snapshot.
    pub open spec fn empty() -> StoreModel {
        StoreModel { targets: Seq::empty(), snapshots: Seq::empty() }
    }

    /// Whether `id` is registered.
    pub open spec fn has_target(self, id: u64) -> bool {
        exists|i: int| 0 <= i < self.targets.len() && (#[trigger] self.targets[i]).discord_id == id
    }

    /// Whether `id` has a snapshot.
    pub open spec fn has_snapshot(self, id: u64) -> bool {
        exists|i: int|
            0 <= i < self.snapshots.len() && (#[trigger] self.snapshots[i]).discord_id == id
    }

    /// The URL registered for `id`.
    pub open spec fn target_url(self, id: u64) -> Option<Seq<char>> {
        if self.has_target(id) {
            let at = choose|i: int|
                0 <= i < self.targets.len() && (#[trigger] self.targets[i]).discord_id == id;
            Some(self.targets[at].rematch_url)
        } else {
            None
        }
    }

    /// The snapshot of `id`.
    pub open spec fn snapshot(self, id: u64) -> Option<SnapshotView> {
        if self.has_snapshot(id) {
            let at = choose|i: int|
                0 <= i < self.snapshots.len() && (#[trigger] self.snapshots[i]).discord_id == id;
            Some(self.snapshots[at])
        } else {
            None
        }
    }

    /// The store is keyed by identity, and every snapshot belongs to a
    /// target.
    pub open spec fn wf(self) -> bool {
        &&& distinct_targets(self.targets)
        &&& distinct_snapshots(self.snapshots)
        &&& forall|i: int|
            0 <= i < self.snapshots.len() ==> self.has_target(
                (#[trigger] self.snapshots[i]).discord_id,
            )
    }

    /// The store after `target` was registered: its URL replaces the one
    /// that its identity had, or it is added behind the others.
    pub open spec fn with_target(self, target: TargetView) -> StoreModel {
        StoreModel {
            targets: if self.has_target(target.discord_id) {
                Seq::new(
                    self.targets.len(),
                    |i: int|
                        if self.targets[i].discord_id == target.discord_id {
                            target
                        } else {
                            self.targets[i]
                        },
                )
            } else {
                self.targets.push(target)
            },
            snapshots: self.snapshots,
        }
    }

    /// The store after a refresh cycle gave `snapshots`.
    pub open spec fn with_snapshots(self, snapshots: Seq<SnapshotView>) -> StoreModel {
        StoreModel { targets: self.targets, snapshots }
    }
}

/// The name of a league.
pub open spec fn league_name(league: i32) -> Seq<char> {
    if league == 0 {
        "bronze"@
    } else if league == 1 {
        "argent"@
    } else if league == 2 {
        "or"@
    } else if league == 3 {
        "platine"@
    } else if league == 4 {
        "diamant"@
    } else if league == 5 {
        "maître"@
    } else if league == 6 {
        "élite"@
    } else {
        "inconnu"@
    }
}

/// A rank in words. Divisions are held from 0, the highest, and shown
/// from 3 down.
pub open spec fn rank_text(rank: Option<UggRank>) -> Seq<char> {
    match rank {
        None => "non classé"@,
        Some(rank) => if rank.current_league == 6 {
            league_name(rank.current_league)
        } else {
            league_name(rank.current_league) + " "@ + decimal(3 - rank.current_division)
        },
    }
}

/// Wins, losses and win rate in one line.
pub open spec fn stats_text(stats: UggLifetimeStats, win_rate: Seq<char>) -> Seq<char> {
    decimal(stats.all.wins as int) + "W "@ + decimal(stats.all.matches_played - stats.all.wins)
        + "L, "@ + win_rate + "% Win Rate"@
}

/// Hours played in `matches` matches of six minutes, rounded towards zero.
pub open spec fn hours_played(matches: int) -> int {
    if matches >= 0 {
        (matches * 6) / 60
    } else {
        -(((-matches) * 6) / 60)
    }
}

impl RegisteredPlayer {
    /// A copy of this registration.
    pub fn replica(&self) -> (r: RegisteredPlayer)
        ensures
            r == *self,
    {
        RegisteredPlayer { discord_id: self.discord_id, rematch_url: self.rematch_url.clone() }
    }
}

impl PlayerWithStats {
    /// A copy of this snapshot.
    pub fn replica(&self) -> (r: PlayerWithStats)
        ensures
            r == *self,
    {
        PlayerWithStats {
            discord_id: self.discord_id,
            display_name: self.display_name.clone(),
            rank: self.rank,
            stats: self.stats,
        }
    }

    /// Matches played, over all queues.
    pub fn get_all_matches(&self) -> (r: i32)
        ensures
            r == self.stats.all.matches_played,
    {
        self.stats.all.matches_played
    }

    /// Matches won, over all queues.
    pub fn get_wins(&self) -> (r: i32)
        ensures
            r == self.stats.all.wins,
    {
        self.stats.all.wins
    }

    /// Matches not won: those played less those won.
    pub fn get_loses(&self) -> (r: i32)
        requires
            i32::MIN <= self.stats.all.matches_played - self.stats.all.wins <= i32::MAX,
        ensures
            r == self.stats.all.matches_played - self.stats.all.wins,
    {
        self.get_all_matches() - self.get_wins()
    }

    /// Wins, losses and win rate in one line. `win_rate` is the win rate
    /// as it is to be shown, without its percent sign.
    pub fn get_pretty_stats(&self, win_rate: &str) -> (r: String)
        ensures
            r@ == stats_text(self.stats, win_rate@),
    {
        let wins: i64 = self.get_wins() as i64;
        let loses: i64 = self.get_all_matches() as i64 - wins;
        let mut out = String::new();
        push_decimal(&mut out, wins);
        out.append("W ");
        push_decimal(&mut out, loses);
        out.append("L, ");
        out.append(win_rate);
        out.append("% Win Rate");
        assert(out@ =~= stats_text(self.stats, win_rate@));
        out
    }

    /// The rank in words: the league, and the division counted from the
    /// top, but for the highest league, which has none.
    pub fn pretty_rank(&self) -> (r: String)
        ensures
            r@ == rank_text(self.rank),
    {
        let rank = match self.rank {
            Some(rank) => rank,
            None => {
                return String::from_str("non classé");
            },
        };
        let league = rank.current_league;
        let pretty_league = if league == 0 {
            "bronze"
        } else if league == 1 {
            "argent"
        } else if league == 2 {
            "or"
        } else if league == 3 {
            "platine"
        } else if league == 4 {
            "diamant"
        } else if league == 5 {
            "maître"
        } else if league == 6 {
            "élite"
        } else {
            "inconnu"
        };
        let mut out = String::from_str(pretty_league);
        if league == 6 {
            return out;
        }
        let division: i64 = 3 - rank.current_division as i64;
        out.append(" ");
        push_decimal(&mut out, division);
        assert(out@ =~= rank_text(self.rank));
        out
    }

    /// Hours played, at six minutes a match, rounded towards zero.
    pub fn estimate_hours_played(&self) -> (r: i32)
        ensures
            r == hours_played(self.stats.all.matches_played as int),
    {
        let matches = self.get_all_matches();
        if matches >= 0 {
            let tenth: u32 = (matches as u32) / 10;
            tenth as i32
        } else {
            let magnitude: u64 = (-(matches as i64)) as u64;
            let tenth: u64 = magnitude / 10;
            -(tenth as i32)
        }
    }
}

/// The player store.
#[derive(Debug)]
pub struct PlayerStore {
    config: Config,
    registered_players: Vec<RegisteredPlayer>,
    players: Vec<PlayerWithStats>,
}

impl View for PlayerStore {
    type V = StoreModel;

    closed spec fn view(&self) -> StoreModel {
        StoreModel {
            targets: target_views(self.registered_players@),
            snapshots: snapshot_views(self.players@),
        }
    }
}

impl PlayerStore {
    /// Every store is keyed by identity, and each of its snapshots belongs
    /// to one of its targets.
    #[verifier::type_invariant]
    spec fn inv(self) -> bool {
        self@.wf()
    }

    /// The settings that the store was made with.
    pub closed spec fn spec_config(&self) -> Config {
        self.config
    }

    /// An empty store.
    pub fn new(config: &Config) -> (r: PlayerStore)
        ensures
            r@ == StoreModel::empty(),
            r@.wf(),
            r.spec_config() == *config,
    {
        let r = PlayerStore {
            config: config.replica(),
            registered_players: Vec::new(),
            players: Vec::new(),
        };
        assert(r@.targets =~= Seq::empty());
        assert(r@.snapshots =~= Seq::empty());
        r
    }

    /// The settings that the store was made with.
    pub fn config(&self) -> (r: &Config)
        ensures
            *r == self.spec_config(),
    {
        &self.config
    }

    /// The registrations, in the order of their first registration.
    pub fn registered_players(&self) -> (r: &Vec<RegisteredPlayer>)
        ensures
            target_views(r@) == self@.targets,
            self@.wf(),
    {
        proof {
            use_type_invariant(self);
        }
        &self.registered_players
    }

    /// The snapshots, in the order of the targets that they belong to.
    pub fn players(&self) -> (r: &Vec<PlayerWithStats>)
        ensures
            snapshot_views(r@) == self@.snapshots,
            self@.wf(),
    {
        proof {
            use_type_invariant(self);
        }
        &self.players
    }

    /// Where `discord_id` stands among the registrations.
    fn target_position(&self, discord_id: u64) -> (r: Option<usize>)
        ensures
            match r {
                Some(at) => at < self.registered_players@.len()
                    && self.registered_players@[at as int].discord_id == discord_id,
                None => !self@.has_target(discord_id),
            },
    {
        let mut i: usize = 0;
        while i < self.registered_players.len()
            invariant
                i <= self.registered_players@.len(),
                forall|j: int| 0 <= j < i ==> self.registered_players@[j].discord_id != discord_id,
            decreases self.registered_players@.len() - i,
        {
            if self.registered_players[i].discord_id == discord_id {
                return Some(i);
            }
            i += 1;
        }
        proof {
            assert forall|j: int| 0 <= j < self@.targets.len() implies (
            #[trigger] self@.targets[j]).discord_id != discord_id by {
                assert(self@.targets[j] == self.registered_players@[j]@);
            }
        }
        None
    }

    /// Registers the profile at `rematch_url` for `discord_id`.
    ///
    /// A URL that does not begin with the profile prefix is refused, and
    /// the store stays as it was. Otherwise the URL replaces the one that
    /// `discord_id` had, or the registration is added. No scrape is made.
    pub fn register_player(&mut self, discord_id: u64, rematch_url: &str) -> (r: Result<
        (),
        RegisterError,
    >)
        ensures
            final(self).spec_config() == old(self).spec_config(),
            final(self)@.wf(),
            is_profile_url(rematch_url@) ==> r is Ok && final(self)@ == old(self)@.with_target(
                TargetView { discord_id, rematch_url: rematch_url@ },
            ),
            !is_profile_url(rematch_url@) ==> final(self)@ == old(self)@ && (match r {
                Err(RegisterError::WrongUrl(message)) => message@ == wrong_url_message(),
                Ok(_) => false,
            }),
    {
        proof {
            use_type_invariant(&*self);
        }
        if !starts_with(rematch_url, "https://u.gg/rematch/profile/") {
            return Err(
                RegisterError::WrongUrl(
                    String::from_str(
                        "ton URL doit ressembler à https://u.gg/rematch/profile/steam/La%20m%C3%A9sange%20du%20Val%20d'Oise/76561198355389674",
                    ),
                ),
            );
        }
        let ghost before = self@;
        let ghost target = TargetView { discord_id, rematch_url: rematch_url@ };
        let entry = RegisteredPlayer { discord_id, rematch_url: rematch_url.to_owned() };
        let position = self.target_position(discord_id);
        proof {
            lemma_with_target_wf(before, target);
        }
        // Both lists are taken out while the targets change, and put back
        // targets first: the store is well formed whenever it is whole.
        let mut snapshots: Vec<PlayerWithStats> = Vec::new();
        let mut targets: Vec<RegisteredPlayer> = Vec::new();
        std::mem::swap(&mut self.players, &mut snapshots);
        std::mem::swap(&mut self.registered_players, &mut targets);
        assert(target_views(targets@) == before.targets);
        assert(snapshot_views(snapshots@) == before.snapshots);
        match position {
            Some(at) => {
                targets.set(at, entry);
                proof {
                    assert(before.targets[at as int].discord_id == discord_id);
                    assert forall|i: int| 0 <= i < before.targets.len() implies target_views(
                        targets@,
                    )[i] == before.with_target(target).targets[i] by {
                        if i != at as int {
                            assert(before.targets[i].discord_id != discord_id) by {
                                if i < at as int {
                                    assert(before.targets[i].discord_id
                                        != before.targets[at as int].discord_id);
                                } else {
                                    assert(before.targets[at as int].discord_id
                                        != before.targets[i].discord_id);
                                }
                            }
                        }
                    }
                }
            },
            None => {
                targets.push(entry);
            },
        }
        assert(target_views(targets@) =~= before.with_target(target).targets);
        self.registered_players = targets;
        self.players = snapshots;
        Ok(())
    }

    /// Ends a refresh cycle.
    ///
    /// Where no scraper could be made, the store stays as it was and the
    /// refresh fails. Otherwise `outcomes` holds the result of one attempt
    /// for each target, in the order of the targets, and the snapshots of
    /// the store become those of the attempts that succeeded, whatever they
    /// were before. A target that `outcomes` is too short for has none.
    pub fn refresh_all(
        &mut self,
        outcomes: Result<Vec<Result<UggPlayerStat, ScrapeError>>, ScraperInitError>,
    ) -> (r: Result<(), RefreshError>)
        ensures
            final(self).spec_config() == old(self).spec_config(),
            final(self)@.wf(),
            match outcomes {
                Ok(attempts) => r is Ok && final(self)@ == old(self)@.with_snapshots(
                    gathered(old(self)@.targets, outcome_views(attempts@)),
                ),
                Err(_) => r == Err::<(), RefreshError>(RefreshError::NoScraper) && final(self)@
                    == old(self)@,
            },
    {
        proof {
            use_type_invariant(&*self);
        }
        match outcomes {
            Ok(attempts) => {
                let snapshots = get_players_stats(&self.registered_players, &attempts);
                proof {
                    lemma_gathered_wf(
                        self@.targets,
                        outcome_views(attempts@),
                        self@.targets.len() as int,
                    );
                    let after = self@.with_snapshots(snapshot_views(snapshots@));
                    assert forall|i: int| 0 <= i < after.snapshots.len() implies after.has_target(
                        (#[trigger] after.snapshots[i]).discord_id,
                    ) by {
                        let id = after.snapshots[i].discord_id;
                        let k = choose|k: int|
                            0 <= k < self@.targets.len() && (#[trigger] self@.targets[k]).discord_id
                                == id;
                        assert(after.targets[k].discord_id == id);
                    }
                }
                self.players = snapshots;
                Ok(())
            },
            Err(_) => Err(RefreshError::NoScraper),
        }
    }

    /// The store made of these registrations and snapshots, where they
    /// are keyed by identity and every snapshot belongs to a registration.
    pub fn from_parts(
        config: &Config,
        registered_players: Vec<RegisteredPlayer>,
        players: Vec<PlayerWithStats>,
    ) -> (r: Option<PlayerStore>)
        ensures
            ({
                let store = StoreModel {
                    targets: target_views(registered_players@),
                    snapshots: snapshot_views(players@),
                };
                match r {
                    Some(made) => store.wf() && made@ == store && made.spec_config() == *config,
                    None => !store.wf(),
                }
            }),
    {
        if !keyed_by_identity(&registered_players, &players) {
            return None;
        }
        Some(PlayerStore { config: config.replica(), registered_players, players })
    }

    /// Writes the store as a JSON document.
    pub fn to_json(&self) -> (r: Json)
        ensures
            r@ == store_json(self@),
    {
        let members = vec![
            (String::from_str("registered_players"), encode_targets(&self.registered_players)),
            (String::from_str("players"), encode_snapshots(&self.players)),
        ];
        proof {
            lemma_object_view(members);
            assert(member_views(members@) =~= store_json(self@)->Object_0);
        }
        Json::Object(members)
    }

    /// Reads a store from a JSON document.
    pub fn from_json(config: &Config, doc: &Json) -> (r: Option<PlayerStore>)
        ensures
            match r {
                Some(store) => store_of(doc@) == Some(store@) && store.spec_config() == *config,
                None => store_of(doc@) is None,
            },
    {
        let targets = decode_targets(doc);
        let snapshots = decode_snapshots(doc);
        match (targets, snapshots) {
            (Some(targets), Some(snapshots)) => PlayerStore::from_parts(config, targets, snapshots),
            _ => None,
        }
    }

    /// The store that the database holds. `content` is the text of the
    /// database file, or `None` where it could not be read.
    ///
    /// Without a text, or with one that is no JSON document or holds no
    /// store, the store is empty.
    pub fn load_database(config: &Config, content: Option<&str>) -> (r: PlayerStore)
        ensures
            r.spec_config() == *config,
            r@ == loaded(content_view(content)),
            r@.wf(),
    {
        let doc = match content {
            Some(text) => parse_json(text),
            None => None,
        };
        let store = match doc {
            Some(doc) => PlayerStore::from_json(config, &doc),
            None => None,
        };
        match store {
            Some(store) => {
                proof {
                    use_type_invariant(&store);
                }
                store
            },
            None => PlayerStore::new(config),
        }
    }

    /// The text to write to the database file, or `None` where the store
    /// could not be written as text.
    ///
    /// The text is read back before it is handed out: it is the text of the
    /// document of the store, and loading it gives the store again.
    pub fn write_database(&self) -> (r: Option<String>)
        ensures
            match r {
                Some(text) => written(self@) == Some(text@) && loaded(Some(text@)) == self@,
                None => written(self@) is None,
            },
    {
        let text = match render_json(&self.to_json()) {
            Some(text) => text,
            None => {
                return None;
            },
        };
        let back = PlayerStore::load_database(&self.config, Some(text.as_str()));
        if same_targets(&self.registered_players, &back.registered_players) && same_snapshots(
            &self.players,
            &back.players,
        ) {
            Some(text)
        } else {
            None
        }
    }

    /// The snapshot of `discord_id`.
    pub fn get_player_stat(&self, discord_id: u64) -> (r: Option<&PlayerWithStats>)
        ensures
            match r {
                Some(player) => self@.snapshot(discord_id) == Some(player@),
                None => self@.snapshot(discord_id) is None,
            },
    {
        proof {
            use_type_invariant(self);
        }
        let mut i: usize = 0;
        while i < self.players.len()
            invariant
                i <= self.players@.len(),
                self@.wf(),
                forall|j: int| 0 <= j < i ==> self.players@[j].discord_id != discord_id,
            decreases self.players@.len() - i,
        {
            if self.players[i].discord_id == discord_id {
                proof {
                    assert(self@.snapshots[i as int] == self.players@[i as int]@);
                    assert(self@.has_snapshot(discord_id));
                    let at = choose|k: int|
                        0 <= k < self@.snapshots.len() && (#[trigger] self@.snapshots[k]).discord_id
                            == discord_id;
                    if at < i as int {
                        assert(self@.snapshots[at].discord_id != self@.snapshots[i as int].discord_id);
                    } else if at > i as int {
                        assert(self@.snapshots[i as int].discord_id != self@.snapshots[at].discord_id);
                    }
                }
                return Some(&self.players[i]);
            }
            i += 1;
        }
        proof {
            assert forall|j: int| 0 <= j < self@.snapshots.len() implies (
            #[trigger] self@.snapshots[j]).discord_id != discord_id by {
                assert(self@.snapshots[j] == self.players@[j]@);
            }
        }
        None
    }

    /// A copy of every snapshot, in the order of the store.
    pub fn get_all_players_stat(&self) -> (r: Vec<PlayerWithStats>)
        ensures
            snapshot_views(r@) == self@.snapshots,
    {
        let mut out: Vec<PlayerWithStats> = Vec::new();
        let mut i: usize = 0;
        while i < self.players.len()
            invariant
                i <= self.players@.len(),
                out@ == self.players@.take(i as int),
            decreases self.players@.len() - i,
        {
            out.push(self.players[i].replica());
            assert(out@ =~= self.players@.take(i + 1));
            i += 1;
        }
        assert(out@ =~= self.players@);
        out
    }

    /// The player who played the most matches; of several, the one that
    /// stands first in the store.
    pub fn find_try_harder(&self) -> (r: Option<&PlayerWithStats>)
        ensures
            match r {
                Some(player) => exists|at: int|
                    is_first_busiest(self@.snapshots, at) && self@.snapshots[at] == player@,
                None => self@.snapshots.len() == 0,
            },
    {
        if self.players.len() == 0 {
            return None;
        }
        let mut best: usize = 0;
        let mut i: usize = 1;
        while i < self.players.len()
            invariant
                1 <= i <= self.players@.len(),
                best < i,
                forall|j: int|
                    0 <= j < i ==> self.players@[j].stats.all.matches_played
                        <= self.players@[best as int].stats.all.matches_played,
                forall|j: int|
                    0 <= j < best ==> self.players@[j].stats.all.matches_played
                        < self.players@[best as int].stats.all.matches_played,
            decreases self.players@.len() - i,
        {
            if self.players[i].get_all_matches() > self.players[best].get_all_matches() {
                best = i;
            }
            i += 1;
        }
        proof {
            let snapshots = self@.snapshots;
            assert forall|j: int| 0 <= j < snapshots.len() implies (
            #[trigger] snapshots[j]).stats.all.matches_played
                <= snapshots[best as int].stats.all.matches_played by {
                assert(snapshots[j] == self.players@[j]@);
            }
            assert forall|j: int| 0 <= j < best implies (
            #[trigger] snapshots[j]).stats.all.matches_played
                < snapshots[best as int].stats.all.matches_played by {
                assert(snapshots[j] == self.players@[j]@);
            }
            assert(is_first_busiest(snapshots, best as int));
            assert(snapshots[best as int] == self.players@[best as int]@);
        }
        Some(&self.players[best])
    }
}

/// The store that a database text holds: that of the JSON document that
/// the text is, and the empty store where there is no text, no document or
/// no store in it.
pub open spec fn loaded(content: Option<Seq<char>>) -> StoreModel {
    match content {
        Some(text) => match json_parse(text) {
            Some(doc) => match store_of(doc) {
                Some(store) => store,
                None => StoreModel::empty(),
            },
            None => StoreModel::empty(),
        },
        None => StoreModel::empty(),
    }
}

/// The characters of a text that may be missing.
pub open spec fn content_view(content: Option<&str>) -> Option<Seq<char>> {
    match content {
        Some(text) => Some(text@),
        None => None,
    }
}

/// The text that a store is written as: the text of its document, where
/// there is one and it loads as the store again.
pub open spec fn written(store: StoreModel) -> Option<Seq<char>> {
    match json_render(store_json(store)) {
        Some(text) => if loaded(Some(text)) == store {
            Some(text)
        } else {
            None
        },
        None => None,
    }
}

/// Loading gives back a store that was written, as far as reading the text
/// gives back the document that was written as it.
pub proof fn lemma_loaded_written(store: StoreModel, text: Seq<char>)
    requires
        store.wf(),
        json_parse(text) == Some(store_json(store)),
    ensures
        loaded(Some(text)) == store,
{
    lemma_store_round_trip(store);
}

/// Whether two lists hold the same registrations.
fn same_targets(a: &Vec<RegisteredPlayer>, b: &Vec<RegisteredPlayer>) -> (r: bool)
    ensures
        r == (target_views(a@) == target_views(b@)),
{
    if a.len() != b.len() {
        assert(target_views(a@).len() != target_views(b@).len());
        return false;
    }
    let mut i: usize = 0;
    while i < a.len()
        invariant
            i <= a@.len(),
            a@.len() == b@.len(),
            forall|j: int| 0 <= j < i ==> a@[j]@ == b@[j]@,
        decreases a@.len() - i,
    {
        if a[i].discord_id != b[i].discord_id || !same_text(
            a[i].rematch_url.as_str(),
            b[i].rematch_url.as_str(),
        ) {
            assert(target_views(a@)[i as int] != target_views(b@)[i as int]);
            return false;
        }
        i += 1;
    }
    assert(target_views(a@) =~= target_views(b@));
    true
}

/// Whether two ranks, or their absence, are the same.
fn same_rank(a: &Option<UggRank>, b: &Option<UggRank>) -> (r: bool)
    ensures
        r == (*a == *b),
{
    match (a, b) {
        (None, None) => true,
        (Some(x), Some(y)) => x.current_league == y.current_league && x.current_division
            == y.current_division,
        _ => false,
    }
}

/// Whether two lists hold the same snapshots.
fn same_snapshots(a: &Vec<PlayerWithStats>, b: &Vec<PlayerWithStats>) -> (r: bool)
    ensures
        r == (snapshot_views(a@) == snapshot_views(b@)),
{
    if a.len() != b.len() {
        assert(snapshot_views(a@).len() != snapshot_views(b@).len());
        return false;
    }
    let mut i: usize = 0;
    while i < a.len()
        invariant
            i <= a@.len(),
            a@.len() == b@.len(),
            forall|j: int| 0 <= j < i ==> a@[j]@ == b@[j]@,
        decreases a@.len() - i,
    {
        let same = a[i].discord_id == b[i].discord_id && same_text(
            a[i].display_name.as_str(),
            b[i].display_name.as_str(),
        ) && same_rank(&a[i].rank, &b[i].rank) && a[i].stats.all.matches_played
            == b[i].stats.all.matches_played && a[i].stats.all.wins == b[i].stats.all.wins;
        if !same {
            assert(snapshot_views(a@)[i as int] != snapshot_views(b@)[i as int]);
            return false;
        }
        i += 1;
    }
    assert(snapshot_views(a@) =~= snapshot_views(b@));
    true
}

/// Whether no identity occurs twice among the registrations.
fn targets_distinct(targets: &Vec<RegisteredPlayer>) -> (r: bool)
    ensures
        r == distinct_targets(target_views(targets@)),
{
    let ghost views = target_views(targets@);
    let mut j: usize = 0;
    while j < targets.len()
        invariant
            j <= targets@.len(),
            views == target_views(targets@),
            forall|a: int, b: int|
                0 <= a < b < j ==> (#[trigger] views[a]).discord_id != (#[trigger] views[b]).discord_id,
        decreases targets@.len() - j,
    {
        let mut i: usize = 0;
        while i < j
            invariant
                i <= j < targets@.len(),
                views == target_views(targets@),
                forall|a: int| 0 <= a < i ==> (#[trigger] views[a]).discord_id != views[j as int].discord_id,
            decreases j - i,
        {
            if targets[i].discord_id == targets[j].discord_id {
                assert(views[i as int].discord_id == views[j as int].discord_id);
                return false;
            }
            i += 1;
        }
        j += 1;
    }
    true
}

/// Whether no identity occurs twice among the snapshots.
fn snapshots_distinct(snapshots: &Vec<PlayerWithStats>) -> (r: bool)
    ensures
        r == distinct_snapshots(snapshot_views(snapshots@)),
{
    let ghost views = snapshot_views(snapshots@);
    let mut j: usize = 0;
    while j < snapshots.len()
        invariant
            j <= snapshots@.len(),
            views == snapshot_views(snapshots@),
            forall|a: int, b: int|
                0 <= a < b < j ==> (#[trigger] views[a]).discord_id != (#[trigger] views[b]).discord_id,
        decreases snapshots@.len() - j,
    {
        let mut i: usize = 0;
        while i < j
            invariant
                i <= j < snapshots@.len(),
                views == snapshot_views(snapshots@),
                forall|a: int| 0 <= a < i ==> (#[trigger] views[a]).discord_id != views[j as int].discord_id,
            decreases j - i,
        {
            if snapshots[i].discord_id == snapshots[j].discord_id {
                assert(views[i as int].discord_id == views[j as int].discord_id);
                return false;
            }
            i += 1;
        }
        j += 1;
    }
    true
}

/// Whether `discord_id` is among the registrations.
fn is_registered(targets: &Vec<RegisteredPlayer>, discord_id: u64) -> (r: bool)
    ensures
        r == exists|i: int|
            0 <= i < targets@.len() && (#[trigger] target_views(targets@)[i]).discord_id
                == discord_id,
{
    let ghost views = target_views(targets@);
    let mut i: usize = 0;
    while i < targets.len()
        invariant
            i <= targets@.len(),
            views == target_views(targets@),
            forall|a: int| 0 <= a < i ==> (#[trigger] views[a]).discord_id != discord_id,
        decreases targets@.len() - i,
    {
        if targets[i].discord_id == discord_id {
            assert(views[i as int].discord_id == discord_id);
            return true;
        }
        i += 1;
    }
    false
}

/// Whether registrations and snapshots make a well-formed store.
fn keyed_by_identity(targets: &Vec<RegisteredPlayer>, snapshots: &Vec<PlayerWithStats>) -> (r: bool)
    ensures
        r == (StoreModel {
            targets: target_views(targets@),
            snapshots: snapshot_views(snapshots@),
        }).wf(),
{
    if !targets_distinct(targets) || !snapshots_distinct(snapshots) {
        return false;
    }
    let ghost store = StoreModel {
        targets: target_views(targets@),
        snapshots: snapshot_views(snapshots@),
    };
    let mut i: usize = 0;
    while i < snapshots.len()
        invariant
            i <= snapshots@.len(),
            store == (StoreModel {
                targets: target_views(targets@),
                snapshots: snapshot_views(snapshots@),
            }),
            forall|a: int| 0 <= a < i ==> store.has_target((#[trigger] store.snapshots[a]).discord_id),
        decreases snapshots@.len() - i,
    {
        if !is_registered(targets, snapshots[i].discord_id) {
            assert(!store.has_target(store.snapshots[i as int].discord_id));
            return false;
        }
        proof {
            let id = store.snapshots[i as int].discord_id;
            let k = choose|k: int|
                0 <= k < targets@.len() && (#[trigger] target_views(targets@)[k]).discord_id == id;
            assert(store.targets[k].discord_id == id);
        }
        i += 1;
    }
    true
}

/// Registering keeps the store keyed by identity.
pub proof fn lemma_with_target_wf(store: StoreModel, target: TargetView)
    requires
        store.wf(),
    ensures
        store.with_target(target).wf(),
        store.with_target(target).has_target(target.discord_id),
        store.with_target(target).target_url(target.discord_id) == Some(target.rematch_url),
{
    let after = store.with_target(target);
    let id = target.discord_id;
    if store.has_target(id) {
        let at = choose|i: int| 0 <= i < store.targets.len() && (#[trigger] store.targets[i]).discord_id == id;
        assert(after.targets[at] == target);
        assert forall|i: int| 0 <= i < after.targets.len() implies (#[trigger] after.targets[i]).discord_id
            == store.targets[i].discord_id by {}
    } else {
        assert(after.targets[store.targets.len() as int] == target);
        assert forall|i: int| 0 <= i < store.targets.len() implies (#[trigger] after.targets[i])
            == store.targets[i] by {}
    }
    assert(after.has_target(id));
    assert(distinct_targets(after.targets)) by {
        assert forall|i: int, j: int| 0 <= i < j < after.targets.len() implies (
        #[trigger] after.targets[i]).discord_id != (#[trigger] after.targets[j]).discord_id by {
            if store.has_target(id) {
                assert(store.targets[i].discord_id != store.targets[j].discord_id);
            } else {
                if j < store.targets.len() {
                    assert(store.targets[i].discord_id != store.targets[j].discord_id);
                } else {
                    assert(store.targets[i].discord_id != id);
                }
            }
        }
    }
    assert forall|i: int| 0 <= i < after.snapshots.len() implies after.has_target(
        (#[trigger] after.snapshots[i]).discord_id,
    ) by {
        let sid = store.snapshots[i].discord_id;
        assert(store.has_target(sid));
        let k = choose|k: int| 0 <= k < store.targets.len() && (#[trigger] store.targets[k]).discord_id == sid;
        assert(after.targets[k].discord_id == sid);
    }
    let chosen = choose|i: int| 0 <= i < after.targets.len() && (#[trigger] after.targets[i]).discord_id == id;
    let known = if store.has_target(id) {
        choose|i: int| 0 <= i < store.targets.len() && (#[trigger] store.targets[i]).discord_id == id
    } else {
        store.targets.len() as int
    };
    assert(after.targets[known].discord_id == id);
    if chosen < known {
        assert(after.targets[chosen].discord_id != after.targets[known].discord_id);
    } else if known < chosen {
        assert(after.targets[known].discord_id != after.targets[chosen].discord_id);
    }
}

/// In a store keyed by identity, the URL of an identity is that of the one
/// target that has it.
pub proof fn lemma_target_url_at(store: StoreModel, at: int)
    requires
        distinct_targets(store.targets),
        0 <= at < store.targets.len(),
    ensures
        store.target_url(store.targets[at].discord_id) == Some(store.targets[at].rematch_url),
{
    let id = store.targets[at].discord_id;
    assert(store.has_target(id));
    let chosen = choose|i: int| 0 <= i < store.targets.len() && (#[trigger] store.targets[i]).discord_id == id;
    if chosen < at {
        assert(store.targets[chosen].discord_id != store.targets[at].discord_id);
    } else if at < chosen {
        assert(store.targets[at].discord_id != store.targets[chosen].discord_id);
    }
}

/// In a store keyed by identity, the snapshot of an identity is the one
/// snapshot that has it.
pub proof fn lemma_snapshot_at(store: StoreModel, at: int)
    requires
        distinct_snapshots(store.snapshots),
        0 <= at < store.snapshots.len(),
    ensures
        store.snapshot(store.snapshots[at].discord_id) == Some(store.snapshots[at]),
{
    let id = store.snapshots[at].discord_id;
    assert(store.has_snapshot(id));
    let chosen = choose|i: int|
        0 <= i < store.snapshots.len() && (#[trigger] store.snapshots[i]).discord_id == id;
    if chosen < at {
        assert(store.snapshots[chosen].discord_id != store.snapshots[at].discord_id);
    } else if at < chosen {
        assert(store.snapshots[at].discord_id != store.snapshots[chosen].discord_id);
    }
}

/// Registering an identity leaves the registration of every other identity
/// as it was.
pub proof fn lemma_register_keeps_others(store: StoreModel, target: TargetView, other: u64)
    requires
        store.wf(),
        other != target.discord_id,
    ensures
        store.with_target(target).target_url(other) == store.target_url(other),
{
    let after = store.with_target(target);
    lemma_with_target_wf(store, target);
    if store.has_target(other) {
        let at = choose|i: int|
            0 <= i < store.targets.len() && (#[trigger] store.targets[i]).discord_id == other;
        assert(after.targets[at] == store.targets[at]);
        lemma_target_url_at(store, at);
        lemma_target_url_at(after, at);
    } else {
        if after.has_target(other) {
            let at = choose|i: int|
                0 <= i < after.targets.len() && (#[trigger] after.targets[i]).discord_id == other;
            if at < store.targets.len() {
                assert(store.targets[at].discord_id == other);
            }
        }
    }
}

/// Who is registered stays registered, through every registration and
/// every refresh.
pub proof fn lemma_targets_stay(
    store: StoreModel,
    target: TargetView,
    snapshots: Seq<SnapshotView>,
    discord_id: u64,
)
    requires
        store.has_target(discord_id),
    ensures
        store.with_target(target).has_target(discord_id),
        store.with_snapshots(snapshots).has_target(discord_id),
{
    let at = choose|i: int|
        0 <= i < store.targets.len() && (#[trigger] store.targets[i]).discord_id == discord_id;
    let after = store.with_target(target);
    assert(after.targets[at].discord_id == discord_id);
    assert(store.with_snapshots(snapshots).targets[at].discord_id == discord_id);
}

/// Registering an identity a second time overwrites its URL and adds no
/// entry: the store is as if only the second registration had been made.
pub proof fn lemma_reregister_overwrites(
    store: StoreModel,
    discord_id: u64,
    first: Seq<char>,
    second: Seq<char>,
)
    requires
        store.wf(),
    ensures
        ({
            let once = store.with_target(TargetView { discord_id, rematch_url: first });
            let twice = once.with_target(TargetView { discord_id, rematch_url: second });
            &&& twice == store.with_target(TargetView { discord_id, rematch_url: second })
            &&& twice.wf()
            &&& twice.targets.len() == once.targets.len()
            &&& twice.target_url(discord_id) == Some(second)
        }),
{
    let a = TargetView { discord_id, rematch_url: first };
    let b = TargetView { discord_id, rematch_url: second };
    let once = store.with_target(a);
    let twice = once.with_target(b);
    lemma_with_target_wf(store, a);
    lemma_with_target_wf(once, b);
    if store.has_target(discord_id) {
        assert forall|i: int| 0 <= i < once.targets.len() implies (#[trigger] once.targets[i]).discord_id
            == store.targets[i].discord_id by {}
    }
    assert(twice.targets =~= store.with_target(b).targets);
}

/// After a refresh, the target at `k` has a snapshot iff the attempt on it
/// succeeded, and the snapshot is what that attempt gave. What the
/// snapshots were before plays no part.
pub proof fn lemma_refresh_keeps_successes_only(
    store: StoreModel,
    outcomes: Seq<Result<UggPlayerStatView, ScrapeErrorView>>,
    k: int,
)
    requires
        store.wf(),
        0 <= k < store.targets.len(),
    ensures
        ({
            let after = store.with_snapshots(gathered(store.targets, outcomes));
            let id = store.targets[k].discord_id;
            &&& after.wf()
            &&& after.targets == store.targets
            &&& after.snapshot(id) == if k < outcomes.len() && outcomes[k] is Ok {
                Some(snapshot_from(store.targets[k], outcomes[k]->Ok_0))
            } else {
                None
            }
        }),
{
    let upto = store.targets.len() as int;
    let after = store.with_snapshots(gathered(store.targets, outcomes));
    let id = store.targets[k].discord_id;
    lemma_gathered_wf(store.targets, outcomes, upto);
    assert forall|i: int| 0 <= i < after.snapshots.len() implies after.has_target(
        (#[trigger] after.snapshots[i]).discord_id,
    ) by {
        let t = choose|t: int|
            0 <= t < upto && (#[trigger] store.targets[t]).discord_id == after.snapshots[i].discord_id;
        assert(after.targets[t].discord_id == after.snapshots[i].discord_id);
    }
    if k < outcomes.len() && outcomes[k] is Ok {
        let i = lemma_success_kept(store.targets, outcomes, upto, k);
        lemma_snapshot_at(after, i);
    } else {
        if after.has_snapshot(id) {
            let i = choose|i: int|
                0 <= i < after.snapshots.len() && (#[trigger] after.snapshots[i]).discord_id == id;
            let t = lemma_snapshot_origin(store.targets, outcomes, upto, i);
            if t < k {
                assert(store.targets[t].discord_id != store.targets[k].discord_id);
            } else if k < t {
                assert(store.targets[k].discord_id != store.targets[t].discord_id);
            }
        }
    }
}

/// After a refresh, an identity that is not registered has no snapshot.
pub proof fn lemma_refresh_only_targets(
    store: StoreModel,
    outcomes: Seq<Result<UggPlayerStatView, ScrapeErrorView>>,
    discord_id: u64,
)
    requires
        store.wf(),
        !store.has_target(discord_id),
    ensures
        store.with_snapshots(gathered(store.targets, outcomes)).snapshot(discord_id) is None,
{
    let upto = store.targets.len() as int;
    let after = store.with_snapshots(gathered(store.targets, outcomes));
    if after.has_snapshot(discord_id) {
        let i = choose|i: int|
            0 <= i < after.snapshots.len() && (#[trigger] after.snapshots[i]).discord_id
                == discord_id;
        let t = lemma_snapshot_origin(store.targets, outcomes, upto, i);
        assert(store.targets[t].discord_id == discord_id);
    }
}

/// Of the snapshots with the most matches played, only one is the first.
pub proof fn lemma_first_busiest_unique(snapshots: Seq<SnapshotView>, a: int, b: int)
    requires
        is_first_busiest(snapshots, a),
        is_first_busiest(snapshots, b),
    ensures
        a == b,
{
    if a < b {
        assert(snapshots[a].stats.all.matches_played < snapshots[b].stats.all.matches_played);
        assert(snapshots[b].stats.all.matches_played <= snapshots[a].stats.all.matches_played);
    } else if b < a {
        assert(snapshots[b].stats.all.matches_played < snapshots[a].stats.all.matches_played);
        assert(snapshots[a].stats.all.matches_played <= snapshots[b].stats.all.matches_played);
    }
}

} // verus!
