//! What the bot answers to its commands.

use crate::player_store::{rank_text, stats_text, PlayerWithStats, RegisterError};
use vstd::prelude::*;
use vstd::string::{StrSliceExecFns, StringExecFns};

verus! {

/// The upper-case form of a character, which may be several characters.
pub uninterp spec fn char_uppercase(c: char) -> Seq<char>;

/// `char::to_uppercase`, gathered into a string. What it gives is named
/// [`char_uppercase`]; nothing more is claimed of it.
#[verifier::external_body]
fn uppercase_of(c: char) -> (r: String)
    ensures
        r@ == char_uppercase(c),
{
    c.to_uppercase().collect()
}

/// A name with `initial` in place of its first character; `initial` alone
/// where the name is empty.
pub open spec fn with_initial(initial: Seq<char>, name: Seq<char>) -> Seq<char> {
    if name.len() == 0 {
        initial
    } else {
        initial + name.subrange(1, name.len() as int)
    }
}

/// A name with its first character in upper case. The empty name stays
/// empty.
pub open spec fn pretty_name(name: Seq<char>) -> Seq<char> {
    if name.len() == 0 {
        Seq::empty()
    } else {
        with_initial(char_uppercase(name[0]), name)
    }
}

/// Puts `initial` in place of the first character of `name`.
pub fn replace_initial(initial: String, name: &str) -> (r: String)
    ensures
        r@ == with_initial(initial@, name@),
{
    let length = name.unicode_len();
    let mut out = initial;
    if length > 0 {
        out.append(name.substring_char(1, length));
    }
    out
}

/// Puts the first character of a name in upper case.
pub fn compute_pretty_player_name(name: &str) -> (r: String)
    ensures
        r@ == pretty_name(name@),
{
    if name.unicode_len() == 0 {
        String::new()
    } else {
        replace_initial(uppercase_of(name.get_char(0)), name)
    }
}

/// The answer to a registration.
pub open spec fn register_text(user_name: Seq<char>, status: Result<(), RegisterError>) -> Seq<char> {
    match status {
        Ok(_) => "Très bien "@ + user_name + ", on a enregistré ta page u.gg !"@,
        Err(RegisterError::WrongUrl(message)) => "Fais un effort "@ + user_name + ", "@ + message@,
    }
}

/// The answer to a registration.
pub fn register_reply(user_name: &str, status: &Result<(), RegisterError>) -> (r: String)
    ensures
        r@ == register_text(user_name@, *status),
{
    match status {
        Ok(_) => {
            let mut out = String::from_str("Très bien ");
            out.append(user_name);
            out.append(", on a enregistré ta page u.gg !");
            out
        },
        Err(RegisterError::WrongUrl(message)) => {
            let mut out = String::from_str("Fais un effort ");
            out.append(user_name);
            out.append(", ");
            out.append(message.as_str());
            out
        },
    }
}

/// What is said when a refresh begins.
pub fn refresh_notice() -> (r: String)
    ensures
        r@ == "On démarre le scraping intensif, ça peut prendre quelques secondes. SVP u.gg ne portez pas plainte !"@,
{
    String::from_str(
        "On démarre le scraping intensif, ça peut prendre quelques secondes. SVP u.gg ne portez pas plainte !",
    )
}

/// The answer for a user who has no snapshot.
pub open spec fn unknown_player_text(user_name: Seq<char>) -> Seq<char> {
    user_name + " n'est pas enregistré, pense à utiliser la commande /register"@
}

/// The answer for a user with a snapshot.
pub open spec fn known_player_text(
    user_name: Seq<char>,
    display_name: Seq<char>,
    rank: Seq<char>,
    stats: Seq<char>,
) -> Seq<char> {
    "**"@ + pretty_name(user_name) + "** aussi connu sous le nom **"@ + display_name
        + "** est rang **"@ + rank + "**, **"@ + stats + "**"@
}

/// The answer to a request for one user's stats.
pub fn stat_reply(user_name: &str, player: Option<&PlayerWithStats>, win_rate: &str) -> (r: String)
    ensures
        r@ == (match player {
            None => unknown_player_text(user_name@),
            Some(player) => known_player_text(
                user_name@,
                player.display_name@,
                rank_text(player.rank),
                stats_text(player.stats, win_rate@),
            ),
        }),
{
    match player {
        None => {
            let mut out = String::from_str(user_name);
            out.append(" n'est pas enregistré, pense à utiliser la commande /register");
            out
        },
        Some(player) => {
            let mut out = String::from_str("**");
            out.append(compute_pretty_player_name(user_name).as_str());
            out.append("** aussi connu sous le nom **");
            out.append(player.display_name.as_str());
            out.append("** est rang **");
            out.append(player.pretty_rank().as_str());
            out.append("**, **");
            out.append(player.get_pretty_stats(win_rate).as_str());
            out.append("**");
            out
        },
    }
}

/// One player's line in the list of all stats.
pub open spec fn stats_line_text(display_name: Seq<char>, rank: Seq<char>, stats: Seq<char>) -> Seq<char> {
    "* "@ + pretty_name(display_name) + " - "@ + rank + " - "@ + stats
}

/// One player's line in the list of all stats.
pub fn stats_line(player: &PlayerWithStats, win_rate: &str) -> (r: String)
    ensures
        r@ == stats_line_text(
            player.display_name@,
            rank_text(player.rank),
            stats_text(player.stats, win_rate@),
        ),
{
    let mut out = String::from_str("* ");
    out.append(compute_pretty_player_name(player.display_name.as_str()).as_str());
    out.append(" - ");
    out.append(player.pretty_rank().as_str());
    out.append(" - ");
    out.append(player.get_pretty_stats(win_rate).as_str());
    out
}

/// The first `upto` lines, with a line feed between each two.
pub open spec fn joined(lines: Seq<Seq<char>>, upto: int) -> Seq<char>
    decreases upto,
{
    if upto <= 0 || upto > lines.len() {
        Seq::empty()
    } else if upto == 1 {
        lines[0]
    } else {
        joined(lines, upto - 1) + "\n"@ + lines[upto - 1]
    }
}

/// The characters of each line.
pub open spec fn line_views(lines: Seq<String>) -> Seq<Seq<char>> {
    Seq::new(lines.len(), |i: int| lines[i]@)
}

/// The lines with a line feed between each two.
pub fn join_lines(lines: &Vec<String>) -> (r: String)
    ensures
        r@ == joined(line_views(lines@), lines@.len() as int),
{
    let mut out = String::new();
    let mut i: usize = 0;
    while i < lines.len()
        invariant
            i <= lines@.len(),
            out@ == joined(line_views(lines@), i as int),
        decreases lines@.len() - i,
    {
        if i > 0 {
            out.append("\n");
        }
        out.append(lines[i].as_str());
        i += 1;
    }
    out
}

/// What is added to the list for the player who played the most.
pub open spec fn try_harder_text(display_name: Seq<char>, hours: Seq<char>) -> Seq<char> {
    "\nEt la palme d'or du plus gros try harder revient à "@ + pretty_name(display_name)
        + " avec plus de "@ + hours + "h de jeu !"@
}

/// The answer to a request for everybody's stats: the lines, and a word
/// on the player who played the most where there is one.
pub fn stats_reply(lines: &Vec<String>, try_harder: Option<&PlayerWithStats>) -> (r: String)
    ensures
        r@ == joined(line_views(lines@), lines@.len() as int) + (match try_harder {
            None => Seq::empty(),
            Some(player) => try_harder_text(
                player.display_name@,
                crate::text::decimal(
                    crate::player_store::hours_played(player.stats.all.matches_played as int),
                ),
            ),
        }),
{
    let mut out = join_lines(lines);
    match try_harder {
        None => {},
        Some(player) => {
            out.append("\nEt la palme d'or du plus gros try harder revient à ");
            out.append(compute_pretty_player_name(player.display_name.as_str()).as_str());
            out.append(" avec plus de ");
            crate::text::push_decimal(&mut out, player.estimate_hours_played() as i64);
            out.append("h de jeu !");
        },
    }
    out
}

/// How long the end of the tune is waited for, in seconds.
pub const TRACK_WAIT_SECONDS: u64 = 30;

/// Why the tune cannot be played to a user. `voice_state` is `None` where
/// the user is in no voice state of the guild, and holds `None` where the
/// voice state has no channel.
pub open spec fn voice_refusal(guild_known: bool, voice_state: Option<Option<u64>>) -> Seq<char> {
    if !guild_known {
        "Guild not found in cache"@
    } else if voice_state is None {
        "Rejoins le serveur vocal avant d'exécuter cette commande ! 😉"@
    } else {
        "No channel ID found in voice state"@
    }
}

/// The voice channel to play the tune in: that of the user's voice state
/// in a guild that is known, or the reason why there is none.
pub fn voice_channel(guild_known: bool, voice_state: Option<Option<u64>>) -> (r: Result<u64, String>)
    ensures
        match r {
            Ok(channel) => guild_known && voice_state == Some(Some(channel)),
            Err(message) => !(guild_known && voice_state matches Some(Some(_))) && message@
                == voice_refusal(guild_known, voice_state),
        },
{
    if !guild_known {
        return Err(String::from_str("Guild not found in cache"));
    }
    match voice_state {
        None => Err(
            String::from_str("Rejoins le serveur vocal avant d'exécuter cette commande ! 😉"),
        ),
        Some(None) => Err(String::from_str("No channel ID found in voice state")),
        Some(Some(channel)) => Ok(channel),
    }
}

} // verus!
