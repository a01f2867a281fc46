//! The record that is kept for each player, and how it is made from what the
//! statistics service answered.

use vstd::prelude::*;
use crate::json::{
    as_number, as_text, below, json_numbers, json_texts, lemma_below_top, lemma_below_twice,
    member, number_at, text_at,
};
use crate::app::AppData;
use crate::order::{arranged, sort_by_final_ratio};
use crate::ratio::Ratio;
use crate::text::opt_text;

verus! {

/// What is known of one player.
#[derive(Clone, Debug)]
pub struct PlayerStats {
    pub username: String,
    /// Set when the service had nothing for this name: it is probably a
    /// nickname.
    pub no_data: bool,
    pub rank: Option<String>,
    pub donator_rank: Option<String>,
    pub monthly_rank: Option<String>,
    pub achievement_points: Option<i64>,
    pub karma: Option<i64>,
    pub beds_broken_bedwars: Option<i64>,
    pub beds_lost_bedwars: Option<i64>,
    pub final_kills_bedwars: Option<i64>,
    pub final_deaths_bedwars: Option<i64>,
    pub games_played_bedwars: Option<i64>,
    pub wins_bedwars: Option<i64>,
    pub losses_bedwars: Option<i64>,
    pub bedwars_level: Option<i64>,
    pub bedwars_winstreak: Option<i64>,
    pub guild_name: Option<String>,
    pub beds_ratio: Ratio,
    pub final_ratio: Ratio,
    pub win_ratio: Ratio,
}

/// The mathematical value of a [`PlayerStats`].
pub struct PlayerView {
    pub username: Seq<char>,
    pub no_data: bool,
    pub rank: Option<Seq<char>>,
    pub donator_rank: Option<Seq<char>>,
    pub monthly_rank: Option<Seq<char>>,
    pub achievement_points: Option<i64>,
    pub karma: Option<i64>,
    pub beds_broken_bedwars: Option<i64>,
    pub beds_lost_bedwars: Option<i64>,
    pub final_kills_bedwars: Option<i64>,
    pub final_deaths_bedwars: Option<i64>,
    pub games_played_bedwars: Option<i64>,
    pub wins_bedwars: Option<i64>,
    pub losses_bedwars: Option<i64>,
    pub bedwars_level: Option<i64>,
    pub bedwars_winstreak: Option<i64>,
    pub guild_name: Option<Seq<char>>,
    pub beds_ratio: Ratio,
    pub final_ratio: Ratio,
    pub win_ratio: Ratio,
}

impl View for PlayerStats {
    type V = PlayerView;

    open spec fn view(&self) -> PlayerView {
        PlayerView {
            username: self.username@,
            no_data: self.no_data,
            rank: opt_text(self.rank),
            donator_rank: opt_text(self.donator_rank),
            monthly_rank: opt_text(self.monthly_rank),
            achievement_points: self.achievement_points,
            karma: self.karma,
            beds_broken_bedwars: self.beds_broken_bedwars,
            beds_lost_bedwars: self.beds_lost_bedwars,
            final_kills_bedwars: self.final_kills_bedwars,
            final_deaths_bedwars: self.final_deaths_bedwars,
            games_played_bedwars: self.games_played_bedwars,
            wins_bedwars: self.wins_bedwars,
            losses_bedwars: self.losses_bedwars,
            bedwars_level: self.bedwars_level,
            bedwars_winstreak: self.bedwars_winstreak,
            guild_name: opt_text(self.guild_name),
            beds_ratio: self.beds_ratio,
            final_ratio: self.final_ratio,
            win_ratio: self.win_ratio,
        }
    }
}

impl PlayerView {
    /// The record of a player of whom nothing is known but the name: every
    /// field empty, every ratio zero.
    pub open spec fn blank(username: Seq<char>, no_data: bool) -> PlayerView {
        PlayerView {
            username,
            no_data,
            rank: None,
            donator_rank: None,
            monthly_rank: None,
            achievement_points: None,
            karma: None,
            beds_broken_bedwars: None,
            beds_lost_bedwars: None,
            final_kills_bedwars: None,
            final_deaths_bedwars: None,
            games_played_bedwars: None,
            wins_bedwars: None,
            losses_bedwars: None,
            bedwars_level: None,
            bedwars_winstreak: None,
            guild_name: None,
            beds_ratio: Ratio { num: 0, den: 1 },
            final_ratio: Ratio { num: 0, den: 1 },
            win_ratio: Ratio { num: 0, den: 1 },
        }
    }

    /// The record with its three ratios worked out from its counters.
    pub open spec fn with_ratios(self) -> PlayerView {
        PlayerView {
            beds_ratio: Ratio::of_spec(self.beds_broken_bedwars, self.beds_lost_bedwars),
            final_ratio: Ratio::of_spec(self.final_kills_bedwars, self.final_deaths_bedwars),
            win_ratio: Ratio::of_spec(self.wins_bedwars, self.losses_bedwars),
            ..self
        }
    }

    /// No field of the record but the name and the mark holds anything.
    pub open spec fn is_blank(self) -> bool {
        self == PlayerView::blank(self.username, self.no_data)
    }
}

/// A text of the player's own entry in the answer of the service.
pub open spec fn player_text(v: serde_json::Value, key: Seq<char>) -> Option<Seq<char>> {
    text_at(v, seq!["player"@, key])
}

/// A number of the player's own entry.
pub open spec fn player_number(v: serde_json::Value, key: Seq<char>) -> Option<i64> {
    number_at(v, seq!["player"@, key])
}

/// A counter of the player's Bedwars statistics.
pub open spec fn bedwars_number(v: serde_json::Value, key: Seq<char>) -> Option<i64> {
    number_at(v, seq!["player"@, "stats"@, "Bedwars"@, key])
}

/// The name of the guild in the answer about the player's guild, where that
/// answer came and holds one.
pub open spec fn guild_name_of(guild: Result<serde_json::Value, String>) -> Option<Seq<char>> {
    match guild {
        Ok(g) => text_at(g, seq!["guild"@, "name"@]),
        Err(_) => None,
    }
}

/// What the answer about the player holds, field by field, before any ratio
/// is worked out.
pub open spec fn fields_of(
    username: Seq<char>,
    v: serde_json::Value,
    guild: Result<serde_json::Value, String>,
) -> PlayerView {
    PlayerView {
        username,
        no_data: false,
        rank: player_text(v, "rank"@),
        donator_rank: player_text(v, "newPackageRank"@),
        monthly_rank: player_text(v, "monthlyPackageRank"@),
        achievement_points: player_number(v, "achievementPoints"@),
        karma: player_number(v, "karma"@),
        beds_broken_bedwars: bedwars_number(v, "beds_broken_bedwars"@),
        beds_lost_bedwars: bedwars_number(v, "beds_lost_bedwars"@),
        final_kills_bedwars: bedwars_number(v, "final_kills_bedwars"@),
        final_deaths_bedwars: bedwars_number(v, "final_deaths_bedwars"@),
        games_played_bedwars: bedwars_number(v, "games_played_bedwars"@),
        wins_bedwars: bedwars_number(v, "wins_bedwars"@),
        losses_bedwars: bedwars_number(v, "losses_bedwars"@),
        bedwars_level: number_at(v, seq!["player"@, "achievements"@, "bedwars_level"@]),
        bedwars_winstreak: bedwars_number(v, "winstreak"@),
        guild_name: guild_name_of(guild),
        beds_ratio: Ratio { num: 0, den: 1 },
        final_ratio: Ratio { num: 0, den: 1 },
        win_ratio: Ratio { num: 0, den: 1 },
    }
}

/// The record that the two answers of the service give for a player. Where
/// the answer about the player failed, nothing is known and the record says
/// so; the answer about the guild may fail without harm.
pub open spec fn stats_of(
    username: Seq<char>,
    game_stats: Result<serde_json::Value, String>,
    guild: Result<serde_json::Value, String>,
) -> PlayerView {
    match game_stats {
        Ok(v) => fields_of(username, v, guild).with_ratios(),
        Err(_) => PlayerView::blank(username, true),
    }
}

/// A place inside a JSON document: the value there, and the path that leads
/// to it from the top.
struct Place<'a> {
    value: &'a serde_json::Value,
    top: Ghost<serde_json::Value>,
    path: Ghost<Seq<Seq<char>>>,
}

impl<'a> Place<'a> {
    spec fn wf(&self) -> bool {
        &&& json_texts(*self.value) == below(json_texts(self.top@), self.path@)
        &&& json_numbers(*self.value) == below(json_numbers(self.top@), self.path@)
    }

    fn top_of(v: &'a serde_json::Value) -> (p: Place<'a>)
        ensures
            p.wf(),
            p.top@ == *v,
            p.path@ == Seq::<Seq<char>>::empty(),
    {
        proof {
            let none = Seq::<Seq<char>>::empty();
            assert forall|q: Seq<Seq<char>>| none + q == q by {
                assert(none + q =~= q);
            }
            assert(below(json_texts(*v), none) =~= json_texts(*v));
            assert(below(json_numbers(*v), none) =~= json_numbers(*v));
        }
        Place { value: v, top: Ghost(*v), path: Ghost(Seq::empty()) }
    }

    fn down(&self, key: &str) -> (p: Place<'a>)
        requires
            self.wf(),
        ensures
            p.wf(),
            p.top@ == self.top@,
            p.path@ == self.path@.push(key@),
    {
        let value = member(self.value, key);
        proof {
            lemma_below_twice(json_texts(self.top@), self.path@, seq![key@]);
            lemma_below_twice(json_numbers(self.top@), self.path@, seq![key@]);
            assert(self.path@ + seq![key@] =~= self.path@.push(key@));
        }
        Place { value, top: self.top, path: Ghost(self.path@.push(key@)) }
    }

    fn text(&self, key: &str) -> (r: Option<String>)
        requires
            self.wf(),
        ensures
            opt_text(r) == text_at(self.top@, self.path@.push(key@)),
    {
        let inner = self.down(key);
        proof {
            lemma_below_top(json_texts(inner.top@), inner.path@);
        }
        as_text(inner.value)
    }

    fn number(&self, key: &str) -> (r: Option<i64>)
        requires
            self.wf(),
        ensures
            r == number_at(self.top@, self.path@.push(key@)),
    {
        let inner = self.down(key);
        proof {
            lemma_below_top(json_numbers(inner.top@), inner.path@);
        }
        as_number(inner.value)
    }
}

impl PlayerStats {
    /// The record of a player of whom nothing is known but the name.
    pub fn blank(username: String, no_data: bool) -> (player: PlayerStats)
        ensures
            player@ == PlayerView::blank(username@, no_data),
            player.username == username,
    {
        PlayerStats {
            username,
            no_data,
            rank: None,
            donator_rank: None,
            monthly_rank: None,
            achievement_points: None,
            karma: None,
            beds_broken_bedwars: None,
            beds_lost_bedwars: None,
            final_kills_bedwars: None,
            final_deaths_bedwars: None,
            games_played_bedwars: None,
            wins_bedwars: None,
            losses_bedwars: None,
            bedwars_level: None,
            bedwars_winstreak: None,
            guild_name: None,
            beds_ratio: Ratio::zero(),
            final_ratio: Ratio::zero(),
            win_ratio: Ratio::zero(),
        }
    }

    /// Works the three ratios out from the counters of the record: beds
    /// broken to beds lost, final kills to final deaths, wins to losses. A
    /// ratio is zero where one of its counters is missing or the lower one is
    /// zero. Nothing else of the record changes.
    pub fn with_ratios(self) -> (player: PlayerStats)
        ensures
            player@ == self@.with_ratios(),
            player.username == self.username,
    {
        let beds_ratio = Ratio::of(self.beds_broken_bedwars, self.beds_lost_bedwars);
        let final_ratio = Ratio::of(self.final_kills_bedwars, self.final_deaths_bedwars);
        let win_ratio = Ratio::of(self.wins_bedwars, self.losses_bedwars);
        PlayerStats { beds_ratio, final_ratio, win_ratio, ..self }
    }
}

impl Default for PlayerStats {
    fn default() -> (player: PlayerStats)
        ensures
            player@ == PlayerView::blank(Seq::empty(), false),
    {
        PlayerStats::blank(String::new(), false)
    }
}

/// A path that is built name by name is the list of its names.
proof fn lemma_paths_are_lists()
    ensures
        forall|a: Seq<char>, b: Seq<char>| #[trigger]
            Seq::<Seq<char>>::empty().push(a).push(b) == seq![a, b],
        forall|a: Seq<char>, b: Seq<char>, c: Seq<char>| #[trigger]
            Seq::<Seq<char>>::empty().push(a).push(b).push(c) == seq![a, b, c],
        forall|a: Seq<char>, b: Seq<char>, c: Seq<char>, d: Seq<char>| #[trigger]
            Seq::<Seq<char>>::empty().push(a).push(b).push(c).push(d) == seq![a, b, c, d],
{
    assert forall|a: Seq<char>, b: Seq<char>| #[trigger]
        Seq::<Seq<char>>::empty().push(a).push(b) == seq![a, b] by {
        assert(Seq::<Seq<char>>::empty().push(a).push(b) =~= seq![a, b]);
    }
    assert forall|a: Seq<char>, b: Seq<char>, c: Seq<char>| #[trigger]
        Seq::<Seq<char>>::empty().push(a).push(b).push(c) == seq![a, b, c] by {
        assert(Seq::<Seq<char>>::empty().push(a).push(b).push(c) =~= seq![a, b, c]);
    }
    assert forall|a: Seq<char>, b: Seq<char>, c: Seq<char>, d: Seq<char>| #[trigger]
        Seq::<Seq<char>>::empty().push(a).push(b).push(c).push(d) == seq![a, b, c, d] by {
        assert(Seq::<Seq<char>>::empty().push(a).push(b).push(c).push(d) =~= seq![a, b, c, d]);
    }
}

/// The name of the guild in the answer about the player's guild.
fn guild_name(guild: &Result<serde_json::Value, String>) -> (name: Option<String>)
    ensures
        opt_text(name) == guild_name_of(*guild),
{
    proof {
        lemma_paths_are_lists();
    }
    match guild {
        Ok(g) => Place::top_of(g).down("guild").text("name"),
        Err(_) => None,
    }
}

/// Makes the record of a player from the two answers of the statistics
/// service: the one about the player and the one about the player's guild.
pub fn get_stats(
    username: &str,
    game_stats: &Result<serde_json::Value, String>,
    guild: &Result<serde_json::Value, String>,
) -> (player: PlayerStats)
    ensures
        player@ == stats_of(username@, *game_stats, *guild),
{
    let v = match game_stats {
        Ok(v) => v,
        Err(_) => {
            return PlayerStats::blank(username.to_owned(), true);
        },
    };
    proof {
        lemma_paths_are_lists();
    }
    let player = Place::top_of(v).down("player");
    let bedwars = player.down("stats").down("Bedwars");
    let fields = PlayerStats {
        username: username.to_owned(),
        no_data: false,
        rank: player.text("rank"),
        donator_rank: player.text("newPackageRank"),
        monthly_rank: player.text("monthlyPackageRank"),
        achievement_points: player.number("achievementPoints"),
        karma: player.number("karma"),
        beds_broken_bedwars: bedwars.number("beds_broken_bedwars"),
        beds_lost_bedwars: bedwars.number("beds_lost_bedwars"),
        final_kills_bedwars: bedwars.number("final_kills_bedwars"),
        final_deaths_bedwars: bedwars.number("final_deaths_bedwars"),
        games_played_bedwars: bedwars.number("games_played_bedwars"),
        wins_bedwars: bedwars.number("wins_bedwars"),
        losses_bedwars: bedwars.number("losses_bedwars"),
        bedwars_level: player.down("achievements").number("bedwars_level"),
        bedwars_winstreak: bedwars.number("winstreak"),
        guild_name: guild_name(guild),
        beds_ratio: Ratio::zero(),
        final_ratio: Ratio::zero(),
        win_ratio: Ratio::zero(),
    };
    assert(fields@ == fields_of(username@, *v, *guild));
    fields.with_ratios()
}

/// Puts the roster in the order of the ratios of final kills to final deaths,
/// the greatest first. Players with equal ratios keep the order in which they
/// stood.
pub fn sort_players(data: &mut AppData)
    ensures
        final(data).players@ == arranged(old(data).players@),
        final(data).settings == old(data).settings,
{
    sort_by_final_ratio(&mut data.players);
}

/// A record made from a failed answer holds nothing but the name; one made
/// from an answer that came holds what the answer holds, and each ratio
/// follows from its two counters alone, whatever else is there or missing.
pub proof fn lemma_stats_follow_the_answer(
    username: Seq<char>,
    game_stats: Result<serde_json::Value, String>,
    guild: Result<serde_json::Value, String>,
)
    ensures
        stats_of(username, game_stats, guild).username == username,
        stats_of(username, game_stats, guild).no_data == (game_stats is Err),
        game_stats is Err ==> stats_of(username, game_stats, guild).is_blank(),
        game_stats matches Ok(v) ==> {
            let r = stats_of(username, game_stats, guild);
            &&& r.final_kills_bedwars == bedwars_number(v, "final_kills_bedwars"@)
            &&& r.final_deaths_bedwars == bedwars_number(v, "final_deaths_bedwars"@)
            &&& r.final_ratio == Ratio::of_spec(r.final_kills_bedwars, r.final_deaths_bedwars)
            &&& r.beds_ratio == Ratio::of_spec(r.beds_broken_bedwars, r.beds_lost_bedwars)
            &&& r.win_ratio == Ratio::of_spec(r.wins_bedwars, r.losses_bedwars)
            &&& (r.final_deaths_bedwars is None ==> r.final_ratio.top() == 0)
        },
{
}

} // verus!
