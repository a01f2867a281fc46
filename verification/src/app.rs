//! The shared state: the roster of tracked players and the switches, and the
//! rules by which the events of the log and the actions of the user change
//! them.
//!
//! Fetching a player's statistics is slow, so no rule waits for it. A rule
//! that wants a new player on the roster says so in its [`Step`]; the caller
//! fetches the statistics without holding the state and then hands the record
//! to [`AppData::add_player`], which appends it without looking again. Two
//! such additions for one name that overlap can therefore both go through.

use vstd::prelude::*;
use crate::data::PlayerStats;
use crate::order::{
    arranged, lemma_arranged_len, lemma_arranged_permutes, lemma_place_for, place_for,
    sort_by_final_ratio,
};
use crate::parsing::{
    event_of, lemma_nothing_when_no_sentence, sentence_at, LineEvent, ParsedLine, Sentence,
};
use crate::text::{lowercase, opt_text, same_name, texts, trim_text, trimmed};

verus! {

pub const PAUSED_BY_DEFAULT: bool = false;

/// The switches that the user can set at any time.
#[derive(Clone, Copy, Debug, PartialEq, Eq, Structural)]
pub struct AppSettings {
    pub paused: bool,
    pub auto_join_active: bool,
    pub auto_leave_active: bool,
    pub auto_add_on_who: bool,
    pub auto_clear_on_who: bool,
    pub auto_tile: bool,
    pub auto_sort: bool,
}

impl Default for AppSettings {
    fn default() -> (settings: AppSettings)
        ensures
            settings == (AppSettings {
                paused: PAUSED_BY_DEFAULT,
                auto_join_active: true,
                auto_leave_active: true,
                auto_add_on_who: true,
                auto_clear_on_who: true,
                auto_tile: false,
                auto_sort: false,
            }),
    {
        AppSettings {
            paused: PAUSED_BY_DEFAULT,
            auto_join_active: true,
            auto_leave_active: true,
            auto_add_on_who: true,
            auto_clear_on_who: true,
            auto_tile: false,
            auto_sort: false,
        }
    }
}

/// The roster, in the order in which it is shown, and the switches.
#[derive(Debug)]
pub struct AppData {
    pub players: Vec<PlayerStats>,
    pub settings: AppSettings,
}

impl Default for AppData {
    fn default() -> (data: AppData)
        ensures
            data.players@ == Seq::<PlayerStats>::empty(),
            data.settings == (AppSettings {
                paused: PAUSED_BY_DEFAULT,
                auto_join_active: true,
                auto_leave_active: true,
                auto_add_on_who: true,
                auto_clear_on_who: true,
                auto_tile: false,
                auto_sort: false,
            }),
    {
        AppData { players: Vec::new(), settings: AppSettings::default() }
    }
}

/// What the caller has to do after an event was applied.
#[derive(Debug)]
pub enum Step {
    /// Nothing: go on with the next event.
    Done,
    /// Fetch the statistics of this player and add the record.
    Add { username: String },
    /// For each of these names in turn, or side by side: ask
    /// [`AppData::is_tracked`], and where the name is not tracked, fetch the
    /// statistics and add the record.
    AddMissing { usernames: Vec<String> },
    /// The switch for this kind of event is off: stop reading the log.
    Halt,
}

/// The mathematical value of a [`Step`].
pub enum StepView {
    Done,
    Add { username: Seq<char> },
    AddMissing { usernames: Seq<Seq<char>> },
    Halt,
}

impl View for Step {
    type V = StepView;

    open spec fn view(&self) -> StepView {
        match self {
            Step::Done => StepView::Done,
            Step::Add { username } => StepView::Add { username: username@ },
            Step::AddMissing { usernames } => StepView::AddMissing { usernames: texts(usernames@) },
            Step::Halt => StepView::Halt,
        }
    }
}

/// Some player of the roster has this name, whatever the case of its letters.
pub open spec fn on_roster(players: Seq<PlayerStats>, name: Seq<char>) -> bool {
    exists|i: int| 0 <= i < players.len() && same_name((#[trigger] players[i]).username@, name)
}

/// No two players of the roster have the same name, whatever the case of its
/// letters.
pub open spec fn distinct(players: Seq<PlayerStats>) -> bool {
    forall|i: int, j: int|
        0 <= i < j < players.len() ==> !same_name(
            (#[trigger] players[i]).username@,
            (#[trigger] players[j]).username@,
        )
}

/// The first position at or after `from` whose player has exactly this name.
pub open spec fn first_named(players: Seq<PlayerStats>, name: Seq<char>, from: int) -> Option<int>
    decreases players.len() - from,
{
    if from < 0 || from >= players.len() {
        None
    } else if players[from].username@ == name {
        Some(from)
    } else {
        first_named(players, name, from + 1)
    }
}

/// The roster without the first player that has exactly this name.
pub open spec fn without(players: Seq<PlayerStats>, name: Seq<char>) -> Seq<PlayerStats> {
    match first_named(players, name, 0) {
        Some(i) => players.remove(i),
        None => players,
    }
}

/// The roster after an event of the log, under the given switches.
pub open spec fn roster_after(
    settings: AppSettings,
    players: Seq<PlayerStats>,
    event: LineEvent,
) -> Seq<PlayerStats> {
    match event {
        LineEvent::LeftLobby { username } => if settings.auto_leave_active {
            without(players, username)
        } else {
            players
        },
        LineEvent::LobbyList { usernames } => if settings.auto_clear_on_who {
            Seq::empty()
        } else {
            players
        },
        _ => players,
    }
}

/// What is left to the caller after an event of the log.
pub open spec fn step_after(
    settings: AppSettings,
    players: Seq<PlayerStats>,
    event: LineEvent,
) -> StepView {
    match event {
        LineEvent::JoinedLobby { username } => if !settings.auto_join_active {
            StepView::Halt
        } else if on_roster(players, username) {
            StepView::Done
        } else {
            StepView::Add { username }
        },
        LineEvent::LeftLobby { username } => if settings.auto_leave_active {
            StepView::Done
        } else {
            StepView::Halt
        },
        LineEvent::LobbyList { usernames } => if settings.auto_add_on_who {
            StepView::AddMissing { usernames }
        } else {
            StepView::Halt
        },
        _ => StepView::Done,
    }
}

/// The name that the user asked for, where a player of that name is to be
/// fetched: the text without the white space round it, unless that is empty
/// or the name of a tracked player.
pub open spec fn wanted_name(players: Seq<PlayerStats>, typed: Seq<char>) -> Option<Seq<char>> {
    let name = trimmed(typed);
    if name.len() == 0 || on_roster(players, name) {
        None
    } else {
        Some(name)
    }
}

/// The roster after the user's player was added: the record at the end, and
/// the whole in the order of the ratios where that is switched on.
pub open spec fn roster_with(
    settings: AppSettings,
    players: Seq<PlayerStats>,
    player: PlayerStats,
) -> Seq<PlayerStats> {
    if settings.auto_sort {
        arranged(players.push(player))
    } else {
        players.push(player)
    }
}

/// The position that `first_named` gives is the first at or after `from`
/// whose player has exactly this name; where it gives none, no player from
/// there on has it.
pub proof fn lemma_first_named(players: Seq<PlayerStats>, name: Seq<char>, from: int)
    requires
        0 <= from,
    ensures
        match first_named(players, name, from) {
            Some(i) => from <= i < players.len() && players[i].username@ == name && forall|k: int|
                from <= k < i ==> players[k].username@ != name,
            None => forall|k: int| from <= k < players.len() ==> players[k].username@ != name,
        },
    decreases players.len() - from,
{
    if from < players.len() && players[from].username@ != name {
        lemma_first_named(players, name, from + 1);
    }
}

impl AppData {
    /// Whether a player of this name, whatever the case of its letters, is on
    /// the roster.
    pub fn is_tracked(&self, username: &str) -> (b: bool)
        ensures
            b == on_roster(self.players@, username@),
    {
        let wanted = username.to_lowercase();
        let mut i: usize = 0;
        while i < self.players.len()
            invariant
                i <= self.players.len(),
                wanted@ == lowercase(username@),
                forall|k: int| 0 <= k < i ==> !same_name(self.players@[k].username@, username@),
            decreases self.players.len() - i,
        {
            let name = self.players[i].username.as_str().to_lowercase();
            if name == wanted {
                return true;
            }
            i += 1;
        }
        false
    }

    /// Puts a record at the end of the roster. Whether a player of that name
    /// is there already is not asked again.
    pub fn add_player(&mut self, player: PlayerStats)
        ensures
            final(self).players@ == old(self).players@.push(player),
            final(self).settings == old(self).settings,
    {
        self.players.push(player);
    }

    /// Takes the first player with exactly this name off the roster, and says
    /// whether there was one.
    pub fn remove_player(&mut self, username: &str) -> (removed: bool)
        ensures
            final(self).players@ == without(old(self).players@, username@),
            final(self).settings == old(self).settings,
            removed == first_named(old(self).players@, username@, 0) is Some,
    {
        let name = username.to_owned();
        let mut i: usize = 0;
        while i < self.players.len()
            invariant
                i <= self.players.len(),
                name@ == username@,
                *self == *old(self),
                first_named(self.players@, username@, 0) == first_named(
                    self.players@,
                    username@,
                    i as int,
                ),
            decreases self.players.len() - i,
        {
            if self.players[i].username == name {
                self.players.remove(i);
                return true;
            }
            i += 1;
        }
        false
    }

    /// Empties the roster.
    pub fn remove_all_players(&mut self)
        ensures
            final(self).players@ == Seq::<PlayerStats>::empty(),
            final(self).settings == old(self).settings,
    {
        self.players.clear();
    }

    /// Puts the roster in the order of the ratios of final kills to final
    /// deaths.
    pub fn sort(&mut self)
        ensures
            final(self).players@ == arranged(old(self).players@),
            final(self).settings == old(self).settings,
    {
        sort_by_final_ratio(&mut self.players);
    }

    /// The first half of adding a player by hand: the name to fetch, if the
    /// text that the user typed asks for a new player. The switches for the
    /// events of the log have no say in this.
    pub fn wanted(&self, typed: &str) -> (name: Option<String>)
        ensures
            opt_text(name) == wanted_name(self.players@, typed@),
    {
        let name = trim_text(typed);
        if name.as_str().is_empty() || self.is_tracked(name.as_str()) {
            None
        } else {
            Some(name)
        }
    }

    /// The second half of adding a player by hand: the record goes to the end
    /// of the roster, and the roster is put in order where that is switched
    /// on.
    pub fn add_manually(&mut self, player: PlayerStats)
        ensures
            final(self).players@ == roster_with(old(self).settings, old(self).players@, player),
            final(self).settings == old(self).settings,
    {
        self.players.push(player);
        if self.settings.auto_sort {
            sort_by_final_ratio(&mut self.players);
        }
    }

    /// Applies one event of the log to the roster and says what is left to the
    /// caller.
    pub fn apply_event(&mut self, event: ParsedLine) -> (step: Step)
        ensures
            final(self).players@ == roster_after(old(self).settings, old(self).players@, event@),
            final(self).settings == old(self).settings,
            step@ == step_after(old(self).settings, old(self).players@, event@),
    {
        match event {
            ParsedLine::JoinedLobby { username } => {
                if !self.settings.auto_join_active {
                    Step::Halt
                } else if self.is_tracked(username.as_str()) {
                    Step::Done
                } else {
                    Step::Add { username }
                }
            },
            ParsedLine::LeftLobby { username } => {
                if !self.settings.auto_leave_active {
                    Step::Halt
                } else {
                    self.remove_player(username.as_str());
                    Step::Done
                }
            },
            ParsedLine::LobbyList { usernames } => {
                if self.settings.auto_clear_on_who {
                    self.players.clear();
                }
                if !self.settings.auto_add_on_who {
                    Step::Halt
                } else {
                    Step::AddMissing { usernames }
                }
            },
            ParsedLine::GameStart => Step::Done,
            ParsedLine::Nothing => Step::Done,
        }
    }
}

/// A line that holds none of the four sentences changes nothing: the roster
/// stays as it is and nothing is left to the caller, whatever the switches.
pub proof fn lemma_idle_line_changes_nothing(
    settings: AppSettings,
    players: Seq<PlayerStats>,
    line: Seq<char>,
)
    requires
        forall|which: Sentence, i: int| 0 <= i <= line.len() ==> !sentence_at(line, which, i),
    ensures
        event_of(line) is Nothing,
        roster_after(settings, players, event_of(line)) == players,
        step_after(settings, players, event_of(line)) == StepView::Done,
{
    lemma_nothing_when_no_sentence(line);
}

/// When a player leaves whose name is not on the roster, the roster stays as
/// it is, whatever the switches.
pub proof fn lemma_stranger_leaves(
    settings: AppSettings,
    players: Seq<PlayerStats>,
    username: Seq<char>,
)
    requires
        forall|i: int| 0 <= i < players.len() ==> players[i].username@ != username,
    ensures
        roster_after(settings, players, LineEvent::LeftLobby { username }) == players,
{
    lemma_first_named(players, username, 0);
}

/// A player who comes in under a name that is on the roster, in whatever
/// case, is not added again.
pub proof fn lemma_known_name_is_not_added(
    settings: AppSettings,
    players: Seq<PlayerStats>,
    username: Seq<char>,
)
    requires
        on_roster(players, username),
    ensures
        !(step_after(settings, players, LineEvent::JoinedLobby { username }) is Add),
        roster_after(settings, players, LineEvent::JoinedLobby { username }) == players,
{
}

/// A record under a name that is not on the roster, in whatever case, keeps
/// the names of the roster distinct.
pub proof fn lemma_new_name_keeps_distinct(players: Seq<PlayerStats>, player: PlayerStats)
    requires
        distinct(players),
        !on_roster(players, player.username@),
    ensures
        distinct(players.push(player)),
{
    let grown = players.push(player);
    assert forall|i: int, j: int| 0 <= i < j < grown.len() implies !same_name(
        (#[trigger] grown[i]).username@,
        (#[trigger] grown[j]).username@,
    ) by {
        assert(grown[i] == players[i]);
        if j < players.len() {
            assert(grown[j] == players[j]);
        }
    }
}

/// Taking a player off the roster keeps its names distinct.
pub proof fn lemma_removal_keeps_distinct(players: Seq<PlayerStats>, username: Seq<char>)
    requires
        distinct(players),
    ensures
        distinct(without(players, username)),
{
    lemma_first_named(players, username, 0);
    if let Some(at) = first_named(players, username, 0) {
        let rest = players.remove(at);
        assert forall|i: int, j: int| 0 <= i < j < rest.len() implies !same_name(
            (#[trigger] rest[i]).username@,
            (#[trigger] rest[j]).username@,
        ) by {
            let i0 = if i < at {
                i
            } else {
                i + 1
            };
            let j0 = if j < at {
                j
            } else {
                j + 1
            };
            assert(rest[i] == players[i0]);
            assert(rest[j] == players[j0]);
        }
    }
}

/// Putting the roster in order keeps its names distinct.
pub proof fn lemma_order_keeps_distinct(players: Seq<PlayerStats>)
    requires
        distinct(players),
    ensures
        distinct(arranged(players)),
    decreases players.len(),
{
    if players.len() > 0 {
        let rest = players.drop_last();
        let last = players.last();
        let head = arranged(rest);
        let at = place_for(head, last.final_ratio, 0);
        assert forall|i: int, j: int| 0 <= i < j < rest.len() implies !same_name(
            (#[trigger] rest[i]).username@,
            (#[trigger] rest[j]).username@,
        ) by {
            assert(rest[i] == players[i]);
            assert(rest[j] == players[j]);
        }
        lemma_order_keeps_distinct(rest);
        lemma_arranged_len(rest);
        lemma_arranged_permutes(rest);
        lemma_place_for(head, last.final_ratio, 0);
        let whole = head.insert(at, last);
        assert forall|k: int| 0 <= k < head.len() implies !same_name(
            (#[trigger] head[k]).username@,
            last.username@,
        ) by {
            vstd::seq_lib::to_multiset_contains(head, head[k]);
            vstd::seq_lib::to_multiset_contains(rest, head[k]);
            assert(head.contains(head[k]));
            let m = choose|m: int| 0 <= m < rest.len() && rest[m] == head[k];
            assert(players[m] == head[k]);
            assert(!same_name(players[m].username@, players[players.len() - 1].username@));
        }
        assert forall|i: int, j: int| 0 <= i < j < whole.len() implies !same_name(
            (#[trigger] whole[i]).username@,
            (#[trigger] whole[j]).username@,
        ) by {
            if i == at {
                assert(whole[j] == head[j - 1]);
            } else if j == at {
                assert(whole[i] == head[i]);
            } else {
                let i0 = if i < at {
                    i
                } else {
                    i - 1
                };
                let j0 = if j < at {
                    j
                } else {
                    j - 1
                };
                assert(whole[i] == head[i0]);
                assert(whole[j] == head[j0]);
            }
        }
    }
}

/// No event of the log makes two names of the roster the same, and neither
/// does a record that is added for the name that an event or the user asked
/// for, as long as it is added before the next question is put.
pub proof fn lemma_roster_stays_distinct(
    settings: AppSettings,
    players: Seq<PlayerStats>,
    event: LineEvent,
    typed: Seq<char>,
    player: PlayerStats,
)
    requires
        distinct(players),
    ensures
        distinct(roster_after(settings, players, event)),
        step_after(settings, players, event) == (StepView::Add { username: player.username@ })
            ==> distinct(roster_after(settings, players, event).push(player)),
        wanted_name(players, typed) == Some(player.username@) ==> distinct(
            roster_with(settings, players, player),
        ),
{
    match event {
        LineEvent::LeftLobby { username } => {
            lemma_removal_keeps_distinct(players, username);
        },
        _ => {},
    }
    if !on_roster(players, player.username@) {
        lemma_new_name_keeps_distinct(players, player);
        lemma_order_keeps_distinct(players.push(player));
    }
}

/// Where the names of the roster are distinct and a join asks for a player,
/// the roster with that player's record at its end has distinct names again,
/// and the next join under the same name, in whatever case, adds nothing.
pub proof fn lemma_join_keeps_names_distinct(
    settings: AppSettings,
    players: Seq<PlayerStats>,
    username: Seq<char>,
    player: PlayerStats,
    again: Seq<char>,
)
    requires
        distinct(players),
        step_after(settings, players, LineEvent::JoinedLobby { username }) == (StepView::Add {
            username,
        }),
        player.username@ == username,
        same_name(again, username),
    ensures
        distinct(players.push(player)),
        on_roster(players.push(player), again),
        !(step_after(settings, players.push(player), LineEvent::JoinedLobby { username: again })
            is Add),
{
    let grown = players.push(player);
    assert forall|i: int, j: int| 0 <= i < j < grown.len() implies !same_name(
        (#[trigger] grown[i]).username@,
        (#[trigger] grown[j]).username@,
    ) by {
        if j == players.len() {
            assert(grown[i] == players[i]);
        } else {
            assert(grown[i] == players[i]);
            assert(grown[j] == players[j]);
        }
    }
    assert(same_name(grown[players.len() as int].username@, again));
}

/// Two additions for one player that were both decided before either record
/// was appended both go through: the roster then holds the player twice.
pub proof fn lemma_overlapping_additions_double(
    settings: AppSettings,
    players: Seq<PlayerStats>,
    first: PlayerStats,
    second: PlayerStats,
)
    requires
        same_name(first.username@, second.username@),
        step_after(settings, players, LineEvent::JoinedLobby { username: first.username@ }) is Add,
        step_after(settings, players, LineEvent::JoinedLobby { username: second.username@ })
            is Add,
    ensures
        !distinct(players.push(first).push(second)),
{
    let grown = players.push(first).push(second);
    let n = players.len() as int;
    assert(same_name(grown[n].username@, grown[n + 1].username@));
}

/// A list of the lobby that comes while clearing is switched on and adding
/// is switched off leaves the roster empty and asks for no player, whatever
/// the list holds and whatever was on the roster.
pub proof fn lemma_list_only_clears(
    settings: AppSettings,
    players: Seq<PlayerStats>,
    usernames: Seq<Seq<char>>,
)
    requires
        settings.auto_clear_on_who,
        !settings.auto_add_on_who,
    ensures
        roster_after(settings, players, LineEvent::LobbyList { usernames }) == Seq::<
            PlayerStats,
        >::empty(),
        step_after(settings, players, LineEvent::LobbyList { usernames }) == StepView::Halt,
{
}

} // verus!
