use jahbo::app::{AppData, AppSettings, Step};
use jahbo::data::{sort_players, PlayerStats};
use jahbo::parsing::{parse_line, ParsedLine};
use jahbo::ratio::Ratio;

fn player(name: &str) -> PlayerStats {
    PlayerStats::blank(name.to_string(), false)
}

fn rated(name: &str, kills: i64, deaths: i64) -> PlayerStats {
    let mut p = player(name);
    p.final_kills_bedwars = Some(kills);
    p.final_deaths_bedwars = Some(deaths);
    p.with_ratios()
}

fn roster_of(list: &[&str]) -> AppData {
    let mut data = AppData::default();
    for name in list {
        data.add_player(player(name));
    }
    data
}

fn names(data: &AppData) -> Vec<String> {
    data.players.iter().map(|p| p.username.clone()).collect()
}

fn joined(name: &str) -> ParsedLine {
    ParsedLine::JoinedLobby { username: name.to_string() }
}

fn left(name: &str) -> ParsedLine {
    ParsedLine::LeftLobby { username: name.to_string() }
}

fn list(all: &[&str]) -> ParsedLine {
    ParsedLine::LobbyList { usernames: all.iter().map(|s| s.to_string()).collect() }
}

/// Plays the caller's part for one event, one thing after another: every
/// player that is asked for gets a blank record.
fn apply(data: &mut AppData, event: ParsedLine) -> bool {
    match data.apply_event(event) {
        Step::Done => true,
        Step::Halt => false,
        Step::Add { username } => {
            data.add_player(player(&username));
            true
        }
        Step::AddMissing { usernames } => {
            for username in usernames {
                if !data.is_tracked(&username) {
                    data.add_player(player(&username));
                }
            }
            true
        }
    }
}

#[test]
fn default_settings() {
    let s = AppSettings::default();
    assert!(!s.paused);
    assert!(s.auto_join_active);
    assert!(s.auto_leave_active);
    assert!(s.auto_add_on_who);
    assert!(s.auto_clear_on_who);
    assert!(!s.auto_tile);
    assert!(!s.auto_sort);
    let data = AppData::default();
    assert!(data.players.is_empty());
    assert_eq!(data.settings, s);
}

#[test]
fn nothing_and_game_start_leave_the_roster_alone() {
    let mut data = roster_of(&["Alice", "Bob"]);
    assert!(matches!(data.apply_event(ParsedLine::Nothing), Step::Done));
    assert!(matches!(data.apply_event(ParsedLine::GameStart), Step::Done));
    assert!(matches!(data.apply_event(parse_line("some other line")), Step::Done));
    assert_eq!(names(&data), ["Alice", "Bob"]);
}

#[test]
fn leaving_stranger_is_a_no_op() {
    let mut data = roster_of(&["Alice", "Bob"]);
    assert!(matches!(data.apply_event(left("Carol")), Step::Done));
    assert_eq!(names(&data), ["Alice", "Bob"]);
    assert!(matches!(data.apply_event(left("Carol")), Step::Done));
    assert_eq!(names(&data), ["Alice", "Bob"]);
    assert!(!data.remove_player("Carol"));
}

#[test]
fn leaving_takes_the_first_exact_match_only() {
    let mut data = roster_of(&["alice", "Alice", "Bob", "Alice"]);
    assert!(matches!(data.apply_event(left("Alice")), Step::Done));
    assert_eq!(names(&data), ["alice", "Bob", "Alice"]);
    assert!(data.remove_player("Alice"));
    assert_eq!(names(&data), ["alice", "Bob"]);
    assert!(!data.remove_player("ALICE"));
    assert_eq!(names(&data), ["alice", "Bob"]);
}

#[test]
fn join_in_another_case_is_not_added_twice() {
    let mut data = AppData::default();
    assert!(apply(&mut data, joined("Alice")));
    assert!(apply(&mut data, joined("alice")));
    assert_eq!(names(&data), ["Alice"]);
    assert!(data.is_tracked("ALICE"));
    assert!(!data.is_tracked("Alic"));
}

#[test]
fn join_asks_for_a_fetch_only_for_a_new_name() {
    let mut data = roster_of(&["Alice"]);
    match data.apply_event(joined("Bob")) {
        Step::Add { username } => assert_eq!(username, "Bob"),
        other => panic!("{:?}", other),
    }
    assert_eq!(names(&data), ["Alice"]);
    assert!(matches!(data.apply_event(joined("aLiCe")), Step::Done));
}

#[test]
fn overlapping_additions_for_one_name_both_go_through() {
    let mut data = AppData::default();
    let first = data.apply_event(joined("Alice"));
    let second = data.apply_event(joined("alice"));
    for step in [first, second] {
        match step {
            Step::Add { username } => data.add_player(player(&username)),
            other => panic!("{:?}", other),
        }
    }
    assert_eq!(names(&data), ["Alice", "alice"]);
}

#[test]
fn list_with_clear_and_without_add_empties_the_roster() {
    let mut data = roster_of(&["Alice", "Bob"]);
    data.settings.auto_clear_on_who = true;
    data.settings.auto_add_on_who = false;
    let step = data.apply_event(list(&["Carol", "Dave", "Alice"]));
    assert!(matches!(step, Step::Halt));
    assert!(data.players.is_empty());
    let mut data = roster_of(&["Alice"]);
    data.settings.auto_add_on_who = false;
    assert!(!apply(&mut data, list(&[])));
    assert!(data.players.is_empty());
}

#[test]
fn list_with_clear_and_add_replaces_the_roster() {
    let mut data = roster_of(&["Alice", "Bob"]);
    assert!(apply(&mut data, list(&["Carol", "alice", "CAROL", "Dave"])));
    assert_eq!(names(&data), ["Carol", "alice", "Dave"]);
}

#[test]
fn list_without_clear_adds_only_the_missing() {
    let mut data = roster_of(&["Alice", "Bob"]);
    data.settings.auto_clear_on_who = false;
    match data.apply_event(list(&["bob", "Carol"])) {
        Step::AddMissing { usernames } => assert_eq!(usernames, ["bob", "Carol"]),
        other => panic!("{:?}", other),
    }
    assert_eq!(names(&data), ["Alice", "Bob"]);
    assert!(apply(&mut data, list(&["bob", "Carol"])));
    assert_eq!(names(&data), ["Alice", "Bob", "Carol"]);
}

#[test]
fn list_without_clear_and_without_add_changes_nothing() {
    let mut data = roster_of(&["Alice"]);
    data.settings.auto_clear_on_who = false;
    data.settings.auto_add_on_who = false;
    assert!(matches!(data.apply_event(list(&["Bob"])), Step::Halt));
    assert_eq!(names(&data), ["Alice"]);
}

/// A decision of the design that could have gone the other way: an event
/// whose switch is off leaves the roster alone and tells the caller to stop
/// reading the log, rather than to skip the one event.
#[test]
fn switched_off_event_halts_the_pipeline() {
    let mut data = roster_of(&["Alice"]);
    data.settings.auto_join_active = false;
    assert!(matches!(data.apply_event(joined("Bob")), Step::Halt));
    assert!(matches!(data.apply_event(joined("Alice")), Step::Halt));
    assert_eq!(names(&data), ["Alice"]);
    data.settings.auto_leave_active = false;
    assert!(matches!(data.apply_event(left("Alice")), Step::Halt));
    assert_eq!(names(&data), ["Alice"]);
    assert!(matches!(data.apply_event(ParsedLine::GameStart), Step::Done));
}

#[test]
fn manual_add_trims_and_rejects_empty_and_known_names() {
    let mut data = roster_of(&["Alice"]);
    data.settings.auto_join_active = false;
    assert_eq!(data.wanted("  Bob \t"), Some("Bob".to_string()));
    assert_eq!(data.wanted(""), None);
    assert_eq!(data.wanted("   "), None);
    assert_eq!(data.wanted(" alice "), None);
    let name = data.wanted("Bob").unwrap();
    data.add_manually(player(&name));
    assert_eq!(names(&data), ["Alice", "Bob"]);
    assert_eq!(data.wanted("BOB"), None);
}

#[test]
fn manual_add_sorts_when_switched_on() {
    let mut data = AppData::default();
    data.add_player(rated("low", 1, 2));
    data.add_player(rated("mid", 2, 2));
    data.add_manually(rated("high", 9, 2));
    assert_eq!(names(&data), ["low", "mid", "high"]);
    data.settings.auto_sort = true;
    data.add_manually(rated("top", 20, 2));
    assert_eq!(names(&data), ["top", "high", "mid", "low"]);
    assert!(data.settings.auto_sort);
}

#[test]
fn remove_all_empties_the_roster_and_keeps_the_switches() {
    let mut data = roster_of(&["Alice", "Bob"]);
    data.settings.paused = true;
    data.remove_all_players();
    assert!(data.players.is_empty());
    assert!(data.settings.paused);
}

#[test]
fn sort_is_descending_and_stable() {
    let mut data = AppData::default();
    for p in [
        rated("a", 1, 1),
        rated("b", 3, 1),
        rated("c", 2, 2),
        rated("d", 0, 5),
        rated("e", 6, 2),
        rated("f", 10, 0),
        player("g"),
        rated("h", 4, 4),
    ] {
        data.add_player(p);
    }
    sort_players(&mut data);
    assert_eq!(names(&data), ["b", "e", "a", "c", "h", "d", "f", "g"]);
    sort_players(&mut data);
    assert_eq!(names(&data), ["b", "e", "a", "c", "h", "d", "f", "g"]);
    data.sort();
    assert_eq!(names(&data), ["b", "e", "a", "c", "h", "d", "f", "g"]);
}

#[test]
fn sort_of_few_players() {
    let mut data = AppData::default();
    sort_players(&mut data);
    assert!(data.players.is_empty());
    data.add_player(rated("only", 1, 3));
    sort_players(&mut data);
    assert_eq!(names(&data), ["only"]);
    data.add_player(rated("better", 2, 3));
    sort_players(&mut data);
    assert_eq!(names(&data), ["better", "only"]);
    assert!(data.players[0].final_ratio.is_greater(&Ratio { num: 1, den: 3 }));
}
