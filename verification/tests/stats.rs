use jahbo::data::{get_stats, PlayerStats};
use jahbo::json::{number_member, text_member};
use jahbo::ratio::Ratio;
use serde_json::Value;

fn json(text: &str) -> Value {
    serde_json::from_str(text).unwrap()
}

fn as_float(r: Ratio) -> f64 {
    if r.den == 0 {
        0.0
    } else {
        r.num as f64 / r.den as f64
    }
}

fn no_guild() -> Result<Value, String> {
    Err("no guild".to_string())
}

#[test]
fn ratio_with_zero_deaths_is_zero() {
    let r = Ratio::of(Some(10), Some(0));
    assert_eq!(as_float(r), 0.0);
    assert!(r.is_zero());
    assert_eq!((r.num, r.den), (0, 1));
}

#[test]
fn ratio_of_ten_to_five_is_two() {
    let r = Ratio::of(Some(10), Some(5));
    assert_eq!(as_float(r), 2.0);
    assert_eq!((r.num, r.den), (10, 5));
    assert!(r.is_equal(&Ratio { num: 2, den: 1 }));
}

#[test]
fn ratio_with_a_missing_counter_is_zero() {
    assert!(Ratio::of(None, Some(5)).is_zero());
    assert!(Ratio::of(Some(5), None).is_zero());
    assert!(Ratio::of(None, None).is_zero());
    assert_eq!(as_float(Ratio::of(Some(7), None)), 0.0);
}

#[test]
fn ratios_are_ordered_by_their_value() {
    let half = Ratio { num: 1, den: 2 };
    let third = Ratio { num: 1, den: 3 };
    let two_quarters = Ratio { num: 2, den: 4 };
    assert!(half.is_greater(&third));
    assert!(!third.is_greater(&half));
    assert!(!half.is_greater(&two_quarters));
    assert!(half.is_equal(&two_quarters));
    assert!(!half.is_equal(&third));
    assert!(Ratio::zero().is_greater(&Ratio { num: -1, den: 2 }));
    assert!(Ratio { num: -1, den: -2 }.is_equal(&half));
    assert!(Ratio { num: 1, den: -2 }.is_equal(&Ratio { num: -1, den: 2 }));
    assert!(Ratio { num: 5, den: 0 }.is_zero());
}

#[test]
fn ratios_of_the_largest_counters_do_not_overflow() {
    let big = Ratio { num: i64::MAX, den: 1 };
    let small = Ratio { num: i64::MIN, den: 1 };
    let tiny = Ratio { num: 1, den: i64::MIN };
    assert!(big.is_greater(&small));
    assert!(!small.is_greater(&big));
    assert!(Ratio::zero().is_greater(&tiny));
    assert!(tiny.is_greater(&small));
    assert!(Ratio { num: i64::MIN, den: i64::MIN }.is_equal(&Ratio { num: 1, den: 1 }));
}

#[test]
fn failed_fetch_gives_a_blank_record() {
    let p = get_stats("Nick", &Err("404".to_string()), &Ok(json(r#"{"guild":{"name":"G"}}"#)));
    assert_eq!(p.username, "Nick");
    assert!(p.no_data);
    assert_eq!(p.rank, None);
    assert_eq!(p.donator_rank, None);
    assert_eq!(p.monthly_rank, None);
    assert_eq!(p.achievement_points, None);
    assert_eq!(p.karma, None);
    assert_eq!(p.beds_broken_bedwars, None);
    assert_eq!(p.beds_lost_bedwars, None);
    assert_eq!(p.final_kills_bedwars, None);
    assert_eq!(p.final_deaths_bedwars, None);
    assert_eq!(p.games_played_bedwars, None);
    assert_eq!(p.wins_bedwars, None);
    assert_eq!(p.losses_bedwars, None);
    assert_eq!(p.bedwars_level, None);
    assert_eq!(p.bedwars_winstreak, None);
    assert_eq!(p.guild_name, None);
    assert!(p.beds_ratio.is_zero() && p.final_ratio.is_zero() && p.win_ratio.is_zero());
}

#[test]
fn payload_with_only_kills_fills_only_kills() {
    let v = json(r#"{"player":{"stats":{"Bedwars":{"final_kills_bedwars":12}}}}"#);
    let p = get_stats("Solo", &Ok(v), &no_guild());
    assert_eq!(p.username, "Solo");
    assert!(!p.no_data);
    assert_eq!(p.final_kills_bedwars, Some(12));
    assert_eq!(p.final_deaths_bedwars, None);
    assert_eq!(as_float(p.final_ratio), 0.0);
    assert_eq!(p.rank, None);
    assert_eq!(p.donator_rank, None);
    assert_eq!(p.monthly_rank, None);
    assert_eq!(p.achievement_points, None);
    assert_eq!(p.karma, None);
    assert_eq!(p.beds_broken_bedwars, None);
    assert_eq!(p.beds_lost_bedwars, None);
    assert_eq!(p.games_played_bedwars, None);
    assert_eq!(p.wins_bedwars, None);
    assert_eq!(p.losses_bedwars, None);
    assert_eq!(p.bedwars_level, None);
    assert_eq!(p.bedwars_winstreak, None);
    assert_eq!(p.guild_name, None);
    assert!(p.beds_ratio.is_zero() && p.win_ratio.is_zero());
}

#[test]
fn payload_with_kills_and_deaths_fills_the_ratio() {
    let v = json(
        r#"{"player":{"stats":{"Bedwars":{"final_kills_bedwars":10,"final_deaths_bedwars":5}}}}"#,
    );
    let p = get_stats("Duo", &Ok(v), &no_guild());
    assert_eq!(p.final_kills_bedwars, Some(10));
    assert_eq!(p.final_deaths_bedwars, Some(5));
    assert_eq!(as_float(p.final_ratio), 2.0);
    assert!(p.beds_ratio.is_zero() && p.win_ratio.is_zero());
}

#[test]
fn full_payload_fills_every_field() {
    let v = json(
        r#"{"success":true,"player":{
            "rank":"YOUTUBER","newPackageRank":"MVP_PLUS","monthlyPackageRank":"SUPERSTAR",
            "achievementPoints":4210,"karma":99000,
            "achievements":{"bedwars_level":187},
            "stats":{"Bedwars":{
                "beds_broken_bedwars":300,"beds_lost_bedwars":120,
                "final_kills_bedwars":900,"final_deaths_bedwars":450,
                "games_played_bedwars":1000,"wins_bedwars":600,"losses_bedwars":400,
                "winstreak":7}}}}"#,
    );
    let g = json(r#"{"success":true,"guild":{"name":"Builders","tag":"BLD"}}"#);
    let p = get_stats("Pro", &Ok(v), &Ok(g));
    assert!(!p.no_data);
    assert_eq!(p.rank.as_deref(), Some("YOUTUBER"));
    assert_eq!(p.donator_rank.as_deref(), Some("MVP_PLUS"));
    assert_eq!(p.monthly_rank.as_deref(), Some("SUPERSTAR"));
    assert_eq!(p.achievement_points, Some(4210));
    assert_eq!(p.karma, Some(99000));
    assert_eq!(p.beds_broken_bedwars, Some(300));
    assert_eq!(p.beds_lost_bedwars, Some(120));
    assert_eq!(p.final_kills_bedwars, Some(900));
    assert_eq!(p.final_deaths_bedwars, Some(450));
    assert_eq!(p.games_played_bedwars, Some(1000));
    assert_eq!(p.wins_bedwars, Some(600));
    assert_eq!(p.losses_bedwars, Some(400));
    assert_eq!(p.bedwars_level, Some(187));
    assert_eq!(p.bedwars_winstreak, Some(7));
    assert_eq!(p.guild_name.as_deref(), Some("Builders"));
    assert_eq!(as_float(p.beds_ratio), 2.5);
    assert_eq!(as_float(p.final_ratio), 2.0);
    assert_eq!(as_float(p.win_ratio), 1.5);
}

#[test]
fn fields_of_the_wrong_kind_count_as_missing() {
    let v = json(
        r#"{"player":{"rank":7,"karma":"much","achievementPoints":1.5,
            "stats":{"Bedwars":{"wins_bedwars":"3","losses_bedwars":18446744073709551615}}}}"#,
    );
    let p = get_stats("Odd", &Ok(v), &Ok(json(r#"{"guild":null}"#)));
    assert!(!p.no_data);
    assert_eq!(p.rank, None);
    assert_eq!(p.karma, None);
    assert_eq!(p.achievement_points, None);
    assert_eq!(p.wins_bedwars, None);
    assert_eq!(p.losses_bedwars, None);
    assert_eq!(p.guild_name, None);
}

#[test]
fn answer_that_is_no_object_gives_an_empty_record_with_data() {
    let p = get_stats("Null", &Ok(json("null")), &Ok(json("[1,2]")));
    assert!(!p.no_data);
    assert_eq!(p.final_kills_bedwars, None);
    assert_eq!(p.guild_name, None);
}

#[test]
fn guild_failure_leaves_only_the_guild_out() {
    let v = json(r#"{"player":{"karma":5}}"#);
    let p = get_stats("Lone", &Ok(v), &Err("timeout".to_string()));
    assert!(!p.no_data);
    assert_eq!(p.karma, Some(5));
    assert_eq!(p.guild_name, None);
}

#[test]
fn members_are_read_by_their_name() {
    let v = json(r#"{"a":"text","b":42,"c":{"a":"inner"}}"#);
    assert_eq!(text_member(&v, "a").as_deref(), Some("text"));
    assert_eq!(text_member(&v, "b"), None);
    assert_eq!(text_member(&v, "c"), None);
    assert_eq!(text_member(&v, "missing"), None);
    assert_eq!(number_member(&v, "b"), Some(42));
    assert_eq!(number_member(&v, "a"), None);
    assert_eq!(number_member(&json(r#"{"n":-9223372036854775808}"#), "n"), Some(i64::MIN));
    assert_eq!(text_member(&json(r#""just text""#), "a"), None);
}

#[test]
fn with_ratios_changes_only_the_ratios() {
    let mut p = PlayerStats::blank("R".to_string(), false);
    p.wins_bedwars = Some(3);
    p.losses_bedwars = Some(4);
    p.beds_broken_bedwars = Some(9);
    p.karma = Some(1);
    let p = p.with_ratios();
    assert_eq!(p.username, "R");
    assert_eq!(p.karma, Some(1));
    assert_eq!(as_float(p.win_ratio), 0.75);
    assert!(p.beds_ratio.is_zero());
    assert!(p.final_ratio.is_zero());
}

#[test]
fn default_record_is_blank() {
    let p = PlayerStats::default();
    assert_eq!(p.username, "");
    assert!(!p.no_data);
    assert_eq!(p.karma, None);
    assert!(p.final_ratio.is_zero());
}
