//! The badge in front of a player's name.
//!
//! A player has a staff rank, a rank that was bought and a rank that is paid
//! for by the month, each of which may be missing. The staff rank counts
//! first; among the bought ranks the monthly one only raises the highest.

use vstd::prelude::*;

verus! {

/// The colours of the badges.
#[derive(Clone, Copy, Debug, PartialEq, Eq, Structural)]
pub enum RankColor {
    Red,
    Green,
    LightRed,
    Gold,
    LightBlue,
    LightGreen,
    Gray,
}

/// The colour and the text of the badge for three ranks; a rank that is
/// missing is given as the empty text.
pub open spec fn badge(rank: Seq<char>, donator_rank: Seq<char>, monthly_rank: Seq<char>) -> (
    RankColor,
    Seq<char>,
) {
    if rank == "ADMIN"@ {
        (RankColor::Red, "[ADMIN] "@)
    } else if rank == "GAME_MASTER"@ {
        (RankColor::Green, "[GM] "@)
    } else if rank == "YOUTUBER"@ {
        (RankColor::LightRed, "[YOUTUBE] "@)
    } else if donator_rank == "MVP_PLUS"@ && monthly_rank == "SUPERSTAR"@ {
        (RankColor::Gold, "[MVP++] "@)
    } else if donator_rank == "MVP_PLUS"@ {
        (RankColor::LightBlue, "[MVP+] "@)
    } else if donator_rank == "MVP"@ {
        (RankColor::LightBlue, "[MVP] "@)
    } else if donator_rank == "VIP_PLUS"@ {
        (RankColor::LightGreen, "[VIP+] "@)
    } else if donator_rank == "VIP"@ {
        (RankColor::LightGreen, "[VIP] "@)
    } else {
        (RankColor::Gray, ""@)
    }
}

/// Whether two texts are the same.
fn same_text(text: &str, other: &str) -> (b: bool)
    ensures
        b == (text@ == other@),
{
    text.to_owned() == other.to_owned()
}

/// The colour and the text of the badge for three ranks; a rank that is
/// missing is given as the empty text.
pub fn get_rank_color_and_name(rank: &str, donator_rank: &str, monthly_rank: &str) -> (r: (
    RankColor,
    String,
))
    ensures
        r.0 == badge(rank@, donator_rank@, monthly_rank@).0,
        r.1@ == badge(rank@, donator_rank@, monthly_rank@).1,
{
    if same_text(rank, "ADMIN") {
        (RankColor::Red, "[ADMIN] ".to_owned())
    } else if same_text(rank, "GAME_MASTER") {
        (RankColor::Green, "[GM] ".to_owned())
    } else if same_text(rank, "YOUTUBER") {
        (RankColor::LightRed, "[YOUTUBE] ".to_owned())
    } else if same_text(donator_rank, "MVP_PLUS") && same_text(monthly_rank, "SUPERSTAR") {
        (RankColor::Gold, "[MVP++] ".to_owned())
    } else if same_text(donator_rank, "MVP_PLUS") {
        (RankColor::LightBlue, "[MVP+] ".to_owned())
    } else if same_text(donator_rank, "MVP") {
        (RankColor::LightBlue, "[MVP] ".to_owned())
    } else if same_text(donator_rank, "VIP_PLUS") {
        (RankColor::LightGreen, "[VIP+] ".to_owned())
    } else if same_text(donator_rank, "VIP") {
        (RankColor::LightGreen, "[VIP] ".to_owned())
    } else {
        (RankColor::Gray, "".to_owned())
    }
}

} // verus!
