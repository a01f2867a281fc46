//! The order in which the players are shown: the greater ratio of final
//! kills to final deaths first, and among equal ratios whoever stood first
//! before.

use vstd::prelude::*;
use crate::data::PlayerStats;
use crate::ratio::{lemma_exceeds_chain, lemma_exceeds_one_way, Ratio};

verus! {

/// The first position at or after `from` whose player has a smaller ratio
/// than `r`, or the length of `s`: where a player with ratio `r` goes.
pub open spec fn place_for(s: Seq<PlayerStats>, r: Ratio, from: int) -> int
    decreases s.len() - from,
{
    if from < 0 || from >= s.len() {
        s.len() as int
    } else if r.exceeds(s[from].final_ratio) {
        from
    } else {
        place_for(s, r, from + 1)
    }
}

/// The players of `s` in the order of their ratios: each in turn is put behind
/// all those before it that it does not exceed.
pub open spec fn arranged(s: Seq<PlayerStats>) -> Seq<PlayerStats>
    decreases s.len(),
{
    if s.len() == 0 {
        s
    } else {
        let head = arranged(s.drop_last());
        head.insert(place_for(head, s.last().final_ratio, 0), s.last())
    }
}

/// No player stands behind one with a smaller ratio.
pub open spec fn descending(s: Seq<PlayerStats>) -> bool {
    forall|a: int, b: int|
        0 <= a < b < s.len() ==> !(#[trigger] s[b]).final_ratio.exceeds((#[trigger] s[a]).final_ratio)
}

/// The place for a ratio lies between `from` and the length of `s`; the
/// ratio exceeds none of the players before the place, and it exceeds the
/// player at the place.
pub proof fn lemma_place_for(s: Seq<PlayerStats>, r: Ratio, from: int)
    requires
        0 <= from <= s.len(),
    ensures
        from <= place_for(s, r, from) <= s.len(),
        forall|k: int| from <= k < place_for(s, r, from) ==> !r.exceeds(s[k].final_ratio),
        place_for(s, r, from) < s.len() ==> r.exceeds(s[place_for(s, r, from)].final_ratio),
    decreases s.len() - from,
{
    if from < s.len() && !r.exceeds(s[from].final_ratio) {
        lemma_place_for(s, r, from + 1);
    }
}

/// Arranging neither adds nor drops a player.
pub proof fn lemma_arranged_len(s: Seq<PlayerStats>)
    ensures
        arranged(s).len() == s.len(),
    decreases s.len(),
{
    if s.len() > 0 {
        lemma_arranged_len(s.drop_last());
        lemma_place_for(arranged(s.drop_last()), s.last().final_ratio, 0);
    }
}

/// Putting a player at its place keeps a descending list descending, and all
/// that stand behind the place have a smaller ratio than the player.
proof fn lemma_insert_descends(s: Seq<PlayerStats>, x: PlayerStats)
    requires
        descending(s),
    ensures
        descending(s.insert(place_for(s, x.final_ratio, 0), x)),
        forall|k: int|
            place_for(s, x.final_ratio, 0) <= k < s.len() ==> x.final_ratio.exceeds(
                s[k].final_ratio,
            ),
{
    let r = x.final_ratio;
    let j = place_for(s, r, 0);
    lemma_place_for(s, r, 0);
    let t = s.insert(j, x);
    assert forall|k: int| j <= k < s.len() implies r.exceeds(s[k].final_ratio) by {
        if k > j {
            assert(!s[k].final_ratio.exceeds(s[j].final_ratio));
            lemma_exceeds_chain(r, s[j].final_ratio, s[k].final_ratio);
        }
    }
    assert forall|a: int, b: int| 0 <= a < b < t.len() implies !(#[trigger] t[b]).final_ratio.exceeds(
        (#[trigger] t[a]).final_ratio,
    ) by {
        if b == j {
            assert(t[a] == s[a]);
        } else if a == j {
            assert(t[b] == s[b - 1]);
            lemma_exceeds_one_way(r, s[b - 1].final_ratio);
        } else {
            let a0 = if a < j {
                a
            } else {
                a - 1
            };
            let b0 = if b < j {
                b
            } else {
                b - 1
            };
            assert(t[a] == s[a0]);
            assert(t[b] == s[b0]);
        }
    }
}

/// The arranged list is in descending order of the ratios.
pub proof fn lemma_arranged_descends(s: Seq<PlayerStats>)
    ensures
        descending(arranged(s)),
    decreases s.len(),
{
    if s.len() > 0 {
        lemma_arranged_descends(s.drop_last());
        lemma_insert_descends(arranged(s.drop_last()), s.last());
    }
}

/// The arranged list holds the same players as the list it was made of, each
/// as often.
pub proof fn lemma_arranged_permutes(s: Seq<PlayerStats>)
    ensures
        arranged(s).to_multiset() == s.to_multiset(),
    decreases s.len(),
{
    if s.len() > 0 {
        let head = arranged(s.drop_last());
        lemma_arranged_permutes(s.drop_last());
        lemma_arranged_len(s.drop_last());
        lemma_place_for(head, s.last().final_ratio, 0);
        vstd::seq_lib::to_multiset_insert(head, place_for(head, s.last().final_ratio, 0), s.last());
        vstd::seq_lib::to_multiset_build(s.drop_last(), s.last());
        assert(s.drop_last().push(s.last()) =~= s);
    }
}

/// The players that share the ratio `r`.
pub open spec fn sharing(r: Ratio) -> spec_fn(PlayerStats) -> bool {
    |p: PlayerStats| p.final_ratio.equals(r)
}

/// Arranging is stable: the players that share a ratio stand in the arranged
/// list in the order in which they stood before.
pub proof fn lemma_arranged_is_stable(s: Seq<PlayerStats>, r: Ratio)
    ensures
        arranged(s).filter(sharing(r)) == s.filter(sharing(r)),
    decreases s.len(),
{
    let same = sharing(r);
    if s.len() == 0 {
    } else {
        let t = s.drop_last();
        let x = s.last();
        let head = arranged(t);
        let j = place_for(head, x.final_ratio, 0);
        lemma_arranged_is_stable(t, r);
        lemma_arranged_descends(t);
        lemma_arranged_len(t);
        lemma_place_for(head, x.final_ratio, 0);
        lemma_insert_descends(head, x);
        let front = head.subrange(0, j);
        let back = head.subrange(j, head.len() as int);
        assert(head =~= front + back);
        assert(arranged(s) =~= front.push(x) + back);
        assert(t.push(x) =~= s);
        Seq::filter_distributes_over_add(front, back, same);
        Seq::filter_distributes_over_add(front.push(x), back, same);
        front.lemma_filter_push(x, same);
        t.lemma_filter_push(x, same);
        if same(x) {
            assert forall|k: int| 0 <= k < back.len() implies !same(#[trigger] back[k]) by {
                let y = back[k];
                assert(y == head[j + k]);
                assert(x.final_ratio.exceeds(y.final_ratio));
                if y.final_ratio.equals(r) {
                    lemma_exceeds_one_way(r, y.final_ratio);
                    lemma_exceeds_chain(x.final_ratio, y.final_ratio, r);
                    lemma_exceeds_one_way(x.final_ratio, r);
                }
            }
            assert(back.all(|p: PlayerStats| !same(p)));
            back.lemma_all_neg_filter_empty(same);
            assert(back.filter(same) =~= Seq::<PlayerStats>::empty());
            assert(front.filter(same).push(x) + back.filter(same) =~= (front.filter(same)
                + back.filter(same)).push(x));
        }
    }
}

/// Puts the players in the order of their ratios of final kills to final
/// deaths, the greatest first; players with equal ratios keep their order.
pub fn sort_by_final_ratio(players: &mut Vec<PlayerStats>)
    ensures
        final(players)@ == arranged(old(players)@),
{
    let ghost before = players@;
    let mut i: usize = 0;
    while i < players.len()
        invariant
            i <= players.len(),
            players@.len() == before.len(),
            players@.take(i as int) == arranged(before.take(i as int)),
            players@.skip(i as int) == before.skip(i as int),
        decreases players.len() - i,
    {
        let ghost head = players@.take(i as int);
        let ghost now = players@;
        let mut j: usize = 0;
        while j < i && !players[i].final_ratio.is_greater(&players[j].final_ratio)
            invariant
                j <= i < players.len(),
                head == players@.take(i as int),
                place_for(head, players@[i as int].final_ratio, 0) == place_for(
                    head,
                    players@[i as int].final_ratio,
                    j as int,
                ),
            decreases i - j,
        {
            assert(head[j as int] == players@[j as int]);
            j += 1;
        }
        proof {
            if j < i {
                assert(head[j as int] == players@[j as int]);
            }
            assert(now[i as int] == now.skip(i as int)[0]);
            assert(before.take(i + 1).drop_last() =~= before.take(i as int));
            assert(before.take(i + 1).last() == before[i as int]);
        }
        let player = players.remove(i);
        players.insert(j, player);
        proof {
            assert(players@.take(i + 1) =~= head.insert(j as int, player));
            assert forall|k: int| 0 <= k < before.len() - i - 1 implies #[trigger] players@.skip(
                i + 1,
            )[k] == before.skip(i + 1)[k] by {
                assert(now.skip(i as int)[k + 1] == before.skip(i as int)[k + 1]);
            }
            assert(players@.skip(i + 1) =~= before.skip(i + 1));
        }
        i += 1;
    }
    assert(players@.take(i as int) =~= players@);
    assert(before.take(i as int) =~= before);
}

} // verus!
