//! The two stores that remember what the remote services answered.
//!
//! Resolving a name to an identifier is remembered for ever; the statistics
//! of a player are remembered for [`STATS_LIFETIME`] seconds. Both stores
//! are kept by the name that was asked for, and both remember a failure as
//! they remember an answer. The caller asks the store first, goes to the
//! service only where the store has nothing, and then stores what came.

use vstd::prelude::*;

verus! {

/// How long the statistics of a player are remembered, in seconds.
pub const STATS_LIFETIME: u64 = 180;

/// One remembered answer.
struct Entry<V> {
    key: String,
    stored_at: u64,
    value: V,
}

/// A store of answers by name. With a lifetime, an answer counts for that
/// many seconds after it was stored; without one it counts for ever.
pub struct FetchCache<V> {
    entries: Vec<Entry<V>>,
    lifetime: Option<u64>,
}

/// Whether an answer that was stored at `stored_at` still counts at `now`.
pub open spec fn still_good(lifetime: Option<u64>, stored_at: u64, now: u64) -> bool {
    match lifetime {
        None => true,
        Some(seconds) => now - stored_at < seconds,
    }
}

/// What a store with this content answers at `now` to a question for `key`.
pub open spec fn answer<V>(
    content: Map<Seq<char>, (u64, V)>,
    lifetime: Option<u64>,
    key: Seq<char>,
    now: u64,
) -> Option<V> {
    if content.contains_key(key) && still_good(lifetime, content[key].0, now) {
        Some(content[key].1)
    } else {
        None
    }
}

/// The first position at or after `from` whose entry has this key.
spec fn first_with<V>(entries: Seq<Entry<V>>, key: Seq<char>, from: int) -> Option<int>
    decreases entries.len() - from,
{
    if from < 0 || from >= entries.len() {
        None
    } else if entries[from].key@ == key {
        Some(from)
    } else {
        first_with(entries, key, from + 1)
    }
}

proof fn lemma_first_with<V>(entries: Seq<Entry<V>>, key: Seq<char>, from: int)
    requires
        0 <= from,
    ensures
        match first_with(entries, key, from) {
            Some(i) => from <= i < entries.len() && entries[i].key@ == key && forall|k: int|
                from <= k < i ==> entries[k].key@ != key,
            None => forall|k: int| from <= k < entries.len() ==> entries[k].key@ != key,
        },
    decreases entries.len() - from,
{
    if from < entries.len() && entries[from].key@ != key {
        lemma_first_with(entries, key, from + 1);
    }
}

/// The first entry with a key is the one at `i` where that entry has the key
/// and none before it has.
proof fn lemma_first_with_is<V>(entries: Seq<Entry<V>>, key: Seq<char>, i: int)
    requires
        0 <= i < entries.len(),
        entries[i].key@ == key,
        forall|k: int| 0 <= k < i ==> entries[k].key@ != key,
    ensures
        first_with(entries, key, 0) == Some(i),
{
    lemma_first_with(entries, key, 0);
}

spec fn content_of<V>(entries: Seq<Entry<V>>) -> Map<Seq<char>, (u64, V)> {
    Map::new(
        |key: Seq<char>| first_with(entries, key, 0) is Some,
        |key: Seq<char>|
            (
                entries[first_with(entries, key, 0)->0].stored_at,
                entries[first_with(entries, key, 0)->0].value,
            ),
    )
}

impl<V> View for FetchCache<V> {
    type V = Map<Seq<char>, (u64, V)>;

    /// What is stored: for each name, when its answer came and the answer.
    closed spec fn view(&self) -> Map<Seq<char>, (u64, V)> {
        content_of(self.entries@)
    }
}

impl<V> FetchCache<V> {
    /// The lifetime of the answers, `None` where they count for ever.
    pub closed spec fn lifetime(&self) -> Option<u64> {
        self.lifetime
    }

    /// An empty store whose answers count for ever.
    pub fn permanent() -> (cache: FetchCache<V>)
        ensures
            cache@ == Map::<Seq<char>, (u64, V)>::empty(),
            cache.lifetime() is None,
    {
        let cache = FetchCache { entries: Vec::new(), lifetime: None };
        assert(cache@ =~= Map::<Seq<char>, (u64, V)>::empty());
        cache
    }

    /// An empty store whose answers count for `seconds` seconds.
    pub fn timed(seconds: u64) -> (cache: FetchCache<V>)
        ensures
            cache@ == Map::<Seq<char>, (u64, V)>::empty(),
            cache.lifetime() == Some(seconds),
    {
        let cache = FetchCache { entries: Vec::new(), lifetime: Some(seconds) };
        assert(cache@ =~= Map::<Seq<char>, (u64, V)>::empty());
        cache
    }

    /// The position of the entry for `key`.
    fn position(&self, key: &str) -> (r: Option<usize>)
        ensures
            r matches Some(i) ==> first_with(self.entries@, key@, 0) == Some(i as int) && i
                < self.entries.len(),
            r is None ==> first_with(self.entries@, key@, 0) is None,
    {
        let wanted = key.to_owned();
        let mut i: usize = 0;
        while i < self.entries.len()
            invariant
                i <= self.entries.len(),
                wanted@ == key@,
                first_with(self.entries@, key@, 0) == first_with(self.entries@, key@, i as int),
            decreases self.entries.len() - i,
        {
            if self.entries[i].key == wanted {
                return Some(i);
            }
            i += 1;
        }
        None
    }

    /// The answer that is remembered for `key` and still counts at `now`.
    pub fn get(&self, key: &str, now: u64) -> (r: Option<&V>)
        ensures
            match r {
                Some(v) => answer(self@, self.lifetime(), key@, now) == Some(*v),
                None => answer(self@, self.lifetime(), key@, now) is None,
            },
    {
        match self.position(key) {
            None => None,
            Some(i) => {
                let entry = &self.entries[i];
                let good = match self.lifetime {
                    None => true,
                    Some(seconds) => now < entry.stored_at || now - entry.stored_at < seconds,
                };
                if good {
                    Some(&entry.value)
                } else {
                    None
                }
            },
        }
    }

    /// Remembers `value` as the answer for `key`, stored at `now`, in place of
    /// what was remembered for that name before.
    pub fn put(&mut self, key: String, now: u64, value: V)
        ensures
            final(self)@ == old(self)@.insert(key@, (now, value)),
            final(self).lifetime() == old(self).lifetime(),
    {
        let ghost before = self.entries@;
        let ghost name = key@;
        let found = self.position(key.as_str());
        let entry = Entry { key, stored_at: now, value };
        match found {
            Some(i) => {
                self.entries.set(i, entry);
                proof {
                    lemma_first_with(before, name, 0);
                    lemma_first_with_is(self.entries@, name, i as int);
                }
            },
            None => {
                self.entries.push(entry);
                proof {
                    lemma_first_with(before, name, 0);
                    lemma_first_with_is(self.entries@, name, before.len() as int);
                }
            },
        }
        proof {
            let after = self.entries@;
            let wanted = content_of(before).insert(name, (now, value));
            assert forall|k: Seq<char>| k != name implies first_with(after, k, 0) == first_with(
                before,
                k,
                0,
            ) && (first_with(before, k, 0) matches Some(j) ==> after[j] == before[j]) by {
                lemma_first_with(before, k, 0);
                match first_with(before, k, 0) {
                    Some(j) => {
                        lemma_first_with_is(after, k, j);
                    },
                    None => {
                        lemma_first_with(after, k, 0);
                    },
                }
            }
            assert forall|k: Seq<char>| #[trigger]
                content_of(after).contains_key(k) == wanted.contains_key(k) by {
                lemma_first_with(after, k, 0);
            }
            assert forall|k: Seq<char>| content_of(after).contains_key(k) implies #[trigger]
                content_of(after)[k] == wanted[k] by {
                lemma_first_with(after, k, 0);
            }
            assert(content_of(after) =~= wanted);
        }
    }
}

/// What was stored last for a name is what the store answers for it, for as
/// long as the answer counts: for ever in a store without a lifetime, and in
/// one with a lifetime until that many seconds have gone by. Storing under one
/// name changes no answer for another.
pub proof fn lemma_store_answers_what_was_put<V>(
    content: Map<Seq<char>, (u64, V)>,
    lifetime: Option<u64>,
    key: Seq<char>,
    stored_at: u64,
    value: V,
    other: Seq<char>,
    now: u64,
)
    ensures
        lifetime is None ==> answer(content.insert(key, (stored_at, value)), lifetime, key, now)
            == Some(value),
        lifetime matches Some(seconds) ==> answer(
            content.insert(key, (stored_at, value)),
            lifetime,
            key,
            now,
        ) == if now - stored_at < seconds {
            Some(value)
        } else {
            None
        },
        other != key ==> answer(content.insert(key, (stored_at, value)), lifetime, other, now)
            == answer(content, lifetime, other, now),
{
}

} // verus!
