//! The shortest-path table of a lane: for the stars that were found
//! through the lane, the number of hops to them. The table is bounded; when
//! it is full, the entry that was used least recently makes room.

use vstd::prelude::*;

verus! {

/// The cache of the outside crate that backs a path table.
#[verifier::external_type_specification]
#[verifier::external_body]
#[verifier::reject_recursive_types(K)]
#[verifier::reject_recursive_types(V)]
#[verifier::reject_recursive_types(S)]
pub struct ExLruCache<K, V, S>(lru::LruCache<K, V, S>);

/// What a cache holds: its entries, the one used most recently first.
pub uninterp spec fn lru_entries(cache: lru::LruCache<u64, usize>) -> Seq<(u64, usize)>;

/// The number of entries that a cache was made for.
pub uninterp spec fn lru_cap(cache: lru::LruCache<u64, usize>) -> nat;

/// The greatest number of entries that a path table can be made for. The
/// cache behind a table reserves room for all its entries when it is made,
/// and gives up where the machine has no such room.
pub const MAX_TABLE: usize = 65536;

/// Whether an entry has the key.
pub open spec fn has_entry(entries: Seq<(u64, usize)>, key: u64) -> bool {
    exists|i: int| 0 <= i < entries.len() && (#[trigger] entries[i]).0 == key
}

/// The place of the entry with the key.
pub open spec fn entry_index(entries: Seq<(u64, usize)>, key: u64) -> int {
    choose|i: int| 0 <= i < entries.len() && (#[trigger] entries[i]).0 == key
}

/// The value under the key, if there is one.
pub open spec fn value_of(entries: Seq<(u64, usize)>, key: u64) -> Option<usize> {
    if has_entry(entries, key) {
        Some(entries[entry_index(entries, key)].1)
    } else {
        None
    }
}

/// No key occurs twice.
pub open spec fn keys_distinct(entries: Seq<(u64, usize)>) -> bool {
    forall|i: int, j: int|
        0 <= i < entries.len() && 0 <= j < entries.len() && i != j ==> (#[trigger] entries[i]).0
            != (#[trigger] entries[j]).0
}

/// The entries after a value was put under a key: an entry with the key
/// takes the value and moves to the front; else the new entry stands at the
/// front, and the last entry leaves where the cache was full. A cache for no
/// entries stays empty.
pub open spec fn after_put(entries: Seq<(u64, usize)>, cap: nat, key: u64, value: usize) -> Seq<
    (u64, usize),
> {
    if has_entry(entries, key) {
        seq![(key, value)] + entries.remove(entry_index(entries, key))
    } else if cap == 0 {
        entries
    } else if entries.len() >= cap {
        seq![(key, value)] + entries.drop_last()
    } else {
        seq![(key, value)] + entries
    }
}

/// The entries after the value under a key was read: an entry with the
/// key moves to the front.
pub open spec fn after_get(entries: Seq<(u64, usize)>, key: u64) -> Seq<(u64, usize)> {
    if has_entry(entries, key) {
        let i = entry_index(entries, key);
        seq![entries[i]] + entries.remove(i)
    } else {
        entries
    }
}

/// Makes a cache.
///
/// Calls `lru::LruCache::new`, which makes an empty cache that holds at
/// most `cap` entries. (It reserves room for `cap` entries at once, hence
/// the bound.)
#[verifier::external_body]
fn lru_new(cap: usize) -> (r: lru::LruCache<u64, usize>)
    requires
        cap <= MAX_TABLE,
    ensures
        lru_entries(r) == Seq::<(u64, usize)>::empty(),
        lru_cap(r) == cap,
{
    lru::LruCache::new(cap)
}

/// Puts a value under a key.
///
/// Calls `lru::LruCache::put`: where the key is present its value is
/// replaced and its entry becomes the most recently used; else a new entry
/// is added as the most recently used, after the least recently used has
/// been removed where the cache is full. A cache made for no entries takes
/// none.
#[verifier::external_body]
fn lru_put(cache: &mut lru::LruCache<u64, usize>, key: u64, value: usize)
    ensures
        lru_entries(*final(cache)) == after_put(
            lru_entries(*old(cache)),
            lru_cap(*old(cache)),
            key,
            value,
        ),
        lru_cap(*final(cache)) == lru_cap(*old(cache)),
{
    cache.put(key, value);
}

/// Reads the value under a key.
///
/// Calls `lru::LruCache::get`: it returns the value where the key is
/// present, and makes its entry the most recently used.
#[verifier::external_body]
fn lru_get(cache: &mut lru::LruCache<u64, usize>, key: u64) -> (r: Option<usize>)
    ensures
        r == value_of(lru_entries(*old(cache)), key),
        lru_entries(*final(cache)) == after_get(lru_entries(*old(cache)), key),
        lru_cap(*final(cache)) == lru_cap(*old(cache)),
{
    cache.get(&key).copied()
}

/// Among distinct keys, the place of a key is the one place where it
/// stands.
pub proof fn lemma_entry_index(entries: Seq<(u64, usize)>, i: int)
    requires
        keys_distinct(entries),
        0 <= i < entries.len(),
    ensures
        has_entry(entries, entries[i].0),
        entry_index(entries, entries[i].0) == i,
        value_of(entries, entries[i].0) == Some(entries[i].1),
{
    let k = entry_index(entries, entries[i].0);
    assert(entries[k].0 == entries[i].0);
}

/// Putting keeps the keys distinct and the table within its bound, keeps
/// the values of the other keys that stay, and puts the new entry first.
pub proof fn lemma_after_put(entries: Seq<(u64, usize)>, cap: nat, key: u64, value: usize)
    requires
        keys_distinct(entries),
        entries.len() <= cap,
    ensures
        keys_distinct(after_put(entries, cap, key, value)),
        after_put(entries, cap, key, value).len() <= cap,
        cap > 0 ==> after_put(entries, cap, key, value).len() > 0 && after_put(
            entries,
            cap,
            key,
            value,
        )[0] == (key, value),
        cap > 0 ==> value_of(after_put(entries, cap, key, value), key) == Some(value),
        forall|j: int|
            0 <= j < entries.len() && j + 1 < cap && (#[trigger] entries[j]).0 != key
                && !has_entry(entries, key) ==> after_put(entries, cap, key, value)[j + 1]
                == entries[j],
        forall|j: int|
            0 <= j < entries.len() && has_entry(entries, key) && j < entry_index(entries, key)
                ==> after_put(entries, cap, key, value)[j + 1] == #[trigger] entries[j],
{
    let after = after_put(entries, cap, key, value);
    if has_entry(entries, key) {
        let i = entry_index(entries, key);
        assert(entries[i].0 == key);
        assert forall|a: int, b: int|
            0 <= a < after.len() && 0 <= b < after.len() && a != b implies (#[trigger] after[a]).0
            != (#[trigger] after[b]).0 by {
            let a2 = if a == 0 { i } else if a - 1 < i { a - 1 } else { a };
            let b2 = if b == 0 { i } else if b - 1 < i { b - 1 } else { b };
            assert(after[a].0 == entries[a2].0);
            assert(after[b].0 == entries[b2].0);
            assert(a2 != b2);
        }
    } else if cap > 0 {
        assert forall|a: int, b: int|
            0 <= a < after.len() && 0 <= b < after.len() && a != b implies (#[trigger] after[a]).0
            != (#[trigger] after[b]).0 by {
            if a > 0 {
                assert(after[a] == entries[a - 1]);
            }
            if b > 0 {
                assert(after[b] == entries[b - 1]);
            }
        }
    }
    if cap > 0 {
        assert(after[0] == (key, value));
        if keys_distinct(after) {
            lemma_entry_index(after, 0);
        }
    }
}

/// Reading keeps the keys distinct, the length, and every value.
pub proof fn lemma_after_get(entries: Seq<(u64, usize)>, key: u64, other: u64)
    requires
        keys_distinct(entries),
    ensures
        keys_distinct(after_get(entries, key)),
        after_get(entries, key).len() == entries.len(),
        value_of(after_get(entries, key), other) == value_of(entries, other),
{
    let after = after_get(entries, key);
    if has_entry(entries, key) {
        let i = entry_index(entries, key);
        assert(entries[i].0 == key);
        assert forall|a: int| 0 <= a < after.len() implies #[trigger] after[a] == entries[if a
            == 0 {
            i
        } else if a - 1 < i {
            a - 1
        } else {
            a
        }] by {}
        assert forall|a: int, b: int|
            0 <= a < after.len() && 0 <= b < after.len() && a != b implies (#[trigger] after[a]).0
            != (#[trigger] after[b]).0 by {
            let a2 = if a == 0 { i } else if a - 1 < i { a - 1 } else { a };
            let b2 = if b == 0 { i } else if b - 1 < i { b - 1 } else { b };
            assert(after[a] == entries[a2]);
            assert(after[b] == entries[b2]);
            assert(a2 != b2);
        }
        if has_entry(entries, other) {
            let j = entry_index(entries, other);
            assert(entries[j].0 == other);
            let j2 = if j == i { 0 } else if j < i { j + 1 } else { j };
            assert(after[j2] == entries[j]);
            lemma_entry_index(after, j2);
        }
        if has_entry(after, other) {
            let a = entry_index(after, other);
            assert(after[a].0 == other);
            let a2 = if a == 0 { i } else if a - 1 < i { a - 1 } else { a };
            assert(after[a] == entries[a2]);
            lemma_entry_index(entries, a2);
        }
    }
}

/// Every key is below the bound.
pub open spec fn keys_below(entries: Seq<(u64, usize)>, bound: nat) -> bool {
    forall|i: int| 0 <= i < entries.len() ==> (#[trigger] entries[i]).0 < bound
}

/// Putting a key below a bound keeps the keys below the bound.
pub proof fn lemma_put_below(
    entries: Seq<(u64, usize)>,
    cap: nat,
    key: u64,
    value: usize,
    bound: nat,
)
    requires
        keys_below(entries, bound),
        key < bound,
    ensures
        keys_below(after_put(entries, cap, key, value), bound),
{
    let after = after_put(entries, cap, key, value);
    if has_entry(entries, key) {
        let i = entry_index(entries, key);
        assert forall|a: int| 0 <= a < after.len() implies (#[trigger] after[a]).0 < bound by {
            if a > 0 {
                let a2 = if a - 1 < i { a - 1 } else { a };
                assert(after[a] == entries[a2]);
            }
        }
    } else if cap > 0 {
        assert forall|a: int| 0 <= a < after.len() implies (#[trigger] after[a]).0 < bound by {
            if a > 0 {
                assert(after[a] == entries[a - 1]);
            }
        }
    }
}

/// Reading keeps the keys below a bound.
pub proof fn lemma_get_below(entries: Seq<(u64, usize)>, key: u64, bound: nat)
    requires
        keys_below(entries, bound),
    ensures
        keys_below(after_get(entries, key), bound),
{
    let after = after_get(entries, key);
    if has_entry(entries, key) {
        let i = entry_index(entries, key);
        assert forall|a: int| 0 <= a < after.len() implies (#[trigger] after[a]).0 < bound by {
            let a2 = if a == 0 { i } else if a - 1 < i { a - 1 } else { a };
            assert(after[a] == entries[a2]);
        }
    }
}

/// A table whose keys lie below a bound knows nothing of the bound or
/// beyond.
pub proof fn lemma_below_unknown(entries: Seq<(u64, usize)>, bound: nat, key: u64)
    requires
        keys_below(entries, bound),
        key >= bound,
    ensures
        value_of(entries, key) is None,
{
    if has_entry(entries, key) {
        let i = entry_index(entries, key);
        assert(entries[i].0 == key);
    }
}

/// The shortest-path table of a lane.
pub struct PathTable {
    cache: lru::LruCache<u64, usize>,
    limit: usize,
}

impl View for PathTable {
    type V = Seq<(u64, usize)>;

    closed spec fn view(&self) -> Seq<(u64, usize)> {
        lru_entries(self.cache)
    }
}

impl PathTable {
    /// The number of entries that the table was made for.
    pub closed spec fn cap(&self) -> nat {
        lru_cap(self.cache)
    }

    /// The table holds each star once, and no more stars than it was made
    /// for.
    pub closed spec fn wf(&self) -> bool {
        keys_distinct(self@) && self@.len() <= self.cap() && self.limit == self.cap()
    }

    /// What a well-formed table holds.
    pub proof fn lemma_wf(&self)
        requires
            self.wf(),
        ensures
            keys_distinct(self@),
            self@.len() <= self.cap(),
    {
    }

    /// The number of entries that the table was made for.
    pub fn capacity(&self) -> (r: usize)
        requires
            self.wf(),
        ensures
            r == self.cap(),
    {
        self.limit
    }

    /// The hops to a star, as the table has them.
    pub open spec fn hops_to(&self, star: u64) -> Option<usize> {
        value_of(self@, star)
    }

    /// An empty table for at most `cap` stars.
    pub fn new(cap: usize) -> (r: PathTable)
        requires
            cap <= MAX_TABLE,
        ensures
            r.wf(),
            r@ == Seq::<(u64, usize)>::empty(),
            r.cap() == cap,
    {
        PathTable { cache: lru_new(cap), limit: cap }
    }

    /// Notes the hops to a star. The entry becomes the most recently used;
    /// where the table is full and the star is new, the entry used least
    /// recently makes room.
    pub fn put(&mut self, star: u64, hops: usize)
        requires
            old(self).wf(),
        ensures
            final(self).wf(),
            final(self).cap() == old(self).cap(),
            final(self)@ == after_put(old(self)@, old(self).cap(), star, hops),
            old(self).cap() > 0 ==> final(self).hops_to(star) == Some(hops),
            forall|bound: nat|
                keys_below(old(self)@, bound) && star < bound ==> #[trigger] keys_below(
                    final(self)@,
                    bound,
                ),
    {
        proof {
            lemma_after_put(self@, self.cap(), star, hops);
            assert forall|bound: nat| keys_below(self@, bound) && star < bound implies #[trigger] keys_below(
                after_put(self@, self.cap(), star, hops),
                bound,
            ) by {
                lemma_put_below(self@, self.cap(), star, hops, bound);
            }
        }
        lru_put(&mut self.cache, star, hops);
    }

    /// The hops to a star, where the table has them. The entry becomes the
    /// most recently used; no entry leaves and no value changes.
    pub fn get(&mut self, star: u64) -> (r: Option<usize>)
        requires
            old(self).wf(),
        ensures
            final(self).wf(),
            final(self).cap() == old(self).cap(),
            r == old(self).hops_to(star),
            final(self)@ == after_get(old(self)@, star),
            forall|other: u64| final(self).hops_to(other) == old(self).hops_to(other),
            forall|bound: nat|
                keys_below(old(self)@, bound) ==> #[trigger] keys_below(final(self)@, bound),
    {
        proof {
            assert forall|bound: nat| keys_below(self@, bound) implies #[trigger] keys_below(
                after_get(self@, star),
                bound,
            ) by {
                lemma_get_below(self@, star, bound);
            }
            assert forall|other: u64|
                value_of(after_get(self@, star), other) == value_of(self@, other) by {
                lemma_after_get(self@, star, other);
            }
            lemma_after_get(self@, star, star);
        }
        lru_get(&mut self.cache, star)
    }

    /// Notes the hops to each of a list of stars, in order.
    pub fn put_all(&mut self, hits: &Vec<(u64, usize)>)
        requires
            old(self).wf(),
            keys_distinct(hits@),
            hits@.len() <= old(self).cap(),
        ensures
            final(self).wf(),
            final(self).cap() == old(self).cap(),
            forall|t: int|
                0 <= t < hits@.len() ==> final(self).hops_to((#[trigger] hits@[t]).0) == Some(
                    hits@[t].1,
                ),
            forall|bound: nat|
                keys_below(old(self)@, bound) && keys_below(hits@, bound) ==> #[trigger] keys_below(
                    final(self)@,
                    bound,
                ),
    {
        let mut j: usize = 0;
        while j < hits.len()
            invariant
                j <= hits.len(),
                self.wf(),
                forall|bound: nat|
                    keys_below(old(self)@, bound) && keys_below(hits@, bound) ==> #[trigger] keys_below(
                        self@,
                        bound,
                    ),
                self.cap() == old(self).cap(),
                keys_distinct(hits@),
                hits@.len() <= self.cap(),
                self@.len() >= j,
                forall|t: int| 0 <= t < j ==> self@[j - 1 - t] == #[trigger] hits@[t],
            decreases hits.len() - j,
        {
            let ghost before = self@;
            let (star, hops) = hits[j];
            proof {
                lemma_after_put(before, self.cap(), star, hops);
                if has_entry(before, star) {
                    let i = entry_index(before, star);
                    assert(before[i].0 == star);
                    if i < j {
                        assert(before[j - 1 - (j - 1 - i)] == hits@[j - 1 - i]);
                        assert(hits@[j - 1 - i].0 != hits@[j as int].0);
                    }
                } else {
                    assert forall|t: int| 0 <= t < j implies (#[trigger] before[t]).0 != star by {
                        assert(before[j - 1 - (j - 1 - t)] == hits@[j - 1 - t]);
                    }
                }
            }
            self.put(star, hops);
            proof {
                assert forall|t: int| 0 <= t < j + 1 implies self@[j - t] == #[trigger] hits@[t] by {
                    if t < j {
                        assert(before[j - 1 - t] == hits@[t]);
                        assert(self@[(j - 1 - t) + 1] == before[j - 1 - t]);
                    }
                }
            }
            j += 1;
        }
        proof {
            assert forall|t: int| 0 <= t < hits@.len() implies self.hops_to(
                (#[trigger] hits@[t]).0,
            ) == Some(hits@[t].1) by {
                assert(self@[j - 1 - t] == hits@[t]);
                lemma_entry_index(self@, j - 1 - t);
            }
        }
    }
}

} // verus!
