use vstd::prelude::*;

verus! {

/// An ordered table from `u64` keys to values, kept as a list of entries in
/// strictly ascending key order.
pub struct Table<V> {
    entries: Vec<(u64, V)>,
}

/// Whether `key` lies behind the cursor: strictly above it, or anywhere when
/// there is no cursor.
pub open spec fn after(start_after: Option<u64>, key: u64) -> bool {
    match start_after {
        Some(cursor) => key > cursor,
        None => true,
    }
}

/// `page` is the page of `keys` that starts behind `start_after` and holds at
/// most `limit` of them: the lowest such keys, in ascending order, none left
/// out in between.
pub open spec fn is_page(keys: Set<u64>, start_after: Option<u64>, limit: nat, page: Seq<u64>) -> bool {
    &&& page.len() <= limit
    &&& forall|i: int, j: int| 0 <= i < j < page.len() ==> page[i] < page[j]
    &&& forall|i: int| 0 <= i < page.len() ==> keys.contains(#[trigger] page[i]) && after(start_after, page[i])
    &&& forall|k: u64| #[trigger]
        keys.contains(k) && after(start_after, k) ==> page.contains(k) || (page.len() == limit && (page.len() > 0
            ==> page.last() < k))
}

/// Given that two pages of the same keys agree below `n`, the second has no
/// higher key at `n` than the first.
proof fn lemma_page_step(
    keys: Set<u64>,
    start_after: Option<u64>,
    limit: nat,
    p: Seq<u64>,
    q: Seq<u64>,
    n: int,
)
    requires
        is_page(keys, start_after, limit, p),
        is_page(keys, start_after, limit, q),
        0 <= n < p.len(),
        n < q.len(),
        forall|j: int| 0 <= j < n ==> p[j] == q[j],
    ensures
        q[n] <= p[n],
{
    let k = p[n];
    assert(keys.contains(k) && after(start_after, k));
    if q.contains(k) {
        let m = choose|m: int| 0 <= m < q.len() && q[m] == k;
        if m < n {
            assert(p[m] == q[m]);
            assert(p[m] < p[n]);
        }
        if m > n {
            assert(q[n] < q[m]);
        }
    } else if n < q.len() - 1 {
        assert(q[n] < q[q.len() - 1]);
    }
}

/// Two pages of the same keys agree on their first `i` places.
proof fn lemma_page_agree(
    keys: Set<u64>,
    start_after: Option<u64>,
    limit: nat,
    p: Seq<u64>,
    q: Seq<u64>,
    i: nat,
)
    requires
        is_page(keys, start_after, limit, p),
        is_page(keys, start_after, limit, q),
        i <= p.len(),
        i <= q.len(),
    ensures
        forall|j: int| 0 <= j < i ==> p[j] == q[j],
    decreases i,
{
    if i > 0 {
        lemma_page_agree(keys, start_after, limit, p, q, (i - 1) as nat);
        lemma_page_step(keys, start_after, limit, p, q, i - 1);
        lemma_page_step(keys, start_after, limit, q, p, i - 1);
    }
}

/// A page that is no longer than another of the same keys is not shorter either.
proof fn lemma_page_length(
    keys: Set<u64>,
    start_after: Option<u64>,
    limit: nat,
    p: Seq<u64>,
    q: Seq<u64>,
)
    requires
        is_page(keys, start_after, limit, p),
        is_page(keys, start_after, limit, q),
        p.len() <= q.len(),
    ensures
        p.len() == q.len(),
{
    if p.len() < q.len() {
        let n = p.len() as int;
        let k = q[n];
        lemma_page_agree(keys, start_after, limit, p, q, p.len());
        assert(keys.contains(k) && after(start_after, k));
        if p.contains(k) {
            let m = choose|m: int| 0 <= m < p.len() && p[m] == k;
            assert(p[m] == q[m]);
            assert(q[m] < q[n]);
        }
    }
}

/// The keys, the cursor and the limit determine the page: there is one only.
pub proof fn lemma_page_unique(
    keys: Set<u64>,
    start_after: Option<u64>,
    limit: nat,
    p: Seq<u64>,
    q: Seq<u64>,
)
    requires
        is_page(keys, start_after, limit, p),
        is_page(keys, start_after, limit, q),
    ensures
        p == q,
{
    if p.len() <= q.len() {
        lemma_page_length(keys, start_after, limit, p, q);
    } else {
        lemma_page_length(keys, start_after, limit, q, p);
    }
    lemma_page_agree(keys, start_after, limit, p, q, p.len());
    assert(p =~= q);
}

/// A page never holds a key at or below its cursor, never more keys than its
/// limit, and its keys ascend strictly.
pub proof fn lemma_page_bounds(keys: Set<u64>, cursor: u64, limit: nat, page: Seq<u64>)
    requires
        is_page(keys, Some(cursor), limit, page),
    ensures
        page.len() <= limit,
        forall|i: int| 0 <= i < page.len() ==> page[i] > cursor,
        forall|i: int, j: int| 0 <= i < j < page.len() ==> page[i] < page[j],
{
}

impl<V> View for Table<V> {
    type V = Map<u64, V>;

    closed spec fn view(&self) -> Map<u64, V> {
        Map::new(
            |k: u64| exists|i: int| 0 <= i < self.entries.len() && (#[trigger] self.entries[i]).0 == k,
            |k: u64|
                self.entries[choose|i: int| 0 <= i < self.entries.len() && (#[trigger] self.entries[i]).0 == k].1,
        )
    }
}

impl<V> Table<V> {
    /// The keys stand in strictly ascending order.
    pub closed spec fn wf(&self) -> bool {
        forall|i: int, j: int| 0 <= i < j < self.entries.len() ==> self.entries[i].0 < self.entries[j].0
    }

    /// Each entry is what the table maps its key to.
    proof fn lemma_entry(&self, i: int)
        requires
            self.wf(),
            0 <= i < self.entries.len(),
        ensures
            self@.contains_key(self.entries[i].0),
            self@[self.entries[i].0] == self.entries[i].1,
    {
        let k = self.entries[i].0;
        let c = choose|c: int| 0 <= c < self.entries.len() && (#[trigger] self.entries[c]).0 == k;
        if c < i {
            assert(self.entries[c].0 < self.entries[i].0);
        }
        if i < c {
            assert(self.entries[i].0 < self.entries[c].0);
        }
    }

    /// The empty table.
    pub fn new() -> (table: Self)
        ensures
            table.wf(),
            table@ == Map::<u64, V>::empty(),
    {
        let table = Table { entries: Vec::new() };
        assert(table@ =~= Map::<u64, V>::empty());
        table
    }

    /// The place of the first entry whose key is `key` or above.
    fn position(&self, key: u64) -> (i: usize)
        requires
            self.wf(),
        ensures
            i <= self.entries.len(),
            forall|j: int| 0 <= j < i ==> (#[trigger] self.entries[j]).0 < key,
            forall|j: int| i <= j < self.entries.len() ==> (#[trigger] self.entries[j]).0 >= key,
    {
        let mut i: usize = 0;
        while i < self.entries.len() && self.entries[i].0 < key
            invariant
                i <= self.entries.len(),
                forall|j: int| 0 <= j < i ==> (#[trigger] self.entries[j]).0 < key,
            decreases self.entries.len() - i,
        {
            i += 1;
        }
        assert forall|j: int| i <= j < self.entries.len() implies (#[trigger] self.entries[j]).0 >= key by {
            if i < j {
                assert(self.entries[i as int].0 < self.entries[j].0);
            }
        }
        i
    }

    /// The value stored under `key`, if there is one.
    pub fn get(&self, key: u64) -> (r: Option<&V>)
        requires
            self.wf(),
        ensures
            match r {
                Some(value) => self@.contains_key(key) && self@[key] == *value,
                None => !self@.contains_key(key),
            },
    {
        let i = self.position(key);
        if i < self.entries.len() && self.entries[i].0 == key {
            proof {
                self.lemma_entry(i as int);
            }
            Some(&self.entries[i].1)
        } else {
            None
        }
    }

    /// Stores `value` under `key`, in place of what was stored there.
    pub fn put(&mut self, key: u64, value: V)
        requires
            old(self).wf(),
        ensures
            final(self).wf(),
            final(self)@ == old(self)@.insert(key, value),
    {
        let i = self.position(key);
        let ghost before = self.entries@;
        if i < self.entries.len() && self.entries[i].0 == key {
            self.entries.set(i, (key, value));
            assert(self.wf()) by {
                assert forall|a: int, b: int| 0 <= a < b < self.entries.len() implies self.entries[a].0
                    < self.entries[b].0 by {
                    assert(before[a].0 < before[b].0);
                }
            }
            assert forall|k: u64| #[trigger] self@.contains_key(k) == old(self)@.insert(key, value).contains_key(k) by {
                if self@.contains_key(k) {
                    let c = choose|c: int| 0 <= c < self.entries.len() && (#[trigger] self.entries[c]).0 == k;
                    assert(before[c].0 == k);
                }
                if old(self)@.contains_key(k) {
                    let c = choose|c: int| 0 <= c < before.len() && (#[trigger] before[c]).0 == k;
                    assert(self.entries[c].0 == k);
                }
                assert(self.entries[i as int].0 == key);
            }
            assert forall|k: u64| #[trigger] self@.contains_key(k) implies self@[k] == old(self)@.insert(key, value)[k] by {
                let c = choose|c: int| 0 <= c < self.entries.len() && (#[trigger] self.entries[c]).0 == k;
                self.lemma_entry(c);
                if c != i {
                    assert(before[c].0 == k);
                    old(self).lemma_entry(c);
                }
            }
        } else {
            self.entries.insert(i, (key, value));
            assert(self.wf()) by {
                assert forall|a: int, b: int| 0 <= a < b < self.entries.len() implies self.entries[a].0
                    < self.entries[b].0 by {
                    let a0 = if a < i { a } else { a - 1 };
                    let b0 = if b < i { b } else { b - 1 };
                    if a != i && b != i {
                        assert(before[a0].0 < before[b0].0);
                    } else if a == i {
                        assert(before[b0].0 >= key);
                        if b0 > i {
                            assert(before[i as int].0 < before[b0].0);
                        }
                    } else {
                        assert(before[a0].0 < key);
                    }
                }
            }
            assert forall|k: u64| #[trigger] self@.contains_key(k) == old(self)@.insert(key, value).contains_key(k) by {
                if self@.contains_key(k) && k != key {
                    let c = choose|c: int| 0 <= c < self.entries.len() && (#[trigger] self.entries[c]).0 == k;
                    let c0 = if c < i { c } else { c - 1 };
                    assert(before[c0].0 == k);
                }
                if old(self)@.contains_key(k) {
                    let c = choose|c: int| 0 <= c < before.len() && (#[trigger] before[c]).0 == k;
                    let c1 = if c < i { c } else { c + 1 };
                    assert(self.entries[c1].0 == k);
                }
                assert(self.entries[i as int].0 == key);
            }
            assert forall|k: u64| #[trigger] self@.contains_key(k) implies self@[k] == old(self)@.insert(key, value)[k] by {
                let c = choose|c: int| 0 <= c < self.entries.len() && (#[trigger] self.entries[c]).0 == k;
                self.lemma_entry(c);
                if c != i {
                    let c0 = if c < i { c } else { c - 1 };
                    assert(before[c0].0 == k);
                    old(self).lemma_entry(c0);
                }
            }
        }
        assert(self@ =~= old(self)@.insert(key, value));
    }

    /// Removes what is stored under `key`, if anything is.
    pub fn remove(&mut self, key: u64)
        requires
            old(self).wf(),
        ensures
            final(self).wf(),
            final(self)@ == old(self)@.remove(key),
    {
        let i = self.position(key);
        let ghost before = self.entries@;
        if i < self.entries.len() && self.entries[i].0 == key {
            self.entries.remove(i);
            assert(self.wf()) by {
                assert forall|a: int, b: int| 0 <= a < b < self.entries.len() implies self.entries[a].0
                    < self.entries[b].0 by {
                    let a0 = if a < i { a } else { a + 1 };
                    let b0 = if b < i { b } else { b + 1 };
                    assert(before[a0].0 < before[b0].0);
                }
            }
            assert forall|k: u64| #[trigger] self@.contains_key(k) == old(self)@.remove(key).contains_key(k) by {
                if self@.contains_key(k) {
                    let c = choose|c: int| 0 <= c < self.entries.len() && (#[trigger] self.entries[c]).0 == k;
                    let c0 = if c < i { c } else { c + 1 };
                    assert(before[c0].0 == k);
                    if c0 < i {
                        assert(before[c0].0 < before[i as int].0);
                    } else {
                        assert(before[i as int].0 < before[c0].0);
                    }
                }
                if old(self)@.contains_key(k) && k != key {
                    let c = choose|c: int| 0 <= c < before.len() && (#[trigger] before[c]).0 == k;
                    let c1 = if c < i { c } else { c - 1 };
                    assert(self.entries[c1].0 == k);
                }
            }
            assert forall|k: u64| #[trigger] self@.contains_key(k) implies self@[k] == old(self)@.remove(key)[k] by {
                let c = choose|c: int| 0 <= c < self.entries.len() && (#[trigger] self.entries[c]).0 == k;
                self.lemma_entry(c);
                let c0 = if c < i { c } else { c + 1 };
                assert(before[c0].0 == k);
                old(self).lemma_entry(c0);
            }
        } else {
            assert(!self@.contains_key(key)) by {
                if self@.contains_key(key) {
                    let c = choose|c: int| 0 <= c < self.entries.len() && (#[trigger] self.entries[c]).0 == key;
                    if c < i {
                        assert(self.entries[c].0 < key);
                    } else if c > i {
                        assert(self.entries[i as int].0 < self.entries[c].0);
                    }
                }
            }
        }
        assert(self@ =~= old(self)@.remove(key));
    }

    /// The keys of one page: those behind `start_after`, lowest first, `limit` of
    /// them at most.
    pub fn keys_after(&self, start_after: Option<u64>, limit: usize) -> (page: Vec<u64>)
        requires
            self.wf(),
        ensures
            is_page(self@.dom(), start_after, limit as nat, page@),
    {
        let mut lo: usize = 0;
        while lo < self.entries.len() && !Self::behind(start_after, self.entries[lo].0)
            invariant
                lo <= self.entries.len(),
                forall|j: int| 0 <= j < lo ==> !after(start_after, (#[trigger] self.entries[j]).0),
            decreases self.entries.len() - lo,
        {
            lo += 1;
        }
        assert forall|j: int| lo <= j < self.entries.len() implies after(
            start_after,
            (#[trigger] self.entries[j]).0,
        ) by {
            if lo < j {
                assert(self.entries[lo as int].0 < self.entries[j].0);
            }
        }
        let rest = self.entries.len() - lo;
        let count = if limit < rest { limit } else { rest };
        let mut page: Vec<u64> = Vec::new();
        let mut n: usize = 0;
        while n < count
            invariant
                n <= count,
                lo + count <= self.entries.len(),
                page.len() == n,
                forall|j: int| 0 <= j < n ==> #[trigger] page[j] == self.entries[lo + j].0,
            decreases count - n,
        {
            page.push(self.entries[lo + n].0);
            n += 1;
        }
        proof {
            assert forall|i: int, j: int| 0 <= i < j < page.len() implies page[i] < page[j] by {
                assert(self.entries[lo + i].0 < self.entries[lo + j].0);
            }
            assert forall|i: int| 0 <= i < page.len() implies self@.dom().contains(#[trigger] page[i]) && after(
                start_after,
                page[i],
            ) by {
                self.lemma_entry(lo + i);
                assert(after(start_after, self.entries[lo + i].0));
            }
            assert forall|k: u64| #[trigger] self@.dom().contains(k) && after(start_after, k) implies page@.contains(k)
                || (page.len() == limit && (page.len() > 0 ==> page@.last() < k)) by {
                let c = choose|c: int| 0 <= c < self.entries.len() && (#[trigger] self.entries[c]).0 == k;
                if c < lo {
                    assert(!after(start_after, self.entries[c].0));
                }
                if c < lo + count {
                    assert(page[c - lo] == k);
                } else if count > 0 {
                    assert(self.entries[lo + count - 1].0 < self.entries[c].0);
                    assert(page[count - 1] == self.entries[lo + (count - 1)].0);
                }
            }
        }
        page
    }

    fn behind(start_after: Option<u64>, key: u64) -> (r: bool)
        ensures
            r == after(start_after, key),
    {
        match start_after {
            Some(cursor) => key > cursor,
            None => true,
        }
    }
}

} // verus!
