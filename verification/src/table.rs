//! Ordered tables: rows under text keys, walked in the order of the keys.

use vstd::prelude::*;

use crate::error::ErrorView;
use crate::error::MsgbusError;
use crate::message::PeerSyncState;
use crate::message::StoredFifoMessage;
use crate::message::StoredMessage;
use crate::message::TombstoneRange;
use crate::text::text_before;

verus! {

/// What can stand in a row: a value that can be copied.
pub trait Row: View + Sized {
    /// A copy with the same value.
    fn duplicate(&self) -> (res: Self)
        ensures
            res@ == self@,
    ;
}

impl Row for u64 {
    fn duplicate(&self) -> (res: u64) {
        *self
    }
}

impl Row for StoredMessage {
    fn duplicate(&self) -> (res: StoredMessage) {
        self.clone()
    }
}

impl Row for StoredFifoMessage {
    fn duplicate(&self) -> (res: StoredFifoMessage) {
        self.clone()
    }
}

impl Row for TombstoneRange {
    fn duplicate(&self) -> (res: TombstoneRange) {
        self.clone()
    }
}

impl Row for PeerSyncState {
    fn duplicate(&self) -> (res: PeerSyncState) {
        self.clone()
    }
}

/// `k` stands at `key` or behind it; with `past`, only behind it.
pub open spec fn from_key(key: Seq<char>, past: bool, k: Seq<char>) -> bool {
    if past {
        crate::text::text_lt(key, k)
    } else {
        crate::text::text_le(key, k)
    }
}

/// `k` is the first key of `rows` that stands at `key` or behind it.
pub open spec fn is_first_from<W>(
    rows: Map<Seq<char>, W>,
    key: Seq<char>,
    past: bool,
    k: Seq<char>,
) -> bool {
    &&& rows.contains_key(k)
    &&& from_key(key, past, k)
    &&& forall|other: Seq<char>| #[trigger]
        rows.contains_key(other) && from_key(key, past, other) ==> crate::text::text_le(k, other)
}

/// No key of `rows` stands at `key` or behind it.
pub open spec fn none_from<W>(rows: Map<Seq<char>, W>, key: Seq<char>, past: bool) -> bool {
    forall|other: Seq<char>| #[trigger] rows.contains_key(other) ==> !from_key(key, past, other)
}

/// A table of rows under text keys, as one transaction sees it.
///
/// A step can fail. What a table holds after a failed step is left open: the transaction is then
/// given up as a whole.
pub trait OrderedTable<V: Row>: Sized {
    /// The rows by their keys.
    closed spec fn rows(&self) -> Map<Seq<char>, V::V> {
        arbitrary()
    }

    /// The table is in good order.
    closed spec fn valid(&self) -> bool {
        true
    }

    /// No step on a table of this kind fails.
    closed spec fn reliable() -> bool {
        false
    }

    /// A table of this kind with `rows` can fail with `e` to put `value` under `key`.
    closed spec fn insert_fails(
        rows: Map<Seq<char>, V::V>,
        key: Seq<char>,
        value: V::V,
        e: ErrorView,
    ) -> bool {
        true
    }

    /// A table of this kind with `rows` can fail with `e` to take the row under `key` away.
    closed spec fn remove_fails(
        rows: Map<Seq<char>, V::V>,
        key: Seq<char>,
        e: ErrorView,
    ) -> bool {
        true
    }

    /// The row under `key`.
    fn get(&self, key: &str) -> (res: Result<Option<V>, MsgbusError>)
        requires
            self.valid(),
        ensures
            match res {
                Ok(Some(value)) => self.rows().contains_key(key@) && value@ == self.rows()[key@],
                Ok(None) => !self.rows().contains_key(key@),
                Err(_) => !Self::reliable(),
            },
    ;

    /// Puts a row under `key`, in place of the one that stood there.
    fn insert(&mut self, key: &str, value: V) -> (res: Result<(), MsgbusError>)
        requires
            old(self).valid(),
        ensures
            match res {
                Ok(_) => final(self).valid() && final(self).rows() == old(self).rows().insert(
                    key@,
                    value@,
                ),
                Err(e) => !Self::reliable() && Self::insert_fails(
                    old(self).rows(),
                    key@,
                    value@,
                    e@,
                ),
            },
    ;

    /// Takes the row under `key` away.
    fn remove(&mut self, key: &str) -> (res: Result<(), MsgbusError>)
        requires
            old(self).valid(),
        ensures
            match res {
                Ok(_) => final(self).valid() && final(self).rows() == old(self).rows().remove(key@),
                Err(e) => !Self::reliable() && Self::remove_fails(old(self).rows(), key@, e@),
            },
    ;

    /// The first row at `key` or behind it; with `past`, the first one behind it.
    fn seek(&self, key: &str, past: bool) -> (res: Result<Option<(String, V)>, MsgbusError>)
        requires
            self.valid(),
        ensures
            self.rows().dom().finite(),
            match res {
                Ok(Some((k, value))) => is_first_from(self.rows(), key@, past, k@) && value@
                    == self.rows()[k@],
                Ok(None) => none_from(self.rows(), key@, past),
                Err(_) => !Self::reliable(),
            },
    ;
}

/// The table could not read the row under `key`, and `e` tells why.
pub open spec fn get_failed<V: Row, T: OrderedTable<V>>(
    table: &T,
    key: Seq<char>,
    e: ErrorView,
) -> bool {
    !T::reliable() && exists|k: &str, error: MsgbusError| #[trigger]
        call_ensures(T::get, (table, k), Err::<Option<V>, MsgbusError>(error)) && k@ == key
            && error@ == e
}

/// The table could not find the first row at `key` or behind it, and `e` tells why.
pub open spec fn seek_failed<V: Row, T: OrderedTable<V>>(
    table: &T,
    key: Seq<char>,
    past: bool,
    e: ErrorView,
) -> bool {
    !T::reliable() && exists|k: &str, error: MsgbusError| #[trigger]
        call_ensures(T::seek, (table, k, past), Err::<Option<(String, V)>, MsgbusError>(error))
            && k@ == key && error@ == e
}

/// Two tables with the same rows are equal.
pub proof fn lemma_same_rows<K, W>(a: Map<K, W>, b: Map<K, W>)
    requires
        forall|k: K| #[trigger]
            a.contains_key(k) == b.contains_key(k) && (a.contains_key(k) ==> a[k] == b[k]),
    ensures
        a == b,
{
    assert forall|k: K| a.dom().contains(k) == b.dom().contains(k) by {
        assert(a.contains_key(k) == b.contains_key(k));
    }
    assert(a.dom() =~= b.dom());
    assert(a =~= b);
}

/// An ordered table in memory.
pub struct MemTable<V: Row> {
    entries: Vec<(String, V)>,
}

impl<V: Row> MemTable<V> {
    spec fn holds(&self, k: Seq<char>, i: int) -> bool {
        0 <= i < self.entries@.len() && self.entries@[i].0@ == k
    }

    spec fn find(&self, k: Seq<char>) -> int {
        choose|i: int| self.holds(k, i)
    }

    /// An empty table.
    pub fn new() -> (res: MemTable<V>)
        ensures
            res.valid(),
            res.rows() == Map::<Seq<char>, V::V>::empty(),
    {
        let res: MemTable<V> = MemTable { entries: Vec::new() };
        proof {
            assert forall|k: Seq<char>| !res.rows().contains_key(k) by {
                assert forall|i: int| !res.holds(k, i) by {}
            }
            assert(res.rows() =~= Map::<Seq<char>, V::V>::empty());
        }
        res
    }

    proof fn lemma_find(&self, i: int)
        requires
            self.valid(),
            0 <= i < self.entries@.len(),
        ensures
            self.rows().contains_key(self.entries@[i].0@),
            self.find(self.entries@[i].0@) == i,
            self.rows()[self.entries@[i].0@] == self.entries@[i].1@,
    {
        let k = self.entries@[i].0@;
        assert(self.holds(k, i));
        let f = self.find(k);
        assert(self.holds(k, f));
        crate::text::lemma_text_lt_irreflexive(k);
        if f < i {
            assert(crate::text::text_lt(self.entries@[f].0@, self.entries@[i].0@));
        } else if i < f {
            assert(crate::text::text_lt(self.entries@[i].0@, self.entries@[f].0@));
        }
    }

    /// How many keys stand before `key`; with `past`, how many stand before it or at it.
    fn lower_bound(&self, key: &str, past: bool) -> (res: usize)
        requires
            self.valid(),
        ensures
            res <= self.entries@.len(),
            forall|j: int|
                0 <= j < res ==> !from_key(key@, past, (#[trigger] self.entries@[j]).0@),
            forall|j: int|
                res <= j < self.entries@.len() ==> from_key(
                    key@,
                    past,
                    (#[trigger] self.entries@[j]).0@,
                ),
    {
        let mut lo: usize = 0;
        let mut hi: usize = self.entries.len();
        while lo < hi
            invariant
                self.valid(),
                lo <= hi <= self.entries@.len(),
                forall|j: int|
                    0 <= j < lo ==> !from_key(key@, past, (#[trigger] self.entries@[j]).0@),
                forall|j: int|
                    hi <= j < self.entries@.len() ==> from_key(
                        key@,
                        past,
                        (#[trigger] self.entries@[j]).0@,
                    ),
            decreases hi - lo,
        {
            let mid: usize = lo + (hi - lo) / 2;
            let here = self.entries[mid].0.as_str();
            let found = if past {
                text_before(key, here)
            } else {
                !text_before(here, key)
            };
            proof {
                crate::text::lemma_text_lt_total(key@, here@);
                crate::text::lemma_text_lt_irreflexive(key@);
                if crate::text::text_lt(here@, key@) && crate::text::text_lt(key@, here@) {
                    crate::text::lemma_text_lt_transitive(key@, here@, key@);
                }
                assert(found == from_key(key@, past, here@));
                if found {
                    assert forall|j: int| mid <= j < self.entries@.len() implies from_key(
                        key@,
                        past,
                        (#[trigger] self.entries@[j]).0@,
                    ) by {
                        if mid < j {
                            assert(crate::text::text_lt(here@, self.entries@[j].0@));
                            if crate::text::text_lt(key@, here@) {
                                crate::text::lemma_text_lt_transitive(
                                    key@,
                                    here@,
                                    self.entries@[j].0@,
                                );
                            }
                        }
                    }
                } else {
                    assert forall|j: int| 0 <= j <= mid implies !from_key(
                        key@,
                        past,
                        (#[trigger] self.entries@[j]).0@,
                    ) by {
                        if j < mid {
                            let there = self.entries@[j].0@;
                            assert(crate::text::text_lt(there, here@));
                            if crate::text::text_lt(key@, there) {
                                crate::text::lemma_text_lt_transitive(key@, there, here@);
                            }
                        }
                    }
                }
            }
            if found {
                hi = mid;
            } else {
                lo = mid + 1;
            }
        }
        lo
    }
}

impl<V: Row> OrderedTable<V> for MemTable<V> {
    closed spec fn rows(&self) -> Map<Seq<char>, V::V> {
        Map::new(
            |k: Seq<char>| exists|i: int| self.holds(k, i),
            |k: Seq<char>| self.entries@[self.find(k)].1@,
        )
    }

    closed spec fn valid(&self) -> bool {
        forall|i: int, j: int|
            0 <= i < j < self.entries@.len() ==> crate::text::text_lt(
                #[trigger] self.entries@[i].0@,
                #[trigger] self.entries@[j].0@,
            )
    }

    open spec fn reliable() -> bool {
        true
    }

    fn get(&self, key: &str) -> (res: Result<Option<V>, MsgbusError>) {
        let i: usize = self.lower_bound(key, false);
        if i < self.entries.len() && !text_before(key, self.entries[i].0.as_str()) {
            proof {
                self.lemma_find(i as int);
            }
            return Ok(Some(self.entries[i].1.duplicate()));
        }
        proof {
            assert forall|j: int| !self.holds(key@, j) by {
                if self.holds(key@, j) {
                    assert(from_key(key@, false, self.entries@[j].0@));
                    crate::text::lemma_text_lt_irreflexive(key@);
                    if i < j {
                        assert(crate::text::text_lt(
                            self.entries@[i as int].0@,
                            self.entries@[j].0@,
                        ));
                        crate::text::lemma_text_lt_transitive(
                            key@,
                            self.entries@[i as int].0@,
                            key@,
                        );
                    }
                }
            }
        }
        Ok(None)
    }

    fn insert(&mut self, key: &str, value: V) -> (res: Result<(), MsgbusError>) {
        let i: usize = self.lower_bound(key, false);
        let ghost before = *self;
        let ghost row = value@;
        if i < self.entries.len() && !text_before(key, self.entries[i].0.as_str()) {
            self.entries.remove(i);
        }
        proof {
            // Behind the removal every key differs from `key`.
            assert forall|j: int| 0 <= j < i implies crate::text::text_lt(
                (#[trigger] self.entries@[j]).0@,
                key@,
            ) by {
                assert(self.entries@[j] == before.entries@[j]);
                crate::text::lemma_text_lt_total(key@, self.entries@[j].0@);
            }
            assert forall|j: int| i <= j < self.entries@.len() implies crate::text::text_lt(
                key@,
                (#[trigger] self.entries@[j]).0@,
            ) by {
                if self.entries@.len() < before.entries@.len() {
                    assert(self.entries@[j] == before.entries@[j + 1]);
                    assert(crate::text::text_lt(
                        before.entries@[i as int].0@,
                        before.entries@[j + 1].0@,
                    ));
                } else {
                    assert(self.entries@[j] == before.entries@[j]);
                    if i < j {
                        assert(crate::text::text_lt(
                            before.entries@[i as int].0@,
                            before.entries@[j].0@,
                        ));
                        crate::text::lemma_text_lt_transitive(
                            key@,
                            before.entries@[i as int].0@,
                            before.entries@[j].0@,
                        );
                    }
                }
            }
            assert(self.valid());
        }
        let ghost between = *self;
        self.entries.insert(i, (key.to_owned(), value));
        proof {
            let old_rows = before.rows();
            let new_rows = self.rows();
            assert forall|m: int, n: int|
                0 <= m < n < self.entries@.len() implies crate::text::text_lt(
                #[trigger] self.entries@[m].0@,
                #[trigger] self.entries@[n].0@,
            ) by {
                let pm = if m < i { m } else { m - 1 };
                let pn = if n < i { n } else { n - 1 };
                if m != i {
                    assert(self.entries@[m] == between.entries@[pm]);
                }
                if n != i {
                    assert(self.entries@[n] == between.entries@[pn]);
                }
                if m != i && n != i {
                    assert(crate::text::text_lt(
                        between.entries@[pm].0@,
                        between.entries@[pn].0@,
                    ));
                }
            }
            assert(self.valid());
            self.lemma_find(i as int);
            assert forall|k: Seq<char>| #[trigger] new_rows.contains_key(k) == old_rows.insert(
                key@,
                row,
            ).contains_key(k) && (new_rows.contains_key(k) ==> new_rows[k] == old_rows.insert(
                key@,
                row,
            )[k]) by {
                let removed = between.entries@.len() < before.entries@.len();
                if k != key@ {
                    if new_rows.contains_key(k) {
                        let j = self.find(k);
                        assert(self.holds(k, j));
                        let pj = if j < i { j } else { j - 1 };
                        let bj = if j < i || !removed { pj } else { pj + 1 };
                        assert(self.entries@[j] == between.entries@[pj]);
                        assert(between.entries@[pj] == before.entries@[bj]);
                        before.lemma_find(bj);
                    }
                    if old_rows.contains_key(k) {
                        let j = before.find(k);
                        assert(before.holds(k, j));
                        if removed {
                            assert(before.entries@[i as int].0@ == key@);
                        }
                        let pj = if j < i || !removed { j } else { j - 1 };
                        let nj = if pj < i { pj } else { pj + 1 };
                        assert(between.entries@[pj] == before.entries@[j]);
                        assert(self.entries@[nj] == between.entries@[pj]);
                        self.lemma_find(nj);
                    }
                }
            }
            lemma_same_rows(new_rows, old_rows.insert(key@, row));
        }
        Ok(())
    }

    fn remove(&mut self, key: &str) -> (res: Result<(), MsgbusError>) {
        let i: usize = self.lower_bound(key, false);
        let ghost before = *self;
        if i < self.entries.len() && !text_before(key, self.entries[i].0.as_str()) {
            self.entries.remove(i);
        }
        proof {
            let removed = self.entries@.len() < before.entries@.len();
            let old_rows = before.rows();
            let new_rows = self.rows();
            assert forall|j: int| 0 <= j < self.entries@.len() implies (#[trigger] self.entries@[j])
                == before.entries@[if j < i || !removed { j } else { j + 1 }] by {}
            assert(self.valid()) by {
                assert forall|m: int, n: int|
                    0 <= m < n < self.entries@.len() implies crate::text::text_lt(
                    #[trigger] self.entries@[m].0@,
                    #[trigger] self.entries@[n].0@,
                ) by {
                    let bm = if m < i || !removed { m } else { m + 1 };
                    let bn = if n < i || !removed { n } else { n + 1 };
                    assert(crate::text::text_lt(before.entries@[bm].0@, before.entries@[bn].0@));
                }
            }
            assert forall|j: int| 0 <= j < self.entries@.len() implies (
            #[trigger] self.entries@[j]).0@ != key@ by {
                crate::text::lemma_text_lt_irreflexive(key@);
                let bj = if j < i || !removed { j } else { j + 1 };
                if bj > i {
                    assert(crate::text::text_lt(
                        before.entries@[i as int].0@,
                        before.entries@[bj].0@,
                    ));
                    if crate::text::text_lt(key@, before.entries@[i as int].0@) {
                        crate::text::lemma_text_lt_transitive(
                            key@,
                            before.entries@[i as int].0@,
                            before.entries@[bj].0@,
                        );
                    }
                }
            }
            assert forall|k: Seq<char>| #[trigger] new_rows.contains_key(k) == old_rows.remove(
                key@,
            ).contains_key(k) && (new_rows.contains_key(k) ==> new_rows[k] == old_rows.remove(
                key@,
            )[k]) by {
                if new_rows.contains_key(k) {
                    let j = self.find(k);
                    assert(self.holds(k, j));
                    before.lemma_find(if j < i || !removed { j } else { j + 1 });
                }
                if k != key@ && old_rows.contains_key(k) {
                    let j = before.find(k);
                    assert(before.holds(k, j));
                    if removed {
                        assert(before.entries@[i as int].0@ == key@);
                    }
                    self.lemma_find(if j < i || !removed { j } else { j - 1 });
                }
            }
            lemma_same_rows(new_rows, old_rows.remove(key@));
        }
        Ok(())
    }

    fn seek(&self, key: &str, past: bool) -> (res: Result<Option<(String, V)>, MsgbusError>) {
        proof {
            vstd::set_lib::lemma_int_range(0, self.entries@.len() as int);
            let range = vstd::set_lib::set_int_range(0, self.entries@.len() as int);
            range.lemma_map_finite(|i: int| self.entries@[i].0@);
            let mapped = range.map(|i: int| self.entries@[i].0@);
            assert forall|k: Seq<char>| self.rows().dom().contains(k) implies mapped.contains(k) by {
                let i = self.find(k);
                assert(self.holds(k, i));
                assert(range.contains(i));
            }
            vstd::set_lib::lemma_len_subset(self.rows().dom(), mapped);
        }
        let i: usize = self.lower_bound(key, past);
        if i == self.entries.len() {
            proof {
                assert forall|k: Seq<char>| #[trigger] self.rows().contains_key(k) implies !from_key(
                    key@,
                    past,
                    k,
                ) by {
                    assert(self.holds(k, self.find(k)));
                }
            }
            return Ok(None);
        }
        proof {
            self.lemma_find(i as int);
            let first = self.entries@[i as int].0@;
            assert forall|k: Seq<char>| #[trigger]
                self.rows().contains_key(k) && from_key(
                    key@,
                    past,
                    k,
                ) implies crate::text::text_le(first, k) by {
                let j = self.find(k);
                assert(self.holds(k, j));
                assert(from_key(key@, past, self.entries@[j].0@));
            }
        }
        Ok(Some((self.entries[i].0.clone(), self.entries[i].1.duplicate())))
    }
}

} // verus!
