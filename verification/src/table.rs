//! The connection table: which connection owns which connection ID.

use crate::packet::ConnectionId;
use vstd::prelude::*;

verus! {

/// One line of the table.
#[derive(Debug)]
pub struct TableEntry {
    pub cid: ConnectionId,
    pub c: usize,
}

/// The table `m` without the connection IDs of connection `c`.
pub open spec fn purged(m: Map<Seq<u8>, usize>, c: usize) -> Map<Seq<u8>, usize> {
    Map::new(|k: Seq<u8>| m.contains_key(k) && m[k] != c, |k: Seq<u8>| m[k])
}

/// Whether connection `c` owns a connection ID of the table `m`.
pub open spec fn owns_some(m: Map<Seq<u8>, usize>, c: usize) -> bool {
    exists|k: Seq<u8>| m.contains_key(k) && m[k] == c
}

/// No connection ID stands in two lines.
pub open spec fn distinct_keys(s: Seq<TableEntry>) -> bool {
    forall|i: int, j: int| 0 <= i < s.len() && 0 <= j < s.len() && i != j ==> s[i].cid@ != s[j].cid@
}

/// The index of a line for the connection ID `k`.
pub open spec fn line_of(s: Seq<TableEntry>, k: Seq<u8>) -> int {
    choose|i: int| 0 <= i < s.len() && s[i].cid@ == k
}

/// The mapping that the lines `s` stand for.
pub open spec fn map_of(s: Seq<TableEntry>) -> Map<Seq<u8>, usize> {
    Map::new(
        |k: Seq<u8>| exists|i: int| 0 <= i < s.len() && s[i].cid@ == k,
        |k: Seq<u8>| s[line_of(s, k)].c,
    )
}

/// Each line is found under its connection ID.
pub proof fn lemma_map_of(s: Seq<TableEntry>, i: int)
    requires
        distinct_keys(s),
        0 <= i < s.len(),
    ensures
        map_of(s).contains_key(s[i].cid@),
        map_of(s)[s[i].cid@] == s[i].c,
{
    let k = s[i].cid@;
    let j = line_of(s, k);
    assert(0 <= j < s.len() && s[j].cid@ == k);
    assert(j == i);
}

/// A connection ID of the mapping stands in some line.
pub proof fn lemma_map_of_line(s: Seq<TableEntry>, k: Seq<u8>)
    requires
        distinct_keys(s),
        map_of(s).contains_key(k),
    ensures
        0 <= line_of(s, k) < s.len(),
        s[line_of(s, k)].cid@ == k,
        s[line_of(s, k)].c == map_of(s)[k],
{
}

/// The connection table of a server.
#[derive(Debug)]
pub struct ConnectionTable {
    entries: Vec<TableEntry>,
}

impl View for ConnectionTable {
    type V = Map<Seq<u8>, usize>;

    closed spec fn view(&self) -> Map<Seq<u8>, usize> {
        map_of(self.entries@)
    }
}

impl ConnectionTable {
    /// No connection ID stands in the table twice.
    pub closed spec fn wf(&self) -> bool {
        distinct_keys(self.entries@)
    }

    /// The empty table.
    pub fn new() -> (r: ConnectionTable)
        ensures
            r.wf(),
            r@ == Map::<Seq<u8>, usize>::empty(),
    {
        let r = ConnectionTable { entries: Vec::new() };
        assert(r@ =~= Map::<Seq<u8>, usize>::empty());
        r
    }

    /// The index of the line for `cid`, if there is one.
    fn find(&self, cid: &ConnectionId) -> (r: Option<usize>)
        requires
            self.wf(),
        ensures
            match r {
                Some(i) => i < self.entries@.len() && self.entries@[i as int].cid@ == cid@,
                None => !self@.contains_key(cid@),
            },
    {
        let mut i: usize = 0;
        while i < self.entries.len()
            invariant
                0 <= i <= self.entries@.len(),
                forall|j: int| 0 <= j < i ==> self.entries@[j].cid@ != cid@,
            decreases self.entries@.len() - i,
        {
            if self.entries[i].cid.same(cid) {
                return Some(i);
            }
            i += 1;
        }
        None
    }

    /// The connection that owns `cid`.
    pub fn get(&self, cid: &ConnectionId) -> (r: Option<usize>)
        requires
            self.wf(),
        ensures
            r == if self@.contains_key(cid@) {
                Some(self@[cid@])
            } else {
                None
            },
    {
        match self.find(cid) {
            Some(i) => {
                proof {
                    lemma_map_of(self.entries@, i as int);
                }
                Some(self.entries[i].c)
            },
            None => None,
        }
    }

    /// Gives `cid` to connection `c`, and returns the connection that owned
    /// it until now.
    pub fn insert(&mut self, cid: ConnectionId, c: usize) -> (r: Option<usize>)
        requires
            old(self).wf(),
        ensures
            final(self).wf(),
            final(self)@ == old(self)@.insert(cid@, c),
            r == if old(self)@.contains_key(cid@) {
                Some(old(self)@[cid@])
            } else {
                None
            },
    {
        let ghost s = self.entries@;
        let ghost key = cid@;
        match self.find(&cid) {
            Some(i) => {
                proof {
                    lemma_map_of(s, i as int);
                }
                let before = self.entries[i].c;
                self.entries.set(i, TableEntry { cid, c });
                proof {
                    let t = self.entries@;
                    assert(distinct_keys(t)) by {
                        assert forall|a: int, b: int|
                            0 <= a < t.len() && 0 <= b < t.len() && a != b implies t[a].cid@
                            != t[b].cid@ by {
                            assert(t[a].cid@ == s[a].cid@);
                            assert(t[b].cid@ == s[b].cid@);
                        }
                    }
                    assert forall|k: Seq<u8>| #[trigger]
                        map_of(t).contains_key(k) == map_of(s).insert(key, c).contains_key(k) by {
                        if map_of(s).contains_key(k) {
                            lemma_map_of_line(s, k);
                            let a = line_of(s, k);
                            assert(t[a].cid@ == k);
                        }
                        if map_of(t).contains_key(k) {
                            lemma_map_of_line(t, k);
                            let a = line_of(t, k);
                            assert(s[a].cid@ == k);
                        }
                    }
                    assert forall|k: Seq<u8>| #[trigger]
                        map_of(t).contains_key(k) implies map_of(t)[k] == map_of(s).insert(key, c)[k] by {
                        lemma_map_of_line(t, k);
                        let a = line_of(t, k);
                        if a != i {
                            assert(t[a] == s[a]);
                            lemma_map_of(s, a);
                        }
                    }
                    assert(map_of(t) =~= map_of(s).insert(key, c));
                }
                Some(before)
            },
            None => {
                self.entries.push(TableEntry { cid, c });
                proof {
                    let t = self.entries@;
                    assert(distinct_keys(t)) by {
                        assert forall|a: int, b: int|
                            0 <= a < t.len() && 0 <= b < t.len() && a != b implies t[a].cid@
                            != t[b].cid@ by {
                            if a < s.len() {
                                assert(t[a] == s[a]);
                            }
                            if b < s.len() {
                                assert(t[b] == s[b]);
                            }
                        }
                    }
                    assert forall|k: Seq<u8>| #[trigger]
                        map_of(t).contains_key(k) == map_of(s).insert(key, c).contains_key(k) by {
                        if map_of(s).contains_key(k) {
                            lemma_map_of_line(s, k);
                            let a = line_of(s, k);
                            assert(t[a].cid@ == k);
                        }
                        if map_of(t).contains_key(k) {
                            lemma_map_of_line(t, k);
                            let a = line_of(t, k);
                            if a < s.len() {
                                assert(s[a].cid@ == k);
                            }
                        }
                        if k == key {
                            assert(t[s.len() as int].cid@ == k);
                        }
                    }
                    assert forall|k: Seq<u8>| #[trigger]
                        map_of(t).contains_key(k) implies map_of(t)[k] == map_of(s).insert(key, c)[k] by {
                        lemma_map_of_line(t, k);
                        let a = line_of(t, k);
                        if a < s.len() {
                            assert(t[a] == s[a]);
                            lemma_map_of(s, a);
                        }
                    }
                    assert(map_of(t) =~= map_of(s).insert(key, c));
                }
                None
            },
        }
    }

    /// Takes every connection ID of connection `c` out of the table.
    pub fn purge(&mut self, c: usize)
        requires
            old(self).wf(),
        ensures
            final(self).wf(),
            final(self)@ == purged(old(self)@, c),
    {
        let ghost s = self.entries@;
        let mut i: usize = 0;
        while i < self.entries.len()
            invariant
                0 <= i <= self.entries@.len(),
                distinct_keys(self.entries@),
                purged(map_of(self.entries@), c) == purged(map_of(s), c),
                forall|j: int| 0 <= j < i ==> self.entries@[j].c != c,
            decreases self.entries@.len() - i,
        {
            if self.entries[i].c == c {
                let ghost before = self.entries@;
                proof {
                    lemma_swap_remove(before, i as int);
                    lemma_map_of(before, i as int);
                }
                self.entries.swap_remove(i);
                assert(purged(map_of(self.entries@), c) =~= purged(map_of(before), c));
            } else {
                i += 1;
            }
        }
        proof {
            let t = self.entries@;
            assert forall|k: Seq<u8>| #[trigger] map_of(t).contains_key(k) implies map_of(t)[k]
                != c by {
                lemma_map_of_line(t, k);
            }
            assert(map_of(t) =~= purged(map_of(t), c));
        }
    }

    /// The number of connection IDs in the table.
    pub fn len(&self) -> (r: usize)
        requires
            self.wf(),
        ensures
            r == self@.dom().len(),
            self@.dom().finite(),
    {
        proof {
            lemma_map_of_len(self.entries@);
        }
        self.entries.len()
    }
}

/// Moving the last line to index `i` takes the connection ID of line `i`
/// out of the mapping and leaves the rest.
pub proof fn lemma_swap_remove(s: Seq<TableEntry>, i: int)
    requires
        distinct_keys(s),
        0 <= i < s.len(),
    ensures
        distinct_keys(s.update(i, s.last()).drop_last()),
        map_of(s.update(i, s.last()).drop_last()) == map_of(s).remove(s[i].cid@),
{
    let t = s.update(i, s.last()).drop_last();
    let n = s.len() - 1;
    assert forall|a: int| 0 <= a < t.len() implies t[a] == s[if a == i {
        n
    } else {
        a
    }] by {}
    assert forall|a: int, b: int|
        0 <= a < t.len() && 0 <= b < t.len() && a != b implies t[a].cid@ != t[b].cid@ by {
        let sa = if a == i { n } else { a };
        let sb = if b == i { n } else { b };
        assert(t[a] == s[sa]);
        assert(t[b] == s[sb]);
    }
    let m = map_of(s).remove(s[i].cid@);
    assert forall|k: Seq<u8>| #[trigger] map_of(t).contains_key(k) == m.contains_key(k) by {
        if map_of(t).contains_key(k) {
            lemma_map_of_line(t, k);
            let a = line_of(t, k);
            let sa = if a == i { n } else { a };
            assert(t[a] == s[sa]);
            assert(s[sa].cid@ == k);
            assert(sa != i);
        }
        if m.contains_key(k) {
            lemma_map_of_line(s, k);
            let a = line_of(s, k);
            assert(a != i);
            if a == n {
                assert(t[i].cid@ == k);
            } else {
                assert(t[a].cid@ == k);
            }
        }
    }
    assert forall|k: Seq<u8>| #[trigger] map_of(t).contains_key(k) implies map_of(t)[k] == m[k] by {
        lemma_map_of_line(t, k);
        let a = line_of(t, k);
        let sa = if a == i { n } else { a };
        assert(t[a] == s[sa]);
        lemma_map_of(s, sa);
    }
    assert(map_of(t) =~= m);
}

/// A table of distinct connection IDs holds as many of them as it has lines.
pub proof fn lemma_map_of_len(s: Seq<TableEntry>)
    requires
        distinct_keys(s),
    ensures
        map_of(s).dom().finite(),
        map_of(s).dom().len() == s.len(),
    decreases s.len(),
{
    if s.len() == 0 {
        assert(map_of(s).dom() =~= Set::<Seq<u8>>::empty());
    } else {
        let t = s.drop_last();
        let k = s.last().cid@;
        assert(distinct_keys(t)) by {
            assert forall|i: int, j: int|
                0 <= i < t.len() && 0 <= j < t.len() && i != j implies t[i].cid@ != t[j].cid@ by {
                assert(t[i] == s[i]);
                assert(t[j] == s[j]);
            }
        }
        lemma_map_of_len(t);
        assert(!map_of(t).dom().contains(k)) by {
            if map_of(t).dom().contains(k) {
                lemma_map_of_line(t, k);
                let i = line_of(t, k);
                assert(t[i] == s[i]);
                assert(s[i].cid@ != s[s.len() - 1].cid@);
            }
        }
        assert(map_of(s).dom() =~= map_of(t).dom().insert(k)) by {
            assert forall|x: Seq<u8>| map_of(s).dom().contains(x) == map_of(t).dom().insert(
                k,
            ).contains(x) by {
                if map_of(s).dom().contains(x) {
                    lemma_map_of_line(s, x);
                    let i = line_of(s, x);
                    if i < t.len() {
                        assert(t[i].cid@ == x);
                    }
                }
                if map_of(t).dom().contains(x) {
                    lemma_map_of_line(t, x);
                    let i = line_of(t, x);
                    assert(s[i].cid@ == x);
                }
                if x == k {
                    assert(s[s.len() - 1].cid@ == x);
                }
            }
        }
    }
}

} // verus!
