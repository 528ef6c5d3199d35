//! The server's timers: for each waiting connection the instant at which it
//! wants to be driven again, kept in the order in which they fall due.

use vstd::prelude::*;

verus! {

/// One timer: the instant at which it falls due, and the connection that
/// asked for it.
pub type TimerEntry = (u64, usize);

/// No timer falls due before one that stands in front of it.
pub open spec fn sorted(s: Seq<TimerEntry>) -> bool {
    forall|i: int, j: int| 0 <= i <= j < s.len() ==> s[i].0 <= s[j].0
}

/// No connection has two timers.
pub open spec fn one_per_connection(s: Seq<TimerEntry>) -> bool {
    forall|i: int, j: int| 0 <= i < s.len() && 0 <= j < s.len() && i != j ==> s[i].1 != s[j].1
}

/// Whether a new timer for `time` goes to index `pos`: behind every timer
/// that falls due at `time` or earlier, in front of every later one.
pub open spec fn is_add_position(s: Seq<TimerEntry>, time: u64, pos: int) -> bool {
    &&& 0 <= pos <= s.len()
    &&& forall|j: int| 0 <= j < pos ==> s[j].0 <= time
    &&& forall|j: int| pos <= j < s.len() ==> s[j].0 > time
}

/// The index to which a new timer for `time` goes.
pub open spec fn add_position(s: Seq<TimerEntry>, time: u64) -> int {
    choose|pos: int| is_add_position(s, time, pos)
}

/// The timers `s` and one more for connection `c` at `time`.
pub open spec fn with_timer(s: Seq<TimerEntry>, time: u64, c: usize) -> Seq<TimerEntry> {
    s.insert(add_position(s, time), (time, c))
}

/// Whether the first timer equal to `e` stands at index `i`.
pub open spec fn is_first_index(s: Seq<TimerEntry>, e: TimerEntry, i: int) -> bool {
    &&& 0 <= i < s.len()
    &&& s[i] == e
    &&& forall|j: int| 0 <= j < i ==> s[j] != e
}

/// The index of the first timer equal to `e`.
pub open spec fn first_index(s: Seq<TimerEntry>, e: TimerEntry) -> int {
    choose|i: int| is_first_index(s, e, i)
}

/// The timers `s` without the first one for connection `c` at `time`, if
/// there is one.
pub open spec fn without_timer(s: Seq<TimerEntry>, time: u64, c: usize) -> Seq<TimerEntry> {
    if s.contains((time, c)) {
        s.remove(first_index(s, (time, c)))
    } else {
        s
    }
}

/// Whether a timer of `s` has fallen due at `now`.
pub open spec fn has_due(s: Seq<TimerEntry>, now: u64) -> bool {
    s.len() > 0 && s[0].0 <= now
}

/// There is only one index to which a new timer can go.
pub proof fn lemma_add_position(s: Seq<TimerEntry>, time: u64, pos: int)
    requires
        is_add_position(s, time, pos),
    ensures
        add_position(s, time) == pos,
{
    let p = add_position(s, time);
    assert(is_add_position(s, time, p));
    if p < pos {
        assert(s[p].0 <= time);
    }
    if pos < p {
        assert(s[pos].0 <= time);
    }
}

/// There is only one first index of a timer.
pub proof fn lemma_first_index(s: Seq<TimerEntry>, e: TimerEntry, i: int)
    requires
        is_first_index(s, e, i),
    ensures
        first_index(s, e) == i,
        s.contains(e),
{
    let k = first_index(s, e);
    assert(is_first_index(s, e, k));
    assert(s[i] == e);
}

/// A new timer leaves the others as they were, and in order.
pub proof fn lemma_with_timer(s: Seq<TimerEntry>, time: u64, c: usize)
    requires
        sorted(s),
    ensures
        sorted(with_timer(s, time, c)),
        with_timer(s, time, c).len() == s.len() + 1,
        forall|e: TimerEntry| #[trigger]
            with_timer(s, time, c).contains(e) <==> (e == (time, c) || s.contains(e)),
        (one_per_connection(s) && forall|i: int| 0 <= i < s.len() ==> (#[trigger] s[i]).1 != c)
            ==> one_per_connection(with_timer(s, time, c)),
{
    lemma_add_position_exists(s, time);
    let pos = add_position(s, time);
    let r = with_timer(s, time, c);
    s.insert_ensures(pos, (time, c));
    assert forall|i: int, j: int| 0 <= i <= j < r.len() implies r[i].0 <= r[j].0 by {
        if i < pos {
            assert(r[i] == s[i]);
        } else if i > pos {
            assert(r[(i - 1) + 1] == s[i - 1]);
        }
        if j < pos {
            assert(r[j] == s[j]);
        } else if j > pos {
            assert(r[(j - 1) + 1] == s[j - 1]);
        }
    }
    assert forall|e: TimerEntry| #[trigger] r.contains(e) <==> (e == (time, c) || s.contains(
        e,
    )) by {
        if r.contains(e) {
            let i = choose|i: int| 0 <= i < r.len() && r[i] == e;
            if i < pos {
                assert(r[i] == s[i]);
            } else if i > pos {
                assert(r[(i - 1) + 1] == s[i - 1]);
            }
        }
        if s.contains(e) {
            let i = choose|i: int| 0 <= i < s.len() && s[i] == e;
            if i < pos {
                assert(r[i] == s[i]);
            } else {
                assert(r[i + 1] == s[i]);
            }
        }
        if e == (time, c) {
            assert(r[pos] == e);
        }
    }
    if one_per_connection(s) && forall|i: int| 0 <= i < s.len() ==> (#[trigger] s[i]).1 != c {
        assert forall|i: int, j: int|
            0 <= i < r.len() && 0 <= j < r.len() && i != j implies r[i].1 != r[j].1 by {
            let si = if i < pos { i } else { i - 1 };
            let sj = if j < pos { j } else { j - 1 };
            if i < pos {
                assert(r[i] == s[i]);
            } else if i > pos {
                assert(r[(i - 1) + 1] == s[i - 1]);
            }
            if j < pos {
                assert(r[j] == s[j]);
            } else if j > pos {
                assert(r[(j - 1) + 1] == s[j - 1]);
            }
            if i != pos && j != pos {
                assert(si != sj);
                assert(s[si].1 != s[sj].1);
            }
        }
    }
}

/// In timers that are in order, a new one has a place.
pub proof fn lemma_add_position_exists(s: Seq<TimerEntry>, time: u64)
    requires
        sorted(s),
    ensures
        is_add_position(s, time, add_position(s, time)),
    decreases s.len(),
{
    if s.len() == 0 {
        assert(is_add_position(s, time, 0));
    } else if s.last().0 <= time {
        assert(is_add_position(s, time, s.len() as int));
    } else {
        let t = s.drop_last();
        lemma_add_position_exists(t, time);
        let p = add_position(t, time);
        assert(is_add_position(s, time, p)) by {
            assert forall|j: int| p <= j < s.len() implies s[j].0 > time by {
                if j < t.len() {
                    assert(t[j].0 > time);
                }
            }
            assert forall|j: int| 0 <= j < p implies s[j].0 <= time by {
                assert(t[j].0 <= time);
            }
        }
    }
}

/// What is known of a first timer equal to `e`, where there is one.
pub proof fn lemma_first_index_exists(s: Seq<TimerEntry>, e: TimerEntry)
    requires
        s.contains(e),
    ensures
        is_first_index(s, e, first_index(s, e)),
    decreases s.len(),
{
    let i = choose|i: int| 0 <= i < s.len() && s[i] == e;
    if s.len() > 0 {
        let t = s.drop_last();
        if exists|j: int| 0 <= j < t.len() && t[j] == e {
            let j = choose|j: int| 0 <= j < t.len() && t[j] == e;
            assert(t.contains(e));
            lemma_first_index_exists(t, e);
            let k = first_index(t, e);
            assert(is_first_index(s, e, k)) by {
                assert(s[k] == t[k]);
                assert forall|j: int| 0 <= j < k implies s[j] != e by {
                    assert(t[j] != e);
                }
            }
        } else {
            assert(i == s.len() - 1) by {
                if i < s.len() - 1 {
                    assert(t[i] == e);
                }
            }
            assert(is_first_index(s, e, i)) by {
                assert forall|j: int| 0 <= j < i implies s[j] != e by {
                    assert(t[j] == s[j]);
                }
            }
        }
    }
}

/// Taking a timer away leaves the others as they were, and in order.
pub proof fn lemma_without_timer(s: Seq<TimerEntry>, time: u64, c: usize)
    ensures
        sorted(s) ==> sorted(without_timer(s, time, c)),
        without_timer(s, time, c).len() <= s.len(),
        forall|e: TimerEntry| #[trigger]
            without_timer(s, time, c).contains(e) ==> s.contains(e),
        forall|e: TimerEntry|
            s.contains(e) && e != (time, c) ==> #[trigger] without_timer(s, time, c).contains(e),
        one_per_connection(s) ==> one_per_connection(without_timer(s, time, c)),
        one_per_connection(s) && s.contains((time, c)) ==> forall|i: int|
            0 <= i < without_timer(s, time, c).len() ==> (#[trigger] without_timer(
                s,
                time,
                c,
            )[i]).1 != c,
{
    let r = without_timer(s, time, c);
    if s.contains((time, c)) {
        lemma_first_index_exists(s, (time, c));
        let k = first_index(s, (time, c));
        s.remove_ensures(k);
        assert forall|i: int| 0 <= i < r.len() implies r[i] == s[if i < k {
            i
        } else {
            i + 1
        }] by {}
        if sorted(s) {
            assert forall|i: int, j: int| 0 <= i <= j < r.len() implies r[i].0 <= r[j].0 by {
                let si = if i < k { i } else { i + 1 };
                let sj = if j < k { j } else { j + 1 };
                assert(r[i] == s[si]);
                assert(r[j] == s[sj]);
            }
        }
        assert forall|e: TimerEntry| #[trigger] r.contains(e) implies s.contains(e) by {
            let i = choose|i: int| 0 <= i < r.len() && r[i] == e;
            let si = if i < k { i } else { i + 1 };
            assert(r[i] == s[si]);
        }
        assert forall|e: TimerEntry| s.contains(e) && e != (time, c) implies #[trigger] r.contains(
            e,
        ) by {
            let i = choose|i: int| 0 <= i < s.len() && s[i] == e;
            if i < k {
                assert(r[i] == s[i]);
            } else {
                assert(r[i - 1] == s[i - 1 + 1]);
            }
        }
        if one_per_connection(s) {
            assert forall|i: int, j: int|
                0 <= i < r.len() && 0 <= j < r.len() && i != j implies r[i].1 != r[j].1 by {
                let si = if i < k { i } else { i + 1 };
                let sj = if j < k { j } else { j + 1 };
                assert(r[i] == s[si]);
                assert(r[j] == s[sj]);
            }
            assert forall|i: int| 0 <= i < r.len() implies (#[trigger] r[i]).1 != c by {
                let si = if i < k { i } else { i + 1 };
                assert(r[i] == s[si]);
                assert(si != k);
                assert(s[k].1 == c);
            }
        }
    }
}

/// The timers of a server.
#[derive(Debug)]
pub struct Timer {
    items: Vec<TimerEntry>,
}

impl View for Timer {
    type V = Seq<TimerEntry>;

    closed spec fn view(&self) -> Seq<TimerEntry> {
        self.items@
    }
}

impl Timer {
    /// The timers are kept in the order in which they fall due.
    pub open spec fn wf(&self) -> bool {
        sorted(self@)
    }

    /// No timers.
    pub fn new() -> (r: Timer)
        ensures
            r.wf(),
            r@ == Seq::<TimerEntry>::empty(),
    {
        Timer { items: Vec::new() }
    }

    /// Sets a timer for connection `c` at `time`. Of the timers for one
    /// instant, the one set first comes first.
    pub fn add(&mut self, time: u64, c: usize)
        requires
            old(self).wf(),
        ensures
            final(self).wf(),
            final(self)@ == with_timer(old(self)@, time, c),
    {
        let mut pos: usize = 0;
        while pos < self.items.len() && self.items[pos].0 <= time
            invariant
                0 <= pos <= self.items@.len(),
                forall|j: int| 0 <= j < pos ==> self.items@[j].0 <= time,
                self.items@ == old(self).items@,
            decreases self.items@.len() - pos,
        {
            pos += 1;
        }
        proof {
            let s = self.items@;
            assert forall|j: int| pos <= j < s.len() implies s[j].0 > time by {
                assert(s[pos as int].0 <= s[j].0);
            }
            lemma_add_position(s, time, pos as int);
            lemma_with_timer(s, time, c);
        }
        self.items.insert(pos, (time, c));
    }

    /// Takes away the first timer for connection `c` at `time`, and says
    /// whether there was one.
    pub fn remove(&mut self, time: u64, c: usize) -> (r: bool)
        requires
            old(self).wf(),
        ensures
            final(self).wf(),
            final(self)@ == without_timer(old(self)@, time, c),
            r == old(self)@.contains((time, c)),
    {
        let mut i: usize = 0;
        while i < self.items.len()
            invariant
                0 <= i <= self.items@.len(),
                forall|j: int| 0 <= j < i ==> self.items@[j] != (time, c),
                self.items@ == old(self).items@,
                sorted(self.items@),
            decreases self.items@.len() - i,
        {
            if self.items[i].0 == time && self.items[i].1 == c {
                proof {
                    lemma_first_index(self.items@, (time, c), i as int);
                    lemma_without_timer(self.items@, time, c);
                }
                self.items.remove(i);
                return true;
            }
            i += 1;
        }
        false
    }

    /// Takes out the first timer if it has fallen due at `until`, and gives
    /// its connection.
    pub fn take_next(&mut self, until: u64) -> (r: Option<usize>)
        requires
            old(self).wf(),
        ensures
            final(self).wf(),
            has_due(old(self)@, until) ==> r == Some(old(self)@[0].1) && final(self)@ == old(
                self,
            )@.skip(1),
            !has_due(old(self)@, until) ==> r.is_none() && final(self)@ == old(self)@,
    {
        if self.items.len() > 0 && self.items[0].0 <= until {
            let e = self.items.remove(0);
            assert(self.items@ =~= old(self).items@.skip(1));
            Some(e.1)
        } else {
            None
        }
    }

    /// The instant at which the first timer falls due.
    pub fn next_time(&self) -> (r: Option<u64>)
        ensures
            r == if self@.len() > 0 {
                Some(self@[0].0)
            } else {
                None
            },
    {
        if self.items.len() > 0 {
            Some(self.items[0].0)
        } else {
            None
        }
    }

    pub fn len(&self) -> (r: usize)
        ensures
            r == self@.len(),
    {
        self.items.len()
    }
}

} // verus!
