//! A table with one row per node.
//!
//! Rows keep the order they were added in; looking one up by id is all a reader may rely on.
use vstd::prelude::*;

use crate::model::AgentId;

verus! {

/// Row `i` of `rows` is the row of `k`.
pub open spec fn row_is<V>(rows: Seq<(Seq<char>, V)>, k: Seq<char>, i: int) -> bool {
    0 <= i < rows.len() && rows[i].0 == k
}

/// `rows` has a row of `k`.
pub open spec fn has_row<V>(rows: Seq<(Seq<char>, V)>, k: Seq<char>) -> bool {
    exists|i: int| #[trigger] row_is(rows, k, i)
}

/// The place of the row of `k`.
pub open spec fn row_index<V>(rows: Seq<(Seq<char>, V)>, k: Seq<char>) -> int {
    choose|i: int| #[trigger] row_is(rows, k, i)
}

/// What the row of `k` holds.
pub open spec fn value<V>(rows: Seq<(Seq<char>, V)>, k: Seq<char>) -> Option<V> {
    if has_row(rows, k) {
        Some(rows[row_index(rows, k)].1)
    } else {
        None
    }
}

/// `rows` with the row of `k` holding `v`.
pub open spec fn put<V>(rows: Seq<(Seq<char>, V)>, k: Seq<char>, v: V) -> Seq<(Seq<char>, V)> {
    if has_row(rows, k) {
        rows.update(row_index(rows, k), (k, v))
    } else {
        rows.push((k, v))
    }
}

/// `rows` without a row of `k`.
pub open spec fn without<V>(rows: Seq<(Seq<char>, V)>, k: Seq<char>) -> Seq<(Seq<char>, V)> {
    if has_row(rows, k) {
        rows.remove(row_index(rows, k))
    } else {
        rows
    }
}

/// No id has two rows.
pub open spec fn distinct<V>(rows: Seq<(Seq<char>, V)>) -> bool {
    forall|i: int, j: int|
        0 <= i < j < rows.len() ==> (#[trigger] rows[i]).0 != (#[trigger] rows[j]).0
}

/// The row at `i` is the row of its own id.
pub proof fn lemma_row<V>(rows: Seq<(Seq<char>, V)>, i: int)
    requires
        distinct(rows),
        0 <= i < rows.len(),
    ensures
        has_row(rows, rows[i].0),
        row_index(rows, rows[i].0) == i,
        value(rows, rows[i].0) == Some(rows[i].1),
{
    assert(row_is(rows, rows[i].0, i));
    let j = row_index(rows, rows[i].0);
    assert(row_is(rows, rows[i].0, j));
    assert(rows[j].0 == rows[i].0);
    if i < j {
        assert(rows[i].0 != rows[j].0);
    } else if j < i {
        assert(rows[j].0 != rows[i].0);
    }
}

/// After [`put`], `k` holds `v` and every other id holds what it held.
pub proof fn lemma_put<V>(rows: Seq<(Seq<char>, V)>, k: Seq<char>, v: V)
    requires
        distinct(rows),
    ensures
        distinct(put(rows, k, v)),
        value(put(rows, k, v), k) == Some(v),
        forall|q: Seq<char>| q != k ==> #[trigger] value(put(rows, k, v), q) == value(rows, q),
{
    let new = put(rows, k, v);
    if has_row(rows, k) {
        let i = row_index(rows, k);
        assert(row_is(rows, k, i));
        assert(forall|a: int| 0 <= a < rows.len() ==> (#[trigger] new[a]).0 == rows[a].0);
        lemma_row(new, i);
    } else {
        assert forall|a: int, b: int| 0 <= a < b < new.len() implies (#[trigger] new[a]).0 != (
        #[trigger] new[b]).0 by {
            if b == rows.len() {
                assert(rows[a] == new[a]);
                if rows[a].0 == k {
                    assert(row_is(rows, k, a));
                }
            } else {
                assert(rows[a].0 != rows[b].0);
            }
        }
        lemma_row(new, rows.len() as int);
    }
    assert forall|q: Seq<char>| q != k implies #[trigger] value(new, q) == value(rows, q) by {
        if has_row(rows, q) {
            let a = row_index(rows, q);
            assert(row_is(rows, q, a));
            assert(new[a] == rows[a]);
            lemma_row(rows, a);
            lemma_row(new, a);
        } else if has_row(new, q) {
            let a = row_index(new, q);
            assert(row_is(new, q, a));
            assert(row_is(rows, q, a));
        }
    }
}

/// After [`without`], `k` holds nothing and every other id holds what it held.
pub proof fn lemma_without<V>(rows: Seq<(Seq<char>, V)>, k: Seq<char>)
    requires
        distinct(rows),
    ensures
        distinct(without(rows, k)),
        value(without(rows, k), k) is None,
        forall|q: Seq<char>| q != k ==> #[trigger] value(without(rows, k), q) == value(rows, q),
{
    let new = without(rows, k);
    if has_row(rows, k) {
        let i = row_index(rows, k);
        assert(row_is(rows, k, i));
        lemma_remove(rows, i);
    }
}

/// Removing the row at `i` removes what its id holds and nothing else.
pub proof fn lemma_remove<V>(rows: Seq<(Seq<char>, V)>, i: int)
    requires
        distinct(rows),
        0 <= i < rows.len(),
    ensures
        distinct(rows.remove(i)),
        value(rows.remove(i), rows[i].0) is None,
        forall|q: Seq<char>|
            q != rows[i].0 ==> #[trigger] value(rows.remove(i), q) == value(rows, q),
{
    let new = rows.remove(i);
    let k = rows[i].0;
    assert forall|a: int, b: int| 0 <= a < b < new.len() implies (#[trigger] new[a]).0 != (
    #[trigger] new[b]).0 by {
        let x = if a < i { a } else { a + 1 };
        let y = if b < i { b } else { b + 1 };
        assert(rows[x].0 != rows[y].0);
    }
    if has_row(new, k) {
        let a = row_index(new, k);
        assert(row_is(new, k, a));
        if a < i {
            assert(rows[a].0 != rows[i].0);
        } else {
            assert(rows[i].0 != rows[a + 1].0);
        }
    }
    assert forall|q: Seq<char>| q != k implies #[trigger] value(new, q) == value(rows, q) by {
        if has_row(rows, q) {
            let a = row_index(rows, q);
            assert(row_is(rows, q, a));
            let b = if a < i { a } else { a - 1 };
            assert(new[b] == rows[a]);
            lemma_row(rows, a);
            lemma_row(new, b);
        } else if has_row(new, q) {
            let a = row_index(new, q);
            assert(row_is(new, q, a));
            assert(row_is(rows, q, if a < i { a } else { a + 1 }));
        }
    }
}

/// One row per id.
#[derive(Debug)]
pub struct Table<V> {
    pub entries: Vec<(AgentId, V)>,
}

/// The rows of a list of entries.
pub open spec fn rows_of<V>(entries: Seq<(AgentId, V)>) -> Seq<(Seq<char>, V)> {
    entries.map_values(|e: (AgentId, V)| (e.0@, e.1))
}

impl<V> View for Table<V> {
    type V = Seq<(Seq<char>, V)>;

    open spec fn view(&self) -> Seq<(Seq<char>, V)> {
        rows_of(self.entries@)
    }
}

impl<V> Table<V> {
    /// No id has two rows.
    pub open spec fn wf(&self) -> bool {
        distinct(self@)
    }

    /// A table with no rows.
    pub fn new() -> (t: Self)
        ensures
            t.wf(),
            t@ == Seq::<(Seq<char>, V)>::empty(),
    {
        let t = Table { entries: Vec::new() };
        assert(t@ =~= Seq::<(Seq<char>, V)>::empty());
        t
    }

    /// How many rows there are.
    pub fn len(&self) -> (n: usize)
        ensures
            n == self@.len(),
    {
        self.entries.len()
    }

    /// The place of the row of `k`, if there is one.
    pub fn index_of(&self, k: &AgentId) -> (r: Option<usize>)
        requires
            self.wf(),
        ensures
            match r {
                Some(i) => has_row(self@, k@) && i == row_index(self@, k@) && i < self@.len()
                    && self@[i as int].0 == k@,
                None => !has_row(self@, k@),
            },
    {
        let mut i: usize = 0;
        while i < self.entries.len()
            invariant
                self.wf(),
                i <= self.entries.len(),
                forall|j: int| 0 <= j < i ==> (#[trigger] self@[j]).0 != k@,
            decreases self.entries.len() - i,
        {
            if self.entries[i].0 == *k {
                proof {
                    lemma_row(self@, i as int);
                }
                return Some(i);
            }
            assert(self@[i as int].0 != k@);
            i = i + 1;
        }
        None
    }

    /// What the row of `k` holds, if there is one.
    pub fn get(&self, k: &AgentId) -> (r: Option<&V>)
        requires
            self.wf(),
        ensures
            match r {
                Some(v) => value(self@, k@) == Some(*v),
                None => value(self@, k@) is None,
            },
    {
        match self.index_of(k) {
            Some(i) => Some(&self.entries[i].1),
            None => None,
        }
    }

    /// Make the row of `k` hold `v`, and hand back what it held.
    pub fn insert(&mut self, k: AgentId, v: V) -> (r: Option<V>)
        requires
            old(self).wf(),
        ensures
            final(self).wf(),
            final(self)@ == put(old(self)@, k@, v),
            r == value(old(self)@, k@),
    {
        proof {
            lemma_put(self@, k@, v);
        }
        match self.index_of(&k) {
            Some(i) => {
                let ghost before = self.entries@;
                self.entries.push((k, v));
                let was = self.entries.swap_remove(i);
                assert(self.entries@ =~= before.update(i as int, (k, v)));
                assert(self@ =~= put(old(self)@, k@, v));
                Some(was.1)
            },
            None => {
                self.entries.push((k, v));
                assert(self@ =~= put(old(self)@, k@, v));
                None
            },
        }
    }

    /// What the row of `k` holds, to be changed in place.
    pub fn get_mut(&mut self, k: &AgentId) -> (r: Option<&mut V>)
        requires
            old(self).wf(),
        ensures
            match r {
                Some(v) => value(old(self)@, k@) == Some(*v) && final(self)@ == put(
                    old(self)@,
                    k@,
                    *final(v),
                ),
                None => value(old(self)@, k@) is None && final(self)@ == old(self)@,
            },
    {
        match self.index_of(k) {
            Some(i) => Some(&mut self.entries[i].1),
            None => None,
        }
    }

    /// Remove the row of `k`, and hand back what it held.
    pub fn remove(&mut self, k: &AgentId) -> (r: Option<V>)
        requires
            old(self).wf(),
        ensures
            final(self).wf(),
            final(self)@ == without(old(self)@, k@),
            r == value(old(self)@, k@),
    {
        proof {
            lemma_without(self@, k@);
        }
        match self.index_of(k) {
            Some(i) => {
                let was = self.entries.remove(i);
                assert(self@ =~= without(old(self)@, k@));
                Some(was.1)
            },
            None => None,
        }
    }

    /// Remove the row at `i`, and hand it back.
    pub fn remove_at(&mut self, i: usize) -> (r: (AgentId, V))
        requires
            old(self).wf(),
            i < old(self)@.len(),
        ensures
            final(self).wf(),
            final(self)@ == old(self)@.remove(i as int),
            (r.0@, r.1) == old(self)@[i as int],
    {
        proof {
            lemma_remove(self@, i as int);
        }
        let row = self.entries.remove(i);
        assert(self@ =~= old(self)@.remove(i as int));
        row
    }
}

/// What an id holds is what its row says, and nothing where it has none.
pub proof fn law_an_id_holds_what_its_row_says<V>(rows: Seq<(Seq<char>, V)>, k: Seq<char>)
    requires
        distinct(rows),
    ensures
        match value(rows, k) {
            Some(v) => exists|i: int| 0 <= i < rows.len() && #[trigger] rows[i] == (k, v),
            None => forall|i: int| 0 <= i < rows.len() ==> (#[trigger] rows[i]).0 != k,
        },
        forall|i: int|
            0 <= i < rows.len() && (#[trigger] rows[i]).0 == k ==> value(rows, k) == Some(
                rows[i].1,
            ),
{
    if has_row(rows, k) {
        let at = row_index(rows, k);
        assert(row_is(rows, k, at));
        assert(rows[at] == (k, rows[at].1));
    }
    assert forall|i: int| 0 <= i < rows.len() && (#[trigger] rows[i]).0 == k implies value(
        rows,
        k,
    ) == Some(rows[i].1) by {
        assert(row_is(rows, k, i));
        let at = row_index(rows, k);
        assert(row_is(rows, k, at));
        if at < i {
            assert(rows[at].0 != rows[i].0);
        } else if i < at {
            assert(rows[i].0 != rows[at].0);
        }
    }
}

} // verus!
