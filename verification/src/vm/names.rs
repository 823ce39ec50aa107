//! A table from names to values, kept as a list of entries with distinct names.

use vstd::prelude::*;

verus! {

/// The map that a list of entries stands for: a later entry replaces an earlier one
/// with the same name.
pub open spec fn names_map<V>(s: Seq<(String, V)>) -> Map<Seq<char>, V>
    decreases s.len(),
{
    if s.len() == 0 {
        Map::empty()
    } else {
        names_map(s.drop_last()).insert(s.last().0@, s.last().1)
    }
}

/// No two entries carry the same name.
pub open spec fn distinct_names<V>(s: Seq<(String, V)>) -> bool {
    forall|i: int, j: int| 0 <= i < j < s.len() ==> s[i].0@ != s[j].0@
}

proof fn lemma_names_lookup<V>(s: Seq<(String, V)>, i: int)
    requires
        distinct_names(s),
        0 <= i < s.len(),
    ensures
        names_map(s).contains_key(s[i].0@),
        names_map(s)[s[i].0@] == s[i].1,
    decreases s.len(),
{
    if i < s.len() - 1 {
        let d = s.drop_last();
        assert(d[i] == s[i]);
        assert(distinct_names(d)) by {
            assert forall|a: int, b: int| 0 <= a < b < d.len() implies d[a].0@ != d[b].0@ by {
                assert(d[a] == s[a] && d[b] == s[b]);
            }
        }
        lemma_names_lookup(d, i);
        assert(s.last() == s[s.len() - 1]);
    }
}

proof fn lemma_names_absent<V>(s: Seq<(String, V)>, k: Seq<char>)
    requires
        forall|i: int| 0 <= i < s.len() ==> s[i].0@ != k,
    ensures
        !names_map(s).contains_key(k),
    decreases s.len(),
{
    if s.len() > 0 {
        let d = s.drop_last();
        assert forall|i: int| 0 <= i < d.len() implies d[i].0@ != k by {
            assert(d[i] == s[i]);
        }
        lemma_names_absent(d, k);
        assert(s.last() == s[s.len() - 1]);
    }
}

proof fn lemma_names_update<V>(s: Seq<(String, V)>, i: int, e: (String, V))
    requires
        distinct_names(s),
        0 <= i < s.len(),
        s[i].0@ == e.0@,
    ensures
        distinct_names(s.update(i, e)),
        names_map(s.update(i, e)) == names_map(s).insert(e.0@, e.1),
    decreases s.len(),
{
    let u = s.update(i, e);
    assert(distinct_names(u)) by {
        assert forall|a: int, b: int| 0 <= a < b < u.len() implies u[a].0@ != u[b].0@ by {
            assert(u[a].0@ == s[a].0@ && u[b].0@ == s[b].0@);
        }
    }
    let d = s.drop_last();
    if i == s.len() - 1 {
        assert(u.drop_last() =~= d);
        assert(names_map(u) =~= names_map(s).insert(e.0@, e.1));
    } else {
        assert(distinct_names(d)) by {
            assert forall|a: int, b: int| 0 <= a < b < d.len() implies d[a].0@ != d[b].0@ by {
                assert(d[a] == s[a] && d[b] == s[b]);
            }
        }
        assert(d[i] == s[i]);
        lemma_names_update(d, i, e);
        assert(u.drop_last() =~= d.update(i, e));
        assert(u.last() == s.last());
        assert(s.last() == s[s.len() - 1]);
        assert(s.last().0@ != e.0@);
        assert(names_map(u) =~= names_map(s).insert(e.0@, e.1));
    }
}

/// A table from names to values: looking a name up gives the value it was last
/// given.
#[derive(Debug)]
pub struct NameTable<V> {
    entries: Vec<(String, V)>,
}

impl<V> View for NameTable<V> {
    type V = Map<Seq<char>, V>;

    closed spec fn view(&self) -> Map<Seq<char>, V> {
        names_map(self.entries@)
    }
}

impl<V> NameTable<V> {
    /// The table keeps each name once.
    pub closed spec fn wf(&self) -> bool {
        distinct_names(self.entries@)
    }

    pub fn new() -> (r: NameTable<V>)
        ensures
            r.wf(),
            r@ == Map::<Seq<char>, V>::empty(),
    {
        NameTable { entries: Vec::new() }
    }

    fn position(&self, name: &String) -> (r: Option<usize>)
        requires
            self.wf(),
        ensures
            match r {
                Some(i) => i < self.entries@.len() && self.entries@[i as int].0@ == name@,
                None => forall|i: int| 0 <= i < self.entries@.len() ==> self.entries@[i].0@ != name@,
            },
    {
        let mut i: usize = 0;
        while i < self.entries.len()
            invariant
                i <= self.entries@.len(),
                forall|j: int| 0 <= j < i ==> self.entries@[j].0@ != name@,
            decreases self.entries@.len() - i,
        {
            if self.entries[i].0 == *name {
                return Some(i);
            }
            i = i + 1;
        }
        None
    }

    /// The value of `name`, if it has one.
    pub fn get(&self, name: &String) -> (r: Option<&V>)
        requires
            self.wf(),
        ensures
            r is Some <==> self@.contains_key(name@),
            r is Some ==> *r->0 == self@[name@],
    {
        match self.position(name) {
            Some(i) => {
                proof {
                    lemma_names_lookup(self.entries@, i as int);
                }
                Some(&self.entries[i].1)
            },
            None => {
                proof {
                    lemma_names_absent(self.entries@, name@);
                }
                None
            },
        }
    }

    /// Gives `name` the value `value`, replacing the value it had.
    pub fn insert(&mut self, name: String, value: V)
        requires
            old(self).wf(),
        ensures
            final(self).wf(),
            final(self)@ == old(self)@.insert(name@, value),
    {
        match self.position(&name) {
            Some(i) => {
                proof {
                    lemma_names_update(self.entries@, i as int, (name, value));
                }
                self.entries.set(i, (name, value));
            },
            None => {
                let ghost s = self.entries@;
                self.entries.push((name, value));
                proof {
                    assert(self.entries@.drop_last() =~= s);
                    assert forall|a: int, b: int|
                        0 <= a < b < self.entries@.len() implies self.entries@[a].0@
                        != self.entries@[b].0@ by {
                        assert(self.entries@[a] == s[a] || a == s.len());
                    }
                }
            },
        }
    }

    /// The number of names in the table.
    pub fn len(&self) -> (r: usize)
        requires
            self.wf(),
        ensures
            r == self@.len(),
    {
        proof {
            lemma_names_len(self.entries@);
        }
        self.entries.len()
    }

    /// The names and values, in the order the names were first given.
    pub fn entries(&self) -> (r: &Vec<(String, V)>)
        ensures
            names_map(r@) == self@,
            distinct_names(r@) == self.wf(),
    {
        &self.entries
    }
}

proof fn lemma_names_len<V>(s: Seq<(String, V)>)
    requires
        distinct_names(s),
    ensures
        names_map(s).dom().finite(),
        names_map(s).len() == s.len(),
    decreases s.len(),
{
    if s.len() > 0 {
        let d = s.drop_last();
        assert(distinct_names(d)) by {
            assert forall|a: int, b: int| 0 <= a < b < d.len() implies d[a].0@ != d[b].0@ by {
                assert(d[a] == s[a] && d[b] == s[b]);
            }
        }
        lemma_names_len(d);
        assert forall|i: int| 0 <= i < d.len() implies d[i].0@ != s.last().0@ by {
            assert(d[i] == s[i]);
            assert(s.last() == s[s.len() - 1]);
        }
        lemma_names_absent(d, s.last().0@);
    }
}

} // verus!
