use vstd::prelude::*;

verus! {

/// The mathematical contents of a key/value entry list: later entries win.
pub open spec fn map_of(entries: Seq<(String, String)>) -> Map<Seq<char>, Seq<char>>
    decreases entries.len(),
{
    if entries.len() == 0 {
        Map::empty()
    } else {
        map_of(entries.drop_last()).insert(entries.last().0@, entries.last().1@)
    }
}

/// No two entries share a key.
pub open spec fn distinct_keys(entries: Seq<(String, String)>) -> bool {
    forall|i: int, j: int|
        0 <= i < j < entries.len() ==> entries[i].0@ != entries[j].0@
}

proof fn lemma_map_of_contains(entries: Seq<(String, String)>, k: Seq<char>)
    ensures
        map_of(entries).contains_key(k) <==> exists|i: int|
            0 <= i < entries.len() && entries[i].0@ == k,
    decreases entries.len(),
{
    if entries.len() > 0 {
        lemma_map_of_contains(entries.drop_last(), k);
        if entries.last().0@ == k {
            assert(entries[entries.len() - 1].0@ == k);
        } else if map_of(entries).contains_key(k) {
            let i = choose|i: int|
                0 <= i < entries.drop_last().len() && entries.drop_last()[i].0@ == k;
            assert(entries[i].0@ == k);
        } else {
            assert forall|i: int| 0 <= i < entries.len() implies entries[i].0@ != k by {
                if i < entries.len() - 1 {
                    assert(entries.drop_last()[i].0@ == entries[i].0@);
                }
            }
        }
    }
}

proof fn lemma_map_of_index(entries: Seq<(String, String)>, i: int)
    requires
        distinct_keys(entries),
        0 <= i < entries.len(),
    ensures
        map_of(entries).contains_key(entries[i].0@),
        map_of(entries)[entries[i].0@] == entries[i].1@,
    decreases entries.len(),
{
    lemma_map_of_contains(entries, entries[i].0@);
    if i < entries.len() - 1 {
        assert(entries.drop_last()[i] == entries[i]);
        lemma_map_of_index(entries.drop_last(), i);
        assert(entries.last().0@ != entries[i].0@);
    }
}

proof fn lemma_map_of_update(entries: Seq<(String, String)>, i: int, k: String, v: String)
    requires
        distinct_keys(entries),
        0 <= i < entries.len(),
        k@ == entries[i].0@,
    ensures
        map_of(entries.update(i, (k, v))) == map_of(entries).insert(k@, v@),
    decreases entries.len(),
{
    let upd = entries.update(i, (k, v));
    if i == entries.len() - 1 {
        assert(upd.drop_last() =~= entries.drop_last());
        assert(map_of(upd) =~= map_of(entries).insert(k@, v@));
    } else {
        assert(upd.drop_last() =~= entries.drop_last().update(i, (k, v)));
        assert(entries.drop_last()[i] == entries[i]);
        lemma_map_of_update(entries.drop_last(), i, k, v);
        assert(upd.last() == entries.last());
        assert(map_of(upd) =~= map_of(entries).insert(k@, v@));
    }
}

/// An explicit environment: a finite map from variable names to values,
/// threaded through the resolution pipeline in place of the process-wide
/// ambient environment, so that the order of writes is visible in contracts.
pub struct EnvMap {
    entries: Vec<(String, String)>,
}

impl View for EnvMap {
    type V = Map<Seq<char>, Seq<char>>;

    closed spec fn view(&self) -> Map<Seq<char>, Seq<char>> {
        map_of(self.entries@)
    }
}

impl EnvMap {
    pub closed spec fn wf(&self) -> bool {
        distinct_keys(self.entries@)
    }

    pub fn new() -> (r: EnvMap)
        ensures
            r.wf(),
            r@ == Map::<Seq<char>, Seq<char>>::empty(),
    {
        EnvMap { entries: Vec::new() }
    }

    /// The position of `key` in the entry list, if present.
    fn find(&self, key: &String) -> (r: Option<usize>)
        ensures
            match r {
                Some(i) => i < self.entries@.len() && self.entries@[i as int].0@ == key@,
                None => forall|i: int|
                    0 <= i < self.entries@.len() ==> self.entries@[i].0@ != key@,
            },
    {
        let n = self.entries.len();
        let mut i: usize = 0;
        while i < n
            invariant
                i <= n,
                n == self.entries@.len(),
                forall|j: int| 0 <= j < i ==> self.entries@[j].0@ != key@,
            decreases n - i,
        {
            if self.entries[i].0 == *key {
                return Some(i);
            }
            i = i + 1;
        }
        None
    }

    pub fn contains(&self, key: &String) -> (r: bool)
        ensures
            r == self@.contains_key(key@),
    {
        proof {
            lemma_map_of_contains(self.entries@, key@);
        }
        match self.find(key) {
            Some(_) => true,
            None => false,
        }
    }

    /// The value bound to `key`, if any.
    pub fn get(&self, key: &String) -> (r: Option<&String>)
        requires
            self.wf(),
        ensures
            match r {
                Some(v) => self@.contains_key(key@) && v@ == self@[key@],
                None => !self@.contains_key(key@),
            },
    {
        proof {
            lemma_map_of_contains(self.entries@, key@);
        }
        match self.find(key) {
            Some(i) => {
                proof {
                    lemma_map_of_index(self.entries@, i as int);
                }
                Some(&self.entries[i].1)
            },
            None => None,
        }
    }

    /// Binds `key` to `value`, replacing any previous binding.
    pub fn set(&mut self, key: String, value: String)
        requires
            old(self).wf(),
        ensures
            final(self).wf(),
            final(self)@ == old(self)@.insert(key@, value@),
    {
        proof {
            lemma_map_of_contains(self.entries@, key@);
        }
        match self.find(&key) {
            Some(i) => {
                proof {
                    lemma_map_of_update(self.entries@, i as int, key, value);
                }
                self.entries[i] = (key, value);
                proof {
                    assert forall|a: int, b: int|
                        0 <= a < b < self.entries@.len() implies self.entries@[a].0@
                        != self.entries@[b].0@ by {
                        assert(old(self).entries@[a].0@ == self.entries@[a].0@);
                        assert(old(self).entries@[b].0@ == self.entries@[b].0@);
                    }
                }
            },
            None => {
                self.entries.push((key, value));
                proof {
                    assert(self.entries@.drop_last() =~= old(self).entries@);
                    assert forall|i: int, j: int|
                        0 <= i < j < self.entries@.len() implies self.entries@[i].0@
                        != self.entries@[j].0@ by {
                        if j < self.entries@.len() - 1 {
                            assert(old(self).entries@[i] == self.entries@[i]);
                        }
                    }
                }
            },
        }
    }

    /// The entries, for callers that export the environment.
    pub fn entries(&self) -> (r: &Vec<(String, String)>)
        ensures
            map_of(r@) == self@,
            self.wf() ==> distinct_keys(r@),
    {
        &self.entries
    }
}

} // verus!
