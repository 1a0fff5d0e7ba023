use vstd::prelude::*;

verus! {

use crate::errors::Error;

/// A minimal keyed store of plain strings, the warm-up shape of the real
/// storage contract: read a key, write a key. A store that cannot fail for
/// reasons of its own — the in-memory one — owes success outright.
pub trait FooData: Sized {
    /// The abstract content of the store.
    spec fn foo_store(&self) -> Map<Seq<char>, Seq<char>>;

    /// The store's internal well-formedness.
    spec fn foo_inv(&self) -> bool;

    /// Whether operations can fail only for reasons stated here, never for
    /// the store's own.
    spec fn foo_infallible(&self) -> bool;

    fn get(&self, key: &str) -> (r: Result<Option<String>, Error>)
        requires
            self.foo_inv(),
        ensures
            (r matches Ok(Some(v)) ==> self.foo_store().contains_key(key@) && v@
                == self.foo_store()[key@]),
            (r matches Ok(None) ==> !self.foo_store().contains_key(key@)),
            self.foo_infallible() ==> r is Ok,
    ;

    fn set(&mut self, key: &str, value: &str) -> (r: Result<(), Error>)
        requires
            old(self).foo_inv(),
        ensures
            final(self).foo_inv(),
            final(self).foo_infallible() == old(self).foo_infallible(),
            (r is Ok ==> final(self).foo_store() == old(self).foo_store().insert(key@, value@)),
            old(self).foo_infallible() ==> r is Ok,
    ;
}

/// The in-memory store behind `FooData`: a list of key/value pairs with
/// each key held once.
pub struct MemoryFoo {
    data: Vec<(String, String)>,
}

/// The map a sequence of key/value pairs stands for.
pub open spec fn pair_map(s: Seq<(String, String)>) -> Map<Seq<char>, Seq<char>>
    decreases s.len(),
{
    if s.len() == 0 {
        Map::empty()
    } else {
        pair_map(s.drop_last()).insert(s.last().0@, s.last().1@)
    }
}

/// Each pair has its own key.
pub open spec fn unique_pair_keys(s: Seq<(String, String)>) -> bool {
    forall|i: int, j: int| 0 <= i < j < s.len() ==> s[i].0@ != s[j].0@
}

proof fn lemma_pair_map_found(s: Seq<(String, String)>, i: int)
    requires
        unique_pair_keys(s),
        0 <= i < s.len(),
    ensures
        pair_map(s).contains_key(s[i].0@),
        pair_map(s)[s[i].0@] == s[i].1@,
    decreases s.len(),
{
    if i < s.len() - 1 {
        assert(s.drop_last()[i] == s[i]);
        lemma_pair_map_found(s.drop_last(), i);
    }
}

proof fn lemma_pair_map_absent(s: Seq<(String, String)>, k: Seq<char>)
    requires
        forall|i: int| 0 <= i < s.len() ==> s[i].0@ != k,
    ensures
        !pair_map(s).contains_key(k),
    decreases s.len(),
{
    if s.len() > 0 {
        lemma_pair_map_absent(s.drop_last(), k);
    }
}

proof fn lemma_pair_map_push(s: Seq<(String, String)>, x: (String, String))
    ensures
        pair_map(s.push(x)) == pair_map(s).insert(x.0@, x.1@),
{
    assert(s.push(x).drop_last() =~= s);
    assert(s.push(x).last() == x);
}

proof fn lemma_pair_map_update(s: Seq<(String, String)>, i: int, x: (String, String))
    requires
        unique_pair_keys(s),
        0 <= i < s.len(),
        x.0@ == s[i].0@,
    ensures
        pair_map(s.update(i, x)) == pair_map(s).insert(x.0@, x.1@),
    decreases s.len(),
{
    let t = s.update(i, x);
    let k = x.0@;
    if i == s.len() - 1 {
        assert(t.drop_last() =~= s.drop_last());
        assert(t.last() == x);
        assert(pair_map(s.drop_last()).insert(k, s[i].1@).insert(k, x.1@) =~= pair_map(
            s.drop_last(),
        ).insert(k, x.1@));
    } else {
        assert(t.drop_last() =~= s.drop_last().update(i, x));
        assert(t.last() == s.last());
        assert(s.drop_last()[i] == s[i]);
        lemma_pair_map_update(s.drop_last(), i, x);
        assert(pair_map(s.drop_last()).insert(k, x.1@).insert(s.last().0@, s.last().1@)
            =~= pair_map(s.drop_last()).insert(s.last().0@, s.last().1@).insert(k, x.1@));
    }
}

fn find_pair_index(data: &Vec<(String, String)>, key: &String) -> (r: Option<usize>)
    ensures
        (r matches Some(i) ==> i < data@.len() && data@[i as int].0@ == key@),
        (r is None ==> forall|i: int| 0 <= i < data@.len() ==> data@[i].0@ != key@),
{
    let n = data.len();
    let mut i: usize = 0;
    while i < n
        invariant
            n == data@.len(),
            i <= n,
            forall|j: int| 0 <= j < i ==> data@[j].0@ != key@,
        decreases n - i,
    {
        if data[i].0 == *key {
            return Some(i);
        }
        i = i + 1;
    }
    None
}

impl MemoryFoo {
    /// An empty store.
    pub fn new() -> (r: Self)
        ensures
            r.foo_inv(),
            r.foo_infallible(),
            r.foo_store() == Map::<Seq<char>, Seq<char>>::empty(),
    {
        MemoryFoo { data: Vec::new() }
    }
}

impl FooData for MemoryFoo {
    closed spec fn foo_store(&self) -> Map<Seq<char>, Seq<char>> {
        pair_map(self.data@)
    }

    closed spec fn foo_inv(&self) -> bool {
        unique_pair_keys(self.data@)
    }

    closed spec fn foo_infallible(&self) -> bool {
        true
    }

    fn get(&self, key: &str) -> (r: Result<Option<String>, Error>) {
        let owned = key.to_owned();
        match find_pair_index(&self.data, &owned) {
            Some(i) => {
                proof {
                    lemma_pair_map_found(self.data@, i as int);
                }
                Ok(Some(self.data[i].1.clone()))
            },
            None => {
                proof {
                    lemma_pair_map_absent(self.data@, key@);
                }
                Ok(None)
            },
        }
    }

    fn set(&mut self, key: &str, value: &str) -> (r: Result<(), Error>) {
        let pair = (key.to_owned(), value.to_owned());
        match find_pair_index(&self.data, &pair.0) {
            Some(i) => {
                proof {
                    lemma_pair_map_update(self.data@, i as int, pair);
                    assert forall|a: int, b: int|
                        0 <= a < b < self.data@.update(i as int, pair).len() implies self.data@.update(
                        i as int,
                        pair,
                    )[a].0@ != self.data@.update(i as int, pair)[b].0@ by {
                        assert(self.data@[a].0@ != self.data@[b].0@);
                    }
                }
                self.data[i] = pair;
            },
            None => {
                proof {
                    lemma_pair_map_push(self.data@, pair);
                    assert forall|a: int, b: int|
                        0 <= a < b < self.data@.push(pair).len() implies self.data@.push(
                        pair,
                    )[a].0@ != self.data@.push(pair)[b].0@ by {
                        if b < self.data@.len() {
                            assert(self.data@[a].0@ != self.data@[b].0@);
                        } else {
                            assert(self.data@[a].0@ != key@);
                        }
                    }
                }
                self.data.push(pair);
            },
        }
        Ok(())
    }
}

} // verus!
