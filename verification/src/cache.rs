//! The query-size cache: the known number of results of queries already run.
use vstd::prelude::*;
use crate::query::{FileQuery, QueryView, ids_view, names_view, strings_view};

verus! {

/// The cached sizes of `entries`, read in order; a later entry for a query replaces an earlier one.
pub open spec fn cache_map(entries: Seq<(FileQuery, usize)>) -> Map<QueryView, usize>
    decreases entries.len(),
{
    if entries.len() == 0 {
        Map::empty()
    } else {
        cache_map(entries.drop_last()).insert(entries.last().0@, entries.last().1)
    }
}

/// No two entries are for the same query.
pub open spec fn distinct_queries(entries: Seq<(FileQuery, usize)>) -> bool {
    forall|i: int, j: int|
        0 <= i < entries.len() && 0 <= j < entries.len() && i != j ==> #[trigger] entries[i].0@ != #[trigger] entries[j].0@
}

proof fn lemma_cache_map_entries(entries: Seq<(FileQuery, usize)>)
    requires
        distinct_queries(entries),
    ensures
        forall|k: QueryView| #[trigger] cache_map(entries).contains_key(k) <==> exists|i: int| 0 <= i < entries.len() && entries[i].0@ == k,
        forall|i: int| 0 <= i < entries.len() ==> #[trigger] cache_map(entries)[entries[i].0@] == entries[i].1,
    decreases entries.len(),
{
    if entries.len() > 0 {
        let rest = entries.drop_last();
        assert(distinct_queries(rest)) by {
            assert forall|i: int, j: int| 0 <= i < rest.len() && 0 <= j < rest.len() && i != j implies
                #[trigger] rest[i].0@ != #[trigger] rest[j].0@ by {
                assert(rest[i] == entries[i] && rest[j] == entries[j]);
            }
        }
        lemma_cache_map_entries(rest);
        let last = entries.len() - 1;
        assert forall|k: QueryView| #[trigger] cache_map(entries).contains_key(k) implies exists|i: int| 0 <= i < entries.len() && entries[i].0@ == k by {
            if k != entries[last].0@ {
                assert(cache_map(rest).contains_key(k));
                let i = choose|i: int| 0 <= i < rest.len() && rest[i].0@ == k;
                assert(entries[i] == rest[i]);
            }
        }
        assert forall|i: int| 0 <= i < entries.len() implies #[trigger] cache_map(entries)[entries[i].0@] == entries[i].1 by {
            if i < last {
                assert(entries[i] == rest[i]);
                assert(entries[i].0@ != entries[last].0@);
                assert(cache_map(rest)[rest[i].0@] == rest[i].1);
            }
        }
        assert forall|k: QueryView| (exists|i: int| 0 <= i < entries.len() && entries[i].0@ == k) implies #[trigger] cache_map(entries).contains_key(k) by {
            let i = choose|i: int| 0 <= i < entries.len() && entries[i].0@ == k;
            if i < last {
                assert(entries[i] == rest[i]);
                assert(rest[i].0@ == k);
                assert(cache_map(rest).contains_key(k));
            }
        }
    }
}

fn same_ids(a: &Option<Vec<usize>>, b: &Option<Vec<usize>>) -> (r: bool)
    ensures
        r == (ids_view(*a) == ids_view(*b)),
{
    match (a, b) {
        (Some(x), Some(y)) => {
            if x.len() != y.len() {
                assert(x@.len() != y@.len());
                return false;
            }
            let mut k: usize = 0;
            while k < x.len()
                invariant
                    ids_view(*a) == Some(x@),
                    ids_view(*b) == Some(y@),
                    x@.len() == y@.len(),
                    k <= x@.len(),
                    forall|j: int| 0 <= j < k ==> x@[j] == y@[j],
                decreases x.len() - k,
            {
                if x[k] != y[k] {
                    assert(x@[k as int] != y@[k as int]);
                    assert(x@ != y@);
                    return false;
                }
                k = k + 1;
            }
            assert(x@ =~= y@);
            true
        },
        (None, None) => true,
        _ => false,
    }
}

fn same_names(a: &Option<Vec<String>>, b: &Option<Vec<String>>) -> (r: bool)
    ensures
        r == (names_view(*a) == names_view(*b)),
{
    match (a, b) {
        (Some(x), Some(y)) => {
            if x.len() != y.len() {
                assert(strings_view(x@).len() != strings_view(y@).len());
                assert(strings_view(x@) != strings_view(y@));
                return false;
            }
            let mut k: usize = 0;
            while k < x.len()
                invariant
                    names_view(*a) == Some(strings_view(x@)),
                    names_view(*b) == Some(strings_view(y@)),
                    x@.len() == y@.len(),
                    k <= x@.len(),
                    forall|j: int| 0 <= j < k ==> x@[j]@ == y@[j]@,
                decreases x.len() - k,
            {
                if x[k] != y[k] {
                    assert(strings_view(x@)[k as int] != strings_view(y@)[k as int]);
                    assert(strings_view(x@) != strings_view(y@));
                    return false;
                }
                k = k + 1;
            }
            assert(strings_view(x@) =~= strings_view(y@));
            true
        },
        (None, None) => true,
        _ => false,
    }
}

fn same_flag(a: Option<bool>, b: Option<bool>) -> (r: bool)
    ensures
        r == (a == b),
{
    match (a, b) {
        (Some(x), Some(y)) => x == y,
        (None, None) => true,
        _ => false,
    }
}

fn same_number(a: Option<usize>, b: Option<usize>) -> (r: bool)
    ensures
        r == (a == b),
{
    match (a, b) {
        (Some(x), Some(y)) => x == y,
        (None, None) => true,
        _ => false,
    }
}

/// Two queries ask for the same thing.
fn same_query(a: &FileQuery, b: &FileQuery) -> (r: bool)
    ensures
        r == (a@ == b@),
{
    same_ids(&a.tags_include, &b.tags_include)
        && same_flag(a.include_strong, b.include_strong)
        && same_ids(&a.folders_include, &b.folders_include)
        && same_names(&a.names, &b.names)
        && same_number(a.limit, b.limit)
        && same_number(a.start, b.start)
}

/// A cache storing the known size of various queries.
/// The size of a query is calculated by running it and discarding the result (expensive!),
/// so caching it is important. The cache is flushed, by `Context::invalidate_sizes`, any
/// time the database's data changes, as the sizes may no longer be current.
pub struct QuerySizeCache {
    map: Vec<(FileQuery, usize)>,
}

impl View for QuerySizeCache {
    type V = Map<QueryView, usize>;

    closed spec fn view(&self) -> Map<QueryView, usize> {
        cache_map(self.map@)
    }
}

impl QuerySizeCache {
    /// The cache holds at most one entry per query.
    pub closed spec fn wf(&self) -> bool {
        distinct_queries(self.map@)
    }

    fn find(&self, query: &FileQuery) -> (r: Option<usize>)
        requires
            self.wf(),
        ensures
            match r {
                Some(i) => i < self.map@.len() && self.map@[i as int].0@ == query@,
                None => forall|i: int| 0 <= i < self.map@.len() ==> self.map@[i].0@ != query@,
            },
    {
        let mut k: usize = 0;
        while k < self.map.len()
            invariant
                k <= self.map@.len(),
                forall|i: int| 0 <= i < k ==> self.map@[i].0@ != query@,
            decreases self.map.len() - k,
        {
            if same_query(&self.map[k].0, query) {
                return Some(k);
            }
            k = k + 1;
        }
        None
    }

    /// Records that `query` has `size` results.
    pub fn insert(&mut self, query: FileQuery, size: usize)
        requires
            old(self).wf(),
        ensures
            final(self).wf(),
            final(self)@ == old(self)@.insert(query@, size),
    {
        proof { lemma_cache_map_entries(self.map@); }
        let ghost before = self.map@;
        let ghost key = query@;
        match self.find(&query) {
            Some(i) => {
                self.map.set(i, (query, size));
                assert(distinct_queries(self.map@)) by {
                    assert forall|a: int, b: int| 0 <= a < self.map@.len() && 0 <= b < self.map@.len() && a != b implies
                        #[trigger] self.map@[a].0@ != #[trigger] self.map@[b].0@ by {
                        if a != i && b != i {
                            assert(self.map@[a] == before[a] && self.map@[b] == before[b]);
                        } else if a == i {
                            assert(self.map@[b] == before[b]);
                            assert(before[i as int].0@ == key);
                        } else {
                            assert(self.map@[a] == before[a]);
                            assert(before[i as int].0@ == key);
                        }
                    }
                }
                proof { lemma_cache_map_entries(self.map@); }
                assert(cache_map(self.map@) =~= cache_map(before).insert(key, size)) by {
                    assert forall|k: QueryView| #[trigger] cache_map(self.map@).contains_key(k) <==> cache_map(before).insert(key, size).contains_key(k) by {
                        if cache_map(before).contains_key(k) && k != key {
                            let j = choose|j: int| 0 <= j < before.len() && before[j].0@ == k;
                            assert(self.map@[j] == before[j]);
                        }
                        if cache_map(self.map@).contains_key(k) && k != key {
                            let j = choose|j: int| 0 <= j < self.map@.len() && self.map@[j].0@ == k;
                            assert(self.map@[j] == before[j]);
                        }
                        assert(self.map@[i as int].0@ == key);
                    }
                    assert forall|k: QueryView| #[trigger] cache_map(self.map@).contains_key(k) implies cache_map(self.map@)[k] == cache_map(before).insert(key, size)[k] by {
                        let j = choose|j: int| 0 <= j < self.map@.len() && self.map@[j].0@ == k;
                        if j != i {
                            assert(self.map@[j] == before[j]);
                        }
                    }
                }
            },
            None => {
                self.map.push((query, size));
                assert(self.map@.drop_last() =~= before);
                assert(distinct_queries(self.map@)) by {
                    assert forall|a: int, b: int| 0 <= a < self.map@.len() && 0 <= b < self.map@.len() && a != b implies
                        #[trigger] self.map@[a].0@ != #[trigger] self.map@[b].0@ by {
                        if a < before.len() {
                            assert(self.map@[a] == before[a]);
                        }
                        if b < before.len() {
                            assert(self.map@[b] == before[b]);
                        }
                    }
                }
            },
        }
    }

    /// Returns whether the size of `query` is known.
    pub fn contains_key(&self, query: &FileQuery) -> (r: bool)
        requires
            self.wf(),
        ensures
            r == self@.contains_key(query@),
    {
        proof { lemma_cache_map_entries(self.map@); }
        match self.find(query) {
            Some(_) => true,
            None => false,
        }
    }

    /// The known size of `key`.
    pub fn get(&self, key: &FileQuery) -> (r: usize)
        requires
            self.wf(),
            self@.contains_key(key@),
        ensures
            r == self@[key@],
    {
        proof { lemma_cache_map_entries(self.map@); }
        let i = self.find(key).unwrap();
        self.map[i].1
    }
}

impl Default for QuerySizeCache {
    /// An empty cache.
    fn default() -> (r: QuerySizeCache)
        ensures
            r.wf(),
            r@ == Map::<QueryView, usize>::empty(),
    {
        QuerySizeCache { map: Vec::new() }
    }
}

} // verus!
