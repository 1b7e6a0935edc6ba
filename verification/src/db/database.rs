//! The in-memory cache of the projects that the database records.

use std::collections::HashMap;
use vstd::std_specs::hash::spec_hash_map_iter;
use vstd::std_specs::iter::IteratorSpec;
use vstd::prelude::*;

verus! {

broadcast use vstd::std_specs::hash::group_hash_axioms;

#[verifier::external_type_specification]
#[verifier::external_body]
pub struct ExSqlxError(sqlx::Error);

/// A project as plain values: its id, name and path.
pub type ProjectRow = (i32, Seq<char>, Seq<char>);

/// The cache after recording `rows` in order: a later row with the same id
/// replaces an earlier one.
pub open spec fn insert_rows(
    cache: Map<i32, (Seq<char>, Seq<char>)>,
    rows: Seq<ProjectRow>,
) -> Map<i32, (Seq<char>, Seq<char>)>
    decreases rows.len(),
{
    if rows.len() == 0 {
        cache
    } else {
        let last = rows.last();
        insert_rows(cache, rows.drop_last()).insert(last.0, (last.1, last.2))
    }
}

/// Rows of the projects table as plain values.
pub open spec fn rows_view(rows: Seq<(i32, String, String)>) -> Seq<ProjectRow> {
    rows.map_values(|r: (i32, String, String)| (r.0, r.1@, r.2@))
}

/// `paths` lists the path of every project of `cache` exactly once, in some
/// order.
pub open spec fn lists_project_paths(
    paths: Seq<Seq<char>>,
    cache: Map<i32, (Seq<char>, Seq<char>)>,
) -> bool {
    exists|ids: Seq<i32>| #[trigger] ids_list_paths(ids, paths, cache)
}

/// `ids` holds every id of `cache` once, and `paths[i]` is the path of the
/// project with id `ids[i]`.
pub open spec fn ids_list_paths(
    ids: Seq<i32>,
    paths: Seq<Seq<char>>,
    cache: Map<i32, (Seq<char>, Seq<char>)>,
) -> bool {
    &&& ids.no_duplicates()
    &&& ids.to_set() == cache.dom()
    &&& ids.len() == paths.len()
    &&& forall|i: int| 0 <= i < ids.len() ==> paths[i] == (#[trigger] cache[ids[i]]).1
}

/// The ids behind a listing of the project paths.
pub open spec fn listing_ids(paths: Seq<Seq<char>>, cache: Map<i32, (Seq<char>, Seq<char>)>) -> Seq<i32> {
    choose|ids: Seq<i32>| ids_list_paths(ids, paths, cache)
}

/// The paths that `lists_project_paths` lists are exactly the paths of the
/// cached projects.
pub proof fn lemma_listed_paths(paths: Seq<Seq<char>>, cache: Map<i32, (Seq<char>, Seq<char>)>)
    requires
        lists_project_paths(paths, cache),
    ensures
        forall|p: Seq<char>| #[trigger] paths.contains(p) <==> exists|id: i32|
            #[trigger] cache.contains_key(id) && cache[id].1 == p,
{
    let ids = listing_ids(paths, cache);
    assert forall|p: Seq<char>| #[trigger] paths.contains(p) <==> exists|id: i32|
        #[trigger] cache.contains_key(id) && cache[id].1 == p by {
        if paths.contains(p) {
            let i = choose|i: int| 0 <= i < paths.len() && paths[i] == p;
            assert(ids.to_set().contains(ids[i]));
            assert(cache.contains_key(ids[i]) && cache[ids[i]].1 == p);
        }
        if exists|id: i32| #[trigger] cache.contains_key(id) && cache[id].1 == p {
            let id = choose|id: i32| #[trigger] cache.contains_key(id) && cache[id].1 == p;
            assert(ids.to_set().contains(id));
            let i = choose|i: int| 0 <= i < ids.len() && ids[i] == id;
            assert(paths[i] == cache[ids[i]].1);
        }
    }
}

/// The projects known to the service, keyed by their database id.
pub struct Database {
    cache: HashMap<i32, (String, String)>,
}

impl View for Database {
    type V = Map<i32, (Seq<char>, Seq<char>)>;

    closed spec fn view(&self) -> Map<i32, (Seq<char>, Seq<char>)> {
        Map::new(
            |id: i32| self.cache@.contains_key(id),
            |id: i32| (self.cache@[id].0@, self.cache@[id].1@),
        )
    }
}

impl Database {
    /// A cache that holds no project yet.
    pub fn new() -> (r: Self)
        ensures
            r@ == Map::<i32, (Seq<char>, Seq<char>)>::empty(),
    {
        let r = Database { cache: HashMap::new() };
        assert(r@ =~= Map::<i32, (Seq<char>, Seq<char>)>::empty());
        r
    }

    /// The paths of all cached projects.
    pub fn get_all_project_paths(&self) -> (r: Result<Vec<String>, sqlx::Error>)
        ensures
            r matches Ok(paths) && lists_project_paths(paths@.map_values(|p: String| p@), self@),
    {
        let mut paths: Vec<String> = Vec::new();
        let ghost entries = spec_hash_map_iter(&self.cache).remaining();
        let ghost mut ids: Seq<i32> = Seq::empty();
        for entry in it: self.cache.iter()
            invariant
                it.seq() == entries,
                entries.no_duplicates(),
                paths@.len() == it.index(),
                ids.len() == it.index(),
                forall|i: int| 0 <= i < it.index() ==> ids[i] == *(#[trigger] entries[i]).0,
                forall|i: int| 0 <= i < it.index() ==> paths@[i] == (#[trigger] entries[i]).1.1,
        {
            let (id, project) = entry;
            proof {
                ids = ids.push(*id);
            }
            paths.push(project.1.clone());
        }
        proof {
            let m = self.cache@;
            assert(ids.len() == entries.len());
            assert(entries.len() == m.dom().len());
            let pv = paths@.map_values(|p: String| p@);
            assert forall|i: int| 0 <= i < ids.len() implies pv[i] == (#[trigger] self@[ids[i]]).1 by {
                assert(m.contains_key(*entries[i].0));
            }
            assert forall|i: int, j: int| 0 <= i < ids.len() && 0 <= j < ids.len() && i != j
                implies ids[i] != ids[j] by {
                assert(m.contains_key(*entries[i].0) && m[*entries[i].0] == *entries[i].1);
                assert(m.contains_key(*entries[j].0) && m[*entries[j].0] == *entries[j].1);
                if ids[i] == ids[j] {
                    assert(entries[i] == entries[j]);
                }
            }
            assert forall|k: i32| #[trigger] ids.to_set().contains(k) <==> self@.dom().contains(k) by {
                if m.contains_key(k) {
                    assert(entries.contains((&k, &m[k])));
                    let i = choose|i: int| 0 <= i < entries.len() && entries[i] == (&k, &m[k]);
                    assert(ids[i] == k);
                }
                if ids.to_set().contains(k) {
                    let i = choose|i: int| 0 <= i < ids.len() && ids[i] == k;
                    assert(m.contains_key(*entries[i].0));
                }
            }
            assert(ids.to_set() =~= self@.dom());
            assert(ids_list_paths(ids, pv, self@));
        }
        Ok(paths)
    }

    /// Records the projects that a query of the projects table gave, in the
    /// order of its rows; a failed query is handed back and changes nothing.
    pub fn populate_cache(
        &mut self,
        projects: Result<Vec<(i32, String, String)>, sqlx::Error>,
    ) -> (r: Result<(), sqlx::Error>)
        ensures
            match projects {
                Ok(rows) => r is Ok && final(self)@ == insert_rows(old(self)@, rows_view(rows@)),
                Err(e) => r == Err::<(), sqlx::Error>(e) && final(self)@ == old(self)@,
            },
    {
        match projects {
            Ok(rows) => {
                let n = rows.len();
                let mut i: usize = 0;
                while i < n
                    invariant
                        n == rows@.len(),
                        i <= n,
                        self@ == insert_rows(old(self)@, rows_view(rows@).take(i as int)),
                    decreases n - i,
                {
                    let row = &rows[i];
                    self.cache_project(row.0, row.1.as_str(), row.2.as_str());
                    proof {
                        let rv = rows_view(rows@);
                        assert(rv.take(i + 1).drop_last() =~= rv.take(i as int));
                    }
                    i = i + 1;
                }
                proof {
                    assert(rows_view(rows@).take(n as int) =~= rows_view(rows@));
                }
                Ok(())
            },
            Err(e) => Err(e),
        }
    }

    /// Completes the recording of a project once the database has stored it:
    /// when the query of the new row's id succeeded, the project is cached
    /// under that id; otherwise the query's error is handed back and the cache
    /// stays as it was.
    pub fn finish_insert(&mut self, name: &str, path: &str, last_id: Result<i32, sqlx::Error>) -> (r:
        Result<(), sqlx::Error>)
        ensures
            match last_id {
                Ok(id) => r is Ok && final(self)@ == old(self)@.insert(id, (name@, path@)),
                Err(e) => r == Err::<(), sqlx::Error>(e) && final(self)@ == old(self)@,
            },
    {
        match last_id {
            Ok(id) => {
                self.cache_project(id, name, path);
                Ok(())
            },
            Err(e) => Err(e),
        }
    }

    /// Completes the removal of the project found under `id`: when the
    /// database deleted its row, the project is uncached and its id, narrowed
    /// to `i32`, returned; otherwise the deletion's error is handed back and
    /// the cache stays as it was.
    pub fn finish_remove(&mut self, id: i64, deleted: Result<(), sqlx::Error>) -> (r: Result<
        i32,
        sqlx::Error,
    >)
        ensures
            match deleted {
                Ok(_) => r == Ok::<i32, sqlx::Error>(id as i32) && final(self)@ == old(self)@.remove(
                    id as i32,
                ),
                Err(e) => r == Err::<i32, sqlx::Error>(e) && final(self)@ == old(self)@,
            },
    {
        match deleted {
            Ok(_) => Ok(self.uncache_project(id)),
            Err(e) => Err(e),
        }
    }

    /// Records a project that the database has just stored under `id`.
    pub fn cache_project(&mut self, id: i32, name: &str, path: &str)
        ensures
            final(self)@ == old(self)@.insert(id, (name@, path@)),
    {
        self.cache.insert(id, (name.to_owned(), path.to_owned()));
        assert(self@ =~= old(self)@.insert(id, (name@, path@)));
    }

    /// Forgets the project that the database has just deleted under `id`;
    /// the cache is keyed by the id narrowed to `i32`, which is returned.
    pub fn uncache_project(&mut self, id: i64) -> (r: i32)
        ensures
            r == id as i32,
            final(self)@ == old(self)@.remove(id as i32),
    {
        let key = id as i32;
        self.cache.remove(&key);
        assert(self@ =~= old(self)@.remove(key));
        key
    }
}

/// After a project is cached, the listed project paths hold its path.
pub proof fn law_cached_project_is_listed(
    cache: Map<i32, (Seq<char>, Seq<char>)>,
    id: i32,
    name: Seq<char>,
    path: Seq<char>,
    paths: Seq<Seq<char>>,
)
    requires
        lists_project_paths(paths, cache.insert(id, (name, path))),
    ensures
        paths.contains(path),
{
    let after = cache.insert(id, (name, path));
    lemma_listed_paths(paths, after);
    assert(after.contains_key(id) && after[id].1 == path);
}

/// After the only project with a path is uncached, the listed project paths
/// no longer hold that path; the other projects stay listed.
pub proof fn law_uncached_project_is_not_listed(
    cache: Map<i32, (Seq<char>, Seq<char>)>,
    id: i32,
    paths: Seq<Seq<char>>,
)
    requires
        cache.contains_key(id),
        forall|other: i32| #[trigger] cache.contains_key(other) && other != id
            ==> cache[other].1 != cache[id].1,
        lists_project_paths(paths, cache.remove(id)),
    ensures
        !paths.contains(cache[id].1),
        forall|other: i32| #[trigger] cache.contains_key(other) && other != id
            ==> paths.contains(cache[other].1),
{
    let after = cache.remove(id);
    lemma_listed_paths(paths, after);
    assert forall|other: i32| #[trigger] cache.contains_key(other) && other != id
        implies paths.contains(cache[other].1) by {
        assert(after.contains_key(other) && after[other].1 == cache[other].1);
    }
}

/// Caching a project under a fresh id and then uncaching that id (as the
/// database returns it, an `i64`) gives back the cache as it was.
pub proof fn law_uncache_undoes_cache(
    cache: Map<i32, (Seq<char>, Seq<char>)>,
    id: i32,
    name: Seq<char>,
    path: Seq<char>,
)
    requires
        !cache.contains_key(id),
    ensures
        cache.insert(id, (name, path)).remove((id as i64) as i32) == cache,
{
    assert(cache.insert(id, (name, path)).remove((id as i64) as i32) =~= cache);
}

/// Index of the last row with id `id`, or -1 when there is none.
pub open spec fn last_row(rows: Seq<ProjectRow>, id: i32) -> int
    decreases rows.len(),
{
    if rows.len() == 0 {
        -1
    } else if rows.last().0 == id {
        rows.len() - 1
    } else {
        last_row(rows.drop_last(), id)
    }
}

/// What recording rows leaves under one id: the last row with that id, or
/// what was there before when no row has it.
pub proof fn lemma_insert_rows_at(cache: Map<i32, (Seq<char>, Seq<char>)>, rows: Seq<ProjectRow>, id: i32)
    ensures
        -1 <= last_row(rows, id) < rows.len(),
        last_row(rows, id) >= 0 ==> {
            let j = last_row(rows, id);
            &&& rows[j].0 == id
            &&& insert_rows(cache, rows).contains_key(id)
            &&& insert_rows(cache, rows)[id] == (rows[j].1, rows[j].2)
        },
        last_row(rows, id) < 0 ==> {
            &&& insert_rows(cache, rows).contains_key(id) == cache.contains_key(id)
            &&& insert_rows(cache, rows)[id] == cache[id]
        },
    decreases rows.len(),
{
    if rows.len() > 0 && rows.last().0 != id {
        let prefix = rows.drop_last();
        lemma_insert_rows_at(cache, prefix, id);
        if last_row(prefix, id) >= 0 {
            assert(rows[last_row(prefix, id)] == prefix[last_row(prefix, id)]);
        }
    }
}

/// Recording the same rows a second time leaves the cache as recording them
/// once did: filling the cache again from an unchanged table changes nothing.
pub proof fn law_refill_idempotent(cache: Map<i32, (Seq<char>, Seq<char>)>, rows: Seq<ProjectRow>)
    ensures
        insert_rows(insert_rows(cache, rows), rows) == insert_rows(cache, rows),
{
    let once = insert_rows(cache, rows);
    let twice = insert_rows(once, rows);
    assert forall|id: i32| #[trigger] twice.contains_key(id) == once.contains_key(id)
        && (once.contains_key(id) ==> twice[id] == once[id]) by {
        lemma_insert_rows_at(cache, rows, id);
        lemma_insert_rows_at(once, rows, id);
    }
    assert(twice =~= once);
}

/// Two listings of the same cache hold each path equally often.
pub proof fn lemma_listings_agree(
    a: Seq<Seq<char>>,
    b: Seq<Seq<char>>,
    cache: Map<i32, (Seq<char>, Seq<char>)>,
)
    requires
        lists_project_paths(a, cache),
        lists_project_paths(b, cache),
    ensures
        a.to_multiset() == b.to_multiset(),
{
    let ia = listing_ids(a, cache);
    let ib = listing_ids(b, cache);
    let f = |id: i32| cache[id].1;
    assert(a =~= ia.map_values(f));
    assert(b =~= ib.map_values(f));
    lemma_permuted_ids(ia, ib);
    lemma_map_permutation(ia, ib, f);
}

/// Two duplicate-free sequences with the same elements are permutations of
/// each other.
proof fn lemma_permuted_ids(a: Seq<i32>, b: Seq<i32>)
    requires
        a.no_duplicates(),
        b.no_duplicates(),
        a.to_set() == b.to_set(),
    ensures
        a.to_multiset() == b.to_multiset(),
{
    broadcast use vstd::seq_lib::group_to_multiset_ensures;
    a.lemma_multiset_has_no_duplicates();
    b.lemma_multiset_has_no_duplicates();
    assert forall|x: i32| a.to_multiset().count(x) == b.to_multiset().count(x) by {
        assert(a.to_set().contains(x) == a.contains(x));
        assert(b.to_set().contains(x) == b.contains(x));
        if a.contains(x) {
            assert(a.to_multiset().contains(x));
            assert(b.to_multiset().contains(x));
        }
    }
    assert(a.to_multiset() =~= b.to_multiset());
}

/// Mapping two permutations of each other gives permutations of each other.
proof fn lemma_map_permutation<A, B>(a: Seq<A>, b: Seq<A>, f: spec_fn(A) -> B)
    requires
        a.to_multiset() == b.to_multiset(),
    ensures
        a.map_values(f).to_multiset() == b.map_values(f).to_multiset(),
    decreases a.len(),
{
    broadcast use vstd::seq_lib::group_to_multiset_ensures;
    if a.len() == 0 {
        assert(b.to_multiset().len() == 0);
        assert(b.len() == 0);
        assert(a.map_values(f) =~= b.map_values(f));
    } else {
        let x = a.last();
        let a2 = a.drop_last();
        assert(a2.push(x) =~= a);
        assert(a.to_multiset().count(x) > 0);
        assert(b.contains(x));
        let j = choose|j: int| 0 <= j < b.len() && b[j] == x;
        let b2 = b.remove(j);
        assert(a2.to_multiset() =~= b2.to_multiset()) by {
            assert(a.to_multiset() == a2.to_multiset().insert(x));
            assert(b2.to_multiset() == b.to_multiset().remove(x));
        }
        lemma_map_permutation(a2, b2, f);
        assert(a.map_values(f) =~= a2.map_values(f).push(f(x)));
        assert(b.map_values(f) =~= b2.map_values(f).insert(j, f(x)));
        vstd::seq_lib::to_multiset_insert(b2.map_values(f), j, f(x));
    }
}

/// After a project is cached under a fresh id, the listing of the cache holds
/// the paths of the listing before, and the new path, each as often.
pub proof fn law_listing_after_insert(
    cache: Map<i32, (Seq<char>, Seq<char>)>,
    id: i32,
    name: Seq<char>,
    path: Seq<char>,
    before: Seq<Seq<char>>,
    after: Seq<Seq<char>>,
)
    requires
        !cache.contains_key(id),
        lists_project_paths(before, cache),
        lists_project_paths(after, cache.insert(id, (name, path))),
    ensures
        after.to_multiset() == before.push(path).to_multiset(),
{
    let ids = listing_ids(before, cache);
    let grown = cache.insert(id, (name, path));
    let ids2 = ids.push(id);
    assert(!ids.contains(id)) by {
        if ids.contains(id) {
            assert(ids.to_set().contains(id));
        }
    }
    assert(ids2.no_duplicates());
    assert(ids2.to_set() =~= grown.dom()) by {
        assert forall|k: i32| ids2.to_set().contains(k) <==> grown.dom().contains(k) by {
            assert(ids.to_set().contains(k) == ids.contains(k));
            if ids2.contains(k) && k != id {
                let i = choose|i: int| 0 <= i < ids2.len() && ids2[i] == k;
                assert(ids.contains(k));
            }
            if ids.contains(k) {
                let i = choose|i: int| 0 <= i < ids.len() && ids[i] == k;
                assert(ids2[i] == k);
            }
            if k == id {
                assert(ids2[ids.len() as int] == id);
            }
        }
    }
    assert forall|i: int| 0 <= i < ids2.len() implies before.push(path)[i] == (#[trigger] grown[ids2[i]]).1 by {
        if i < ids.len() {
            assert(ids.to_set().contains(ids[i]));
        }
    }
    assert(ids_list_paths(ids2, before.push(path), grown));
    lemma_listings_agree(after, before.push(path), grown);
}

} // verus!
