//! Matching of changed paths against the paths of the watched projects.

use vstd::prelude::*;

use crate::db::database::{lemma_listed_paths, lists_project_paths, Database};
use crate::text::str_starts_with;

verus! {

/// Index of the first of `paths` that is a prefix of `event`, if any.
pub open spec fn first_prefix(paths: Seq<Seq<char>>, event: Seq<char>) -> Option<int>
    decreases paths.len(),
{
    if paths.len() == 0 {
        None
    } else if paths[0].is_prefix_of(event) {
        Some(0)
    } else {
        match first_prefix(paths.drop_first(), event) {
            Some(i) => Some(i + 1),
            None => None,
        }
    }
}

proof fn lemma_first_prefix(paths: Seq<Seq<char>>, event: Seq<char>, i: int)
    requires
        0 <= i <= paths.len(),
        forall|j: int| 0 <= j < i ==> !(#[trigger] paths[j]).is_prefix_of(event),
    ensures
        i == paths.len() ==> first_prefix(paths, event) is None,
        i < paths.len() && paths[i].is_prefix_of(event) ==> first_prefix(paths, event) == Some(i),
    decreases i,
{
    if i > 0 {
        let rest = paths.drop_first();
        assert forall|j: int| 0 <= j < i - 1 implies !(#[trigger] rest[j]).is_prefix_of(event) by {
            assert(rest[j] == paths[j + 1]);
        }
        lemma_first_prefix(rest, event, i - 1);
        if i < paths.len() {
            assert(rest[i - 1] == paths[i]);
        }
    }
}

/// The first of the database paths that the event path starts with.
pub fn find_matching_path<'a>(database_paths: &'a [String], event_path: &'a str) -> (r: Option<&'a String>)
    ensures
        match first_prefix(database_paths@.map_values(|p: String| p@), event_path@) {
            Some(i) => r == Some(&database_paths@[i]),
            None => r is None,
        },
{
    let ghost views = database_paths@.map_values(|p: String| p@);
    let mut i: usize = 0;
    while i < database_paths.len()
        invariant
            i <= database_paths@.len(),
            views == database_paths@.map_values(|p: String| p@),
            forall|j: int| 0 <= j < i ==> !(#[trigger] views[j]).is_prefix_of(event_path@),
        decreases database_paths@.len() - i,
    {
        if str_starts_with(event_path, database_paths[i].as_str()) {
            proof {
                lemma_first_prefix(views, event_path@, i as int);
            }
            return Some(&database_paths[i]);
        }
        i = i + 1;
    }
    proof {
        lemma_first_prefix(views, event_path@, i as int);
    }
    None
}

/// Whether some cached project's path is a prefix of `event`.
pub open spec fn has_project_prefix(db: Map<i32, (Seq<char>, Seq<char>)>, event: Seq<char>) -> bool {
    exists|id: i32| #[trigger] db.contains_key(id) && db[id].1.is_prefix_of(event)
}

/// The path of the watched project that the first changed path lies in: a
/// project path that is a prefix of it, or `None` when there is none.
pub fn handle_change_detected(database: &Database, paths: &[String]) -> (r: Option<String>)
    requires
        paths@.len() > 0,
    ensures
        match r {
            Some(p) => p@.is_prefix_of(paths@[0]@) && exists|id: i32|
                #[trigger] database@.contains_key(id) && database@[id].1 == p@,
            None => !has_project_prefix(database@, paths@[0]@),
        },
{
    let database_paths = match database.get_all_project_paths() {
        Ok(database_paths) => database_paths,
        Err(_) => return None,
    };
    let ghost views = database_paths@.map_values(|p: String| p@);
    proof {
        lemma_listed_paths(views, database@);
    }
    match find_matching_path(database_paths.as_slice(), paths[0].as_str()) {
        Some(path) => {
            let ghost i = first_prefix(views, paths@[0]@)->0;
            proof {
                lemma_first_prefix_found(views, paths@[0]@);
                assert(views[i] == path@);
                assert(views.contains(path@));
            }
            Some(path.clone())
        },
        None => {
            proof {
                if has_project_prefix(database@, paths@[0]@) {
                    let id = choose|id: i32| #[trigger] database@.contains_key(id)
                        && database@[id].1.is_prefix_of(paths@[0]@);
                    assert(views.contains(database@[id].1));
                    let j = choose|j: int| 0 <= j < views.len() && views[j] == database@[id].1;
                    lemma_first_prefix_complete(views, paths@[0]@, j);
                }
            }
            None
        },
    }
}

proof fn lemma_first_prefix_found(paths: Seq<Seq<char>>, event: Seq<char>)
    ensures
        first_prefix(paths, event) matches Some(i) ==> 0 <= i < paths.len()
            && paths[i].is_prefix_of(event),
    decreases paths.len(),
{
    if paths.len() > 0 && !paths[0].is_prefix_of(event) {
        let rest = paths.drop_first();
        lemma_first_prefix_found(rest, event);
        if let Some(i) = first_prefix(rest, event) {
            assert(rest[i] == paths[i + 1]);
        }
    }
}

proof fn lemma_first_prefix_complete(paths: Seq<Seq<char>>, event: Seq<char>, j: int)
    requires
        0 <= j < paths.len(),
        paths[j].is_prefix_of(event),
    ensures
        first_prefix(paths, event) is Some,
    decreases j,
{
    if j > 0 && !paths[0].is_prefix_of(event) {
        let rest = paths.drop_first();
        assert(rest[j - 1] == paths[j]);
        lemma_first_prefix_complete(rest, event, j - 1);
    }
}

} // verus!
