use warthog::db::database::Database;
use warthog::processor::processor::{find_matching_path, handle_change_detected};

fn sorted_paths(db: &Database) -> Vec<String> {
    let mut paths = db.get_all_project_paths().unwrap();
    paths.sort();
    paths
}

#[test]
fn empty_database_has_no_paths() {
    let db = Database::new();
    assert!(db.get_all_project_paths().unwrap().is_empty());
}

#[test]
fn populate_then_list() {
    let mut db = Database::new();
    let rows = vec![
        (1, "a".to_string(), "/p/a".to_string()),
        (2, "b".to_string(), "/p/b".to_string()),
        (1, "c".to_string(), "/p/c".to_string()),
    ];
    assert!(db.populate_cache(Ok(rows)).is_ok());
    assert_eq!(sorted_paths(&db), vec!["/p/b".to_string(), "/p/c".to_string()]);
}

#[test]
fn failed_query_changes_nothing() {
    let mut db = Database::new();
    db.cache_project(7, "x", "/x");
    let r = db.populate_cache(Err(sqlx::Error::RowNotFound));
    assert!(matches!(r, Err(sqlx::Error::RowNotFound)));
    assert_eq!(sorted_paths(&db), vec!["/x".to_string()]);
}

#[test]
fn cached_project_is_listed() {
    let mut db = Database::new();
    db.cache_project(3, "song", "/music/song");
    db.cache_project(4, "film", "/video/film");
    assert_eq!(sorted_paths(&db), vec!["/music/song".to_string(), "/video/film".to_string()]);
}

#[test]
fn uncached_project_is_not_listed() {
    let mut db = Database::new();
    db.cache_project(3, "song", "/music/song");
    db.cache_project(4, "film", "/video/film");
    assert_eq!(db.uncache_project(3), 3);
    assert_eq!(sorted_paths(&db), vec!["/video/film".to_string()]);
    assert_eq!(db.uncache_project(99), 99);
    assert_eq!(sorted_paths(&db), vec!["/video/film".to_string()]);
}

#[test]
fn uncache_narrows_the_id() {
    let mut db = Database::new();
    db.cache_project(5, "five", "/five");
    assert_eq!(db.uncache_project((1i64 << 32) + 5), 5);
    assert!(db.get_all_project_paths().unwrap().is_empty());
}

#[test]
fn first_matching_path() {
    let paths = vec!["/a/b".to_string(), "/a".to_string(), "/c".to_string()];
    assert_eq!(find_matching_path(&paths, "/a/b/c.txt"), Some(&paths[0]));
    assert_eq!(find_matching_path(&paths, "/a/x"), Some(&paths[1]));
    assert_eq!(find_matching_path(&paths, "/d"), None);
    assert_eq!(find_matching_path(&[], "/d"), None);
}

#[test]
fn change_in_watched_project() {
    let mut db = Database::new();
    db.cache_project(1, "song", "/music/song");
    db.cache_project(2, "film", "/video/film");
    let changed = vec!["/music/song/take1.wav".to_string(), "/video/film/a.mov".to_string()];
    assert_eq!(handle_change_detected(&db, &changed), Some("/music/song".to_string()));
    let elsewhere = vec!["/tmp/x".to_string()];
    assert_eq!(handle_change_detected(&db, &elsewhere), None);
}

#[test]
fn uncache_undoes_cache() {
    let mut db = Database::new();
    db.cache_project(1, "a", "/a");
    let before = sorted_paths(&db);
    db.cache_project(2, "b", "/b");
    assert_eq!(db.uncache_project(2), 2);
    assert_eq!(sorted_paths(&db), before);
}

#[test]
fn finish_insert_caches_only_on_success() {
    let mut db = Database::new();
    assert!(db.finish_insert("a", "/a", Ok(4)).is_ok());
    assert_eq!(sorted_paths(&db), vec!["/a".to_string()]);
    assert!(matches!(db.finish_insert("b", "/b", Err(sqlx::Error::RowNotFound)), Err(sqlx::Error::RowNotFound)));
    assert_eq!(sorted_paths(&db), vec!["/a".to_string()]);
}

#[test]
fn finish_remove_uncaches_only_on_success() {
    let mut db = Database::new();
    db.cache_project(4, "a", "/a");
    assert!(matches!(db.finish_remove(4, Err(sqlx::Error::PoolClosed)), Err(sqlx::Error::PoolClosed)));
    assert_eq!(sorted_paths(&db), vec!["/a".to_string()]);
    assert_eq!(db.finish_remove(4, Ok(())).unwrap(), 4);
    assert!(sorted_paths(&db).is_empty());
}

#[test]
fn refill_changes_nothing() {
    let rows = || vec![(1, "a".to_string(), "/a".to_string()), (2, "b".to_string(), "/b".to_string())];
    let mut db = Database::new();
    db.populate_cache(Ok(rows())).unwrap();
    let once = sorted_paths(&db);
    db.populate_cache(Ok(rows())).unwrap();
    assert_eq!(sorted_paths(&db), once);
}

#[test]
fn listing_after_insert_adds_the_path() {
    let mut db = Database::new();
    db.cache_project(1, "a", "/same");
    let mut expected = db.get_all_project_paths().unwrap();
    db.cache_project(2, "b", "/same");
    expected.push("/same".to_string());
    expected.sort();
    assert_eq!(sorted_paths(&db), expected);
}
