use lirah_pty::directory_cache::{DirectoryCache, DirectoryEntry, CACHE_TTL_MS};
use lirah_pty::listing::sort_entries;

fn entry(name: &str, is_dir: bool) -> DirectoryEntry {
    DirectoryEntry { name: name.to_string(), path: format!("/d/{}", name), is_dir }
}

#[test]
fn cached_listing_is_returned_while_fresh() {
    let mut c = DirectoryCache::new();
    assert!(c.get("/d", 0).is_none());
    c.set("/d".to_string(), vec![entry("a", true), entry("b", false)], 1000);
    let got = c.get("/d", 1000 + CACHE_TTL_MS).unwrap();
    assert_eq!(got.len(), 2);
    assert_eq!(got[0].name, "a");
    assert_eq!(got[0].path, "/d/a");
    assert!(got[0].is_dir);
    assert_eq!(got[1].name, "b");
    assert!(!got[1].is_dir);
    assert!(c.get("/d", 1000 + CACHE_TTL_MS + 1).is_none());
    assert!(c.get("/other", 1000).is_none());
}

#[test]
fn set_replaces_and_invalidate_drops() {
    let mut c = DirectoryCache::new();
    c.set("/d".to_string(), vec![entry("a", true)], 0);
    c.set("/d".to_string(), vec![entry("z", false)], 10);
    let got = c.get("/d", 10).unwrap();
    assert_eq!(got.len(), 1);
    assert_eq!(got[0].name, "z");
    c.set("/e".to_string(), vec![], 10);
    c.invalidate("/d");
    assert!(c.get("/d", 10).is_none());
    assert!(c.get("/e", 10).is_some());
    c.clear();
    assert!(c.get("/e", 10).is_none());
}

#[test]
fn clock_going_back_keeps_entry() {
    let mut c = DirectoryCache::new();
    c.set("/d".to_string(), vec![entry("a", true)], 5000);
    assert!(c.get("/d", 100).is_some());
}

#[test]
fn listing_puts_directories_first() {
    let sorted = sort_entries(vec![
        entry("b.txt", false),
        entry("Zeta", true),
        entry("A.md", false),
        entry("alpha", true),
    ]);
    let names: Vec<&str> = sorted.iter().map(|e| e.name.as_str()).collect();
    assert_eq!(names, vec!["alpha", "Zeta", "A.md", "b.txt"]);
    assert!(sort_entries(Vec::new()).is_empty());
}
