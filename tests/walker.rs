use pyscan::hash::ContentHash;
use pyscan::search::{GlobPattern, SearchType};
use pyscan::walker::{walk, DedupFilter, Entry, EntryKind};

fn hash(first: u8) -> ContentHash {
    let bytes: Vec<u8> = (0..20u8).map(|i| i.wrapping_add(first)).collect();
    ContentHash::from_bytes(&bytes).unwrap()
}

fn file(name: &str, first: u8) -> Entry {
    Entry { name: name.to_string(), kind: EntryKind::Blob(hash(first)) }
}

fn dir(name: &str, entries: Vec<Entry>) -> Entry {
    Entry { name: name.to_string(), kind: EntryKind::Tree(entries) }
}

fn filter() -> DedupFilter {
    DedupFilter::new(1 << 16, 1000).unwrap()
}

fn is_python(p: &str) -> bool {
    p.ends_with(".py")
}

fn paths(r: &[(String, ContentHash)]) -> Vec<String> {
    r.iter().map(|(p, _)| p.clone()).collect()
}

#[test]
fn same_hash_at_two_paths_is_handed_on_once() {
    let root = vec![dir("pkg", vec![file("a.py", 1)]), file("b.py", 1)];
    let mut f = filter();
    let r = walk(&root, &is_python, &mut f);
    assert_eq!(paths(&r), vec!["pkg/a.py".to_string()]);
    assert_eq!(r[0].1.as_bytes(), hash(1).as_bytes());
}

#[test]
fn distinct_hashes_are_all_handed_on_in_post_order() {
    let root = vec![
        dir("pkg", vec![dir("sub", vec![file("x.py", 3)]), file("y.py", 4)]),
        file("z.py", 5),
        file("README", 6),
    ];
    let mut f = filter();
    let r = walk(&root, &is_python, &mut f);
    assert_eq!(paths(&r), vec!["pkg/sub/x.py", "pkg/y.py", "z.py"]);
}

#[test]
fn a_hash_first_seen_at_a_rejected_path_is_still_handed_on_later() {
    let root = vec![file("notes.txt", 7), file("m.py", 7)];
    let mut f = filter();
    assert_eq!(paths(&walk(&root, &is_python, &mut f)), vec!["m.py"]);
}

#[test]
fn fresh_filters_give_the_same_pairs() {
    let root = vec![dir("a", vec![file("1.py", 1), file("2.py", 2)]), dir("b", vec![file("3.py", 1)])];
    let first = walk(&root, &is_python, &mut filter());
    let second = walk(&root, &is_python, &mut filter());
    assert_eq!(paths(&first), paths(&second));
    assert_eq!(paths(&first), vec!["a/1.py", "a/2.py"]);
}

#[test]
fn a_filter_kept_across_walks_drops_everything_seen() {
    let root = vec![file("a.py", 9), file("b.py", 10)];
    let mut f = filter();
    assert_eq!(walk(&root, &is_python, &mut f).len(), 2);
    assert!(walk(&root, &is_python, &mut f).is_empty());
    assert!(f.check_and_set(hash(9).as_bytes()));
}

#[test]
fn filter_sizes_must_be_positive() {
    assert!(DedupFilter::new(0, 10).is_none());
    assert!(DedupFilter::new(10, 0).is_none());
    assert!(DedupFilter::new(usize::MAX, 10).is_none());
}

#[test]
fn glob_search_matches_paths() {
    let search = SearchType::Glob(GlobPattern::new("**/*.py").unwrap());
    assert!(search.matches_path("pkg/mod.py"));
    assert!(!search.matches_path("pkg/mod.pyc"));
    let root = vec![dir("pkg", vec![file("mod.py", 1), file("data.json", 2)])];
    let matcher = |p: &str| search.matches_path(p);
    let r = walk(&root, &matcher, &mut filter());
    assert_eq!(paths(&r), vec!["pkg/mod.py"]);
}

#[test]
fn a_fresh_filter_reports_nothing_seen() {
    let mut f = filter();
    assert!(!f.check_and_set(hash(42).as_bytes()));
    assert!(f.check_and_set(hash(42).as_bytes()));
}
