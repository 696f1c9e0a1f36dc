use apex_voice_switcher::path::{FsPath, PathPart};
use apex_voice_switcher::search::{depot_exists, depot_search, EntryKind, FileSearch, Listing, SearchStep};

fn path(names: &[&str]) -> FsPath {
    FsPath { parts: names.iter().map(|s| PathPart::Normal(s.to_string())).collect() }
}

fn dir(name: &str) -> EntryKind {
    EntryKind::Directory(name.to_string())
}

#[test]
fn search_finds_nested_file() {
    let root = path(&["root"]);
    let (mut search, step) = FileSearch::start(&root);
    assert_eq!(step, SearchStep::List(path(&["root"])));
    let step = search.on_listing(Listing::Entries(vec![dir("nested")]));
    assert_eq!(step, SearchStep::List(path(&["root", "nested"])));
    let step = search.on_listing(Listing::Entries(vec![EntryKind::Other]));
    assert_eq!(step, SearchStep::Found(true));
}

#[test]
fn search_of_empty_tree_finds_nothing() {
    let (mut search, _) = FileSearch::start(&path(&["root"]));
    let step = search.on_listing(Listing::Entries(vec![dir("a"), dir("b")]));
    assert_eq!(step, SearchStep::List(path(&["root", "a"])));
    let step = search.on_listing(Listing::Entries(vec![]));
    assert_eq!(step, SearchStep::List(path(&["root", "b"])));
    let step = search.on_listing(Listing::NotADirectory);
    assert_eq!(step, SearchStep::Found(false));
}

#[test]
fn search_of_missing_root_finds_nothing() {
    let (mut search, _) = FileSearch::start(&path(&["missing"]));
    assert_eq!(search.on_listing(Listing::NotADirectory), SearchStep::Found(false));
}

#[test]
fn search_goes_depth_first_and_stops_at_first_problem() {
    let (mut search, _) = FileSearch::start(&path(&["r"]));
    let step = search.on_listing(Listing::Entries(vec![dir("a"), EntryKind::Other]));
    assert_eq!(step, SearchStep::List(path(&["r", "a"])));
    // The subdirectory is searched before the file beside it is taken.
    let step = search.on_listing(Listing::Entries(vec![EntryKind::Unreadable]));
    assert_eq!(step, SearchStep::Failed);

    let (mut search, _) = FileSearch::start(&path(&["r"]));
    let step = search.on_listing(Listing::Entries(vec![EntryKind::Other, EntryKind::Unreadable]));
    assert_eq!(step, SearchStep::Found(true));

    let (mut search, _) = FileSearch::start(&path(&["r"]));
    assert_eq!(search.on_listing(Listing::Unreadable), SearchStep::Failed);
}

#[test]
fn depot_search_answers_depot_exists() {
    let (mut search, step) = depot_search(&path(&["steamcmd"]), 1172475);
    assert_eq!(
        step,
        SearchStep::List(path(&["steamcmd", "steamapps", "content", "app_1172470", "depot_1172475", "audio", "ship"]))
    );
    let end = search.on_listing(Listing::Entries(vec![EntryKind::Other]));
    assert!(depot_exists(&end));
    assert!(!depot_exists(&SearchStep::Found(false)));
    assert!(!depot_exists(&SearchStep::Failed));
}
