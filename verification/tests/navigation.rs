use runger::config::Config;
use runger::entry::{Entry, EntryType};
use runger::joiners::{Joiners, ReadDirResult};
use runger::palette::CommandPalette;
use runger::path::Path;
use runger::state::State;
use runger::store::EntryStore;

fn p(s: &str) -> Path {
    Path::new(s.chars().collect())
}

fn text(path: &Path) -> String {
    path.chars.iter().collect()
}

fn cfg3() -> Config {
    Config { required_columns: 3, column_margin: 0 }
}

/// Caches entries for the chain's missing children, deciding from `dirs`
/// which of them are directories, the way the filesystem layer would.
fn settle(st: &mut State, dirs: &[&str]) {
    while let Some(q) = st.next_unknown_path() {
        let t: String = q.chars.iter().collect();
        let is_dir = dirs.contains(&t.as_str());
        st.create_entry_if_not_exists(q, None, is_dir);
        st.try_open_selected_path();
    }
}

fn state_with(entries: Vec<Entry>, fvc: &str, selected_column: usize) -> State {
    let mut store = EntryStore::new();
    for e in entries {
        store.insert(e);
    }
    State {
        entries: store,
        first_visible_column: p(fvc),
        config: cfg3(),
        selected_column,
        joiners: Joiners::new(),
        command_palette: CommandPalette::Empty,
        command_palette_row: 0,
    }
}

#[test]
fn new_state_requests_the_roots_listing() {
    let mut st = State::new(p("/a"), true, cfg3());
    assert_eq!(text(&st.first_visible_column), "/a");
    assert_eq!(st.selected_column, 0);
    assert!(st.has_first_entry());
    assert!(matches!(st.entry(&p("/a")).unwrap().ty, EntryType::Waiting(_)));
    let q = st.joiners.read_dir_joiner.take_next().unwrap();
    assert_eq!(text(&q), "/a");
}

#[test]
fn new_state_on_a_file_requests_nothing() {
    let mut st = State::new(p("/a/f"), false, cfg3());
    assert!(matches!(st.entry(&p("/a/f")).unwrap().ty, EntryType::File));
    assert!(st.joiners.read_dir_joiner.take_next().is_none());
}

#[test]
fn one_completion_settles_a_waiting_directory_as_opened() {
    let mut st = State::new(p("/a"), true, cfg3());
    st.joiners.read_dir_joiner.take_next();
    st.apply_read_dir_event(ReadDirResult::ok(p("/a"), vec![p("/a/b")])).unwrap();
    assert!(matches!(st.entry(&p("/a")).unwrap().ty, EntryType::Opened(_)));
}

#[test]
fn one_completion_settles_a_waiting_directory_as_denied() {
    let mut st = State::new(p("/a"), true, cfg3());
    st.joiners.read_dir_joiner.take_next();
    st.apply_read_dir_event(ReadDirResult::permission_denied(p("/a"))).unwrap();
    assert!(matches!(st.entry(&p("/a")).unwrap().ty, EntryType::PermissionDenied));
}

#[test]
fn one_completion_settles_a_waiting_directory_as_file() {
    let mut st = State::new(p("/a"), true, cfg3());
    st.joiners.read_dir_joiner.take_next();
    st.apply_read_dir_event(ReadDirResult::not_a_directory(p("/a"))).unwrap();
    assert!(matches!(st.entry(&p("/a")).unwrap().ty, EntryType::File));
}

#[test]
fn a_failed_listing_leaves_the_entry_waiting() {
    let mut st = State::new(p("/a"), true, cfg3());
    st.joiners.read_dir_joiner.take_next();
    let r = st.apply_read_dir_event(ReadDirResult::err(p("/a"), "boom".chars().collect()));
    assert!(r.is_err());
    assert!(matches!(st.entry(&p("/a")).unwrap().ty, EntryType::Waiting(_)));
}

#[test]
fn opening_a_directory_selects_its_first_child() {
    let mut st = State::new(p("/a"), true, cfg3());
    st.joiners.read_dir_joiner.take_next();
    st.apply_read_dir_event(
        ReadDirResult::ok(p("/a"), vec![p("/a/c"), p("/a/b"), p("/a/d")]),
    )
    .unwrap();
    let e = st.entry(&p("/a")).unwrap();
    assert_eq!(text(e.get_opened().unwrap().selected_entry().unwrap()), "/a/b");
}

#[test]
fn move_right_onto_a_file_advances_the_cursor() {
    let mut st = State::new(p("/a"), true, cfg3());
    st.joiners.read_dir_joiner.take_next();
    st.apply_read_dir_event(
        ReadDirResult::ok(p("/a"), vec![p("/a/b"), p("/a/c"), p("/a/d")]),
    )
    .unwrap();
    settle(&mut st, &[]);  // b is a file
    assert!(st.move_right());
    assert_eq!(st.selected_column, 1);
    assert_eq!(text(&st.first_visible_column), "/a");
}

#[test]
fn move_right_into_a_directory_opens_its_first_child() {
    let mut st = State::new(p("/a"), true, cfg3());
    st.joiners.read_dir_joiner.take_next();
    st.apply_read_dir_event(
        ReadDirResult::ok(p("/a"), vec![p("/a/b"), p("/a/c"), p("/a/d")]),
    )
    .unwrap();
    settle(&mut st, &["/a/b"]);  // b is a directory: its listing is requested
    let q = st.joiners.read_dir_joiner.take_next().unwrap();
    assert_eq!(text(&q), "/a/b");
    // while the listing is in flight, moving right changes nothing yet
    assert!(!st.move_right());
    assert_eq!(st.selected_column, 0);
    // the listing arrives; b's first child is then looked up and opened
    st.apply_read_dir_event(ReadDirResult::ok(p("/a/b"), vec![p("/a/b/x")])).unwrap();
    settle(&mut st, &["/a/b/x"]);
    let q = st.joiners.read_dir_joiner.take_next().unwrap();
    assert_eq!(text(&q), "/a/b/x");
}

#[test]
fn cursor_stays_within_the_required_columns() {
    let mut st = State::new(p("/a"), true, cfg3());
    st.joiners.read_dir_joiner.take_next();
    st.apply_read_dir_event(ReadDirResult::ok(p("/a"), vec![p("/a/b")])).unwrap();
    settle(&mut st, &[]);
    for _ in 0..6 {
        st.move_right();
        assert!(st.selected_column < st.config.required_columns);
        assert!(st.has_first_entry());
    }
    for _ in 0..6 {
        st.move_left();
        assert!(st.selected_column < st.config.required_columns);
        assert!(st.has_first_entry());
    }
}

#[test]
fn move_left_walks_back_and_then_shifts_to_the_parent() {
    let mut st = State::new(p("/r"), true, cfg3());
    st.joiners.read_dir_joiner.take_next();
    st.apply_read_dir_event(ReadDirResult::ok(p("/r"), vec![p("/r/x")])).unwrap();
    settle(&mut st, &["/r/x"]);
    st.joiners.read_dir_joiner.take_next();
    st.apply_read_dir_event(ReadDirResult::ok(p("/r/x"), vec![p("/r/x/y")])).unwrap();
    settle(&mut st, &["/r/x/y"]);
    // the chain is known one column past the cursor: the cursor advances
    assert!(st.move_right());
    assert_eq!(st.selected_column, 1);
    // y turns out to be an empty directory: the cursor may sit on it
    st.joiners.read_dir_joiner.take_next();
    st.apply_read_dir_event(ReadDirResult::ok(p("/r/x/y"), vec![])).unwrap();
    assert!(st.move_right());
    assert_eq!(st.selected_column, 2);
    // two moves left return the cursor without moving the window
    assert!(st.move_left());
    assert_eq!(st.selected_column, 1);
    assert_eq!(text(&st.first_visible_column), "/r");
    assert!(st.move_left());
    assert_eq!(st.selected_column, 0);
    assert_eq!(text(&st.first_visible_column), "/r");
    // the third move shifts the window to the parent of /r
    assert!(st.move_left());
    assert_eq!(st.selected_column, 0);
    assert_eq!(text(&st.first_visible_column), "/");
    // the parent's listing was requested, remembering /r as its selection
    let q = st.joiners.read_dir_joiner.take_next().unwrap();
    assert_eq!(text(&q), "/");
    st.apply_read_dir_event(ReadDirResult::ok(p("/"), vec![p("/r")])).unwrap();
    let e = st.entry(&p("/")).unwrap();
    assert_eq!(text(e.get_opened().unwrap().selected_entry().unwrap()), "/r");
}

#[test]
fn move_left_at_the_root_does_nothing() {
    let mut st = State::new(p("/"), true, cfg3());
    assert!(!st.move_left());
    assert_eq!(text(&st.first_visible_column), "/");
}

#[test]
fn move_left_reselects_in_an_already_opened_parent() {
    let parent = Entry::opened(p("/a"), vec![p("/a/b"), p("/a/c")], cfg3(), None);
    let child = Entry::opened(p("/a/c"), vec![], cfg3(), None);
    let mut st = state_with(vec![parent, child], "/a/c", 0);
    assert!(st.move_left());
    assert_eq!(text(&st.first_visible_column), "/a");
    let e = st.entry(&p("/a")).unwrap();
    assert_eq!(text(e.get_opened().unwrap().selected_entry().unwrap()), "/a/c");
}

#[test]
fn full_chain_slides_the_window() {
    let a = Entry::opened(p("/a"), vec![p("/a/b")], cfg3(), None);
    let b = Entry::opened(p("/a/b"), vec![p("/a/b/c")], cfg3(), None);
    let c = Entry::opened(p("/a/b/c"), vec![p("/a/b/c/d")], cfg3(), None);
    let d = Entry::opened(p("/a/b/c/d"), vec![p("/a/b/c/d/e")], cfg3(), None);
    let e = Entry::file(p("/a/b/c/d/e"));
    let mut st = state_with(vec![a, b, c, d, e], "/a", 0);
    assert!(st.move_right());
    assert_eq!(text(&st.first_visible_column), "/a/b");
    assert_eq!(st.selected_column, 0);
}

#[test]
fn deleting_the_selected_sibling_selects_the_next_one() {
    let parent = Entry::opened(
        p("/r"),
        vec![p("/r/a"), p("/r/b"), p("/r/c")],
        cfg3(),
        Some(p("/r/b")),
    );
    let b = Entry::file(p("/r/b"));
    let mut st = state_with(vec![parent, b], "/r", 0);
    st.delete_path(p("/r/b"));
    let e = st.entry(&p("/r")).unwrap();
    let o = e.get_opened().unwrap();
    let texts: Vec<String> = o.entries.iter().map(text).collect();
    assert_eq!(texts, vec!["/r/a", "/r/c"]);
    assert_eq!(text(o.selected_entry().unwrap()), "/r/c");
    // the re-selection starts with the scroll reset
    assert_eq!(o.selected_entry_idx_and_offset().unwrap(), (1, 0));
    // the removal was queued and the entry tombstoned
    let q = st.joiners.delete_joiner.take_next().unwrap();
    assert_eq!(text(&q), "/r/b");
    assert!(matches!(st.entry(&p("/r/b")).unwrap().ty, EntryType::Deleting));
}

#[test]
fn deleting_the_last_selected_sibling_wraps_to_the_first() {
    let parent = Entry::opened(
        p("/r"),
        vec![p("/r/a"), p("/r/b"), p("/r/c")],
        cfg3(),
        Some(p("/r/c")),
    );
    let mut st = state_with(vec![parent], "/r", 0);
    st.delete_path(p("/r/c"));
    let e = st.entry(&p("/r")).unwrap();
    assert_eq!(text(e.get_opened().unwrap().selected_entry().unwrap()), "/r/a");
}

#[test]
fn deleting_an_unselected_sibling_keeps_the_selection() {
    let parent = Entry::opened(
        p("/r"),
        vec![p("/r/a"), p("/r/b"), p("/r/c")],
        cfg3(),
        Some(p("/r/b")),
    );
    let mut st = state_with(vec![parent], "/r", 0);
    st.delete_path(p("/r/a"));
    let e = st.entry(&p("/r")).unwrap();
    assert_eq!(text(e.get_opened().unwrap().selected_entry().unwrap()), "/r/b");
}

#[test]
fn deleting_the_sole_child_empties_the_parent_and_shifts_left() {
    let r = Entry::opened(p("/r"), vec![p("/r/x")], cfg3(), None);
    let x = Entry::opened(p("/r/x"), vec![p("/r/x/y")], cfg3(), None);
    let y = Entry::file(p("/r/x/y"));
    // viewing [ /r, /r/x ], cursor on the second column
    let mut st = state_with(vec![r, x, y], "/r", 1);
    st.delete_path(p("/r/x/y"));
    let e = st.entry(&p("/r/x")).unwrap();
    let o = e.get_opened().unwrap();
    assert_eq!(o.entries.len(), 0);
    assert!(o.selected_entry().is_none());
    // the view shifted left by one column
    assert_eq!(st.selected_column, 0);
    assert_eq!(text(&st.first_visible_column), "/r");
}

#[test]
fn deleting_a_directory_drops_its_cached_descendants() {
    let r = Entry::opened(p("/r"), vec![p("/r/x"), p("/r/z")], cfg3(), Some(p("/r/z")));
    let x = Entry::opened(p("/r/x"), vec![p("/r/x/y")], cfg3(), None);
    let y = Entry::file(p("/r/x/y"));
    let z = Entry::file(p("/r/z"));
    let mut st = state_with(vec![r, x, y, z], "/r", 0);
    st.delete_path(p("/r/x"));
    assert!(matches!(st.entry(&p("/r/x")).unwrap().ty, EntryType::Deleting));
    assert!(st.entry(&p("/r/x/y")).is_none());
    let e = st.entry(&p("/r")).unwrap();
    let texts: Vec<String> = e.get_opened().unwrap().entries.iter().map(text).collect();
    assert_eq!(texts, vec!["/r/z"]);
}

#[test]
fn a_delete_completion_removes_the_tombstone() {
    let r = Entry::opened(p("/r"), vec![p("/r/a"), p("/r/b")], cfg3(), None);
    let a = Entry::file(p("/r/a"));
    let mut st = state_with(vec![r, a], "/r", 0);
    st.delete_path(p("/r/a"));
    assert!(matches!(st.entry(&p("/r/a")).unwrap().ty, EntryType::Deleting));
    let done = st.joiners.delete_joiner.take_next().unwrap();
    st.apply_delete_completion(done);
    assert!(st.entry(&p("/r/a")).is_none());
}

#[test]
fn current_path_walks_the_visible_chain() {
    let a = Entry::opened(p("/a"), vec![p("/a/b")], cfg3(), None);
    let b = Entry::file(p("/a/b"));
    let st = state_with(vec![a, b], "/a", 0);
    let mut walk = st.current_path();
    let first = walk.next().unwrap();
    assert_eq!(text(&first.path), "/a");
    let second = walk.next().unwrap();
    assert_eq!(text(&second.path), "/a/b");
    assert!(walk.next().is_none());
}

#[test]
fn list_positions_for_rendering() {
    let a = Entry::opened(p("/a"), vec![p("/a/b"), p("/a/c")], cfg3(), None);
    let b = Entry::file(p("/a/b"));
    let mut st = state_with(vec![a, b], "/a", 0);
    let pos = st.generate_list_state_at(0, 5).unwrap();
    assert_eq!(pos.selected, Some(0));
    assert_eq!(pos.offset, 0);
    // a file column has no scroll position
    assert!(st.generate_list_state_at(1, 5).is_none());
}

#[test]
fn a_stale_completion_is_still_applied() {
    // a late listing for a path that is no longer waiting replaces the entry
    let a = Entry::opened(p("/a"), vec![p("/a/b")], cfg3(), None);
    let b = Entry::file(p("/a/b"));
    let mut st = state_with(vec![a, b], "/a", 0);
    st.apply_read_dir_event(
        ReadDirResult::ok(p("/a"), vec![p("/a/c"), p("/a/d")]),
    )
    .unwrap();
    let e = st.entry(&p("/a")).unwrap();
    let texts: Vec<String> = e.get_opened().unwrap().entries.iter().map(text).collect();
    assert_eq!(texts, vec!["/a/c", "/a/d"]);
    assert_eq!(text(e.get_opened().unwrap().selected_entry().unwrap()), "/a/c");
}

#[test]
fn creating_an_existing_entry_changes_nothing() {
    let a = Entry::opened(p("/a"), vec![p("/a/b")], cfg3(), None);
    let mut st = state_with(vec![a], "/a", 0);
    st.create_entry_if_not_exists(p("/a"), None, true);
    assert!(matches!(st.entry(&p("/a")).unwrap().ty, EntryType::Opened(_)));
}

#[test]
fn deleting_an_uncached_path_still_queues_the_removal() {
    let a = Entry::opened(p("/a"), vec![p("/a/b")], cfg3(), None);
    let mut st = state_with(vec![a], "/a", 0);
    st.delete_path(p("/zzz/q"));
    let q = st.joiners.delete_joiner.take_next().unwrap();
    assert_eq!(text(&q), "/zzz/q");
    assert!(st.entry(&p("/zzz/q")).is_none());
}
