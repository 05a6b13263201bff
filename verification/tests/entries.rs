use runger::config::Config;
use runger::entry::{Entry, EntryType, Opened, Selected};
use runger::joiners::ReadDirJoiner;
use runger::path::Path;

fn p(s: &str) -> Path {
    Path::new(s.chars().collect())
}

fn text(path: &Path) -> String {
    path.chars.iter().collect()
}

fn cfg() -> Config {
    Config { required_columns: 3, column_margin: 0 }
}

fn opened_with(children: &[&str], selected: Option<(&str, usize)>) -> Opened {
    Opened {
        entries: children.iter().map(|s| p(s)).collect(),
        selected: selected.map(|(s, off)| Selected { path: p(s), display_offset: off }),
        config: cfg(),
    }
}

#[test]
fn new_entry_is_file_or_unopened() {
    let f = Entry::new(p("/a/f"), None, false);
    assert!(matches!(f.ty, EntryType::File));
    let d = Entry::new(p("/a/d"), None, true);
    assert!(matches!(d.ty, EntryType::Unopened(_)));
}

#[test]
fn try_open_queues_one_listing_and_waits() {
    let mut joiner = ReadDirJoiner::new();
    let mut e = Entry::new(p("/a"), None, true);
    assert!(e.try_open(&mut joiner));
    assert!(matches!(e.ty, EntryType::Waiting(_)));
    // a second call queues nothing again
    assert!(!e.try_open(&mut joiner));
    let queued = joiner.take_next().unwrap();
    assert_eq!(text(&queued), "/a");
    assert!(joiner.is_empty());
}

#[test]
fn try_open_ignores_files() {
    let mut joiner = ReadDirJoiner::new();
    let mut e = Entry::new(p("/a/f"), None, false);
    assert!(!e.try_open(&mut joiner));
    assert!(matches!(e.ty, EntryType::File));
    assert!(joiner.is_empty());
}

#[test]
fn opened_sorts_children_and_selects_first() {
    let e = Entry::opened(p("/a"), vec![p("/a/d"), p("/a/b"), p("/a/c")], cfg(), None);
    let o = e.get_opened().unwrap();
    let texts: Vec<String> = o.entries.iter().map(text).collect();
    assert_eq!(texts, vec!["/a/b", "/a/c", "/a/d"]);
    assert_eq!(text(o.selected_entry().unwrap()), "/a/b");
}

#[test]
fn opened_prefers_the_remembered_child() {
    let e = Entry::opened(
        p("/a"),
        vec![p("/a/b"), p("/a/c")],
        cfg(),
        Some(p("/a/c")),
    );
    assert_eq!(text(e.get_opened().unwrap().selected_entry().unwrap()), "/a/c");
}

#[test]
fn opened_falls_back_when_the_remembered_child_is_gone() {
    let e = Entry::opened(
        p("/a"),
        vec![p("/a/b"), p("/a/c")],
        cfg(),
        Some(p("/a/zz")),
    );
    assert_eq!(text(e.get_opened().unwrap().selected_entry().unwrap()), "/a/b");
}

#[test]
fn opened_empty_directory_has_no_selection() {
    let e = Entry::opened(p("/a"), vec![], cfg(), None);
    assert!(e.get_opened().unwrap().selected_entry().is_none());
}

#[test]
fn select_down_cycles_with_wraparound() {
    let mut o = opened_with(&["/a/b", "/a/c", "/a/d"], Some(("/a/b", 0)));
    assert!(o.select_down());
    assert_eq!(text(o.selected_entry().unwrap()), "/a/c");
    assert!(o.select_down());
    assert_eq!(text(o.selected_entry().unwrap()), "/a/d");
    assert!(o.select_down());
    assert_eq!(text(o.selected_entry().unwrap()), "/a/b");
}

#[test]
fn select_up_cycles_with_wraparound() {
    let mut o = opened_with(&["/a/b", "/a/c", "/a/d"], Some(("/a/b", 0)));
    assert!(o.select_up());
    assert_eq!(text(o.selected_entry().unwrap()), "/a/d");
    assert!(o.select_up());
    assert_eq!(text(o.selected_entry().unwrap()), "/a/c");
}

#[test]
fn selection_moves_ignore_an_empty_directory() {
    let mut o = opened_with(&[], None);
    assert!(!o.select_up());
    assert!(!o.select_down());
}

#[test]
fn set_selected_entry_finds_a_child_and_keeps_the_offset() {
    let mut o = opened_with(&["/a/b", "/a/c", "/a/d"], Some(("/a/b", 1)));
    assert!(o.set_selected_entry(&p("/a/d")));
    assert_eq!(text(o.selected_entry().unwrap()), "/a/d");
    assert_eq!(o.selected_entry_idx_and_offset().unwrap(), (2, 1));
    assert!(!o.set_selected_entry(&p("/a/zz")));
    assert_eq!(text(o.selected_entry().unwrap()), "/a/d");
}

#[test]
fn selected_entry_idx_and_offset_reports_the_position() {
    let o = opened_with(&["/a/b", "/a/c"], Some(("/a/c", 0)));
    assert_eq!(o.selected_entry_idx_and_offset().unwrap(), (1, 0));
}

#[test]
fn list_state_scrolls_down_to_show_the_selection() {
    // five rows, viewport of two: selecting row 3 scrolls the window to 2
    let mut o = opened_with(
        &["/a/b", "/a/c", "/a/d", "/a/e", "/a/f"],
        Some(("/a/e", 0)),
    );
    let pos = o.generate_list_state(2);
    assert_eq!(pos.selected, Some(3));
    assert_eq!(pos.offset, 2);
}

#[test]
fn list_state_scrolls_up_to_show_the_selection() {
    let mut o = opened_with(
        &["/a/b", "/a/c", "/a/d", "/a/e", "/a/f"],
        Some(("/a/b", 3)),
    );
    let pos = o.generate_list_state(2);
    assert_eq!(pos.selected, Some(0));
    assert_eq!(pos.offset, 0);
}

#[test]
fn list_state_never_scrolls_past_the_end() {
    // selecting the last of five rows with a viewport of two stops at 3
    let mut o = opened_with(
        &["/a/b", "/a/c", "/a/d", "/a/e", "/a/f"],
        Some(("/a/f", 0)),
    );
    let pos = o.generate_list_state(2);
    assert_eq!(pos.selected, Some(4));
    assert_eq!(pos.offset, 3);
}

#[test]
fn list_state_honours_the_margin() {
    let mut o = Opened {
        entries: vec![p("/a/b"), p("/a/c"), p("/a/d"), p("/a/e"), p("/a/f")],
        selected: Some(Selected { path: p("/a/d"), display_offset: 0 }),
        config: Config { required_columns: 3, column_margin: 1 },
    };
    // row 2 with one margin row below needs rows up to 3 visible: offset 1
    let pos = o.generate_list_state(3);
    assert_eq!(pos.selected, Some(2));
    assert_eq!(pos.offset, 1);
}

#[test]
fn list_state_without_selection_reports_nothing() {
    let mut o = opened_with(&[], None);
    let pos = o.generate_list_state(2);
    assert_eq!(pos.selected, None);
    assert_eq!(pos.offset, 0);
}

#[test]
fn entry_kind_queries() {
    assert!(EntryType::File.is_file());
    assert!(!Entry::new(p("/a"), None, true).ty.is_file());
    assert!(Entry::new(p("/a"), None, true).is_unopened());
    assert!(!Entry::deleting(p("/a")).is_unopened());
    assert!(matches!(Entry::deleting(p("/a")).ty, EntryType::Deleting));
    assert!(matches!(Entry::permission_denied(p("/a")).ty, EntryType::PermissionDenied));
    assert!(matches!(Entry::file(p("/a")).ty, EntryType::File));
    let opened = Entry::opened(p("/a"), vec![], cfg(), None);
    assert!(opened.is_opened());
    assert_eq!(opened.get_opened().unwrap().entries().len(), 0);
}

#[test]
fn selected_accessors() {
    let s = Selected::new(p("/a/b"), 2);
    assert_eq!(text(s.path()), "/a/b");
    assert_eq!(s.display_offset, 2);
}
