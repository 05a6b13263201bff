use runger::command::{filter_completions, Command, CommandError, DeleteCommand};
use runger::config::Config;
use runger::entry::Entry;
use runger::error::Error;
use runger::events::{HandledEvent, KeyCode, KeyInput};
use runger::joiners::Joiners;
use runger::palette::{CommandPalette, Typing};
use runger::path::Path;
use runger::state::State;
use runger::store::EntryStore;

fn p(s: &str) -> Path {
    Path::new(s.chars().collect())
}

fn cs(s: &str) -> Vec<char> {
    s.chars().collect()
}

fn text_of(v: &Vec<char>) -> String {
    v.iter().collect()
}

fn cfg3() -> Config {
    Config { required_columns: 3, column_margin: 0 }
}

fn key(code: KeyCode) -> KeyInput {
    KeyInput { code, ctrl: false, any_modifier: false }
}

fn state_with(entries: Vec<Entry>, fvc: &str, selected_column: usize) -> State {
    let mut store = EntryStore::new();
    for e in entries {
        store.insert(e);
    }
    State {
        entries: store,
        first_visible_column: p(fvc),
        config: cfg3(),
        selected_column,
        joiners: Joiners::new(),
        command_palette: CommandPalette::Empty,
        command_palette_row: 0,
    }
}

fn opened_column() -> State {
    let r = Entry::opened(
        p("/r"),
        vec![p("/r/apple"), p("/r/apricot"), p("/r/banana")],
        cfg3(),
        None,
    );
    state_with(vec![r], "/r", 0)
}

#[test]
fn typing_edits_text() {
    let mut t = Typing::new(cs("ab"));
    t.push_char('c');
    assert_eq!(text_of(t.visible_query()), "abc");
    assert_eq!(t.cursor_pos(), 3);
    t.pop_char();
    t.pop_char();
    assert_eq!(text_of(t.visible_query()), "a");
    assert!(!t.has_completion());
}

#[test]
fn selecting_candidates_cycles_past_the_ends() {
    let mut t = Typing::new(cs("a"));
    t.set_completion_candidates(vec![cs("ab"), cs("ac")]);
    assert!(t.has_completion());
    // stepping forward: none -> 0 -> 1 -> none
    t.select_completion(true);
    assert_eq!(text_of(t.visible_query()), "ab");
    t.select_completion(true);
    assert_eq!(text_of(t.visible_query()), "ac");
    t.select_completion(true);
    assert_eq!(text_of(t.visible_query()), "a");
    // stepping backward from none starts at the last candidate
    t.select_completion(false);
    assert_eq!(text_of(t.visible_query()), "ac");
    t.select_completion(false);
    assert_eq!(text_of(t.visible_query()), "ab");
    t.select_completion(false);
    assert_eq!(text_of(t.visible_query()), "a");
}

#[test]
fn typing_commits_the_selected_candidate_and_narrows() {
    let mut t = Typing::new(cs("a"));
    t.set_completion_candidates(vec![cs("ab"), cs("abc"), cs("ad")]);
    t.select_completion(true);  // "ab" selected
    t.push_char('x');
    // the selection became the input, the candidates narrowed to its
    // extensions, and the typed character went on the end
    assert_eq!(text_of(&t.input), "abx");
    assert!(t.has_completion());
}

#[test]
fn empty_candidates_detach_completion() {
    let mut t = Typing::new(cs("a"));
    t.set_completion_candidates(vec![cs("ab")]);
    t.set_completion_candidates(vec![]);
    assert!(!t.has_completion());
}

#[test]
fn filter_completions_matches_file_names() {
    let entries = vec![p("/r/apple"), p("/r/apricot"), p("/r/banana")];
    let mut t = Typing::new(cs("ap"));
    filter_completions(&entries, &mut t, true);
    assert!(t.has_completion());
    assert_eq!(text_of(t.visible_query()), "apple");
    t.select_completion(true);
    assert_eq!(text_of(t.visible_query()), "apricot");
}

#[test]
fn palette_take_leaves_it_empty() {
    let mut cp = CommandPalette::Typing(Typing::new(cs("x")));
    let taken = cp.take();
    assert!(matches!(taken, CommandPalette::Typing(_)));
    assert!(cp.is_empty());
    cp.set_error(Error::Command(CommandError::InvalidPath));
    assert!(!cp.is_empty());
    cp.set_empty();
    assert!(cp.is_empty());
}

#[test]
fn palette_cursor_positions() {
    let mut cp = CommandPalette::Empty;
    assert_eq!(cp.cursor_pos(), None);
    cp = CommandPalette::Typing(Typing::new(cs("ab")));
    assert_eq!(cp.cursor_pos(), Some(3));
    cp.set_delete_command_init();
    assert_eq!(cp.cursor_pos(), Some(8));
    cp.set_delete_command_typing(cs("ab"));
    assert_eq!(cp.cursor_pos(), Some(10));
    let confirmed = CommandPalette::Command(Command::Delete(DeleteCommand::Confirmed {
        path: p("/a"),
    }));
    assert_eq!(confirmed.cursor_pos(), Some(10));
}

#[test]
fn executing_an_empty_delete_removes_the_selected_child() {
    let mut st = opened_column();
    st.command_palette.set_delete_command_init();
    assert!(st.execute_command().is_ok());
    let q = st.joiners.delete_joiner.take_next().unwrap();
    let t: String = q.chars.iter().collect();
    assert_eq!(t, "/r/apple");
    assert!(st.command_palette.is_empty());
}

#[test]
fn executing_a_delete_without_an_open_column_is_invalid() {
    let mut st = state_with(vec![Entry::file(p("/r"))], "/r", 0);
    st.command_palette.set_delete_command_init();
    assert_eq!(st.execute_command().unwrap_err(), CommandError::InvalidCommand);
}

#[test]
fn executing_a_delete_with_an_unknown_name_is_an_invalid_path() {
    let mut st = opened_column();
    st.command_palette.set_delete_command_typing(cs("zzz"));
    assert_eq!(st.execute_command().unwrap_err(), CommandError::InvalidPath);
    assert!(st.joiners.delete_joiner.take_next().is_none());
}

#[test]
fn executing_a_typed_delete_resolves_the_name() {
    let mut st = opened_column();
    st.command_palette.set_delete_command_typing(cs("banana"));
    assert!(st.execute_command().is_ok());
    let q = st.joiners.delete_joiner.take_next().unwrap();
    let t: String = q.chars.iter().collect();
    assert_eq!(t, "/r/banana");
}

#[test]
fn executing_a_confirmed_delete_uses_the_resolved_path() {
    let mut st = opened_column();
    st.command_palette = CommandPalette::Command(Command::Delete(DeleteCommand::Confirmed {
        path: p("/r/banana"),
    }));
    assert!(st.execute_command().is_ok());
    let q = st.joiners.delete_joiner.take_next().unwrap();
    let t: String = q.chars.iter().collect();
    assert_eq!(t, "/r/banana");
}

#[test]
fn completing_a_fresh_delete_command_offers_the_children() {
    let mut st = opened_column();
    st.command_palette.set_delete_command_init();
    st.complete_command(true);
    match &st.command_palette {
        CommandPalette::Command(Command::Delete(DeleteCommand::Typing(t))) => {
            assert_eq!(text_of(t.visible_query()), "apple");
        },
        _ => panic!("expected a delete command being typed"),
    }
}

#[test]
fn the_d_key_starts_a_delete_command() {
    let mut st = opened_column();
    let r = st.handle_key_event(&key(KeyCode::Char('d')));
    assert_eq!(r, HandledEvent::Redraw);
    assert!(matches!(
        st.command_palette,
        CommandPalette::Command(Command::Delete(DeleteCommand::Init))
    ));
}

#[test]
fn escape_and_q_leave_the_program() {
    let mut st = opened_column();
    assert_eq!(st.handle_key_event(&key(KeyCode::Esc)), HandledEvent::Exit);
    assert_eq!(st.handle_key_event(&key(KeyCode::Char('q'))), HandledEvent::Exit);
}

#[test]
fn control_c_leaves_the_program() {
    let mut st = opened_column();
    let k = KeyInput { code: KeyCode::Char('c'), ctrl: true, any_modifier: true };
    assert_eq!(st.handle_key_event(&k), HandledEvent::Exit);
}

#[test]
fn escape_clears_a_showing_palette_instead_of_leaving() {
    let mut st = opened_column();
    st.command_palette.set_delete_command_init();
    assert_eq!(st.handle_key_event(&key(KeyCode::Esc)), HandledEvent::Redraw);
    assert!(st.command_palette.is_empty());
}

#[test]
fn typed_characters_reach_the_delete_command() {
    let mut st = opened_column();
    st.command_palette.set_delete_command_init();
    st.handle_key_event(&key(KeyCode::Char('b')));
    st.handle_key_event(&key(KeyCode::Char('a')));
    match &st.command_palette {
        CommandPalette::Command(Command::Delete(DeleteCommand::Typing(t))) => {
            assert_eq!(text_of(t.visible_query()), "ba");
        },
        _ => panic!("expected a delete command being typed"),
    }
}

#[test]
fn semicolon_opens_free_typing() {
    let mut st = opened_column();
    assert_eq!(st.handle_key_event(&key(KeyCode::Char(';'))), HandledEvent::Redraw);
    assert!(matches!(st.command_palette, CommandPalette::Typing(_)));
}

#[test]
fn up_and_down_keys_move_the_selection() {
    let mut st = opened_column();
    assert_eq!(st.handle_tui_event(&key(KeyCode::Down)), HandledEvent::Redraw);
    let e = st.entry(&p("/r")).unwrap();
    let sel: String = e.get_opened().unwrap().selected_entry().unwrap().chars.iter().collect();
    assert_eq!(sel, "/r/apricot");
    assert_eq!(st.handle_tui_event(&key(KeyCode::Up)), HandledEvent::Redraw);
    let e = st.entry(&p("/r")).unwrap();
    let sel: String = e.get_opened().unwrap().selected_entry().unwrap().chars.iter().collect();
    assert_eq!(sel, "/r/apple");
}

#[test]
fn handled_event_reports_whether_anything_happened() {
    assert!(HandledEvent::Exit.is_handled());
    assert!(HandledEvent::Redraw.is_handled());
    assert!(!HandledEvent::Nothing.is_handled());
}

#[test]
fn enter_on_an_invalid_delete_shows_the_error() {
    let mut st = state_with(vec![Entry::file(p("/r"))], "/r", 0);
    st.command_palette.set_delete_command_init();
    let r = st.handle_key_event(&key(KeyCode::Enter));
    assert_eq!(r, HandledEvent::Redraw);
    assert!(matches!(st.command_palette, CommandPalette::Error { .. }));
}
