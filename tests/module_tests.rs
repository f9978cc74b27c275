use kitty_fast_search::kitty::buffer::TerminalBuffer;
use kitty_fast_search::kitty::client::KittyClient;
use kitty_fast_search::kitty::commands::{KittyCommand, ScrollDirection};
use kitty_fast_search::search::buffer::BufferManager;
use kitty_fast_search::search::pattern::PatternMatcher;
use kitty_fast_search::ui::input::{InputAction, InputHandler, Key, KeyStroke};
use kitty_fast_search::search::engine::{search_uncached, SearchEngine};
use kitty_fast_search::ui::session::{SearchSession, SessionStep};
use std::collections::HashMap;

fn press(key: Key) -> KeyStroke {
    KeyStroke { key, pressed: true }
}

#[test]
fn terminal_buffer_keeps_the_newest_lines() {
    let mut buffer = TerminalBuffer::new(2);
    assert!(buffer.is_empty());
    buffer.add_lines(vec!["a".to_string(), "b".to_string(), "c".to_string()]);
    assert_eq!(buffer.len(), 2);
    assert_eq!(buffer.get_line(0).unwrap(), "b");
    assert_eq!(buffer.get_line(1).unwrap(), "c");
    assert!(buffer.get_line(2).is_none());
    assert_eq!(buffer.get_all_text(), "b\nc");
    assert_eq!(buffer.get_lines().len(), 2);
}

#[test]
fn terminal_buffer_position_is_bounded() {
    let mut buffer = TerminalBuffer::new(10);
    buffer.add_line("x".to_string());
    buffer.add_line("y".to_string());
    buffer.set_position(7);
    assert_eq!(buffer.get_position(), 2);
    buffer.set_position(1);
    assert_eq!(buffer.get_position(), 1);
    buffer.clear();
    assert_eq!(buffer.get_position(), 0);
    assert!(buffer.is_empty());
}

#[test]
fn terminal_buffer_context() {
    let mut buffer = TerminalBuffer::new(10);
    for s in ["l0", "l1", "l2", "l3", "l4"] {
        buffer.add_line(s.to_string());
    }
    let around: Vec<(usize, String)> = buffer
        .get_context_around(1, 2)
        .into_iter()
        .map(|(i, s)| (i, s.clone()))
        .collect();
    assert_eq!(
        around,
        vec![(0, "l0".to_string()), (1, "l1".to_string()), (2, "l2".to_string()), (3, "l3".to_string())]
    );
    assert_eq!(buffer.get_context_around(4, 0).len(), 1);
    assert_eq!(buffer.get_context_around(usize::MAX, 3).len(), 0);
}

#[test]
fn terminal_buffer_search() {
    let mut buffer = TerminalBuffer::new(10);
    buffer.add_lines(vec!["Alpha".to_string(), "beta".to_string(), "ALPHABET".to_string()]);
    assert_eq!(buffer.search_in_buffer("Alpha", true), vec![(0, "Alpha".to_string())]);
    assert_eq!(
        buffer.search_in_buffer("alpha", false),
        vec![(0, "Alpha".to_string()), (2, "ALPHABET".to_string())]
    );
}

#[test]
fn kitty_commands() {
    assert_eq!(KittyCommand::get_text().to_command_line(), vec!["kitty", "@", "get-text"]);
    assert_eq!(KittyCommand::scroll_to_line(42).args, vec!["42"]);
    assert_eq!(KittyCommand::list_windows().cmd, "ls");
    assert_eq!(KittyCommand::send_text("hi").payload, Some("hi".to_string()));
    assert_eq!(KittyCommand::set_window_title("t").args, vec!["t"]);
    assert_eq!(
        KittyCommand::resize_window(80, 24).to_command_line(),
        vec!["kitty", "@", "resize-window", "--width=80", "--height=24"]
    );
    assert_eq!(KittyCommand::focus_window("7").args, vec!["--match=id:7"]);
    assert_eq!(KittyCommand::get_colors().cmd, "get-colors");
    assert_eq!(KittyCommand::create_marker("m").args, vec!["m"]);
    assert_eq!(KittyCommand::remove_marker().cmd, "remove-marker");
    assert_eq!(KittyCommand::scroll_to_prompt(ScrollDirection::Previous).args, vec!["prev"]);
    assert_eq!(KittyCommand::scroll_to_prompt(ScrollDirection::Next).args, vec!["next"]);
    let custom = KittyCommand::new("x").with_args(vec!["a".to_string()]).with_payload("p".to_string());
    assert_eq!(custom.to_command_line(), vec!["kitty", "@", "x", "a"]);
    assert_eq!(custom.payload, Some("p".to_string()));
}

#[test]
fn kitty_set_colors() {
    let mut colors = HashMap::new();
    colors.insert("background".to_string(), "#000".to_string());
    colors.insert("foreground".to_string(), "#fff".to_string());
    let mut args = KittyCommand::set_colors(colors).args;
    args.sort();
    assert_eq!(args, vec!["background=#000", "foreground=#fff"]);
}

#[test]
fn kitty_client_arguments() {
    let local = KittyClient::with_socket(None);
    assert_eq!(local.remote_args(&KittyCommand::get_text()), vec!["@", "get-text"]);
    let remote = KittyClient::with_socket(Some("unix:/tmp/k".to_string()));
    assert_eq!(
        remote.remote_args(&KittyCommand::scroll_to_line(3)),
        vec!["@", "scroll-to-line", "3", "--to", "unix:/tmp/k"]
    );
}

#[test]
fn buffer_manager_bounds_and_chunks() {
    let manager = BufferManager::new(4);
    assert_eq!(manager.load_from_string("abcdef".to_string()), b"cdef".to_vec());
    assert_eq!(manager.load_from_string("ab".to_string()), b"ab".to_vec());
    assert_eq!(manager.keep_recent(b"123456"), b"3456".to_vec());
    let chunks = manager.chunk_buffer(b"abcdefg", 3);
    assert_eq!(chunks, vec![&b"abc"[..], &b"def"[..], &b"g"[..]]);
    assert!(manager.chunk_buffer(b"", 3).is_empty());
}

#[test]
fn pattern_matcher_modes() {
    let literal = PatternMatcher::new(true, false);
    assert!(literal.is_match("a.c", "xa.cx").unwrap());
    assert!(!literal.is_match("a.c", "abc").unwrap());
    assert_eq!(literal.find_matches("ab", "ab ab").unwrap(), vec![(0, 2), (3, 5)]);
    let insensitive = PatternMatcher::new(false, true);
    assert_eq!(insensitive.find_matches("a+", "xAAa").unwrap(), vec![(1, 4)]);
    assert_eq!(insensitive.compile_pattern("a+").unwrap().as_str(), "(?i)a+");
    assert!(PatternMatcher::new(true, true).compile_pattern("(").is_err());
}

#[test]
fn input_handler_editing() {
    let mut input = InputHandler::new();
    assert_eq!(input.handle_key_event(press(Key::Char('a'))), InputAction::QueryChanged);
    assert_eq!(input.handle_key_event(press(Key::Char('c'))), InputAction::QueryChanged);
    assert_eq!(input.handle_key_event(press(Key::Left)), InputAction::Nothing);
    assert_eq!(input.handle_key_event(press(Key::Char('b'))), InputAction::QueryChanged);
    assert_eq!(input.query(), "abc");
    assert_eq!(input.cursor_pos(), 2);
    assert_eq!(input.handle_key_event(press(Key::Backspace)), InputAction::QueryChanged);
    assert_eq!(input.query(), "ac");
    assert_eq!(input.handle_key_event(press(Key::Home)), InputAction::Nothing);
    assert_eq!(input.handle_key_event(press(Key::Backspace)), InputAction::Nothing);
    assert_eq!(input.handle_key_event(press(Key::Delete)), InputAction::QueryChanged);
    assert_eq!(input.query(), "c");
    assert_eq!(input.handle_key_event(press(Key::End)), InputAction::Nothing);
    assert_eq!(input.cursor_pos(), 1);
    assert_eq!(input.handle_key_event(KeyStroke { key: Key::Char('z'), pressed: false }), InputAction::Nothing);
    assert_eq!(input.query(), "c");
}

#[test]
fn input_handler_actions() {
    let mut input = InputHandler::new();
    assert_eq!(input.handle_key_event(press(Key::Up)), InputAction::NavigateUp);
    assert_eq!(input.handle_key_event(press(Key::Down)), InputAction::NavigateDown);
    assert_eq!(input.handle_key_event(press(Key::Enter)), InputAction::Select);
    assert_eq!(input.handle_key_event(press(Key::Esc)), InputAction::Exit);
    input.set_query("héllo".to_string());
    assert_eq!(input.cursor_pos(), 5);
    assert_eq!(input.handle_key_event(press(Key::Esc)), InputAction::QueryChanged);
    assert_eq!(input.query(), "");
    input.set_query("x".to_string());
    input.clear();
    assert_eq!(input.query(), "");
    assert_eq!(input.cursor_pos(), 0);
}

#[test]
fn session_keys_and_search() {
    let mut engine = SearchEngine::new(1000, true, false).unwrap();
    let mut session = SearchSession::new();
    let buffer = "one ERR\ntwo\nERR three";
    assert_eq!(session.on_key(press(Key::Enter)), SessionStep::Exit);
    assert_eq!(session.on_key(press(Key::Char('E'))), SessionStep::Search);
    assert_eq!(session.on_key(press(Key::Char('R'))), SessionStep::Search);
    assert_eq!(session.query(), "ER");
    session.show_search(&mut engine, buffer).unwrap();
    assert_eq!(session.results().len(), 2);
    assert_eq!(session.selected_index(), 0);
    assert_eq!(session.on_key(press(Key::Down)), SessionStep::Redraw);
    assert_eq!(session.selected_index(), 1);
    assert_eq!(session.on_key(press(Key::Down)), SessionStep::Redraw);
    assert_eq!(session.selected_index(), 1);
    assert_eq!(session.on_key(press(Key::Enter)), SessionStep::JumpTo(3));
    assert_eq!(session.on_key(press(Key::Up)), SessionStep::Redraw);
    assert_eq!(session.selected_index(), 0);
    assert_eq!(session.on_key(press(Key::Backspace)), SessionStep::Search);
    assert_eq!(session.on_key(press(Key::Backspace)), SessionStep::Redraw);
    assert!(session.results().is_empty());
    assert_eq!(session.on_key(press(Key::Esc)), SessionStep::Exit);
}

#[test]
fn session_initial_query_and_errors() {
    let mut engine = SearchEngine::new(1000, true, true).unwrap();
    let mut session = SearchSession::new();
    session.set_initial_query("(bad");
    assert_eq!(session.query(), "(bad");
    assert!(session.show_search(&mut engine, "text").is_err());
    assert!(session.results().is_empty());
}

#[test]
fn engine_steps_compose() {
    let mut engine = SearchEngine::new(1000, true, false).unwrap();
    assert!(engine.cached(b"a b a", "a").is_none());
    let outcome = search_uncached(b"a b a", "a", true, false).unwrap();
    let found = outcome.results();
    assert_eq!(found.len(), 2);
    engine.store(outcome);
    assert_eq!(engine.get_cache_size(), 1);
    let hit = engine.cached(b"a b a", "a").unwrap();
    assert_eq!(hit.len(), 2);
    assert_eq!((hit[1].match_start, hit[1].match_end), (4, 5));
    let other_mode = search_uncached(b"a b a", "a", false, false).unwrap();
    engine.store(other_mode);
    assert_eq!(engine.get_cache_size(), 1);
    let empty = search_uncached(b"a b a", "", true, false).unwrap();
    assert!(empty.results().is_empty());
    engine.store(empty);
    assert_eq!(engine.get_cache_size(), 1);
    assert!(search_uncached(b"x", "(", true, true).is_err());
}
