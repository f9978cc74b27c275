use kitty_fast_search::search::engine::{SearchEngine, CACHE_CAPACITY};
use kitty_fast_search::search::error::SearchError;
use kitty_fast_search::search::matcher::LineMatcher;
use kitty_fast_search::search::pattern::normalize_pattern;
use kitty_fast_search::search::scanner::{scan_buffer, SearchResult};

fn spans(results: &[SearchResult]) -> Vec<(u64, usize, usize)> {
    results
        .iter()
        .map(|r| (r.line_number, r.match_start, r.match_end))
        .collect()
}

#[test]
fn repeated_calls_return_identical_results() {
    let mut engine = SearchEngine::new(1000, true, false).unwrap();
    let text = "alpha beta\nbeta gamma beta\ndelta";
    let first = engine.search_text(text, "beta").unwrap();
    let second = engine.search_text(text, "beta").unwrap();
    assert_eq!(spans(&first), spans(&second));
    assert_eq!(spans(&first), vec![(1, 6, 10), (2, 0, 4), (2, 11, 15)]);
    assert_eq!(first[1].line, "beta gamma beta");
}

#[test]
fn clearing_the_cache_keeps_results() {
    let mut engine = SearchEngine::new(1000, false, true).unwrap();
    let text = "one Two\nthree TWO two";
    let before = engine.search_text(text, "two").unwrap();
    engine.clear_cache();
    assert_eq!(engine.get_cache_size(), 0);
    let after = engine.search_text(text, "two").unwrap();
    assert_eq!(spans(&before), spans(&after));
    assert_eq!(spans(&after), vec![(1, 4, 7), (2, 6, 9), (2, 10, 13)]);
}

#[test]
fn literal_mode_escapes_metacharacters() {
    let mut engine = SearchEngine::new(1000, true, false).unwrap();
    let hit = engine.search_text("xa.b*cy", "a.b*c").unwrap();
    assert_eq!(spans(&hit), vec![(1, 1, 6)]);
    let miss = engine.search_text("aXbYYc", "a.b*c").unwrap();
    assert!(miss.is_empty());
}

#[test]
fn regex_mode_does_not_escape() {
    let mut engine = SearchEngine::new(1000, true, true).unwrap();
    let hit = engine.search_text("aXbbc", "a.b*c").unwrap();
    assert_eq!(spans(&hit), vec![(1, 0, 5)]);
}

#[test]
fn case_sensitivity_toggle() {
    let text = "Hello world\nhello again";
    let mut sensitive = SearchEngine::new(1000, true, false).unwrap();
    let one = sensitive.search_text(text, "Hello").unwrap();
    assert_eq!(spans(&one), vec![(1, 0, 5)]);
    let mut insensitive = SearchEngine::new(1000, false, false).unwrap();
    let two = insensitive.search_text(text, "Hello").unwrap();
    assert_eq!(spans(&two), vec![(1, 0, 5), (2, 0, 5)]);
}

#[test]
fn several_matches_on_one_line() {
    let mut engine = SearchEngine::new(1000, true, false).unwrap();
    let results = engine.search_text("ERROR ERROR", "ERROR").unwrap();
    assert_eq!(spans(&results), vec![(1, 0, 5), (1, 6, 11)]);
    assert_eq!(results[0].line, "ERROR ERROR");
}

#[test]
fn empty_pattern_leaves_the_cache_alone() {
    let mut engine = SearchEngine::new(1000, true, false).unwrap();
    engine.search_text("some text", "text").unwrap();
    assert_eq!(engine.get_cache_size(), 1);
    let results = engine.search_text("some text", "").unwrap();
    assert!(results.is_empty());
    assert_eq!(engine.get_cache_size(), 1);
    assert!(!engine.is_cached("some text".as_bytes(), ""));
}

#[test]
fn least_recently_used_entry_is_evicted() {
    let mut engine = SearchEngine::new(1000, true, false).unwrap();
    let text = "k0 k1 k2";
    for i in 0..CACHE_CAPACITY {
        engine.search_text(text, &format!("k{}", i)).unwrap();
    }
    assert_eq!(engine.get_cache_size(), CACHE_CAPACITY);
    assert!(engine.is_cached(text.as_bytes(), "k0"));
    engine.search_text(text, "k100").unwrap();
    assert_eq!(engine.get_cache_size(), CACHE_CAPACITY);
    assert!(!engine.is_cached(text.as_bytes(), "k0"));
    assert!(engine.is_cached(text.as_bytes(), "k1"));
    assert!(engine.is_cached(text.as_bytes(), "k100"));
}

#[test]
fn a_lookup_refreshes_an_entry() {
    let mut engine = SearchEngine::new(1000, true, false).unwrap();
    let text = "k0 k1 k2";
    for i in 0..CACHE_CAPACITY {
        engine.search_text(text, &format!("k{}", i)).unwrap();
    }
    engine.search_text(text, "k0").unwrap();
    engine.search_text(text, "k100").unwrap();
    assert!(engine.is_cached(text.as_bytes(), "k0"));
    assert!(!engine.is_cached(text.as_bytes(), "k1"));
}

#[test]
fn concrete_log_scenario() {
    let mut engine = SearchEngine::new(1000, true, false).unwrap();
    let text = "Line1\nERROR: bad\nLine3\nERROR: worse\n";
    let results = engine.search_text(text, "ERROR").unwrap();
    assert_eq!(spans(&results), vec![(2, 0, 5), (4, 0, 5)]);
    assert_eq!(results[0].line, "ERROR: bad");
    assert_eq!(results[1].line, "ERROR: worse");
}

#[test]
fn equal_length_texts_are_told_apart() {
    let mut engine = SearchEngine::new(1000, true, false).unwrap();
    let first = engine.search_text("abc xyz", "abc").unwrap();
    let second = engine.search_text("xyz abc", "abc").unwrap();
    assert_eq!(spans(&first), vec![(1, 0, 3)]);
    assert_eq!(spans(&second), vec![(1, 4, 7)]);
    assert_eq!(engine.get_cache_size(), 2);
}

#[test]
fn zero_width_matches_advance() {
    let mut engine = SearchEngine::new(1000, true, true).unwrap();
    let results = engine.search_text("bbb", "a*").unwrap();
    assert_eq!(spans(&results), vec![(1, 0, 0), (1, 1, 1), (1, 2, 2)]);
}

#[test]
fn scan_stops_at_nul() {
    let mut engine = SearchEngine::new(1000, true, false).unwrap();
    let results = engine.search_text("ab one\nab\0two\nab three", "ab").unwrap();
    assert_eq!(spans(&results), vec![(1, 0, 2)]);
}

#[test]
fn invalid_pattern_is_an_error() {
    let mut engine = SearchEngine::new(1000, true, true).unwrap();
    let result = engine.search_text("text (with group", "(unclosed");
    match result {
        Err(SearchError::InvalidPattern(message)) => assert!(!message.is_empty()),
        Ok(_) => panic!("an unbalanced group must not compile"),
    }
    assert_eq!(engine.get_cache_size(), 0);
}

#[test]
fn error_message_is_the_engine_message() {
    let err = SearchError::InvalidPattern("bad".to_string());
    assert_eq!(err.message(), "bad");
}

#[test]
fn invalid_utf8_line_is_matched_as_empty() {
    let matcher = LineMatcher::compile("ab").unwrap();
    let results = scan_buffer(&matcher, b"ab\xffab\nxab");
    assert_eq!(spans(&results), vec![(2, 1, 3)]);
    assert_eq!(results[0].line, "xab");
}

#[test]
fn search_buffer_matches_invalid_line_as_empty() {
    let mut engine = SearchEngine::new(1000, true, false).unwrap();
    let results = engine.search_buffer(b"ab\xffab\nxab\nab", "ab").unwrap();
    assert_eq!(spans(&results), vec![(2, 1, 3), (3, 0, 2)]);
    assert_eq!(results[0].line, "xab");
    assert!(engine.is_cached(b"ab\xffab\nxab\nab", "ab"));
}

#[test]
fn search_buffer_agrees_with_search_text() {
    let mut by_bytes = SearchEngine::new(1000, false, false).unwrap();
    let mut by_text = SearchEngine::new(1000, false, false).unwrap();
    let text = "Grüße\nGRÜSSE grüße";
    let a = by_bytes.search_buffer(text.as_bytes(), "grüße").unwrap();
    let b = by_text.search_text(text, "grüße").unwrap();
    assert_eq!(spans(&a), spans(&b));
    assert_eq!(spans(&a), vec![(1, 0, 7), (2, 8, 15)]);
}

#[test]
fn trailing_newline_adds_no_line() {
    let mut engine = SearchEngine::new(1000, true, true).unwrap();
    let results = engine.search_text("x\n", "^").unwrap();
    assert_eq!(spans(&results), vec![(1, 0, 0)]);
}

#[test]
fn empty_lines_keep_their_numbers() {
    let mut engine = SearchEngine::new(1000, true, false).unwrap();
    let results = engine.search_text("\n\nfind me\n\nfind", "find").unwrap();
    assert_eq!(spans(&results), vec![(3, 0, 4), (5, 0, 4)]);
}

#[test]
fn normalized_pattern_forms() {
    assert_eq!(normalize_pattern("a.b", true, false), "a\\.b");
    assert_eq!(normalize_pattern("a.b", false, false), "(?i)a\\.b");
    assert_eq!(normalize_pattern("a.b", true, true), "a.b");
    assert_eq!(normalize_pattern("a.b", false, true), "(?i)a.b");
}
