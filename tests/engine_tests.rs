use kitty_fast_search::search::engine::SearchEngine;

#[test]
fn test_simple_search() {
    let mut engine = SearchEngine::new(1000, true, false).unwrap();
    let text = "Hello world\nThis is a test\nHello again";
    let results = engine.search_text(text, "Hello").unwrap();

    assert_eq!(results.len(), 2);
    assert_eq!(results[0].line_number, 1);
    assert_eq!(results[1].line_number, 3);
}

#[test]
fn test_case_insensitive_search() {
    let mut engine = SearchEngine::new(1000, false, false).unwrap();
    let text = "Hello World\nthis is a TEST\nhello again";
    let results = engine.search_text(text, "hello").unwrap();

    assert_eq!(results.len(), 2);
    assert_eq!(results[0].line_number, 1);
    assert_eq!(results[1].line_number, 3);
}

#[test]
fn test_regex_search() {
    let mut engine = SearchEngine::new(1000, true, true).unwrap();
    let text = "Error: 404\nWarning: timeout\nError: 500";
    let results = engine.search_text(text, r"Error: \d+").unwrap();

    assert_eq!(results.len(), 2);
    assert_eq!(results[0].line_number, 1);
    assert_eq!(results[1].line_number, 3);
}

#[test]
fn test_empty_pattern() {
    let mut engine = SearchEngine::new(1000, true, false).unwrap();
    let text = "Hello world";
    let results = engine.search_text(text, "").unwrap();

    assert_eq!(results.len(), 0);
}

#[test]
fn test_no_matches() {
    let mut engine = SearchEngine::new(1000, true, false).unwrap();
    let text = "Hello world\nThis is a test";
    let results = engine.search_text(text, "nonexistent").unwrap();

    assert_eq!(results.len(), 0);
}

#[test]
fn test_cache_functionality() {
    let mut engine = SearchEngine::new(1000, true, false).unwrap();
    let text = "Hello world\nThis is a test";

    // First search
    let _results1 = engine.search_text(text, "Hello").unwrap();
    assert_eq!(engine.get_cache_size(), 1);

    // Second search with same pattern (should use cache)
    let _results2 = engine.search_text(text, "Hello").unwrap();
    assert_eq!(engine.get_cache_size(), 1);

    // Different pattern
    let _results3 = engine.search_text(text, "test").unwrap();
    assert_eq!(engine.get_cache_size(), 2);
}

#[test]
fn test_buffer_search() {
    let mut engine = SearchEngine::new(1000, true, false).unwrap();
    let buffer = b"Hello world\nThis is a test\nHello again";
    let results = engine.search_buffer(buffer, "Hello").unwrap();

    assert_eq!(results.len(), 2);
    assert_eq!(results[0].line_number, 1);
    assert_eq!(results[1].line_number, 3);
}
