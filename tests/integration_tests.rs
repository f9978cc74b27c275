use kitty_fast_search::search::engine::SearchEngine;

#[test]
fn test_large_buffer_search() {
    let mut engine = SearchEngine::new(10_000, false, false).unwrap();

    let mut large_text = String::new();
    for i in 0..500 {
        if i % 100 == 0 {
            large_text.push_str(&format!("ERROR: Line {} has an error\n", i));
        } else if i % 200 == 0 {
            large_text.push_str(&format!("WARN: Line {} has a warning\n", i));
        } else {
            large_text.push_str(&format!("INFO: Line {} normal log entry\n", i));
        }
    }

    let results = engine.search_text(&large_text, "ERROR").unwrap();
    assert!(!results.is_empty());
    assert!(results.len() >= 4);
}

#[test]
fn test_file_based_search() {
    let mut engine = SearchEngine::new(10_000, true, false).unwrap();

    let mut content = String::new();
    content.push_str("Line 1: Starting application\n");
    content.push_str("Line 2: Loading configuration\n");
    content.push_str("Line 3: ERROR: Failed to connect to database\n");
    content.push_str("Line 4: Retrying connection...\n");
    content.push_str("Line 5: ERROR: Connection timeout\n");
    content.push_str("Line 6: Application shutting down\n");

    let results = engine.search_text(&content, "ERROR").unwrap();

    assert_eq!(results.len(), 2);
    assert_eq!(results[0].line_number, 3);
    assert_eq!(results[1].line_number, 5);
}

#[test]
fn test_regex_patterns() {
    let mut engine = SearchEngine::new(1000, true, true).unwrap();
    let text = r#"
2023-12-01 10:30:15 INFO Starting service
2023-12-01 10:30:16 ERROR Connection failed (code: 500)
2023-12-01 10:30:17 WARN Retrying in 5 seconds
2023-12-01 10:30:22 ERROR Timeout occurred (code: 408)
2023-12-01 10:30:23 INFO Service recovered
"#;

    let timestamp_results = engine
        .search_text(text, r"\d{4}-\d{2}-\d{2} \d{2}:\d{2}:\d{2}")
        .unwrap();
    assert_eq!(timestamp_results.len(), 5);

    let error_code_results = engine.search_text(text, r"code: \d+").unwrap();
    assert_eq!(error_code_results.len(), 2);

    let log_level_results = engine.search_text(text, r"(ERROR|WARN|INFO)").unwrap();
    assert_eq!(log_level_results.len(), 5);
}

#[test]
fn test_memory_efficiency() {
    let mut engine = SearchEngine::new(100_000, false, false).unwrap();

    let mut large_content = String::with_capacity(100_000);
    for i in 0..5_000 {
        large_content.push_str(&format!("Line {}: Some random content here\n", i));
        if i % 1000 == 0 {
            large_content.push_str(&format!("MARKER: Checkpoint at line {}\n", i));
        }
    }

    let results = engine.search_text(&large_content, "MARKER").unwrap();
    assert!(results.len() >= 4);

    engine.clear_cache();
    assert_eq!(engine.get_cache_size(), 0);
}

#[test]
fn test_unicode_support() {
    let mut engine = SearchEngine::new(1000, true, false).unwrap();
    let text = r#"
Hello ä¸–ç•Œ
TÃ«st with aÃ§cÃ©nts
Emoji test: ðŸ” ðŸš€ âš¡
Russian: ÐŸÑ€Ð¸Ð²ÐµÑ‚ Ð¼Ð¸Ñ€
Arabic: Ù…Ø±Ø­Ø¨Ø§ Ø¨Ø§Ù„Ø¹Ø§Ù„Ù…
"#;

    let unicode_results = engine.search_text(text, "ä¸–ç•Œ").unwrap();
    assert_eq!(unicode_results.len(), 1);

    let accent_results = engine.search_text(text, "aÃ§cÃ©nts").unwrap();
    assert_eq!(accent_results.len(), 1);

    let emoji_results = engine.search_text(text, "ðŸ”").unwrap();
    assert_eq!(emoji_results.len(), 1);
}

#[test]
fn test_edge_cases() {
    let mut engine = SearchEngine::new(1000, true, false).unwrap();

    let empty_results = engine.search_text("", "test").unwrap();
    assert_eq!(empty_results.len(), 0);

    let long_line = "a".repeat(10_000);
    let long_results = engine.search_text(&long_line, "a").unwrap();
    assert!(!long_results.is_empty());

    let special_text = "Line with special chars: !@#$%^&*()_+-=[]{}|;':\",./<>?";
    let special_results = engine.search_text(special_text, "!@#").unwrap();
    assert_eq!(special_results.len(), 1);
}

#[test]
fn test_very_large_buffer_search() {
    let mut engine = SearchEngine::new(100_000, false, false).unwrap();

    let mut large_text = String::new();
    for i in 0..5000 {
        if i % 100 == 0 {
            large_text.push_str(&format!("ERROR: Line {} has an error\n", i));
        } else if i % 200 == 0 {
            large_text.push_str(&format!("WARN: Line {} has a warning\n", i));
        } else {
            large_text.push_str(&format!("INFO: Line {} normal log entry\n", i));
        }
    }

    let results = engine.search_text(&large_text, "ERROR").unwrap();
    assert!(!results.is_empty());
    assert!(results.len() > 40);
}

#[test]
fn test_extreme_memory_efficiency() {
    let mut engine = SearchEngine::new(500_000, false, false).unwrap();

    let mut large_content = String::with_capacity(1_000_000);
    for i in 0..50_000 {
        large_content.push_str(&format!("Line {}: Some random content here\n", i));
        if i % 1000 == 0 {
            large_content.push_str(&format!("MARKER: Checkpoint at line {}\n", i));
        }
    }

    let results = engine.search_text(&large_content, "MARKER").unwrap();
    assert!(results.len() > 40);

    engine.clear_cache();
    assert_eq!(engine.get_cache_size(), 0);
}
