use std::path::PathBuf;

use minis::memory::search::{matching_keywords, search_files, SearchResult};
use minis::text::split_lines_exec;
use minis::memory::store::MemoryStore;

fn files(list: &[(&str, &str)]) -> Vec<(String, String)> {
    list.iter().map(|(n, c)| (n.to_string(), c.to_string())).collect()
}

fn kws(list: &[&str]) -> Vec<String> {
    list.iter().map(|k| k.to_string()).collect()
}

fn search(list: &[(&str, &str)], keywords: &[&str]) -> Vec<SearchResult> {
    search_files(&files(list), &kws(keywords))
}

#[test]
fn test_search_finds_match() {
    let results = search(&[("2026-01-01.md", "# Log\nSome notes about Rust programming here\nMore stuff")], &["Rust"]);
    assert_eq!(results.len(), 1);
    assert!(results[0].line.contains("Rust"));
    assert_eq!(results[0].line_number, 2);
}

#[test]
fn test_search_multi_keyword() {
    let results = search(&[("2026-01-01.md", "line1\nRust is great for systems\nRust and Python\n")], &["Rust", "Python"]);
    assert_eq!(results.len(), 1);
    assert!(results[0].line.contains("Python"));
}

#[test]
fn test_search_case_insensitive() {
    let results = search(&[("test.md", "Learn RUST programming\n")], &["rust"]);
    assert_eq!(results.len(), 1);
}

#[test]
fn test_search_no_match() {
    let results = search(&[("test.md", "nothing relevant here\n")], &["quantum"]);
    assert!(results.is_empty());
}

#[test]
fn test_search_empty_keywords() {
    let results = search(&[("test.md", "some content\n")], &[""]);
    assert!(results.is_empty());
}

#[test]
fn test_search_context() {
    let results = search(&[("test.md", "line before\ntarget line here\nline after")], &["target"]);
    assert_eq!(results[0].context_before, "line before");
    assert_eq!(results[0].context_after, "line after");
}

#[test]
fn test_search_nothing_to_search() {
    let results = search(&[], &["test"]);
    assert!(results.is_empty());
}

#[test]
fn test_search_multiple_files() {
    let results = search(&[("2026-01-01.md", "older Rust entry\n"), ("2026-01-02.md", "recent Rust entry\n")], &["Rust"]);
    assert_eq!(results.len(), 2);
    assert_eq!(results[0].file, "2026-01-02.md");
    assert_eq!(results[1].file, "2026-01-01.md");
}

#[test]
fn test_search_order_and_counts() {
    let results = search(
        &[("a.md", "x rust\ny\nRust go\n"), ("b.md", "go rust\r\nrust")],
        &["rust", "", "GO"],
    );
    assert_eq!(results.len(), 2);
    assert_eq!((results[0].file.as_str(), results[0].line_number), ("b.md", 1));
    assert_eq!(results[0].line, "go rust");
    assert_eq!(results[0].context_after, "rust");
    assert_eq!(results[0].match_count, 2);
    assert_eq!((results[1].file.as_str(), results[1].line_number), ("a.md", 3));
    assert_eq!(results[1].context_before, "y");
    assert_eq!(results[1].context_after, "");
}

#[test]
fn test_split_lines_like_str_lines() {
    for text in ["", "a", "a\n", "a\r\nb", "\n\n", "a\n\r", "x\ry\n"] {
        let got: Vec<String> = split_lines_exec(&text.chars().collect())
            .iter()
            .map(|l| l.iter().collect())
            .collect();
        let want: Vec<String> = text.lines().map(|l| l.to_string()).collect();
        assert_eq!(got, want, "lines of {:?}", text);
    }
}

#[test]
fn test_days_latest_first() {
    let names: Vec<String> = ["2026-01-01.md", "notes.txt", "2026-03-05.md", "2025-12-31.md", "x.md.md"]
        .iter()
        .map(|n| n.to_string())
        .collect();
    let days = MemoryStore::days_from_names(&names);
    assert_eq!(days, vec!["x", "2026-03-05", "2026-01-01", "2025-12-31"]);
}

#[test]
fn test_day_paths_and_entries() {
    let store = MemoryStore::new(PathBuf::from("/mem"));
    assert_eq!(store.day_path("2026-01-01"), PathBuf::from("/mem/2026-01-01.md"));
    assert_eq!(MemoryStore::day_file("d"), "d.md");
    assert_eq!(MemoryStore::entry_text("T", "hello"), "\n<!-- T -->\nhello\n");
    assert_eq!(store.memory_dir(), &PathBuf::from("/mem"));
}

#[test]
fn test_matching_keywords_on_lowered_text() {
    let line: Vec<char> = "rust and go".chars().collect();
    let kws = vec![Some("rust".chars().collect()), None, Some("go".chars().collect()), Some("Go".chars().collect())];
    assert_eq!(matching_keywords(&line, &kws), 2);
    assert_eq!(matching_keywords(&line, &Vec::new()), 0);
}
