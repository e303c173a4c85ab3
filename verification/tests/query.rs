use patent::query::{build_query, split_whitespace};

#[test]
fn keywords_are_long_words_lowercased() {
    let q = build_query("A CLI to kill processes on a port");
    assert_eq!(q.idea, "A CLI to kill processes on a port");
    assert_eq!(q.keywords, vec!["cli", "kill", "processes", "port"]);
}

#[test]
fn keyword_length_counts_bytes() {
    let q = build_query("Éa ok  \t xyz\n");
    assert_eq!(q.keywords, vec!["éa", "xyz"]);
    let q = build_query("   ");
    assert!(q.keywords.is_empty());
}

#[test]
fn split_whitespace_drops_empty_runs() {
    let words = split_whitespace("  a  bc\u{3000}d ");
    let words: Vec<String> = words.into_iter().map(|w| w.into_iter().collect()).collect();
    assert_eq!(words, vec!["a", "bc", "d"]);
}
