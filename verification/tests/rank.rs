use patent::model::{Match, Source};
use patent::rank::{rank_by_similarity, DEFAULT_LIMIT};

fn m(name: &str, url: &str, similarity: i32) -> Match {
    Match {
        name: name.to_string(),
        source: Source::Npm,
        url: url.to_string(),
        description: String::new(),
        popularity: None,
        similarity,
    }
}

#[test]
fn ranks_by_similarity_stably_and_cuts() {
    let ranked = rank_by_similarity(
        vec![
            m("a", "u1", 3000),
            m("b", "u2", 9000),
            m("c", "u3", 3000),
            m("d", "u4", 7000),
            m("e", "u2", 9900),
        ],
        3,
    );
    let got: Vec<&str> = ranked.iter().map(|x| x.name.as_str()).collect();
    assert_eq!(got, vec!["b", "d", "a"]);
}

#[test]
fn ranking_keeps_all_under_the_limit() {
    let ranked = rank_by_similarity(vec![m("a", "u1", -100), m("b", "u2", 100)], DEFAULT_LIMIT);
    let got: Vec<&str> = ranked.iter().map(|x| x.name.as_str()).collect();
    assert_eq!(got, vec!["b", "a"]);
    assert!(rank_by_similarity(vec![], 5).is_empty());
    assert!(rank_by_similarity(vec![m("a", "u1", 1)], 0).is_empty());
}
