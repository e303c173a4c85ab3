use patent::model::{Match, Source};
use patent::sources::hacker_news::{hit_to_match, search_text, search_url};
use patent::sources::{
    add, combine_results, dedup, detect_sources, idea_contains, next_step, NextStep, RETRY_DELAY_MS,
};

fn m(name: &str, url: &str) -> Match {
    Match {
        name: name.to_string(),
        source: Source::GitHub,
        url: url.to_string(),
        description: String::new(),
        popularity: None,
        similarity: 0,
    }
}

fn sorted(mut v: Vec<Source>) -> Vec<String> {
    let mut names: Vec<String> = v.drain(..).map(|s| s.to_string()).collect();
    names.sort();
    names
}

fn names(v: &[Source]) -> Vec<String> {
    sorted(v.to_vec())
}

#[test]
fn detect_sources_follows_the_idea() {
    let got = detect_sources("a rust cli for kubernetes");
    let want = [Source::GitHub, Source::HackerNews, Source::CratesIo, Source::Go, Source::DockerHub];
    assert_eq!(sorted(got), names(&want));
}

#[test]
fn detect_sources_falls_back_to_largest_registries() {
    let got = detect_sources("a tool for organizing recipes");
    let want = [Source::GitHub, Source::HackerNews, Source::Npm, Source::PyPI, Source::CratesIo];
    assert_eq!(sorted(got), names(&want));
}

#[test]
fn detect_sources_domains_and_languages() {
    let got = detect_sources("A Django REST API with React frontend");
    let want = [Source::GitHub, Source::HackerNews, Source::PyPI, Source::Npm, Source::Go];
    assert_eq!(sorted(got), names(&want));
    let got = detect_sources("VSCode extension for C# game projects");
    let want = [
        Source::GitHub,
        Source::HackerNews,
        Source::VsCodeMarketplace,
        Source::Npm,
        Source::NuGet,
        Source::CratesIo,
    ];
    assert_eq!(sorted(got), names(&want));
}

#[test]
fn detect_sources_has_no_duplicates() {
    let got = detect_sources("rust cli game embedded cargo crate shell");
    let want = [Source::GitHub, Source::HackerNews, Source::CratesIo, Source::Go, Source::NuGet];
    assert_eq!(got.len(), want.len());
    assert_eq!(sorted(got), names(&want));
}

#[test]
fn idea_contains_matches_whole_words_case_insensitively() {
    assert!(idea_contains("Written in RUST!", &["rust"]));
    assert!(!idea_contains("a trusty tool", &["rust"]));
    assert!(idea_contains("node.js helper", &["node"]));
    assert!(!idea_contains("", &["rust"]));
    // Any whole-word occurrence counts, not only the first.
    assert!(idea_contains("rusty rust", &["rust"]));
    assert!(idea_contains("trusty rust", &["rust"]));
    assert!(!idea_contains("trusty rusty", &["rust"]));
}

#[test]
fn add_keeps_a_set() {
    let mut s = vec![Source::GitHub];
    add(&mut s, &[Source::Npm, Source::GitHub, Source::Npm]);
    assert_eq!(s, vec![Source::GitHub, Source::Npm]);
}

#[test]
fn dedup_keeps_first_occurrence_in_order() {
    let out = dedup(vec![m("a", "u1"), m("b", "u2"), m("c", "u1"), m("d", "u3"), m("e", "u2")]);
    let got: Vec<&str> = out.iter().map(|x| x.name.as_str()).collect();
    assert_eq!(got, vec!["a", "b", "d"]);
    let again = dedup(out);
    assert_eq!(again.len(), 3);
}

#[test]
fn combine_results_skips_failures_and_dedups() {
    let results = vec![
        (Source::Npm, Ok(vec![m("a", "u1"), m("b", "u2")])),
        (Source::PyPI, Err(patent::Error::Parse("down".to_string()))),
        (Source::GitHub, Ok(vec![m("c", "u2"), m("d", "u3")])),
        (Source::HackerNews, Ok(vec![])),
    ];
    let (matches, reached, failed) = combine_results(results);
    assert_eq!(failed, vec![Source::PyPI]);
    let got: Vec<&str> = matches.iter().map(|x| x.name.as_str()).collect();
    assert_eq!(got, vec!["a", "b", "d"]);
    assert_eq!(reached, vec![Source::Npm, Source::GitHub, Source::HackerNews]);
}

#[test]
fn hacker_news_hit_maps_to_discussion() {
    let hit = hit_to_match(Some("Show HN: portkill".to_string()), None, "4242".to_string(), Some(17));
    assert_eq!(hit.name, "Show HN: portkill");
    assert_eq!(hit.source, Source::HackerNews);
    assert_eq!(hit.url, "https://news.ycombinator.com/item?id=4242");
    assert_eq!(hit.description, "");
    assert_eq!(hit.popularity, Some(17));
    assert_eq!(hit.similarity, 0);
    let bare = hit_to_match(None, Some("text".to_string()), "1".to_string(), None);
    assert_eq!(bare.name, "");
    assert_eq!(bare.description, "text");
}

#[test]
fn hacker_news_request_parts() {
    assert_eq!(search_url("https://hn.algolia.com"), "https://hn.algolia.com/api/v1/search");
    let q = patent::Query {
        idea: "x".to_string(),
        keywords: vec!["kill".to_string(), "port".to_string()],
    };
    assert_eq!(search_text(&q), "kill port");
    let empty = patent::Query { idea: String::new(), keywords: vec![] };
    assert_eq!(search_text(&empty), "");
}

#[test]
fn detect_sources_ignores_case() {
    assert_eq!(
        sorted(detect_sources("A RUST CLI FOR KUBERNETES")),
        sorted(detect_sources("a rust cli for kubernetes"))
    );
}

#[test]
fn failed_first_attempt_is_retried_once() {
    assert_eq!(RETRY_DELAY_MS, 800);
    assert_eq!(next_step(1, true), NextStep::Finish);
    assert_eq!(next_step(1, false), NextStep::RetryAfter(800));
    assert_eq!(next_step(2, false), NextStep::Finish);
    assert_eq!(next_step(2, true), NextStep::Finish);
}

#[test]
fn short_language_and_domain_terms_select_their_registries() {
    assert!(detect_sources("a go linter").contains(&Source::Go));
    let got = detect_sources("An AI tool");
    assert!(got.contains(&Source::PyPI) && got.contains(&Source::Npm));
    assert!(!detect_sources("a good linter").contains(&Source::Go));
}

#[test]
fn every_source_is_selected_by_some_idea() {
    let cases = [
        ("rust", Source::CratesIo),
        ("npm", Source::Npm),
        ("python", Source::PyPI),
        ("golang", Source::Go),
        ("java", Source::Maven),
        ("ruby", Source::RubyGems),
        ("nuget", Source::NuGet),
        ("docker", Source::DockerHub),
        ("vscode", Source::VsCodeMarketplace),
        ("", Source::GitHub),
        ("", Source::HackerNews),
    ];
    for (idea, source) in cases {
        assert!(detect_sources(idea).contains(&source), "{idea:?} should select {source:?}");
    }
}

#[test]
fn dedup_twice_is_dedup_once() {
    let once = dedup(vec![m("a", "u1"), m("b", "u2"), m("c", "u1"), m("d", "u2"), m("e", "u3")]);
    let urls: Vec<&str> = once.iter().map(|x| x.url.as_str()).collect();
    assert_eq!(urls, vec!["u1", "u2", "u3"]);
    let twice = dedup(once.clone());
    assert_eq!(twice, once);
}
