use patent::model::{Match, Query, Saturation, Source};
use patent::verdict::{self, CAVEAT};

fn query() -> Query {
    Query {
        idea: "a cli to kill processes on a port".to_string(),
        keywords: vec!["kill".into(), "port".into()],
    }
}

fn sample_matches() -> Vec<Match> {
    vec![
        Match {
            name: "kill-port".to_string(),
            source: Source::Npm,
            url: "https://npmjs.com/package/kill-port".to_string(),
            description: "Kill process on a port".to_string(),
            popularity: Some(50_000),
            similarity: 8500,
        },
        Match {
            name: "fkill-cli".to_string(),
            source: Source::Npm,
            url: "https://npmjs.com/package/fkill-cli".to_string(),
            description: "Fabulously kill processes".to_string(),
            popularity: Some(10_000),
            similarity: 6000,
        },
    ]
}

fn match_with(name: &str, similarity: i32) -> Match {
    Match {
        name: name.to_string(),
        source: Source::GitHub,
        url: format!("https://example.com/{name}"),
        description: String::new(),
        popularity: None,
        similarity,
    }
}

fn reply(level: &str, headline: &str, gaps: &[&str]) -> String {
    let gaps: Vec<String> = gaps.iter().map(|g| format!("\"{g}\"")).collect();
    format!(
        "{{\"level\": \"{level}\", \"headline\": \"{headline}\", \"gaps\": [{}]}}",
        gaps.join(", ")
    )
}

// -- build_prompt tests -------------------------------------------------------

#[test]
fn prompt_contains_the_idea() {
    let prompt = verdict::build_prompt(&query(), &sample_matches());
    assert!(
        prompt.contains("a cli to kill processes on a port"),
        "prompt must include the user's idea"
    );
}

#[test]
fn prompt_contains_match_names() {
    let prompt = verdict::build_prompt(&query(), &sample_matches());
    assert!(prompt.contains("kill-port"));
    assert!(prompt.contains("fkill-cli"));
}

#[test]
fn prompt_forbids_asserting_absence() {
    let prompt = verdict::build_prompt(&query(), &sample_matches());
    let lower = prompt.to_lowercase();
    assert!(
        lower.contains("never") || lower.contains("do not") || lower.contains("must not"),
        "prompt must forbid claiming non-existence"
    );
}

#[test]
fn prompt_requires_json_output() {
    let prompt = verdict::build_prompt(&query(), &sample_matches());
    let lower = prompt.to_lowercase();
    assert!(lower.contains("json"), "prompt must ask for JSON output");
}

#[test]
fn prompt_with_no_matches_still_valid() {
    let prompt = verdict::build_prompt(&query(), &[]);
    assert!(!prompt.is_empty());
    assert!(prompt.contains("a cli to kill processes on a port"));
}

#[test]
fn prompt_lists_matches_with_similarity() {
    let prompt = verdict::build_prompt(&query(), &sample_matches());
    assert!(prompt.contains("- **kill-port** (npm, sim 0.85): Kill process on a port\n"));
    assert!(prompt.contains("- **fkill-cli** (npm, sim 0.60): Fabulously kill processes\n"));
    assert!(!prompt.contains("more with lower similarity"));
}

#[test]
fn prompt_averages_the_top_matches() {
    let matches = vec![match_with("a", 8500), match_with("b", 6100)];
    let prompt = verdict::build_prompt(&query(), &matches);
    assert!(prompt.contains("Top-10 average similarity: 0.73 (scale:"));
}

#[test]
fn prompt_rounds_exact_halves_to_even() {
    let matches = vec![match_with("a", 1250), match_with("b", 1350)];
    let prompt = verdict::build_prompt(&query(), &matches);
    assert!(prompt.contains("(GitHub, sim 0.12)"));
    assert!(prompt.contains("(GitHub, sim 0.14)"));
    assert!(prompt.contains("Top-10 average similarity: 0.13 "));
}

#[test]
fn prompt_without_matches_says_so() {
    let prompt = verdict::build_prompt(&query(), &[]);
    assert!(prompt.contains("## Matches\nNo matches were found in the sources checked.\n\n"));
    assert!(prompt.contains("implementations: the selected open-source registries.\n\n"));
}

#[test]
fn prompt_counts_matches_beyond_fifteen() {
    let matches: Vec<Match> = (0..17).map(|i| match_with(&format!("m{i}"), 5000)).collect();
    let prompt = verdict::build_prompt(&query(), &matches);
    assert!(prompt.contains("- **m14**"));
    assert!(!prompt.contains("- **m15**"));
    assert!(prompt.contains("- … and 2 more with lower similarity\n"));
    assert!(prompt.contains("Top-10 average similarity: 0.50 "));
}

#[test]
fn scoped_prompt_names_the_sources_checked() {
    let prompt =
        verdict::build_scoped_prompt(&query(), &[], &[Source::Npm, Source::HackerNews]);
    assert!(prompt.starts_with("You are a prior-art analyst"));
    assert!(prompt.contains("implementations: npm, Hacker News.\n\n## Idea\n"));
}

#[test]
fn prompt_rounds_negative_similarity() {
    let prompt = verdict::build_prompt(&query(), &[match_with("neg", -1250)]);
    assert!(prompt.contains("(GitHub, sim -0.12)"));
}

#[test]
fn source_list_renders_names() {
    assert_eq!(verdict::source_list(&[]), "the selected open-source registries");
    assert_eq!(
        verdict::source_list(&[Source::CratesIo, Source::VsCodeMarketplace, Source::DockerHub]),
        "crates.io, VS Code Marketplace, Docker Hub"
    );
}

// -- integrity guards ---------------------------------------------------------

#[test]
fn absence_phrases_are_caught_case_insensitively() {
    assert!(verdict::contains_absence_phrase("This Does NOT Exist anywhere"));
    assert!(verdict::contains_absence_phrase("A COMPLETELY NOVEL idea"));
    assert!(!verdict::contains_absence_phrase("Several tools exist already."));
    assert!(!verdict::contains_absence_phrase(CAVEAT.trim_start_matches("Not proof it doesn't exist")));
}

#[test]
fn data_headlines_never_assert_absence() {
    for level in [Saturation::Open, Saturation::Crowded, Saturation::Saturated] {
        let h = verdict::data_headline(level, &sample_matches());
        assert!(!verdict::contains_absence_phrase(&h), "{h}");
    }
}

#[test]
fn data_headline_counts_close_matches() {
    assert_eq!(
        verdict::data_headline(Saturation::Crowded, &sample_matches()),
        "Crowded — 2 closely-related tools turned up in the sources checked."
    );
    assert_eq!(
        verdict::data_headline(Saturation::Crowded, &[match_with("a", 5500), match_with("b", 5499)]),
        "Crowded — 1 closely-related tool turned up in the sources checked."
    );
    assert_eq!(
        verdict::data_headline(Saturation::Saturated, &sample_matches()),
        "Saturated — 2 closely-related tools turned up in the sources checked."
    );
    assert_eq!(
        verdict::data_headline(Saturation::Open, &[]),
        "Nothing close turned up in the sources checked — keep looking before committing."
    );
}

#[test]
fn floor_level_uses_the_data() {
    assert_eq!(verdict::floor_level(Saturation::Open, &sample_matches()), Saturation::Crowded);
    assert_eq!(verdict::floor_level(Saturation::Saturated, &[]), Saturation::Saturated);
    let strong: Vec<Match> = (0..5).map(|i| match_with(&format!("s{i}"), 6000)).collect();
    assert_eq!(verdict::floor_level(Saturation::Open, &strong), Saturation::Saturated);
    let four: Vec<Match> = (0..4).map(|i| match_with(&format!("s{i}"), 9000)).collect();
    assert_eq!(verdict::floor_level(Saturation::Open, &four), Saturation::Crowded);
    assert_eq!(verdict::floor_level(Saturation::Open, &[match_with("x", 5499)]), Saturation::Open);
}

#[test]
fn guard_replaces_absence_headline() {
    assert_eq!(
        verdict::guard_headline("There is no prior art here.".to_string(), Saturation::Open, &[]),
        "Nothing close turned up in the sources checked — keep looking before committing."
    );
    assert_eq!(
        verdict::guard_headline("A few tools exist.".to_string(), Saturation::Open, &[]),
        "A few tools exist."
    );
}

#[test]
fn extract_json_handles_fences() {
    assert_eq!(verdict::extract_json("```json\n{\"a\":1}\n```"), "{\"a\":1}");
    assert_eq!(verdict::extract_json("  {\"x\": 2}\n "), "{\"x\": 2}");
    assert_eq!(verdict::extract_json("Here:\n```\n {} \n```\nbye"), "{}");
    assert_eq!(verdict::extract_json("```json {\"open\": 1}"), "```json {\"open\": 1}");
}

// -- reading the model's reply ------------------------------------------------

#[test]
fn parse_verdict_returns_verdict_with_caveat() {
    let raw = reply(
        "Saturated",
        "Lots of prior art found in the sources checked.",
        &["no Windows support in existing tools"],
    );
    let sources = vec![Source::Npm, Source::CratesIo];
    let v = verdict::parse_verdict(&raw, &sample_matches(), sources.clone()).unwrap();
    assert_eq!(v.level, Saturation::Saturated);
    assert!(v.headline.contains("prior art"));
    assert_eq!(v.gaps.len(), 1);
    assert_eq!(v.sources_checked, sources);
    assert_eq!(v.caveat, CAVEAT);
}

#[test]
fn parse_verdict_reads_open_and_crowded() {
    let v = verdict::parse_verdict(
        &reply("Open", "Nothing close found in the sources checked.", &[]),
        &[],
        vec![Source::GitHub],
    )
    .unwrap();
    assert_eq!(v.level, Saturation::Open);
    assert_eq!(v.headline, "Nothing close found in the sources checked.");

    let v = verdict::parse_verdict(
        &reply("Crowded", "A few adjacent tools exist.", &["gap one", "gap two"]),
        &sample_matches(),
        vec![Source::Npm],
    )
    .unwrap();
    assert_eq!(v.level, Saturation::Crowded);
    assert_eq!(v.gaps, vec!["gap one".to_string(), "gap two".to_string()]);
}

#[test]
fn parse_verdict_handles_json_in_a_fence() {
    let fenced = "```json\n{\"level\":\"Open\",\"headline\":\"Nothing found.\",\"gaps\":[]}\n```";
    let v = verdict::parse_verdict(fenced, &[], vec![Source::GitHub]).unwrap();
    assert_eq!(v.level, Saturation::Open);
    assert_eq!(v.headline, "Nothing found.");
}

#[test]
fn parse_verdict_rejects_garbage() {
    let err = verdict::parse_verdict("I don't know what JSON is", &[], vec![]).unwrap_err();
    assert!(matches!(err, patent::Error::Parse(_)));
}

#[test]
fn parse_verdict_reports_invalid_level_and_missing_headline() {
    match verdict::parse_verdict("{\"level\":\"Foo\",\"headline\":\"h\"}", &[], vec![]) {
        Err(patent::Error::Parse(m)) => assert_eq!(m, "invalid level: Some(\"Foo\")"),
        other => panic!("unexpected {other:?}"),
    }
    match verdict::parse_verdict("{\"headline\":\"h\"}", &[], vec![]) {
        Err(patent::Error::Parse(m)) => assert_eq!(m, "invalid level: None"),
        other => panic!("unexpected {other:?}"),
    }
    match verdict::parse_verdict("{\"level\":\"Open\"}", &[], vec![]) {
        Err(patent::Error::Parse(m)) => assert_eq!(m, "missing 'headline'"),
        other => panic!("unexpected {other:?}"),
    }
}

#[test]
fn parse_verdict_floors_an_open_level() {
    let v = verdict::parse_verdict(
        &reply("Open", "Wide open space.", &[]),
        &sample_matches(),
        vec![Source::Npm],
    )
    .unwrap();
    assert_eq!(v.level, Saturation::Crowded);
    assert_eq!(v.headline, "Crowded — 2 closely-related tools turned up in the sources checked.");
}

#[test]
fn parse_verdict_guards_headline_and_gaps() {
    let v = verdict::parse_verdict(
        &reply("Open", "This does not exist anywhere.", &["No one else does X", "faster startup"]),
        &[],
        vec![],
    )
    .unwrap();
    assert_eq!(
        v.headline,
        "Nothing close turned up in the sources checked — keep looking before committing."
    );
    assert_eq!(v.gaps, vec!["faster startup".to_string()]);
}

#[test]
fn parse_verdict_skips_non_string_gaps() {
    let v = verdict::parse_verdict(
        "{\"level\":\"Open\",\"headline\":\"h\",\"gaps\":[1, \"ok\", null]}",
        &[],
        vec![],
    )
    .unwrap();
    assert_eq!(v.gaps, vec!["ok".to_string()]);
}

#[test]
fn from_data_uses_similarity_alone() {
    let v = verdict::from_data(&sample_matches(), vec![Source::Npm]);
    assert_eq!(v.level, Saturation::Crowded);
    assert_eq!(v.headline, "Crowded — 2 closely-related tools turned up in the sources checked.");
    assert!(v.gaps.is_empty());
    assert_eq!(v.sources_checked, vec![Source::Npm]);
    assert_eq!(v.caveat, CAVEAT);

    let v = verdict::from_data(&[], vec![]);
    assert_eq!(v.level, Saturation::Open);
}

#[test]
fn extract_json_twice_gives_the_same_text() {
    for raw in [
        "```json\n{\"a\":1}\n```",
        "  {\"x\": 2}\n ",
        "Here:\n```\n {} \n```\nbye",
        "```json {\"open\": 1}",
        "```\n```json\n{}\n```\n```",
    ] {
        let once = verdict::extract_json(raw);
        assert_eq!(verdict::extract_json(once), once);
    }
}
