use patent::model::{Match, Saturation, Source, Verdict};
use patent::tui::{App, Mode};

fn matches() -> Vec<Match> {
    let mk = |name: &str, desc: &str| Match {
        name: name.to_string(),
        source: Source::Npm,
        url: format!("https://example.com/{name}"),
        description: desc.to_string(),
        popularity: None,
        similarity: 5000,
    };
    vec![
        mk("kill-port", "Kill the process on a port"),
        mk("fkill", "Fabulously KILL processes"),
        mk("portscan", "Scan open ports"),
    ]
}

fn verdict() -> Verdict {
    Verdict {
        level: Saturation::Crowded,
        headline: "h".to_string(),
        gaps: vec![],
        sources_checked: vec![Source::Npm],
        caveat: patent::verdict::CAVEAT.to_string(),
    }
}

#[test]
fn new_app_shows_everything() {
    let ms = matches();
    let v = verdict();
    let app = App::new("idea", &v, &ms);
    assert_eq!(app.idea(), "idea");
    assert_eq!(app.verdict().headline, "h");
    assert_eq!(app.mode(), Mode::Normal);
    assert_eq!(app.cursor(), 0);
    assert_eq!(app.filter_text(), "");
    assert!(!app.should_quit());
    assert_eq!(app.visible_count(), 3);
    assert_eq!(app.visible_matches().len(), 3);
    assert_eq!(app.selected_url(), Some("https://example.com/kill-port"));
}

#[test]
fn scrolling_stays_in_range() {
    let ms = matches();
    let v = verdict();
    let mut app = App::new("idea", &v, &ms);
    app.scroll_up();
    assert_eq!(app.cursor(), 0);
    app.scroll_down();
    app.scroll_down();
    app.scroll_down();
    assert_eq!(app.cursor(), 2);
    assert_eq!(app.selected_url(), Some("https://example.com/portscan"));
    app.scroll_up();
    assert_eq!(app.cursor(), 1);
}

#[test]
fn filtering_is_case_insensitive_and_undoable() {
    let ms = matches();
    let v = verdict();
    let mut app = App::new("idea", &v, &ms);
    app.enter_filter();
    assert_eq!(app.mode(), Mode::Filter);
    for c in "KILL".chars() {
        app.filter_push(c);
    }
    assert_eq!(app.filter_text(), "KILL");
    let names: Vec<&str> = app.visible_matches().iter().map(|m| m.name.as_str()).collect();
    assert_eq!(names, vec!["kill-port", "fkill"]);
    app.filter_push('z');
    assert_eq!(app.visible_count(), 0);
    assert_eq!(app.cursor(), 0);
    assert_eq!(app.selected_url(), None);
    app.filter_pop();
    assert_eq!(app.filter_text(), "KILL");
    assert_eq!(app.visible_count(), 2);
    app.confirm_filter();
    assert_eq!(app.mode(), Mode::Normal);
    assert_eq!(app.filter_text(), "KILL");
}

#[test]
fn cursor_is_clamped_when_the_list_shrinks() {
    let ms = matches();
    let v = verdict();
    let mut app = App::new("idea", &v, &ms);
    app.scroll_down();
    app.scroll_down();
    assert_eq!(app.cursor(), 2);
    app.filter_push('k');
    assert_eq!(app.visible_count(), 2);
    assert_eq!(app.cursor(), 1);
    assert_eq!(app.selected_url(), Some("https://example.com/fkill"));
}

#[test]
fn exit_filter_restores_everything() {
    let ms = matches();
    let v = verdict();
    let mut app = App::new("idea", &v, &ms);
    app.enter_filter();
    app.filter_push('s');
    app.filter_push('c');
    assert_eq!(app.visible_count(), 1);
    app.exit_filter();
    assert_eq!(app.mode(), Mode::Normal);
    assert_eq!(app.filter_text(), "");
    assert_eq!(app.visible_count(), 3);
    assert_eq!(app.cursor(), 0);
    app.filter_pop();
    assert_eq!(app.filter_text(), "");
    app.quit();
    assert!(app.should_quit());
}
