use imgsearch::engine::{Phase, Session};
use imgsearch::query::{Comparison, QueryError, QueryPlan, RankedResult};
use imgsearch::ui::list::SearchEnum;

fn cmp(id: &str, primary: i32, secondary: i32) -> Comparison {
    Comparison { id: id.to_string(), primary, secondary }
}

fn ids(results: &[RankedResult]) -> Vec<String> {
    results.iter().map(|r| r.id.clone()).collect()
}

fn session_with_results(mode: SearchEnum) -> Session {
    let mut session = Session::new(mode);
    let query = if mode == SearchEnum::Ranking { "old-query" } else { "old" };
    assert!(session.submit(query).is_ok());
    assert!(session.compared(&vec![cmp("p", 1, 0), cmp("q", 2, 0)]));
    assert!(session.finish(&vec![true, true]));
    assert_eq!(session.results.len(), 2);
    session
}

#[test]
fn a_new_session_shows_nothing_and_runs_no_indicator() {
    let session = Session::new(SearchEnum::Search);
    assert_eq!(session.phase, Phase::Idle);
    assert!(session.is_signal_raised());
    assert!(session.results.is_empty());
    assert!(session.window.is_empty());
}

#[test]
fn a_query_runs_from_plan_to_results() {
    let mut session = Session::new(SearchEnum::Search);
    match session.submit("a red car") {
        Ok(QueryPlan::Text(text)) => assert_eq!(text, "a red car"),
        other => panic!("unexpected plan {:?}", other),
    }
    assert_eq!(session.phase, Phase::Embedding);
    assert!(!session.is_signal_raised());
    assert!(session.compared(&vec![cmp("a", 10, 0), cmp("b", 30, 0), cmp("c", 20, 0)]));
    assert_eq!(session.phase, Phase::Decoding);
    assert!(!session.is_signal_raised());
    assert_eq!(ids(&session.window), vec!["b", "c", "a"]);
    assert!(session.results.is_empty());
    assert!(session.finish(&vec![true, false, true]));
    assert!(session.is_signal_raised());
    assert_eq!(ids(&session.results), vec!["b", "a"]);
    assert!(session.window.is_empty());
}

#[test]
fn a_malformed_ranking_query_leaves_the_results_and_raises_the_signal() {
    for query in ["no-dash-here-twice-a-b-c", "no dash"] {
        let mut session = session_with_results(SearchEnum::Ranking);
        let before = ids(&session.results);
        assert!(matches!(session.submit(query), Err(QueryError::MalformedQuery)));
        assert!(session.is_signal_raised());
        assert_eq!(session.phase, Phase::Idle);
        assert_eq!(ids(&session.results), before);
        assert_eq!(before, vec!["q", "p"]);
    }
}

#[test]
fn a_failed_embedding_leaves_the_results_and_raises_the_signal() {
    let mut session = session_with_results(SearchEnum::Search);
    assert!(session.submit("anything").is_ok());
    assert!(!session.is_signal_raised());
    match session.embed_failed("model exploded") {
        Some(QueryError::Embedding(text)) => assert_eq!(text, "model exploded"),
        other => panic!("unexpected notice {:?}", other),
    }
    assert!(session.is_signal_raised());
    assert_eq!(ids(&session.results), vec!["q", "p"]);
}

#[test]
fn a_failed_embedding_in_ranking_has_a_fixed_text() {
    let mut session = Session::new(SearchEnum::Ranking);
    assert!(session.submit("good-bad").is_ok());
    match session.embed_failed("model exploded") {
        Some(QueryError::Embedding(text)) => assert_eq!(text, "Failed to embed text"),
        other => panic!("unexpected notice {:?}", other),
    }
    assert!(session.is_signal_raised());
}

#[test]
fn success_raises_the_signal_too() {
    let mut session = Session::new(SearchEnum::Image2Image);
    assert!(matches!(session.submit("/tmp/x.png"), Ok(QueryPlan::Image(p)) if p == "/tmp/x.png"));
    assert!(session.compared(&Vec::new()));
    assert!(session.finish(&Vec::new()));
    assert!(session.is_signal_raised());
    assert!(session.results.is_empty());
}

#[test]
fn only_one_query_is_under_way() {
    let mut session = Session::new(SearchEnum::Search);
    assert!(session.submit("first").is_ok());
    assert!(matches!(session.submit("second"), Err(QueryError::Busy)));
    assert_eq!(session.phase, Phase::Embedding);
    assert!(session.compared(&vec![cmp("a", 1, 0)]));
    assert!(matches!(session.submit("third"), Err(QueryError::Busy)));
    assert_eq!(session.phase, Phase::Decoding);
}

#[test]
fn events_out_of_turn_change_nothing() {
    let mut session = session_with_results(SearchEnum::Search);
    assert!(session.embed_failed("late").is_none());
    assert!(!session.compared(&vec![cmp("z", 1, 0)]));
    assert!(!session.finish(&vec![true]));
    assert_eq!(session.phase, Phase::Idle);
    assert_eq!(ids(&session.results), vec!["q", "p"]);
    assert!(session.submit("next").is_ok());
    assert!(!session.finish(&vec![true]));
    assert_eq!(session.phase, Phase::Embedding);
    assert!(session.compared(&vec![cmp("z", 1, 0)]));
    assert!(session.embed_failed("late").is_none());
    assert!(!session.compared(&vec![cmp("y", 1, 0)]));
    assert_eq!(ids(&session.window), vec!["z"]);
}

#[test]
fn the_window_holds_twenty_results_at_most() {
    let mut session = Session::new(SearchEnum::NegativePrompt);
    assert!(session.submit("fog").is_ok());
    let comparisons: Vec<Comparison> = (0..50).map(|i| cmp(&i.to_string(), i, 0)).collect();
    assert!(session.compared(&comparisons));
    assert_eq!(ids(&session.window), (0..20).map(|i| i.to_string()).collect::<Vec<_>>());
}

#[test]
fn another_mode_discards_the_results() {
    let mut session = session_with_results(SearchEnum::Search);
    assert!(!session.set_mode(SearchEnum::Search));
    assert_eq!(session.results.len(), 2);
    assert!(session.set_mode(SearchEnum::Ranking));
    assert_eq!(session.mode, SearchEnum::Ranking);
    assert!(session.results.is_empty());
    assert!(session.submit("a-b").is_ok());
    assert!(!session.set_mode(SearchEnum::Search));
    assert_eq!(session.mode, SearchEnum::Ranking);
}
