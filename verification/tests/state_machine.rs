use xpedia::state::{AppState, Command, Event, InputMode, Key, Tab};
use xpedia::types::{FetchError, Query, Search, SearchResponse, Searchinfo};

fn hit(pageid: i64, title: &str) -> Search {
    Search {
        ns: 0,
        title: title.to_string(),
        pageid,
        size: 100,
        wordcount: 20,
        snippet: String::from("snippet"),
        timestamp: String::from("2021-01-01T00:00:00Z"),
    }
}

fn response(hits: Vec<Search>) -> SearchResponse {
    let total = hits.len() as i64;
    SearchResponse {
        batchcomplete: String::new(),
        search_response_continue: None,
        query: Query {
            searchinfo: Searchinfo { totalhits: total, suggestion: None, suggestionsnippet: None },
            search: hits,
        },
    }
}

fn press(s: &mut AppState, k: Key) -> Command {
    s.update(Event::Input(k))
}

fn state_with_hits(hits: Vec<Search>) -> AppState {
    let mut s = AppState::new();
    press(&mut s, Key::Char('s'));
    let c = press(&mut s, Key::Enter);
    assert_eq!(c, Command::RunSearch);
    s.apply_search_outcome(Ok(response(hits)));
    s
}

#[test]
fn search_scenario_ranked_hits_select_and_wrap() {
    let mut s = AppState::new();
    assert_eq!(s.input_mode, InputMode::Normal);
    press(&mut s, Key::Char('s'));
    assert_eq!(s.input_mode, InputMode::Searching);
    press(&mut s, Key::Char('c'));
    press(&mut s, Key::Char('a'));
    press(&mut s, Key::Char('t'));
    assert_eq!(s.search_query, vec!['c', 'a', 't']);
    let c = press(&mut s, Key::Enter);
    assert_eq!(c, Command::RunSearch);
    s.apply_search_outcome(Ok(response(vec![hit(1, "A"), hit(2, "B"), hit(3, "C")])));
    assert_eq!(s.input_mode, InputMode::Normal);
    assert_eq!(s.active_tab, Tab::Results);
    assert_eq!(s.results.len(), 3);
    assert_eq!(s.results[0].title, "A");
    assert_eq!(s.results[1].title, "B");
    assert_eq!(s.results[2].title, "C");
    assert_eq!(s.selected_index, Some(0));
    press(&mut s, Key::Down);
    press(&mut s, Key::Down);
    assert_eq!(s.selected_index, Some(2));
    press(&mut s, Key::Down);
    assert_eq!(s.selected_index, Some(0));
}

#[test]
fn down_wraps_back_after_len_presses() {
    let mut s = state_with_hits(vec![hit(1, "A"), hit(2, "B"), hit(3, "C")]);
    press(&mut s, Key::Down);
    assert_eq!(s.selected_index, Some(1));
    for _ in 0..3 {
        press(&mut s, Key::Down);
    }
    assert_eq!(s.selected_index, Some(1));
}

#[test]
fn up_wraps_back_after_len_presses() {
    let mut s = state_with_hits(vec![hit(1, "A"), hit(2, "B"), hit(3, "C")]);
    assert_eq!(s.selected_index, Some(0));
    press(&mut s, Key::Up);
    assert_eq!(s.selected_index, Some(2));
    press(&mut s, Key::Up);
    press(&mut s, Key::Up);
    assert_eq!(s.selected_index, Some(0));
}

#[test]
fn empty_results_navigation_is_noop() {
    let mut s = state_with_hits(vec![]);
    assert_eq!(s.selected_index, None);
    assert_eq!(s.results.len(), 0);
    press(&mut s, Key::Down);
    assert_eq!(s.selected_index, None);
    press(&mut s, Key::Up);
    assert_eq!(s.selected_index, None);
    press(&mut s, Key::Enter);
    assert_eq!(s.input_mode, InputMode::Normal);
    assert!(s.opened_article.is_none());
}

#[test]
fn selection_none_iff_empty_after_each_transition() {
    let mut s = AppState::new();
    let keys = [
        Key::Down,
        Key::Up,
        Key::Char('r'),
        Key::Down,
        Key::Char('s'),
        Key::Char('x'),
        Key::Esc,
        Key::Enter,
    ];
    for k in keys {
        press(&mut s, k);
        assert_eq!(s.selected_index.is_none(), s.results.is_empty());
    }
    let mut s = state_with_hits(vec![hit(1, "A"), hit(2, "B")]);
    for k in keys {
        press(&mut s, k);
        assert_eq!(s.selected_index.is_none(), s.results.is_empty());
    }
}

#[test]
fn open_article_fetches_exactly_once() {
    let mut s = state_with_hits(vec![hit(1, "A"), hit(2, "B"), hit(3, "C")]);
    press(&mut s, Key::Down);
    press(&mut s, Key::Enter);
    assert_eq!(s.input_mode, InputMode::Reading);
    let opened = s.opened_article.as_ref().unwrap();
    assert_eq!(opened.hit.title, "B");
    assert_eq!(opened.hit.pageid, 2);
    assert!(opened.body.is_none());
    assert_eq!(opened.scroll_offset, 0);
    // First render: one fetch is owed, for B's page.
    assert_eq!(s.needs_fetch(), Some(2));
    s.store_body(String::from("reflowed body"));
    // Second render with the same opened article: no further fetch.
    assert_eq!(s.needs_fetch(), None);
    let opened = s.opened_article.as_ref().unwrap();
    assert_eq!(opened.body.as_deref(), Some("reflowed body"));
}

#[test]
fn escape_clears_opened_article_regardless_of_scroll() {
    let mut s = state_with_hits(vec![hit(1, "A")]);
    press(&mut s, Key::Enter);
    assert_eq!(s.input_mode, InputMode::Reading);
    for _ in 0..5 {
        press(&mut s, Key::Down);
    }
    assert_eq!(s.opened_article.as_ref().unwrap().scroll_offset, 5);
    press(&mut s, Key::Esc);
    assert_eq!(s.input_mode, InputMode::Normal);
    assert!(s.opened_article.is_none());
}

#[test]
fn scroll_is_floored_at_zero() {
    let mut s = state_with_hits(vec![hit(1, "A")]);
    press(&mut s, Key::Enter);
    press(&mut s, Key::Up);
    assert_eq!(s.opened_article.as_ref().unwrap().scroll_offset, 0);
    press(&mut s, Key::Down);
    assert_eq!(s.opened_article.as_ref().unwrap().scroll_offset, 1);
    press(&mut s, Key::Up);
    assert_eq!(s.opened_article.as_ref().unwrap().scroll_offset, 0);
}

#[test]
fn query_editing_appends_and_drops() {
    let mut s = AppState::new();
    press(&mut s, Key::Char('s'));
    press(&mut s, Key::Backspace);
    assert!(s.search_query.is_empty());
    press(&mut s, Key::Char('a'));
    press(&mut s, Key::Char('b'));
    press(&mut s, Key::Backspace);
    assert_eq!(s.search_query, vec!['a']);
    press(&mut s, Key::Esc);
    assert_eq!(s.input_mode, InputMode::Normal);
    // Reopening search keeps the prior text.
    press(&mut s, Key::Char('s'));
    assert_eq!(s.search_query, vec!['a']);
}

#[test]
fn quit_only_from_normal_mode() {
    let mut s = AppState::new();
    press(&mut s, Key::Char('s'));
    let c = press(&mut s, Key::Char('q'));
    assert_eq!(c, Command::Nothing);
    assert_eq!(s.search_query, vec!['q']);
    press(&mut s, Key::Esc);
    let c = press(&mut s, Key::Char('q'));
    assert_eq!(c, Command::Quit);
}

#[test]
fn tab_switching_in_normal_and_reading() {
    let mut s = state_with_hits(vec![hit(1, "A")]);
    assert_eq!(s.active_tab, Tab::Results);
    press(&mut s, Key::Char('h'));
    assert_eq!(s.active_tab, Tab::Home);
    press(&mut s, Key::Char('r'));
    assert_eq!(s.active_tab, Tab::Results);
    press(&mut s, Key::Enter);
    assert_eq!(s.input_mode, InputMode::Reading);
    press(&mut s, Key::Char('h'));
    assert_eq!(s.active_tab, Tab::Home);
    assert_eq!(s.input_mode, InputMode::Reading);
}

#[test]
fn search_failure_keeps_results_and_reports_inline() {
    let mut s = state_with_hits(vec![hit(1, "A"), hit(2, "B")]);
    press(&mut s, Key::Char('s'));
    press(&mut s, Key::Enter);
    s.apply_search_outcome(Err(FetchError::Network));
    assert_eq!(s.input_mode, InputMode::Normal);
    assert_eq!(s.last_error, Some(FetchError::Network));
    assert_eq!(s.results.len(), 2);
    assert_eq!(s.selected_index, Some(0));
    press(&mut s, Key::Char('s'));
    press(&mut s, Key::Enter);
    s.apply_search_outcome(Err(FetchError::Decode));
    assert_eq!(s.last_error, Some(FetchError::Decode));
}

#[test]
fn each_error_variant_has_its_inline_message() {
    assert_eq!(FetchError::Network.message(), "the encyclopedia could not be reached");
    assert_eq!(FetchError::Decode.message(), "the reply could not be decoded");
}

#[test]
fn tick_changes_nothing() {
    let mut s = state_with_hits(vec![hit(1, "A")]);
    let c = s.update(Event::Tick);
    assert_eq!(c, Command::Nothing);
    assert_eq!(s.input_mode, InputMode::Normal);
    assert_eq!(s.active_tab, Tab::Results);
    assert_eq!(s.selected_index, Some(0));
    assert_eq!(s.results.len(), 1);
}
