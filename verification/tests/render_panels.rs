use xpedia::pump::{poll_timeout, tick_due, TICK_RATE_MS};
use xpedia::render::{get_selected_search, home_lines, menu_titles, search_list_titles, tab_index};
use xpedia::state::Tab;
use xpedia::types::Search;

fn hit(pageid: i64, title: &str) -> Search {
    Search {
        ns: 0,
        title: title.to_string(),
        pageid,
        size: 1,
        wordcount: 1,
        snippet: String::new(),
        timestamp: String::new(),
    }
}

#[test]
fn menu_has_three_fixed_entries() {
    let m = menu_titles();
    assert_eq!(m, vec!["Home", "Results", "Quit"]);
}

#[test]
fn tab_index_matches_menu_order() {
    assert_eq!(tab_index(Tab::Home), 0);
    assert_eq!(tab_index(Tab::Results), 1);
}

#[test]
fn home_page_shows_welcome_text() {
    let lines = home_lines();
    assert_eq!(lines.len(), 8);
    assert_eq!(lines[1], "Welcome");
    assert_eq!(lines[3], "to");
    assert_eq!(lines[5], "xPedia");
    assert_eq!(lines[7], "Press 's' to search");
    for i in [0, 2, 4, 6] {
        assert_eq!(lines[i], "");
    }
}

#[test]
fn empty_result_list_shows_placeholder_row() {
    let rows = search_list_titles(&Vec::new());
    assert_eq!(rows, vec!["No Results found"]);
}

#[test]
fn result_list_shows_titles_in_rank_order() {
    let hits = vec![hit(1, "First"), hit(2, "Second"), hit(3, "Third")];
    let rows = search_list_titles(&hits);
    assert_eq!(rows, vec!["First", "Second", "Third"]);
}

#[test]
fn selected_search_is_looked_up_defensively() {
    let hits = vec![hit(1, "A"), hit(2, "B")];
    assert!(get_selected_search(&hits, None).is_none());
    assert!(get_selected_search(&hits, Some(5)).is_none());
    let h = get_selected_search(&hits, Some(1)).expect("index 1 is in range");
    assert_eq!(h.title, "B");
    assert_eq!(h.pageid, 2);
    assert!(get_selected_search(&Vec::new(), Some(0)).is_none());
}

#[test]
fn poll_timeout_is_the_remaining_tick_interval() {
    assert_eq!(poll_timeout(TICK_RATE_MS, 0), 200);
    assert_eq!(poll_timeout(200, 50), 150);
    assert_eq!(poll_timeout(200, 200), 0);
    assert_eq!(poll_timeout(200, 350), 0);
}

#[test]
fn tick_is_due_once_the_interval_elapsed() {
    assert!(!tick_due(200, 0));
    assert!(!tick_due(200, 199));
    assert!(tick_due(200, 200));
    assert!(tick_due(200, 1000));
}
