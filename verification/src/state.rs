use vstd::prelude::*;
use crate::types::{FetchError, HitView, Search, SearchResponse, hits_view};

verus! {

/// Which tab of the menu is active.
#[derive(Clone, Copy, PartialEq, Eq, Structural, Debug)]
pub enum Tab {
    Home,
    Results,
}

/// The mutually exclusive interaction mode; exactly one is active at any time.
#[derive(Clone, Copy, PartialEq, Eq, Structural, Debug)]
pub enum InputMode {
    Normal,
    Searching,
    Reading,
}

/// A key press, reduced to the keys the state machine interprets. Every other
/// key arrives as `Other` and changes nothing.
#[derive(Clone, Copy, PartialEq, Eq, Structural, Debug)]
pub enum Key {
    Char(char),
    Backspace,
    Enter,
    Esc,
    Down,
    Up,
    Other,
}

/// One message from the input pump: a key press, or the periodic tick that
/// wakes the loop even when no key arrives.
#[derive(Clone, Copy, PartialEq, Eq, Structural, Debug)]
pub enum Event {
    Input(Key),
    Tick,
}

/// The outside work the surrounding loop owes after a transition.
#[derive(Clone, Copy, PartialEq, Eq, Structural, Debug)]
pub enum Command {
    Nothing,
    RunSearch,
    Quit,
}

/// The article currently opened for reading. `body` is `None` while the
/// fetch is still owed, and caches the reflowed text once stored.
pub struct OpenedArticle {
    pub hit: Search,
    pub body: Option<String>,
    pub scroll_offset: usize,
}

/// Mathematical image of an opened article.
#[verifier::ext_equal]
pub ghost struct ArticleView {
    pub hit: HitView,
    pub body: Option<Seq<char>>,
    pub scroll_offset: int,
}

impl View for OpenedArticle {
    type V = ArticleView;

    open spec fn view(&self) -> ArticleView {
        ArticleView {
            hit: self.hit@,
            body: match self.body {
                Some(b) => Some(b@),
                None => None,
            },
            scroll_offset: self.scroll_offset as int,
        }
    }
}

/// The single mutable root of all UI state.
pub struct AppState {
    pub active_tab: Tab,
    pub input_mode: InputMode,
    pub search_query: Vec<char>,
    pub results: Vec<Search>,
    pub selected_index: Option<usize>,
    pub opened_article: Option<OpenedArticle>,
    pub last_error: Option<FetchError>,
}

/// Mathematical image of the whole UI state.
#[verifier::ext_equal]
pub ghost struct StateView {
    pub active_tab: Tab,
    pub input_mode: InputMode,
    pub search_query: Seq<char>,
    pub results: Seq<HitView>,
    pub selected_index: Option<int>,
    pub opened_article: Option<ArticleView>,
    pub last_error: Option<FetchError>,
}

impl View for AppState {
    type V = StateView;

    open spec fn view(&self) -> StateView {
        StateView {
            active_tab: self.active_tab,
            input_mode: self.input_mode,
            search_query: self.search_query@,
            results: hits_view(self.results@),
            selected_index: match self.selected_index {
                Some(i) => Some(i as int),
                None => None,
            },
            opened_article: match self.opened_article {
                Some(a) => Some(a@),
                None => None,
            },
            last_error: self.last_error,
        }
    }
}

impl StateView {
    /// Well-formedness: the selection exists exactly when there are results
    /// and stays inside them; an article is open exactly while Reading; the
    /// scroll offset never goes below zero.
    pub open spec fn wf(self) -> bool {
        &&& (self.selected_index is None <==> self.results.len() == 0)
        &&& (self.selected_index matches Some(i) ==> 0 <= i < self.results.len())
        &&& (self.input_mode == InputMode::Reading <==> self.opened_article is Some)
        &&& (self.opened_article matches Some(a) ==> a.scroll_offset >= 0)
    }
}

/// The state the client starts in: Home tab, Normal mode, nothing searched.
pub open spec fn init_state() -> StateView {
    StateView {
        active_tab: Tab::Home,
        input_mode: InputMode::Normal,
        search_query: Seq::empty(),
        results: Seq::empty(),
        selected_index: None,
        opened_article: None,
        last_error: None,
    }
}

/// The selection one step down, wrapping from the last index to the first.
pub open spec fn down_index(i: int, n: int) -> int {
    if i + 1 < n {
        i + 1
    } else {
        0
    }
}

/// The selection one step up, wrapping from the first index to the last.
pub open spec fn up_index(i: int, n: int) -> int {
    if i == 0 {
        n - 1
    } else {
        i - 1
    }
}

/// Transition while typing a search: characters extend the query, Backspace
/// shortens it, Enter asks the caller to run the search, Escape backs out
/// with the query kept.
pub open spec fn step_searching(v: StateView, k: Key) -> (StateView, Command) {
    match k {
        Key::Char(c) => (
            StateView { search_query: v.search_query.push(c), ..v },
            Command::Nothing,
        ),
        Key::Backspace => (
            StateView {
                search_query: if v.search_query.len() == 0 {
                    v.search_query
                } else {
                    v.search_query.drop_last()
                },
                ..v
            },
            Command::Nothing,
        ),
        Key::Enter => (v, Command::RunSearch),
        Key::Esc => (StateView { input_mode: InputMode::Normal, ..v }, Command::Nothing),
        _ => (v, Command::Nothing),
    }
}

/// Transition while reading an article: Escape closes it, Down and Up move
/// the scroll offset (floored at zero), `h` and `r` switch tabs.
pub open spec fn step_reading(v: StateView, k: Key) -> (StateView, Command) {
    match k {
        Key::Esc => (
            StateView { input_mode: InputMode::Normal, opened_article: None, ..v },
            Command::Nothing,
        ),
        Key::Down => (
            StateView {
                opened_article: match v.opened_article {
                    Some(a) => Some(
                        ArticleView {
                            scroll_offset: if a.scroll_offset < usize::MAX {
                                a.scroll_offset + 1
                            } else {
                                a.scroll_offset
                            },
                            ..a
                        },
                    ),
                    None => None,
                },
                ..v
            },
            Command::Nothing,
        ),
        Key::Up => (
            StateView {
                opened_article: match v.opened_article {
                    Some(a) => Some(
                        ArticleView {
                            scroll_offset: if a.scroll_offset > 0 {
                                a.scroll_offset - 1
                            } else {
                                0
                            },
                            ..a
                        },
                    ),
                    None => None,
                },
                ..v
            },
            Command::Nothing,
        ),
        Key::Char(c) => if c == 'h' {
            (StateView { active_tab: Tab::Home, ..v }, Command::Nothing)
        } else if c == 'r' {
            (StateView { active_tab: Tab::Results, ..v }, Command::Nothing)
        } else {
            (v, Command::Nothing)
        },
        _ => (v, Command::Nothing),
    }
}

/// Transition in Normal mode: `s` opens the search box, `q` quits, `h` and
/// `r` switch tabs; on the Results tab, Enter opens the selected hit and
/// Down/Up move the selection with wraparound, doing nothing when the
/// result list is empty.
pub open spec fn step_normal(v: StateView, k: Key) -> (StateView, Command) {
    match k {
        Key::Char(c) => if c == 's' {
            (StateView { input_mode: InputMode::Searching, ..v }, Command::Nothing)
        } else if c == 'q' {
            (v, Command::Quit)
        } else if c == 'h' {
            (StateView { active_tab: Tab::Home, ..v }, Command::Nothing)
        } else if c == 'r' {
            (StateView { active_tab: Tab::Results, ..v }, Command::Nothing)
        } else {
            (v, Command::Nothing)
        },
        Key::Enter => if v.active_tab == Tab::Results && (v.selected_index matches Some(i)
            && 0 <= i < v.results.len()) {
            (
                StateView {
                    input_mode: InputMode::Reading,
                    opened_article: Some(
                        ArticleView {
                            hit: v.results[v.selected_index->Some_0],
                            body: None,
                            scroll_offset: 0,
                        },
                    ),
                    ..v
                },
                Command::Nothing,
            )
        } else {
            (v, Command::Nothing)
        },
        Key::Down => if v.active_tab == Tab::Results && (v.selected_index matches Some(i)
            && 0 <= i < v.results.len()) {
            (
                StateView {
                    selected_index: Some(
                        down_index(v.selected_index->Some_0, v.results.len() as int),
                    ),
                    ..v
                },
                Command::Nothing,
            )
        } else {
            (v, Command::Nothing)
        },
        Key::Up => if v.active_tab == Tab::Results && (v.selected_index matches Some(i)
            && 0 <= i < v.results.len()) {
            (
                StateView {
                    selected_index: Some(
                        up_index(v.selected_index->Some_0, v.results.len() as int),
                    ),
                    ..v
                },
                Command::Nothing,
            )
        } else {
            (v, Command::Nothing)
        },
        _ => (v, Command::Nothing),
    }
}

/// The whole transition table: one pump message, interpreted according to
/// the current mode. A tick changes nothing; it only wakes the loop.
pub open spec fn step(v: StateView, e: Event) -> (StateView, Command) {
    match e {
        Event::Tick => (v, Command::Nothing),
        Event::Input(k) => match v.input_mode {
            InputMode::Searching => step_searching(v, k),
            InputMode::Reading => step_reading(v, k),
            InputMode::Normal => step_normal(v, k),
        },
    }
}

/// State after a completed search: the hits replace the result set
/// wholesale, the first hit is selected when there is one, and the client
/// lands in Normal mode on the Results tab.
pub open spec fn apply_ok(v: StateView, hits: Seq<HitView>) -> StateView {
    StateView {
        results: hits,
        selected_index: if hits.len() == 0 {
            None
        } else {
            Some(0)
        },
        input_mode: InputMode::Normal,
        active_tab: Tab::Results,
        last_error: None,
        ..v
    }
}

/// State after a failed search: the error is surfaced inline and the client
/// returns to Normal mode with everything else untouched.
pub open spec fn apply_err(v: StateView, e: FetchError) -> StateView {
    StateView { input_mode: InputMode::Normal, last_error: Some(e), ..v }
}

/// The page the renderer still owes a fetch: the opened article's id, for
/// exactly as long as its body is not yet cached.
pub open spec fn fetch_needed(v: StateView) -> Option<int> {
    match v.opened_article {
        Some(a) => if a.body is None {
            Some(a.hit.pageid)
        } else {
            None
        },
        None => None,
    }
}

/// State after the owed body arrived and was cached.
pub open spec fn with_body(v: StateView, b: Seq<char>) -> StateView {
    StateView {
        opened_article: match v.opened_article {
            Some(a) => Some(ArticleView { body: Some(b), ..a }),
            None => None,
        },
        ..v
    }
}

impl AppState {
    /// The startup state: Home tab, Normal mode, empty query and results.
    pub fn new() -> (s: AppState)
        ensures
            s@ == init_state(),
            s@.wf(),
    {
        let s = AppState {
            active_tab: Tab::Home,
            input_mode: InputMode::Normal,
            search_query: Vec::new(),
            results: Vec::new(),
            selected_index: None,
            opened_article: None,
            last_error: None,
        };
        proof {
            assert(s@ =~= init_state());
        }
        s
    }

    /// Interpret one pump message according to the current mode and return
    /// the outside work the caller owes; the new state is exactly what the
    /// transition table gives.
    pub fn update(&mut self, e: Event) -> (c: Command)
        requires
            old(self)@.wf(),
        ensures
            final(self)@ == step(old(self)@, e).0,
            c == step(old(self)@, e).1,
            final(self)@.wf(),
    {
        let ghost v0 = self@;
        let c = match e {
            Event::Tick => Command::Nothing,
            Event::Input(k) => match self.input_mode {
                InputMode::Searching => self.update_searching(k),
                InputMode::Reading => self.update_reading(k),
                InputMode::Normal => self.update_normal(k),
            },
        };
        proof {
            assert(self@ =~= step(v0, e).0);
        }
        c
    }

    fn update_searching(&mut self, k: Key) -> (c: Command)
        requires
            old(self)@.wf(),
            old(self)@.input_mode == InputMode::Searching,
        ensures
            final(self)@ == step_searching(old(self)@, k).0,
            c == step_searching(old(self)@, k).1,
            final(self)@.wf(),
    {
        let ghost v0 = self@;
        let c = match k {
            Key::Char(ch) => {
                self.search_query.push(ch);
                Command::Nothing
            },
            Key::Backspace => {
                if self.search_query.len() > 0 {
                    self.search_query.pop();
                }
                Command::Nothing
            },
            Key::Enter => Command::RunSearch,
            Key::Esc => {
                self.input_mode = InputMode::Normal;
                Command::Nothing
            },
            _ => Command::Nothing,
        };
        proof {
            assert(self@ =~= step_searching(v0, k).0);
        }
        c
    }

    fn update_reading(&mut self, k: Key) -> (c: Command)
        requires
            old(self)@.wf(),
            old(self)@.input_mode == InputMode::Reading,
        ensures
            final(self)@ == step_reading(old(self)@, k).0,
            c == step_reading(old(self)@, k).1,
            final(self)@.wf(),
    {
        let ghost v0 = self@;
        match k {
            Key::Esc => {
                self.input_mode = InputMode::Normal;
                self.opened_article = None;
            },
            Key::Down => {
                match &mut self.opened_article {
                    Some(a) => {
                        if a.scroll_offset < usize::MAX {
                            a.scroll_offset = a.scroll_offset + 1;
                        }
                    },
                    None => {},
                }
            },
            Key::Up => {
                match &mut self.opened_article {
                    Some(a) => {
                        if a.scroll_offset > 0 {
                            a.scroll_offset = a.scroll_offset - 1;
                        }
                    },
                    None => {},
                }
            },
            Key::Char(ch) => {
                if ch == 'h' {
                    self.active_tab = Tab::Home;
                } else if ch == 'r' {
                    self.active_tab = Tab::Results;
                }
            },
            _ => {},
        }
        proof {
            assert(self@ =~= step_reading(v0, k).0);
        }
        Command::Nothing
    }

    fn update_normal(&mut self, k: Key) -> (c: Command)
        requires
            old(self)@.wf(),
            old(self)@.input_mode == InputMode::Normal,
        ensures
            final(self)@ == step_normal(old(self)@, k).0,
            c == step_normal(old(self)@, k).1,
            final(self)@.wf(),
    {
        let ghost v0 = self@;
        let c = match k {
            Key::Char(ch) => {
                if ch == 's' {
                    self.input_mode = InputMode::Searching;
                    Command::Nothing
                } else if ch == 'q' {
                    Command::Quit
                } else if ch == 'h' {
                    self.active_tab = Tab::Home;
                    Command::Nothing
                } else if ch == 'r' {
                    self.active_tab = Tab::Results;
                    Command::Nothing
                } else {
                    Command::Nothing
                }
            },
            Key::Enter => {
                if self.active_tab == Tab::Results {
                    match self.selected_index {
                        Some(i) => {
                            if i < self.results.len() {
                                let hit = self.results[i].clone();
                                self.input_mode = InputMode::Reading;
                                self.opened_article = Some(
                                    OpenedArticle { hit, body: None, scroll_offset: 0 },
                                );
                            }
                        },
                        None => {},
                    }
                }
                Command::Nothing
            },
            Key::Down => {
                if self.active_tab == Tab::Results {
                    match self.selected_index {
                        Some(i) => {
                            if i < self.results.len() {
                                if i + 1 < self.results.len() {
                                    self.selected_index = Some(i + 1);
                                } else {
                                    self.selected_index = Some(0);
                                }
                            }
                        },
                        None => {},
                    }
                }
                Command::Nothing
            },
            Key::Up => {
                if self.active_tab == Tab::Results {
                    match self.selected_index {
                        Some(i) => {
                            if i < self.results.len() {
                                if i == 0 {
                                    self.selected_index = Some(self.results.len() - 1);
                                } else {
                                    self.selected_index = Some(i - 1);
                                }
                            }
                        },
                        None => {},
                    }
                }
                Command::Nothing
            },
            _ => Command::Nothing,
        };
        proof {
            assert(self@ =~= step_normal(v0, k).0);
        }
        c
    }

    /// Record the outcome of the search the caller ran after `update`
    /// returned `RunSearch`: hits replace the result set and land on the
    /// Results tab; a failure is kept as an inline message and the client
    /// returns to Normal mode unchanged otherwise.
    pub fn apply_search_outcome(&mut self, outcome: Result<SearchResponse, FetchError>)
        requires
            old(self)@.wf(),
            old(self)@.input_mode == InputMode::Searching,
        ensures
            (outcome matches Ok(r) ==> final(self)@ == apply_ok(
                old(self)@,
                hits_view(r.query.search@),
            )),
            (outcome matches Err(e) ==> final(self)@ == apply_err(old(self)@, e)),
            final(self)@.wf(),
            final(self)@.selected_index is None <==> final(self)@.results.len() == 0,
    {
        let ghost v0 = self@;
        match outcome {
            Ok(r) => {
                let has_hits = r.query.search.len() > 0;
                self.results = r.query.search;
                self.selected_index = if has_hits {
                    Some(0)
                } else {
                    None
                };
                self.input_mode = InputMode::Normal;
                self.active_tab = Tab::Results;
                self.last_error = None;
                proof {
                    assert(self@ =~= apply_ok(v0, self@.results));
                }
            },
            Err(e) => {
                self.input_mode = InputMode::Normal;
                self.last_error = Some(e);
                proof {
                    assert(self@ =~= apply_err(v0, e));
                }
            },
        }
    }

    /// The page id the renderer still has to fetch, if any: the opened
    /// article's id while its body is not yet cached.
    pub fn needs_fetch(&self) -> (r: Option<i64>)
        ensures
            r is Some <==> fetch_needed(self@) is Some,
            (r matches Some(pid) ==> fetch_needed(self@) == Some(pid as int)),
    {
        match &self.opened_article {
            Some(a) => match &a.body {
                Some(_) => None,
                None => Some(a.hit.pageid),
            },
            None => None,
        }
    }

    /// Cache the fetched, reflowed body of the opened article.
    pub fn store_body(&mut self, text: String)
        requires
            old(self)@.opened_article is Some,
        ensures
            final(self)@ == with_body(old(self)@, text@),
    {
        let ghost v0 = self@;
        match &mut self.opened_article {
            Some(a) => {
                a.body = Some(text);
            },
            None => {},
        }
        proof {
            assert(self@ =~= with_body(v0, self@.opened_article->Some_0.body->Some_0));
        }
    }
}

/// The state after `k` presses of `Down` in a row, starting from `v`.
pub open spec fn run_downs(v: StateView, k: nat) -> StateView
    decreases k,
{
    if k == 0 {
        v
    } else {
        step(run_downs(v, (k - 1) as nat), Event::Input(Key::Down)).0
    }
}

/// The state after `k` presses of `Up` in a row, starting from `v`.
pub open spec fn run_ups(v: StateView, k: nat) -> StateView
    decreases k,
{
    if k == 0 {
        v
    } else {
        step(run_ups(v, (k - 1) as nat), Event::Input(Key::Up)).0
    }
}

proof fn lemma_run_downs_selected(v: StateView, k: nat)
    requires
        v.wf(),
        v.input_mode == InputMode::Normal,
        v.active_tab == Tab::Results,
        v.results.len() > 0,
        k <= v.results.len(),
    ensures
        run_downs(v, k) == (StateView {
            selected_index: Some(
                if v.selected_index->Some_0 + k < v.results.len() {
                    v.selected_index->Some_0 + k
                } else {
                    v.selected_index->Some_0 + k - v.results.len()
                },
            ),
            ..v
        }),
    decreases k,
{
    let i = v.selected_index->Some_0;
    let n = v.results.len() as int;
    if k == 0 {
        assert(v.selected_index == Some(i));
        assert(run_downs(v, 0) =~= StateView { selected_index: Some(i), ..v });
    } else {
        lemma_run_downs_selected(v, (k - 1) as nat);
        let w = run_downs(v, (k - 1) as nat);
        let m = w.selected_index->Some_0;
        assert(0 <= m < n);
        assert(run_downs(v, k) == step(w, Event::Input(Key::Down)).0);
        assert(step(w, Event::Input(Key::Down)).0 =~= StateView {
            selected_index: Some(down_index(m, n)),
            ..v
        });
    }
}

proof fn lemma_run_ups_selected(v: StateView, k: nat)
    requires
        v.wf(),
        v.input_mode == InputMode::Normal,
        v.active_tab == Tab::Results,
        v.results.len() > 0,
        k <= v.results.len(),
    ensures
        run_ups(v, k) == (StateView {
            selected_index: Some(
                if v.selected_index->Some_0 - k >= 0 {
                    v.selected_index->Some_0 - k
                } else {
                    v.selected_index->Some_0 - k + v.results.len()
                },
            ),
            ..v
        }),
    decreases k,
{
    let i = v.selected_index->Some_0;
    let n = v.results.len() as int;
    if k == 0 {
        assert(v.selected_index == Some(i));
        assert(run_ups(v, 0) =~= StateView { selected_index: Some(i), ..v });
    } else {
        lemma_run_ups_selected(v, (k - 1) as nat);
        let w = run_ups(v, (k - 1) as nat);
        let m = w.selected_index->Some_0;
        assert(0 <= m < n);
        assert(run_ups(v, k) == step(w, Event::Input(Key::Up)).0);
        assert(step(w, Event::Input(Key::Up)).0 =~= StateView {
            selected_index: Some(up_index(m, n)),
            ..v
        });
    }
}

/// Wraparound law: with a non-empty result list of length `n`, pressing
/// `Down` exactly `n` times from any starting selection returns the whole
/// state, selection included, to where it started.
pub proof fn lemma_down_wraparound(v: StateView)
    requires
        v.wf(),
        v.input_mode == InputMode::Normal,
        v.active_tab == Tab::Results,
        v.results.len() > 0,
    ensures
        run_downs(v, v.results.len()) == v,
{
    lemma_run_downs_selected(v, v.results.len());
    assert(run_downs(v, v.results.len()) =~= v);
}

/// Wraparound law for `Up`: with a non-empty result list of length `n`,
/// pressing `Up` exactly `n` times returns the whole state to where it
/// started.
pub proof fn lemma_up_wraparound(v: StateView)
    requires
        v.wf(),
        v.input_mode == InputMode::Normal,
        v.active_tab == Tab::Results,
        v.results.len() > 0,
    ensures
        run_ups(v, v.results.len()) == v,
{
    lemma_run_ups_selected(v, v.results.len());
    assert(run_ups(v, v.results.len()) =~= v);
}

/// After every transition of the table the state stays well formed; in
/// particular the selection is `None` exactly when the result list is empty.
pub proof fn lemma_step_preserves_wf(v: StateView, e: Event)
    requires
        v.wf(),
    ensures
        step(v, e).0.wf(),
        step(v, e).0.selected_index is None <==> step(v, e).0.results.len() == 0,
{
}

/// Opening a hit for reading caches no body, so exactly one fetch is owed,
/// and for that hit's own page id; once the fetched body is stored, no
/// further fetch is owed for the same opened article.
pub proof fn lemma_fetch_exactly_once(v: StateView, b: Seq<char>)
    requires
        v.wf(),
        v.input_mode == InputMode::Normal,
        v.active_tab == Tab::Results,
        v.results.len() > 0,
    ensures
        step(v, Event::Input(Key::Enter)).0.opened_article == Some(
            ArticleView {
                hit: v.results[v.selected_index->Some_0],
                body: None,
                scroll_offset: 0,
            },
        ),
        fetch_needed(step(v, Event::Input(Key::Enter)).0) == Some(
            v.results[v.selected_index->Some_0].pageid,
        ),
        fetch_needed(with_body(step(v, Event::Input(Key::Enter)).0, b)) is None,
{
}

/// Escape while Reading clears the opened article entirely, whatever the
/// scroll offset was, and returns to Normal mode with everything else kept.
pub proof fn lemma_escape_clears_article(v: StateView)
    requires
        v.wf(),
        v.input_mode == InputMode::Reading,
    ensures
        step(v, Event::Input(Key::Esc)).0.opened_article is None,
        step(v, Event::Input(Key::Esc)).0.input_mode == InputMode::Normal,
        step(v, Event::Input(Key::Esc)).0.results == v.results,
        step(v, Event::Input(Key::Esc)).0.selected_index == v.selected_index,
        step(v, Event::Input(Key::Esc)).0.search_query == v.search_query,
{
}

} // verus!
