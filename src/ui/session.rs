//! The decisions of the search overlay: what each key does to the query,
//! the result list and the selection, and what the interface does next.

use vstd::prelude::*;
use vstd::utf8::*;
use crate::search::engine::SearchEngine;
use crate::search::error::SearchError;
use crate::search::scanner::{SearchResult, SearchResultView, result_views};
use crate::ui::input::{Key, KeyStroke, chars_of, text_of};

verus! {

/// What the interface does after a key.
#[derive(Debug, Clone, Copy, PartialEq, Eq)]
pub enum SessionStep {
    /// Draw again; nothing else changed outside the session.
    Redraw,
    /// The query changed and is not empty: fetch the buffer and search it.
    Search,
    /// Jump to this line of the terminal, then leave.
    JumpTo(u64),
    /// Leave without jumping.
    Exit,
}

/// The state of one overlay session: the query typed so far, the results
/// of the last search and the selected result.
pub struct SearchSession {
    query: Vec<char>,
    results: Vec<SearchResult>,
    selected_index: usize,
}

impl SearchSession {
    pub closed spec fn query_chars(&self) -> Seq<char> {
        self.query@
    }

    pub closed spec fn shown(&self) -> Seq<SearchResultView> {
        result_views(self.results@)
    }

    pub closed spec fn selected(&self) -> nat {
        self.selected_index as nat
    }

    pub fn new() -> (r: SearchSession)
        ensures
            r.query_chars() == Seq::<char>::empty(),
            r.shown() == Seq::<SearchResultView>::empty(),
            r.selected() == 0,
    {
        let results: Vec<SearchResult> = Vec::new();
        assert(result_views(results@) =~= Seq::<SearchResultView>::empty());
        SearchSession { query: Vec::new(), results, selected_index: 0 }
    }

    /// Starts from a given query; nothing is searched yet.
    pub fn set_initial_query(&mut self, query: &str)
        ensures
            final(self).query_chars() == query@,
            final(self).shown() == old(self).shown(),
            final(self).selected() == old(self).selected(),
    {
        self.query = chars_of(query);
    }

    /// The query typed so far.
    pub fn query(&self) -> (r: String)
        ensures
            r@ == self.query_chars(),
    {
        text_of(&self.query)
    }

    /// The results of the last search.
    pub fn results(&self) -> (r: &Vec<SearchResult>)
        ensures
            result_views(r@) == self.shown(),
    {
        &self.results
    }

    pub fn selected_index(&self) -> (r: usize)
        ensures
            r == self.selected(),
    {
        self.selected_index
    }

    /// Handles one key. Esc leaves; Enter jumps to the selected result's
    /// line, or leaves when there is none; Up and Down move the selection
    /// within the results; a character is appended to the query and
    /// Backspace drops the last one, after which a non-empty query is
    /// searched again and an empty one clears the results.
    pub fn on_key(&mut self, stroke: KeyStroke) -> (r: SessionStep)
        requires
            old(self).query_chars().len() < usize::MAX,
        ensures
            ({
                let q = old(self).query_chars();
                let shown = old(self).shown();
                let sel = old(self).selected();
                let (nq, nshown, nsel, step) = if !stroke.pressed {
                    (q, shown, sel, SessionStep::Redraw)
                } else {
                    match stroke.key {
                        Key::Esc => (q, shown, sel, SessionStep::Exit),
                        Key::Enter => (q, shown, sel, if sel < shown.len() {
                            SessionStep::JumpTo(shown[sel as int].line_number as u64)
                        } else {
                            SessionStep::Exit
                        }),
                        Key::Up => (q, shown, if sel > 0 {
                            (sel - 1) as nat
                        } else {
                            sel
                        }, SessionStep::Redraw),
                        Key::Down => (q, shown, if sel + 1 < shown.len() {
                            sel + 1
                        } else {
                            sel
                        }, SessionStep::Redraw),
                        Key::Char(c) => (q.push(c), shown, sel, SessionStep::Search),
                        Key::Backspace => {
                            let left = if q.len() > 0 {
                                q.drop_last()
                            } else {
                                q
                            };
                            if left.len() > 0 {
                                (left, shown, sel, SessionStep::Search)
                            } else {
                                (left, Seq::<SearchResultView>::empty(), 0nat, SessionStep::Redraw)
                            }
                        },
                        _ => (q, shown, sel, SessionStep::Redraw),
                    }
                };
                &&& final(self).query_chars() == nq
                &&& final(self).shown() == nshown
                &&& final(self).selected() == nsel
                &&& r == step
            }),
            old(self).selected() == 0 || old(self).selected() < old(self).shown().len()
                ==> final(self).selected() == 0 || final(self).selected() < final(
                self).shown().len(),
    {
        if !stroke.pressed {
            return SessionStep::Redraw;
        }
        match stroke.key {
            Key::Esc => SessionStep::Exit,
            Key::Enter => {
                if self.selected_index < self.results.len() {
                    SessionStep::JumpTo(self.results[self.selected_index].line_number)
                } else {
                    SessionStep::Exit
                }
            },
            Key::Up => {
                if self.selected_index > 0 {
                    self.selected_index = self.selected_index - 1;
                }
                SessionStep::Redraw
            },
            Key::Down => {
                if self.selected_index < self.results.len() && self.selected_index + 1
                    < self.results.len() {
                    self.selected_index = self.selected_index + 1;
                }
                SessionStep::Redraw
            },
            Key::Char(c) => {
                self.query.push(c);
                SessionStep::Search
            },
            Key::Backspace => {
                self.query.pop();
                if self.query.len() == 0 {
                    self.results = Vec::new();
                    self.selected_index = 0;
                    assert(result_views(self.results@) =~= Seq::<SearchResultView>::empty());
                    SessionStep::Redraw
                } else {
                    SessionStep::Search
                }
            },
            _ => SessionStep::Redraw,
        }
    }

    /// Searches `buffer` for the query with `engine` and shows what was
    /// found, with the first result selected; on an error nothing changes.
    pub fn show_search(&mut self, engine: &mut SearchEngine, buffer: &str) -> (r: Result<
        (),
        SearchError,
    >)
        ensures
            final(self).query_chars() == old(self).query_chars(),
            final(engine).is_case_sensitive() == old(engine).is_case_sensitive(),
            final(engine).is_regex_enabled() == old(engine).is_regex_enabled(),
            r is Ok <==> old(engine).outcome(old(self).query_chars(), encode_utf8(buffer@)) is Some,
            r is Ok ==> Some(final(self).shown()) == old(engine).outcome(
                old(self).query_chars(),
                encode_utf8(buffer@),
            ) && final(self).selected() == 0,
            r is Err ==> final(self).shown() == old(self).shown() && final(self).selected() == old(
                self,
            ).selected(),
    {
        let query = text_of(&self.query);
        let found = engine.search_text(buffer, query.as_str())?;
        self.results = found;
        self.selected_index = 0;
        Ok(())
    }
}

} // verus!
