//! One query at a time, from the text that was entered to the results on
//! display. The caller embeds, compares and decodes; the session decides
//! what is asked for next, what is shown, and when the indicator ends.

use vstd::prelude::*;
use vstd::string::*;
use crate::query::{
    execute, is_plan, keep_decoded, kept, plan_query, ranks, result_views, scored_views, window,
    Comparison, QueryError, QueryPlan, RankedResult, SEARCH_RESULTS,
};
use crate::ui::list::SearchEnum;

verus! {

/// How far the query under way has come.
#[derive(Debug, Clone, Copy, PartialEq, Eq, Structural)]
pub enum Phase {
    /// No query is under way.
    Idle,
    /// The model embeds the query and compares it to the stored images.
    Embedding,
    /// The images of the best results are decoded.
    Decoding,
}

/// The engine's state between and during queries.
#[derive(Debug)]
pub struct Session {
    /// The mode of the next query.
    pub mode: SearchEnum,
    pub phase: Phase,
    /// The results of the last query that came to an end with a ranking.
    pub results: Vec<RankedResult>,
    /// The best results of the query under way, before they are decoded.
    pub window: Vec<RankedResult>,
}

/// The text of the notice for a failed embedding.
pub open spec fn failure_text(mode: SearchEnum, reason: Seq<char>) -> Seq<char> {
    if mode == SearchEnum::Ranking {
        "Failed to embed text"@
    } else {
        reason
    }
}

impl Session {
    /// The signal of the query was raised, or no query was made yet: the
    /// indicator has to end. It is raised exactly while no query is under
    /// way.
    pub open spec fn signal_raised(&self) -> bool {
        self.phase == Phase::Idle
    }

    /// A session with nothing to show.
    pub fn new(mode: SearchEnum) -> (session: Session)
        ensures
            session.mode == mode,
            session.phase == Phase::Idle,
            session.results@.len() == 0,
            session.window@.len() == 0,
    {
        Session { mode, phase: Phase::Idle, results: Vec::new(), window: Vec::new() }
    }

    /// Whether the indicator has to end.
    pub fn is_signal_raised(&self) -> (raised: bool)
        ensures
            raised == self.signal_raised(),
    {
        match self.phase {
            Phase::Idle => true,
            _ => false,
        }
    }

    /// Sets the mode of the next query. Results of another mode are
    /// discarded. While a query is under way nothing changes.
    pub fn set_mode(&mut self, mode: SearchEnum) -> (changed: bool)
        ensures
            changed == (old(self).phase == Phase::Idle && mode != old(self).mode),
            final(self).phase == old(self).phase,
            final(self).window == old(self).window,
            changed ==> final(self).mode == mode && final(self).results@.len() == 0,
            !changed ==> final(self).mode == old(self).mode && final(self).results == old(self).results,
    {
        if self.is_signal_raised() && mode != self.mode {
            self.mode = mode;
            self.results = Vec::new();
            true
        } else {
            false
        }
    }

    /// Begins a query. The results on display stay.
    ///
    /// An accepted query starts the indicator and returns what the model has
    /// to embed. A malformed query raises the signal at once. While another
    /// query is under way the new one is turned away and nothing changes.
    pub fn submit(&mut self, query: &str) -> (plan: Result<QueryPlan, QueryError>)
        ensures
            final(self).mode == old(self).mode,
            final(self).results == old(self).results,
            final(self).window == old(self).window,
            old(self).phase != Phase::Idle ==> (plan matches Err(QueryError::Busy)) && final(self).phase
                == old(self).phase,
            old(self).phase == Phase::Idle ==> is_plan(old(self).mode, query@, plan),
            old(self).phase == Phase::Idle && plan is Ok ==> final(self).phase == Phase::Embedding,
            old(self).phase == Phase::Idle && plan is Err ==> final(self).signal_raised(),
    {
        if !self.is_signal_raised() {
            return Err(QueryError::Busy);
        }
        let plan = plan_query(self.mode, query);
        if plan.is_ok() {
            self.phase = Phase::Embedding;
        }
        plan
    }

    /// The model could not embed the query. The signal is raised, the
    /// results on display stay, and the error for the notice is returned:
    /// the model's own words, or for `Ranking` a fixed text.
    ///
    /// Without a query that waits for its embedding nothing changes.
    pub fn embed_failed(&mut self, reason: &str) -> (notice: Option<QueryError>)
        ensures
            final(self).mode == old(self).mode,
            final(self).results == old(self).results,
            final(self).window == old(self).window,
            old(self).phase == Phase::Embedding ==> final(self).signal_raised() && (
            notice matches Some(QueryError::Embedding(text)) && text@ == failure_text(
                old(self).mode,
                reason@,
            )),
            old(self).phase != Phase::Embedding ==> final(self).phase == old(self).phase
                && notice is None,
    {
        match self.phase {
            Phase::Embedding => {
                self.phase = Phase::Idle;
                let text = match self.mode {
                    SearchEnum::Ranking => String::from_str("Failed to embed text"),
                    _ => String::from_str(reason),
                };
                Some(QueryError::Embedding(text))
            },
            _ => None,
        }
    }

    /// The query was compared to every stored image. The session keeps
    /// the first `SEARCH_RESULTS` places of the ranking for decoding; the
    /// results on display stay.
    ///
    /// Without a query that waits for its comparisons nothing changes.
    pub fn compared(&mut self, comparisons: &Vec<Comparison>) -> (accepted: bool)
        ensures
            accepted == (old(self).phase == Phase::Embedding),
            final(self).mode == old(self).mode,
            final(self).results == old(self).results,
            accepted ==> final(self).phase == Phase::Decoding && exists|
                ranking: Seq<(Seq<char>, int)>,
            |
                {
                    &&& ranks(
                        old(self).mode,
                        scored_views(old(self).mode, comparisons@),
                        ranking,
                    )
                    &&& result_views(final(self).window@) == ranking.take(
                        if ranking.len() <= SEARCH_RESULTS {
                            ranking.len() as int
                        } else {
                            SEARCH_RESULTS as int
                        },
                    )
                },
            !accepted ==> final(self).phase == old(self).phase && final(self).window == old(self).window,
    {
        match self.phase {
            Phase::Embedding => {
                let ranking = execute(self.mode, comparisons);
                let ghost full = result_views(ranking@);
                self.window = window(ranking, SEARCH_RESULTS);
                self.phase = Phase::Decoding;
                assert(ranks(old(self).mode, scored_views(old(self).mode, comparisons@), full));
                true
            },
            _ => false,
        }
    }

    /// The images of the window were decoded, `decoded[i]` telling whether
    /// the image of its place `i` could be. The results that could be
    /// decoded take the place of those on display, and the signal is raised.
    ///
    /// Without a query that waits for its images nothing changes.
    pub fn finish(&mut self, decoded: &Vec<bool>) -> (accepted: bool)
        ensures
            accepted == (old(self).phase == Phase::Decoding),
            final(self).mode == old(self).mode,
            accepted ==> final(self).signal_raised() && final(self).window@.len() == 0
                && result_views(final(self).results@) == kept(
                result_views(old(self).window@),
                decoded@,
            ),
            !accepted ==> final(self).phase == old(self).phase && final(self).window == old(self).window && final(self).results == old(self).results,
    {
        match self.phase {
            Phase::Decoding => {
                self.results = keep_decoded(&self.window, decoded);
                self.window = Vec::new();
                self.phase = Phase::Idle;
                true
            },
            _ => false,
        }
    }
}

} // verus!
