//! The sandhi tab: joining two words, or splitting a form.
use vstd::prelude::*;
use crate::engine::{AnalyzeCandidate, Derived, TraceStep};
use crate::rule_cache::RuleCache;
use crate::sandhi::{SandhiInput, analyze_sandhi, derive_sandhi, joined_text, ranked_splits, split_views};
use crate::service::rules_of;

verus! {

/// Which way the tab works: joining words, or splitting a form.
#[derive(PartialEq, Eq, Structural, Clone, Copy)]
pub enum Mode {
    Forward,
    Reverse,
}

/// The joined form.
pub struct JoinResult {
    pub form: String,
}

/// The tab's state: the mode, the two words and their join, the form and its
/// splits, and the last error.
pub struct State {
    pub mode: Mode,
    pub first: String,
    pub second: String,
    pub join_result: Option<JoinResult>,
    pub join_trace: Option<Vec<TraceStep>>,
    pub show_trace: bool,
    pub form: String,
    pub candidates: Vec<AnalyzeCandidate>,
    pub error: Option<String>,
}

/// The events of the tab.
pub enum Message {
    SetMode(Mode),
    FirstChanged(String),
    SecondChanged(String),
    FormChanged(String),
    Join,
    Analyze,
    JoinDone(Result<(JoinResult, Vec<TraceStep>), String>),
    AnalyzeDone(Result<Vec<AnalyzeCandidate>, String>),
    ToggleTrace,
}

/// The work an event asks for.
pub enum Action {
    Nothing,
    Join { first: String, second: String },
    Analyze { form: String },
}

impl State {
    /// Forward mode, everything empty.
    pub fn new() -> (r: State)
        ensures
            r.mode == Mode::Forward,
            r.first@.len() == 0 && r.second@.len() == 0 && r.form@.len() == 0,
            r.join_result is None && r.join_trace is None && !r.show_trace,
            r.candidates@.len() == 0 && r.error is None,
    {
        State {
            mode: Mode::Forward,
            first: String::new(),
            second: String::new(),
            join_result: None,
            join_trace: None,
            show_trace: false,
            form: String::new(),
            candidates: Vec::new(),
            error: None,
        }
    }
}

/// The state after an event, and the work it asks for: a join when both words
/// are given, an analysis when the form is given; results and errors are
/// taken in.
pub open spec fn step(s: State, msg: Message) -> (State, Action) {
    match msg {
        Message::SetMode(m) => (State { mode: m, error: None, ..s }, Action::Nothing),
        Message::FirstChanged(v) => (State { first: v, ..s }, Action::Nothing),
        Message::SecondChanged(v) => (State { second: v, ..s }, Action::Nothing),
        Message::FormChanged(v) => (State { form: v, ..s }, Action::Nothing),
        Message::Join => if s.first@.len() == 0 || s.second@.len() == 0 {
            (s, Action::Nothing)
        } else {
            (s, Action::Join { first: s.first, second: s.second })
        },
        Message::Analyze => if s.form@.len() == 0 {
            (s, Action::Nothing)
        } else {
            (s, Action::Analyze { form: s.form })
        },
        Message::JoinDone(Ok((jr, trace))) => (
            State { join_result: Some(jr), join_trace: Some(trace), error: None, ..s },
            Action::Nothing,
        ),
        Message::JoinDone(Err(e)) => (State { error: Some(e), ..s }, Action::Nothing),
        Message::AnalyzeDone(Ok(c)) => (State { candidates: c, error: None, ..s }, Action::Nothing),
        Message::AnalyzeDone(Err(e)) => (State { error: Some(e), ..s }, Action::Nothing),
        Message::ToggleTrace => (State { show_trace: !s.show_trace, ..s }, Action::Nothing),
    }
}

/// Takes an event in; returns the work it asks for.
pub fn update(state: &mut State, msg: Message) -> (r: Action)
    ensures
        (*final(state), r) == step(*old(state), msg),
{
    match msg {
        Message::SetMode(m) => {
            state.mode = m;
            state.error = None;
            Action::Nothing
        },
        Message::FirstChanged(v) => {
            state.first = v;
            Action::Nothing
        },
        Message::SecondChanged(v) => {
            state.second = v;
            Action::Nothing
        },
        Message::FormChanged(v) => {
            state.form = v;
            Action::Nothing
        },
        Message::Join => {
            if state.first.unicode_len() == 0 || state.second.unicode_len() == 0 {
                return Action::Nothing;
            }
            Action::Join { first: state.first.clone(), second: state.second.clone() }
        },
        Message::Analyze => {
            if state.form.unicode_len() == 0 {
                return Action::Nothing;
            }
            Action::Analyze { form: state.form.clone() }
        },
        Message::JoinDone(result) => {
            match result {
                Ok((jr, trace)) => {
                    state.join_result = Some(jr);
                    state.join_trace = Some(trace);
                    state.error = None;
                },
                Err(e) => {
                    state.error = Some(e);
                },
            }
            Action::Nothing
        },
        Message::AnalyzeDone(result) => {
            match result {
                Ok(candidates) => {
                    state.candidates = candidates;
                    state.error = None;
                },
                Err(e) => {
                    state.error = Some(e);
                },
            }
            Action::Nothing
        },
        Message::ToggleTrace => {
            state.show_trace = !state.show_trace;
            Action::Nothing
        },
    }
}

/// Joins two words with the cached sandhi rules: the joined form and the trace.
pub fn join_words(cache: &RuleCache, first: String, second: String) -> (r: Result<(JoinResult, Vec<TraceStep>), String>)
    ensures
        r matches Ok((jr, trace)) && jr.form@ == joined_text(rules_of(*cache, "sandhi_rule"@), first@, second@)
            && crate::sandhi::sandhi_trace_is(trace@, rules_of(*cache, "sandhi_rule"@), first@, second@),
{
    let rules = cache.get_rules("sandhi_rule");
    match derive_sandhi(rules, SandhiInput { first, second }) {
        Ok(result) => {
            let form = match result.output {
                Derived::Sandhi { result, .. } => result,
                _ => String::new(),
            };
            Ok((JoinResult { form }, result.trace))
        },
        Err(e) => Err(e.message()),
    }
}

/// Splits a form with the cached sandhi rules: the ranked candidates.
pub fn analyze_form(cache: &RuleCache, form: &str) -> (r: Result<Vec<AnalyzeCandidate>, String>)
    ensures
        r matches Ok(c) && split_views(c@) == ranked_splits(rules_of(*cache, "sandhi_rule"@), form@),
{
    let rules = cache.get_rules("sandhi_rule");
    match analyze_sandhi(rules, form) {
        Ok(result) => Ok(result.candidates),
        Err(e) => Err(e.message()),
    }
}

} // verus!
