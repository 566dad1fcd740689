//! The paradigm tab: the 24 declined forms of a stem.
use vstd::prelude::*;
use crate::rule_cache::RuleCache;
use crate::service::{ParadigmCell, case_code, declension_cell_is, number_code, paradigm_cells};

verus! {

/// The tab's state: the stem and its type, the cells, the selected cell, the
/// last error, and whether a paradigm is being computed.
pub struct State {
    pub stem: String,
    pub stem_type: Option<String>,
    pub cells: Vec<ParadigmCell>,
    pub selected_cell: Option<usize>,
    pub error: Option<String>,
    pub computing: bool,
}

/// The events of the tab.
pub enum Message {
    StemChanged(String),
    StemTypeSelected(String),
    Generate,
    ResultReady(Result<Vec<ParadigmCell>, String>),
    SelectCell(usize),
    CloseTrace,
}

/// The work an event asks for.
pub enum Action {
    Nothing,
    Generate { stem: String, stem_type: String },
}

impl State {
    /// Everything empty.
    pub fn new() -> (r: State)
        ensures
            r.stem@.len() == 0,
            r.stem_type is None,
            r.cells@.len() == 0,
            r.selected_cell is None && r.error is None && !r.computing,
    {
        State {
            stem: String::new(),
            stem_type: None,
            cells: Vec::new(),
            selected_cell: None,
            error: None,
            computing: false,
        }
    }
}

/// The state after an event, and the work it asks for: generating starts
/// (clearing the selection) when a stem and a stem type are given.
pub open spec fn step(s: State, msg: Message) -> (State, Action) {
    match msg {
        Message::StemChanged(v) => (State { stem: v, ..s }, Action::Nothing),
        Message::StemTypeSelected(v) => (State { stem_type: Some(v), ..s }, Action::Nothing),
        Message::Generate => match s.stem_type {
            Some(t) => if s.stem@.len() == 0 {
                (s, Action::Nothing)
            } else {
                (
                    State { computing: true, selected_cell: None, ..s },
                    Action::Generate { stem: s.stem, stem_type: t },
                )
            },
            None => (s, Action::Nothing),
        },
        Message::ResultReady(Ok(cells)) => (State { computing: false, cells, error: None, ..s }, Action::Nothing),
        Message::ResultReady(Err(e)) => (State { computing: false, error: Some(e), ..s }, Action::Nothing),
        Message::SelectCell(i) => (State { selected_cell: Some(i), ..s }, Action::Nothing),
        Message::CloseTrace => (State { selected_cell: None, ..s }, Action::Nothing),
    }
}

/// Takes an event in; returns the work it asks for.
pub fn update(state: &mut State, msg: Message) -> (r: Action)
    ensures
        (*final(state), r) == step(*old(state), msg),
{
    match msg {
        Message::StemChanged(v) => {
            state.stem = v;
            Action::Nothing
        },
        Message::StemTypeSelected(v) => {
            state.stem_type = Some(v);
            Action::Nothing
        },
        Message::Generate => {
            let stem_type = match &state.stem_type {
                Some(t) => t.clone(),
                None => {
                    return Action::Nothing;
                },
            };
            if state.stem.unicode_len() == 0 {
                return Action::Nothing;
            }
            state.computing = true;
            state.selected_cell = None;
            Action::Generate { stem: state.stem.clone(), stem_type }
        },
        Message::ResultReady(result) => {
            state.computing = false;
            match result {
                Ok(cells) => {
                    state.cells = cells;
                    state.error = None;
                },
                Err(e) => {
                    state.error = Some(e);
                },
            }
            Action::Nothing
        },
        Message::SelectCell(i) => {
            state.selected_cell = Some(i);
            Action::Nothing
        },
        Message::CloseTrace => {
            state.selected_cell = None;
            Action::Nothing
        },
    }
}

/// The paradigm of a stem: the 24 cells, case by case in the three numbers.
pub fn generate_paradigm(cache: &RuleCache, stem: &str, stem_type: &str) -> (r: Result<Vec<ParadigmCell>, String>)
    ensures
        r matches Ok(cells) && cells@.len() == 24 && forall|k: int|
            0 <= k < 24 ==> declension_cell_is(
                #[trigger] cells@[k],
                *cache,
                stem@,
                stem_type@,
                case_code(k / 3),
                number_code(k % 3),
            ),
{
    Ok(paradigm_cells(cache, stem, stem_type))
}

} // verus!
