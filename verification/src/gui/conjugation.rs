//! The conjugation tab: the nine present-tense (laṭ, parasmaipada) forms of a root.
use vstd::prelude::*;
use crate::conjugation::{ConjugationInput, Conjugated, conjugate, lakara_type_of, no_tin_message,
    no_vik_message, try_derive_conjugation};
use crate::engine::{Derived, numbered, step_views};
use crate::rule_cache::RuleCache;
use crate::service::{ParadigmCell, rules_of};
use crate::text::owned;

verus! {

/// The tab's state: the root and its class, the cells, the selected cell, the
/// last error, and whether a paradigm is being computed.
pub struct State {
    pub dhatu: String,
    pub gana: Option<String>,
    pub cells: Vec<ParadigmCell>,
    pub selected_cell: Option<usize>,
    pub error: Option<String>,
    pub computing: bool,
}

/// The events of the tab.
pub enum Message {
    DhatuChanged(String),
    GanaSelected(String),
    Generate,
    ResultReady(Result<Vec<ParadigmCell>, String>),
    SelectCell(usize),
    CloseTrace,
}

/// The work an event asks for.
pub enum Action {
    Nothing,
    Generate { dhatu: String, gana: String },
}

impl State {
    /// Everything empty.
    pub fn new() -> (r: State)
        ensures
            r.dhatu@.len() == 0,
            r.gana is None,
            r.cells@.len() == 0,
            r.selected_cell is None && r.error is None && !r.computing,
    {
        State {
            dhatu: String::new(),
            gana: None,
            cells: Vec::new(),
            selected_cell: None,
            error: None,
            computing: false,
        }
    }
}

/// The state after an event, and the work it asks for: generating starts
/// (clearing the selection) when a root and a class are given.
pub open spec fn step(s: State, msg: Message) -> (State, Action) {
    match msg {
        Message::DhatuChanged(v) => (State { dhatu: v, ..s }, Action::Nothing),
        Message::GanaSelected(v) => (State { gana: Some(v), ..s }, Action::Nothing),
        Message::Generate => match s.gana {
            Some(g) => if s.dhatu@.len() == 0 {
                (s, Action::Nothing)
            } else {
                (
                    State { computing: true, selected_cell: None, ..s },
                    Action::Generate { dhatu: s.dhatu, gana: g },
                )
            },
            None => (s, Action::Nothing),
        },
        Message::ResultReady(Ok(cells)) => (State { computing: false, cells, error: None, ..s }, Action::Nothing),
        Message::ResultReady(Err(e)) => (State { computing: false, error: Some(e), ..s }, Action::Nothing),
        Message::SelectCell(i) => (State { selected_cell: Some(i), ..s }, Action::Nothing),
        Message::CloseTrace => (State { selected_cell: None, ..s }, Action::Nothing),
    }
}

/// Takes an event in; returns the work it asks for.
pub fn update(state: &mut State, msg: Message) -> (r: Action)
    ensures
        (*final(state), r) == step(*old(state), msg),
{
    match msg {
        Message::DhatuChanged(v) => {
            state.dhatu = v;
            Action::Nothing
        },
        Message::GanaSelected(v) => {
            state.gana = Some(v);
            Action::Nothing
        },
        Message::Generate => {
            let gana = match &state.gana {
                Some(g) => g.clone(),
                None => {
                    return Action::Nothing;
                },
            };
            if state.dhatu.unicode_len() == 0 {
                return Action::Nothing;
            }
            state.computing = true;
            state.selected_cell = None;
            Action::Generate { dhatu: state.dhatu.clone(), gana }
        },
        Message::ResultReady(result) => {
            state.computing = false;
            match result {
                Ok(cells) => {
                    state.cells = cells;
                    state.error = None;
                },
                Err(e) => {
                    state.error = Some(e);
                },
            }
            Action::Nothing
        },
        Message::SelectCell(i) => {
            state.selected_cell = Some(i);
            Action::Nothing
        },
        Message::CloseTrace => {
            state.selected_cell = None;
            Action::Nothing
        },
    }
}

/// The persons, in order: prathama, madhyama, uttama.
pub open spec fn purusha_code(k: int) -> Seq<char> {
    if k == 0 {
        "prathama"@
    } else if k == 1 {
        "madhyama"@
    } else {
        "uttama"@
    }
}

/// The numbers, in order: ekavacana, dvivacana, bahuvacana.
pub open spec fn vacana_code(k: int) -> Seq<char> {
    if k == 0 {
        "ekavacana"@
    } else if k == 1 {
        "dvivacana"@
    } else {
        "bahuvacana"@
    }
}

/// The conjugation behind cell `k`: person k / 3, number k % 3, laṭ, parasmaipada.
pub open spec fn cell_conjugation(c: RuleCache, dhatu: Seq<char>, gana: Seq<char>, k: int) -> Conjugated {
    conjugate(
        rules_of(c, "tin_suffix"@),
        rules_of(c, "vikarana_rule"@),
        rules_of(c, "verb_anga_rule"@),
        rules_of(c, "tripadi_rule"@),
        dhatu,
        gana,
        "laṭ"@,
        "parasmaipada"@,
        purusha_code(k / 3),
        vacana_code(k % 3),
    )
}

/// Cell `k` of a root's present paradigm: its person and number, and the form
/// with its numbered trace, or the text of the error.
pub open spec fn conjugation_cell_is(cell: ParadigmCell, c: RuleCache, dhatu: Seq<char>, gana: Seq<char>, k: int) -> bool {
    let pu = purusha_code(k / 3);
    let va = vacana_code(k % 3);
    &&& cell.case@ == pu
    &&& cell.number@ == va
    &&& match cell_conjugation(c, dhatu, gana, k) {
        Conjugated::NoTin => {
            &&& cell.form is None
            &&& cell.trace is None
            &&& cell.error matches Some(m) && m@ == "failed to parse rule: "@ + no_tin_message(
                "laṭ"@,
                pu,
                va,
                "parasmaipada"@,
            )
        },
        Conjugated::NoVikarana => {
            &&& cell.form is None
            &&& cell.trace is None
            &&& cell.error matches Some(m) && m@ == "failed to parse rule: "@ + no_vik_message(
                gana,
                lakara_type_of("laṭ"@),
            )
        },
        Conjugated::Form(f, st) => {
            &&& cell.form matches Some(x) && x@ == f
            &&& cell.trace matches Some(t) && numbered(t@) && step_views(t@) == st
            &&& cell.error is None
        },
        Conjugated::Fault => false,
    }
}

/// The person of cell row `k`.
fn purusha_text(k: usize) -> (r: &'static str)
    ensures
        r@ == purusha_code(k as int),
{
    if k == 0 {
        "prathama"
    } else if k == 1 {
        "madhyama"
    } else {
        "uttama"
    }
}

/// The number of cell column `k`.
fn vacana_text(k: usize) -> (r: &'static str)
    ensures
        r@ == vacana_code(k as int),
{
    if k == 0 {
        "ekavacana"
    } else if k == 1 {
        "dvivacana"
    } else {
        "bahuvacana"
    }
}

/// Cell `k` of a root's present paradigm; none where its derivation would cut a
/// stem inside a character.
fn conjugation_cell(cache: &RuleCache, dhatu: &str, gana: &str, k: usize) -> (r: Option<ParadigmCell>)
    requires
        k < 9,
    ensures
        r is None <==> cell_conjugation(*cache, dhatu@, gana@, k as int) is Fault,
        r matches Some(cell) ==> conjugation_cell_is(cell, *cache, dhatu@, gana@, k as int),
{
    let purusha = purusha_text(k / 3);
    let vacana = vacana_text(k % 3);
    let input = ConjugationInput {
        dhatu: owned(dhatu),
        gana: owned(gana),
        lakara: owned("laṭ"),
        pada: owned("parasmaipada"),
        purusha: owned(purusha),
        vacana: owned(vacana),
    };
    match try_derive_conjugation(
        cache.get_rules("tin_suffix"),
        cache.get_rules("vikarana_rule"),
        cache.get_rules("verb_anga_rule"),
        cache.get_rules("tripadi_rule"),
        input,
    ) {
        None => None,
        Some(Ok(result)) => {
            let form = match result.output {
                Derived::Conjugation { form, .. } => Some(form),
                _ => None,
            };
            Some(
                ParadigmCell {
                    case: owned(purusha),
                    number: owned(vacana),
                    form,
                    trace: Some(result.trace),
                    error: None,
                },
            )
        },
        Some(Err(e)) => Some(
            ParadigmCell {
                case: owned(purusha),
                number: owned(vacana),
                form: None,
                trace: None,
                error: Some(e.message()),
            },
        ),
    }
}

/// The present paradigm of a root: nine cells, person by person in the three
/// numbers; none exactly when some cell's derivation would cut a stem inside a
/// character.
pub fn generate_conjugation_paradigm(cache: &RuleCache, dhatu: &str, gana: &str) -> (r: Option<Result<Vec<ParadigmCell>, String>>)
    ensures
        r is None <==> exists|k: int| 0 <= k < 9 && #[trigger] cell_conjugation(*cache, dhatu@, gana@, k) is Fault,
        r is Some ==> (r matches Some(Ok(cells)) && cells@.len() == 9 && forall|k: int|
            0 <= k < 9 ==> conjugation_cell_is(#[trigger] cells@[k], *cache, dhatu@, gana@, k)),
{
    let mut cells: Vec<ParadigmCell> = Vec::new();
    let mut k: usize = 0;
    while k < 9
        invariant
            k <= 9,
            cells@.len() == k,
            forall|j: int| 0 <= j < k ==> conjugation_cell_is(#[trigger] cells@[j], *cache, dhatu@, gana@, j),
            forall|j: int| 0 <= j < k ==> !(#[trigger] cell_conjugation(*cache, dhatu@, gana@, j) is Fault),
        decreases 9 - k,
    {
        match conjugation_cell(cache, dhatu, gana, k) {
            Some(cell) => {
                cells.push(cell);
            },
            None => {
                return None;
            },
        }
        k += 1;
    }
    Some(Ok(cells))
}

} // verus!
