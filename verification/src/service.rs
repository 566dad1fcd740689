//! The requests the engine serves (health, derivation, analysis, paradigms,
//! the sūtra index), as the HTTP and tool front ends put them, from decoded
//! arguments to replies.
use vstd::prelude::*;
use crate::declension::{DeclensionInput, analyze_declension, declension_candidates, declension_result_is,
    decl_views, derive_declension};
use crate::engine::{AnalyzeCandidate, DeclensionCandidate, DeriveResult, Derived, TraceStep};
use crate::error::PaniniError;
use crate::params::{Params, fields_of, get_text, rule_fields, text_of};
use crate::rule_cache::{RuleCache, lookup};
use crate::sandhi::{SandhiInput, analyze_sandhi, derive_sandhi, ranked_splits, sandhi_derived, split_views};
use crate::shapes::{check_declension_input_shape, check_sandhi_input_shape, declension_input_error,
    declension_input_shape, sandhi_input_error, sandhi_input_shape};
use crate::text::{owned, text_eq};
use crate::engine::{first_flag, first_index, is_first, opt_view, somes};
use crate::params::{CachedRule, rule_get_opt_text, rule_opt_text};
use crate::rule_cache::Entry;
use crate::sorted::{insert_text_sorted, sorted_distinct, texts};

verus! {

broadcast use vstd::seq::Seq::group_seq_flatten;

/// Arguments of a health check (none).
pub struct HealthArgs {}

/// The engine's status: its version and how many rules it holds.
pub struct HealthOutput {
    pub status: &'static str,
    pub version: &'static str,
    pub rule_templates: usize,
    pub total_rules: usize,
    pub sandhi_rules: usize,
}

/// Arguments of a derivation: domain, operation, and the operation's input object.
pub struct DeriveArgs {
    pub domain: String,
    pub operation: String,
    pub input: Params,
}

/// A derivation reply: the request echoed, the result and its trace.
pub struct DeriveOutput {
    pub domain: String,
    pub operation: String,
    pub input: Params,
    pub result: Derived,
    pub trace: Vec<TraceStep>,
}

/// Arguments of an analysis: domain, operation, and the surface form.
pub struct AnalyzeArgs {
    pub domain: String,
    pub operation: String,
    pub form: String,
}

/// A sandhi analysis reply: the request echoed and the candidate splits.
pub struct AnalyzeOutput {
    pub domain: String,
    pub operation: String,
    pub form: String,
    pub candidates: Vec<AnalyzeCandidate>,
}

/// A declension analysis reply: the request echoed and the candidate declensions.
pub struct DeclensionAnalyzeOutput {
    pub domain: String,
    pub operation: String,
    pub form: String,
    pub candidates: Vec<DeclensionCandidate>,
}

/// The reply to an analysis, by operation.
pub enum AnalyzeReply {
    Sandhi(AnalyzeOutput),
    Declension(DeclensionAnalyzeOutput),
}

/// Arguments of a paradigm: domain, stem and stem type.
pub struct ParadigmArgs {
    pub domain: String,
    pub stem: String,
    pub stem_type: String,
}

/// One cell of a paradigm: its case (or person) and number, and the form with
/// its trace, or the error.
pub struct ParadigmCell {
    pub case: String,
    pub number: String,
    pub form: Option<String>,
    pub trace: Option<Vec<TraceStep>>,
    pub error: Option<String>,
}

/// A paradigm reply: the request echoed and the cells.
pub struct ParadigmOutput {
    pub domain: String,
    pub stem: String,
    pub stem_type: String,
    pub cells: Vec<ParadigmCell>,
}

/// A sūtra, the statement of the first rule citing it, and the templates whose
/// rules cite it.
pub struct SutraEntry {
    pub sutra: String,
    pub statement: String,
    pub templates: Vec<String>,
}

/// The rules of a template in the cache (none when it is not loaded).
pub open spec fn rules_of(c: RuleCache, slug: Seq<char>) -> Seq<crate::params::CachedRule> {
    match lookup(c.entries(), slug) {
        Some(rs) => rs,
        None => Seq::empty(),
    }
}

/// An invalid-argument error with these fields.
pub open spec fn is_invalid(
    e: PaniniError,
    tool: Seq<char>,
    argument: Seq<char>,
    constraint: Seq<char>,
    received: Seq<char>,
) -> bool {
    e matches PaniniError::InvalidArgument { tool: t, argument: a, constraint: c, received: r } && t@
        == tool && a@ == argument && c@ == constraint && r@ == received
}

/// An invalid-argument error.
fn invalid(tool: &str, argument: &str, constraint: &str, received: String) -> (e: PaniniError)
    ensures
        is_invalid(e, tool@, argument@, constraint@, received@),
{
    PaniniError::InvalidArgument {
        tool: owned(tool),
        argument: owned(argument),
        constraint: owned(constraint),
        received,
    }
}

/// Accepts only the vyākaraṇa domain.
pub fn validate_domain(endpoint: &str, domain: &str) -> (r: Result<(), PaniniError>)
    ensures
        domain@ == "vyakarana"@ ==> r is Ok,
        domain@ != "vyakarana"@ ==> (r matches Err(e) && is_invalid(
            e,
            endpoint@,
            "domain"@,
            "must be 'vyakarana'"@,
            domain@,
        )),
{
    if !text_eq(domain, "vyakarana") {
        return Err(invalid(endpoint, "domain", "must be 'vyakarana'", owned(domain)));
    }
    Ok(())
}

/// The text of a field of an input object.
pub open spec fn input_text(p: Params, key: Seq<char>) -> Seq<char> {
    text_of(fields_of(p), key)
}

/// Reads the two words of a sandhi input.
fn read_sandhi_input(p: &Params) -> (r: Result<SandhiInput, String>)
    ensures
        sandhi_input_shape(*p) ==> (r matches Ok(i) && i.first@ == input_text(*p, "first"@)
            && i.second@ == input_text(*p, "second"@)),
        !sandhi_input_shape(*p) ==> (r matches Err(m) && m@ == sandhi_input_error(*p)),
{
    check_sandhi_input_shape(p)?;
    match rule_fields(p) {
        Some(f) => Ok(SandhiInput { first: get_text(f, "first"), second: get_text(f, "second") }),
        None => Err(String::new()),
    }
}

/// Reads the stem, stem type, case and number of a declension input.
fn read_declension_input(p: &Params) -> (r: Result<DeclensionInput, String>)
    ensures
        declension_input_shape(*p) ==> (r matches Ok(i) && i.stem@ == input_text(*p, "stem"@)
            && i.stem_type@ == input_text(*p, "stem_type"@) && i.case@ == input_text(*p, "case"@)
            && i.number@ == input_text(*p, "number"@)),
        !declension_input_shape(*p) ==> (r matches Err(m) && m@ == declension_input_error(*p)),
{
    check_declension_input_shape(p)?;
    match rule_fields(p) {
        Some(f) => Ok(
            DeclensionInput {
                stem: get_text(f, "stem"),
                stem_type: get_text(f, "stem_type"),
                case: get_text(f, "case"),
                number: get_text(f, "number"),
            },
        ),
        None => Err(String::new()),
    }
}

/// A reply's derivation as a derivation result.
pub open spec fn as_derivation(r: Result<DeriveOutput, PaniniError>) -> Result<DeriveResult, PaniniError> {
    match r {
        Ok(o) => Ok(DeriveResult { output: o.result, trace: o.trace }),
        Err(e) => Err(e),
    }
}

/// The reply to a derivation request made through `tool`: an invalid domain,
/// operation or input is refused (in that order; for sandhi, a cache without
/// sandhi rules first); sandhi joins the two words, declension declines the
/// stem; a reply echoes the request.
pub open spec fn derive_reply_is(r: Result<DeriveOutput, PaniniError>, c: RuleCache, tool: Seq<char>, args: DeriveArgs) -> bool {
    let inp = args.input;
    if args.domain@ != "vyakarana"@ {
        r matches Err(e) && is_invalid(e, tool, "domain"@, "must be 'vyakarana'"@, args.domain@)
    } else if args.operation@ == "sandhi"@ {
        if rules_of(c, "sandhi_rule"@).len() == 0 {
            r matches Err(PaniniError::NoRulesLoaded(t)) && t@ == "sandhi_rule"@
        } else if !sandhi_input_shape(inp) {
            r matches Err(e) && is_invalid(
                e,
                tool,
                "input"@,
                "requires {first, second}"@,
                sandhi_input_error(inp),
            )
        } else {
            r matches Ok(o) && o.domain == args.domain && o.operation == args.operation && o.input == inp
                && sandhi_derived(
                DeriveResult { output: o.result, trace: o.trace },
                rules_of(c, "sandhi_rule"@),
                input_text(inp, "first"@),
                input_text(inp, "second"@),
            )
        }
    } else if args.operation@ == "declension"@ {
        if !declension_input_shape(inp) {
            r matches Err(e) && is_invalid(
                e,
                tool,
                "input"@,
                "requires {stem, stem_type, case, number}"@,
                declension_input_error(inp),
            )
        } else {
            &&& declension_result_is(
                as_derivation(r),
                rules_of(c, "sup_suffix"@),
                rules_of(c, "pratyaya_rule"@),
                rules_of(c, "anga_rule"@),
                rules_of(c, "sandhi_rule"@),
                rules_of(c, "tripadi_rule"@),
                input_text(inp, "stem"@),
                input_text(inp, "stem_type"@),
                input_text(inp, "case"@),
                input_text(inp, "number"@),
            )
            &&& (r matches Ok(o) ==> o.domain == args.domain && o.operation == args.operation && o.input
                == inp)
        }
    } else {
        r matches Err(e) && is_invalid(
            e,
            tool,
            "operation"@,
            "must be 'sandhi' or 'declension'"@,
            args.operation@,
        )
    }
}

/// Serves a derivation request made through `tool`.
pub fn derive_request(cache: &RuleCache, tool: &str, args: DeriveArgs) -> (r: Result<DeriveOutput, PaniniError>)
    ensures
        derive_reply_is(r, *cache, tool@, args),
{
    validate_domain(tool, args.domain.as_str())?;
    let result = if text_eq(args.operation.as_str(), "sandhi") {
        let rules = cache.get_rules("sandhi_rule");
        if rules.len() == 0 {
            return Err(PaniniError::NoRulesLoaded(owned("sandhi_rule")));
        }
        let input = match read_sandhi_input(&args.input) {
            Ok(i) => i,
            Err(m) => {
                return Err(invalid(tool, "input", "requires {first, second}", m));
            },
        };
        derive_sandhi(rules, input)?
    } else if text_eq(args.operation.as_str(), "declension") {
        let input = match read_declension_input(&args.input) {
            Ok(i) => i,
            Err(m) => {
                return Err(invalid(tool, "input", "requires {stem, stem_type, case, number}", m));
            },
        };
        match derive_declension(
            cache.get_rules("sup_suffix"),
            cache.get_rules("pratyaya_rule"),
            cache.get_rules("anga_rule"),
            cache.get_rules("sandhi_rule"),
            cache.get_rules("tripadi_rule"),
            input,
        ) {
            Ok(d) => d,
            Err(e) => {
                return Err(e);
            },
        }
    } else {
        return Err(
            invalid(tool, "operation", "must be 'sandhi' or 'declension'", args.operation),
        );
    };
    Ok(
        DeriveOutput {
            domain: args.domain,
            operation: args.operation,
            input: args.input,
            result: result.output,
            trace: result.trace,
        },
    )
}


/// The reply to an analysis request made through `tool`: an invalid domain or
/// operation is refused (declension only where `with_declension`); a template
/// without rules is reported; otherwise the candidate splits or declensions.
pub open spec fn analyze_reply_is(
    r: Result<AnalyzeReply, PaniniError>,
    c: RuleCache,
    tool: Seq<char>,
    args: AnalyzeArgs,
    with_declension: bool,
) -> bool {
    if args.domain@ != "vyakarana"@ {
        r matches Err(e) && is_invalid(e, tool, "domain"@, "must be 'vyakarana'"@, args.domain@)
    } else if args.operation@ == "sandhi"@ {
        if rules_of(c, "sandhi_rule"@).len() == 0 {
            r matches Err(PaniniError::NoRulesLoaded(t)) && t@ == "sandhi_rule"@
        } else {
            r matches Ok(AnalyzeReply::Sandhi(o)) && o.domain == args.domain && o.operation
                == args.operation && o.form == args.form && split_views(o.candidates@) == ranked_splits(
                rules_of(c, "sandhi_rule"@),
                args.form@,
            )
        }
    } else if with_declension && args.operation@ == "declension"@ {
        if rules_of(c, "sup_suffix"@).len() == 0 {
            r matches Err(PaniniError::NoRulesLoaded(t)) && t@ == "sup_suffix"@
        } else {
            r matches Ok(AnalyzeReply::Declension(o)) && o.domain == args.domain && o.operation
                == args.operation && o.form == args.form && decl_views(o.candidates@)
                == declension_candidates(
                rules_of(c, "sup_suffix"@),
                rules_of(c, "pratyaya_rule"@),
                rules_of(c, "anga_rule"@),
                rules_of(c, "sandhi_rule"@),
                rules_of(c, "tripadi_rule"@),
                args.form@,
            )
        }
    } else if with_declension {
        r matches Err(e) && is_invalid(
            e,
            tool,
            "operation"@,
            "must be 'sandhi' or 'declension'"@,
            args.operation@,
        )
    } else {
        r matches Err(e) && is_invalid(e, tool, "operation"@, "must be 'sandhi'"@, args.operation@)
    }
}

/// Serves an analysis request made through `tool`; declension analysis only
/// where `with_declension`.
pub fn analyze_request(cache: &RuleCache, tool: &str, args: AnalyzeArgs, with_declension: bool) -> (r: Result<
    AnalyzeReply,
    PaniniError,
>)
    ensures
        analyze_reply_is(r, *cache, tool@, args, with_declension),
{
    validate_domain(tool, args.domain.as_str())?;
    if text_eq(args.operation.as_str(), "sandhi") {
        let rules = cache.get_rules("sandhi_rule");
        if rules.len() == 0 {
            return Err(PaniniError::NoRulesLoaded(owned("sandhi_rule")));
        }
        let result = analyze_sandhi(rules, args.form.as_str())?;
        Ok(
            AnalyzeReply::Sandhi(
                AnalyzeOutput {
                    domain: args.domain,
                    operation: args.operation,
                    form: args.form,
                    candidates: result.candidates,
                },
            ),
        )
    } else if with_declension && text_eq(args.operation.as_str(), "declension") {
        let sup = cache.get_rules("sup_suffix");
        if sup.len() == 0 {
            return Err(PaniniError::NoRulesLoaded(owned("sup_suffix")));
        }
        let result = analyze_declension(
            sup,
            cache.get_rules("pratyaya_rule"),
            cache.get_rules("anga_rule"),
            cache.get_rules("sandhi_rule"),
            cache.get_rules("tripadi_rule"),
            args.form.as_str(),
        )?;
        Ok(
            AnalyzeReply::Declension(
                DeclensionAnalyzeOutput {
                    domain: args.domain,
                    operation: args.operation,
                    form: args.form,
                    candidates: result.candidates,
                },
            ),
        )
    } else if with_declension {
        Err(invalid(tool, "operation", "must be 'sandhi' or 'declension'", args.operation))
    } else {
        Err(invalid(tool, "operation", "must be 'sandhi'", args.operation))
    }
}

/// The case codes of a paradigm's rows: 1 to 8.
pub open spec fn case_code(k: int) -> Seq<char> {
    if k == 0 {
        "1"@
    } else if k == 1 {
        "2"@
    } else if k == 2 {
        "3"@
    } else if k == 3 {
        "4"@
    } else if k == 4 {
        "5"@
    } else if k == 5 {
        "6"@
    } else if k == 6 {
        "7"@
    } else {
        "8"@
    }
}

/// The number codes of a paradigm's columns: sg, du, pl.
pub open spec fn number_code(k: int) -> Seq<char> {
    if k == 0 {
        "sg"@
    } else if k == 1 {
        "du"@
    } else {
        "pl"@
    }
}

/// A paradigm cell holds the declension of a stem in one case and number: the
/// form and its numbered trace, or the text of the error.
pub open spec fn declension_cell_is(cell: ParadigmCell, c: RuleCache, stem: Seq<char>, cls: Seq<char>, case: Seq<char>, number: Seq<char>) -> bool {
    &&& cell.case@ == case
    &&& cell.number@ == number
    &&& match crate::declension::decline(
        rules_of(c, "sup_suffix"@),
        rules_of(c, "pratyaya_rule"@),
        rules_of(c, "anga_rule"@),
        rules_of(c, "sandhi_rule"@),
        rules_of(c, "tripadi_rule"@),
        stem,
        cls,
        case,
        number,
    ) {
        None => {
            &&& cell.form is None
            &&& cell.trace is None
            &&& cell.error matches Some(m) && m@ == "failed to parse rule: "@
                + crate::declension::no_sup_message(
                cls,
                crate::declension::case_name(case),
                crate::declension::number_name(number),
            )
        },
        Some((form, steps)) => {
            &&& cell.form matches Some(f) && f@ == form
            &&& cell.trace matches Some(t) && crate::engine::numbered(t@) && crate::engine::step_views(t@)
                == steps
            &&& cell.error is None
        },
    }
}

/// The code of case `k`.
fn case_text(k: usize) -> (r: &'static str)
    ensures
        r@ == case_code(k as int),
{
    if k == 0 {
        "1"
    } else if k == 1 {
        "2"
    } else if k == 2 {
        "3"
    } else if k == 3 {
        "4"
    } else if k == 4 {
        "5"
    } else if k == 5 {
        "6"
    } else if k == 6 {
        "7"
    } else {
        "8"
    }
}

/// The code of number `k`.
fn number_text(k: usize) -> (r: &'static str)
    ensures
        r@ == number_code(k as int),
{
    if k == 0 {
        "sg"
    } else if k == 1 {
        "du"
    } else {
        "pl"
    }
}

/// The 24 cells of a stem's paradigm, case by case (1 to 8), each in the
/// three numbers (sg, du, pl).
pub fn paradigm_cells(cache: &RuleCache, stem: &str, stem_type: &str) -> (r: Vec<ParadigmCell>)
    ensures
        r@.len() == 24,
        forall|k: int|
            0 <= k < 24 ==> declension_cell_is(
                #[trigger] r@[k],
                *cache,
                stem@,
                stem_type@,
                case_code(k / 3),
                number_code(k % 3),
            ),
{
    let sup = cache.get_rules("sup_suffix");
    let pratyaya = cache.get_rules("pratyaya_rule");
    let anga = cache.get_rules("anga_rule");
    let sandhi = cache.get_rules("sandhi_rule");
    let tripadi = cache.get_rules("tripadi_rule");
    let mut cells: Vec<ParadigmCell> = Vec::new();
    let mut k: usize = 0;
    while k < 24
        invariant
            k <= 24,
            cells@.len() == k,
            sup@ == rules_of(*cache, "sup_suffix"@),
            pratyaya@ == rules_of(*cache, "pratyaya_rule"@),
            anga@ == rules_of(*cache, "anga_rule"@),
            sandhi@ == rules_of(*cache, "sandhi_rule"@),
            tripadi@ == rules_of(*cache, "tripadi_rule"@),
            forall|j: int|
                0 <= j < k ==> declension_cell_is(
                    #[trigger] cells@[j],
                    *cache,
                    stem@,
                    stem_type@,
                    case_code(j / 3),
                    number_code(j % 3),
                ),
        decreases 24 - k,
    {
        let case = case_text(k / 3);
        let number = number_text(k % 3);
        let input = DeclensionInput {
            stem: owned(stem),
            stem_type: owned(stem_type),
            case: owned(case),
            number: owned(number),
        };
        let cell = match derive_declension(sup, pratyaya, anga, sandhi, tripadi, input) {
            Ok(result) => {
                let form = match result.output {
                    Derived::Declension { form, .. } => Some(form),
                    _ => None,
                };
                ParadigmCell {
                    case: owned(case),
                    number: owned(number),
                    form,
                    trace: Some(result.trace),
                    error: None,
                }
            },
            Err(e) => ParadigmCell {
                case: owned(case),
                number: owned(number),
                form: None,
                trace: None,
                error: Some(e.message()),
            },
        };
        cells.push(cell);
        k += 1;
    }
    cells
}

/// Cells that meet the paradigm's contract form the eight-by-three grid: cell
/// `k` stands in case `k / 3 + 1` (1 to 8) and in number sg, du or pl by
/// `k % 3`, declined in the vibhakti and vacana of that row and column; no
/// case and number appear together in two cells, so every case 1 to 8 has its
/// row.
pub proof fn law_paradigm_grid(
    cells: Seq<ParadigmCell>,
    cache: RuleCache,
    stem: Seq<char>,
    cls: Seq<char>,
    i: int,
    j: int,
)
    requires
        cells.len() == 24,
        forall|k: int|
            0 <= k < 24 ==> declension_cell_is(
                #[trigger] cells[k],
                cache,
                stem,
                cls,
                case_code(k / 3),
                number_code(k % 3),
            ),
        0 <= i < 24,
        0 <= j < 24,
    ensures
        cells[i].case@ == crate::text::decimal((i / 3 + 1) as nat),
        cells[i].number@ == crate::declension::short_number(i % 3),
        crate::declension::case_name(cells[i].case@) == crate::consistency::vibhakti_code(i / 3),
        crate::declension::number_name(cells[i].number@) == crate::consistency::vacana_code(i % 3),
        i != j ==> !(cells[i].case@ == cells[j].case@ && cells[i].number@ == cells[j].number@),
{
    assert(declension_cell_is(cells[i], cache, stem, cls, case_code(i / 3), number_code(i % 3)));
    assert(declension_cell_is(cells[j], cache, stem, cls, case_code(j / 3), number_code(j % 3)));
    lemma_row_codes(i / 3);
    lemma_row_codes(j / 3);
    assert(number_code(i % 3) == crate::declension::short_number(i % 3));
    assert(number_code(j % 3) == crate::declension::short_number(j % 3));
    crate::declension::law_number_names_follow_vacana_order(i % 3, j % 3);
    let e = Seq::<CachedRule>::empty();
    crate::declension::law_case_names_follow_vibhakti_order(e, e, e, e, e, stem, cls, number_code(0), i / 3, j / 3);
    crate::declension::law_case_names_follow_vibhakti_order(e, e, e, e, e, stem, cls, number_code(0), j / 3, i / 3);
    if i != j && i / 3 == j / 3 {
        assert(i % 3 != j % 3);
    }
}

/// Row `k` of a paradigm has case code `k + 1`.
proof fn lemma_row_codes(k: int)
    requires
        0 <= k < 8,
    ensures
        case_code(k) == crate::text::decimal((k + 1) as nat),
{
    reveal_strlit("1");
    reveal_strlit("2");
    reveal_strlit("3");
    reveal_strlit("4");
    reveal_strlit("5");
    reveal_strlit("6");
    reveal_strlit("7");
    reveal_strlit("8");
    let code = crate::text::decimal((k + 1) as nat);
    assert(code == seq![crate::text::digit_char((k + 1) as nat)]);
    assert(case_code(k) =~= code);
}

/// The reply to a paradigm request made through `tool`: an invalid domain is
/// refused; otherwise the 24 cells.
pub fn paradigm_request(cache: &RuleCache, tool: &str, args: ParadigmArgs) -> (r: Result<ParadigmOutput, PaniniError>)
    ensures
        args.domain@ != "vyakarana"@ ==> (r matches Err(e) && is_invalid(
            e,
            tool@,
            "domain"@,
            "must be 'vyakarana'"@,
            args.domain@,
        )),
        args.domain@ == "vyakarana"@ ==> (r matches Ok(o) && o.domain == args.domain && o.stem
            == args.stem && o.stem_type == args.stem_type && o.cells@.len() == 24 && forall|k: int|
            0 <= k < 24 ==> declension_cell_is(
                #[trigger] o.cells@[k],
                *cache,
                args.stem@,
                args.stem_type@,
                case_code(k / 3),
                number_code(k % 3),
            )),
{
    validate_domain(tool, args.domain.as_str())?;
    let cells = paradigm_cells(cache, args.stem.as_str(), args.stem_type.as_str());
    Ok(ParadigmOutput { domain: args.domain, stem: args.stem, stem_type: args.stem_type, cells })
}


/// The sūtra a rule cites, when it names a non-empty one.
pub open spec fn cited(r: CachedRule) -> Option<Seq<char>> {
    match rule_opt_text(r, "sutra"@) {
        Some(s) => if s.len() > 0 {
            Some(s)
        } else {
            None
        },
        None => None,
    }
}

/// The sūtras the rules of one template cite, in order.
pub open spec fn citations(rules: Seq<CachedRule>) -> Seq<Seq<char>> {
    somes(rules.map_values(|r: CachedRule| cited(r)))
}

/// The sūtras cited over all templates, distinct, in code-point order.
pub open spec fn sutra_keys(e: Seq<Entry>) -> Seq<Seq<char>> {
    sorted_distinct(Seq::new(e.len(), |t: int| citations(e[t].1)).flatten())
}

/// The first rule of a template citing sūtra `k`.
pub open spec fn citing_rule(rules: Seq<CachedRule>, k: Seq<char>) -> Option<int> {
    first_index(Seq::new(rules.len(), |j: int| cited(rules[j]) == Some(k)))
}

/// The statement of the first rule (templates in order, rules in order) citing `k`.
pub open spec fn first_statement(e: Seq<Entry>, k: Seq<char>) -> Seq<char> {
    match first_index(Seq::new(e.len(), |t: int| citing_rule(e[t].1, k) is Some)) {
        Some(t) => e[t].1[citing_rule(e[t].1, k)->0].statement@,
        None => Seq::empty(),
    }
}

/// The templates, in order, with a rule citing `k`.
pub open spec fn citing_templates(e: Seq<Entry>, k: Seq<char>) -> Seq<Seq<char>> {
    somes(
        Seq::new(
            e.len(),
            |t: int|
                if citing_rule(e[t].1, k) is Some {
                    Some(e[t].0)
                } else {
                    None
                },
        ),
    )
}

/// The contents of a sūtra index entry.
pub open spec fn sutra_view(s: SutraEntry) -> (Seq<char>, Seq<char>, Seq<Seq<char>>) {
    (s.sutra@, s.statement@, texts(s.templates@))
}

/// The sūtra a rule cites.
fn cited_exec(r: &CachedRule) -> (res: Option<String>)
    ensures
        res matches Some(x) ==> cited(*r) == Some(x@),
        res is None ==> cited(*r) is None,
{
    match rule_get_opt_text(r, "sutra") {
        Some(x) => if x.unicode_len() > 0 {
            Some(x)
        } else {
            None
        },
        None => None,
    }
}

/// The first rule of a template citing a sūtra.
fn find_citing(rules: &[CachedRule], k: &str) -> (res: Option<usize>)
    ensures
        res matches Some(j) ==> citing_rule(rules@, k@) == Some(j as int),
        res is None ==> citing_rule(rules@, k@) is None,
{
    let n = rules.len();
    let mut flags: Vec<bool> = Vec::new();
    let mut j: usize = 0;
    while j < n
        invariant
            n == rules@.len(),
            j <= n,
            flags@ == Seq::new(j as nat, |q: int| cited(rules@[q]) == Some(k@)),
        decreases n - j,
    {
        let b = match cited_exec(&rules[j]) {
            Some(x) => text_eq(x.as_str(), k),
            None => false,
        };
        flags.push(b);
        assert(flags@ =~= Seq::new((j + 1) as nat, |q: int| cited(rules@[q]) == Some(k@)));
        j += 1;
    }
    first_flag(&flags)
}

/// Adds the sūtras a template's rules cite to a sorted set.
fn add_citations(set: &mut Vec<String>, rules: &[CachedRule], Ghost(before): Ghost<Seq<Seq<char>>>)
    requires
        texts(old(set)@) == sorted_distinct(before),
    ensures
        texts(final(set)@) == sorted_distinct(before + citations(rules@)),
{
    let n = rules.len();
    let ghost f = |r: CachedRule| cited(r);
    let mut j: usize = 0;
    assert(before + citations(rules@.take(0)) =~= before) by {
        assert(rules@.take(0).map_values(|r: CachedRule| cited(r)) =~= Seq::<Option<Seq<char>>>::empty());
    }
    while j < n
        invariant
            n == rules@.len(),
            j <= n,
            texts(set@) == sorted_distinct(before + citations(rules@.take(j as int))),
        decreases n - j,
    {
        let ghost prev = citations(rules@.take(j as int));
        assert(rules@.take(j + 1).map_values(|r: CachedRule| cited(r)).drop_last() =~= rules@.take(
            j as int,
        ).map_values(|r: CachedRule| cited(r)));
        match cited_exec(&rules[j]) {
            Some(x) => {
                insert_text_sorted(set, x.as_str());
                assert(citations(rules@.take(j + 1)) == prev.push(x@));
                assert((before + prev.push(x@)).drop_last() =~= before + prev);
                assert((before + prev.push(x@)).last() == x@);
            },
            None => {
                assert(citations(rules@.take(j + 1)) == prev);
            },
        }
        j += 1;
    }
    assert(rules@.take(n as int) =~= rules@);
}

/// The index of the sūtras the cached rules cite: each sūtra once, in
/// code-point order, with the statement of the first rule citing it and the
/// templates (in order) whose rules cite it.
pub fn sutra_index(cache: &RuleCache) -> (r: Vec<SutraEntry>)
    ensures
        r@.map_values(|s: SutraEntry| sutra_view(s)) == Seq::new(
            sutra_keys(cache.entries()).len(),
            |j: int|
                (
                    sutra_keys(cache.entries())[j],
                    first_statement(cache.entries(), sutra_keys(cache.entries())[j]),
                    citing_templates(cache.entries(), sutra_keys(cache.entries())[j]),
                ),
        ),
{
    let all = cache.all_templates();
    let ghost e = cache.entries();
    let nt = all.len();
    assert(nt == e.len()) by {
        assert(all@.map_values(|p: (&str, &[CachedRule])| (p.0@, p.1@)).len() == all@.len());
    }
    let ghost g = |t: int| citations(e[t].1);
    let mut keys: Vec<String> = Vec::new();
    let mut t: usize = 0;
    assert(Seq::new(0, g).flatten() =~= Seq::<Seq<char>>::empty());
    while t < nt
        invariant
            nt == all@.len(),
            nt == e.len(),
            all@.map_values(|p: (&str, &[CachedRule])| (p.0@, p.1@)) == e,
            t <= nt,
            g == (|t: int| citations(e[t].1)),
            texts(keys@) == sorted_distinct(Seq::new(t as nat, g).flatten()),
        decreases nt - t,
    {
        let (_, rules) = all[t];
        assert(rules@ == e[t as int].1);
        add_citations(&mut keys, rules, Ghost(Seq::new(t as nat, g).flatten()));
        assert(Seq::new((t + 1) as nat, g) =~= Seq::new(t as nat, g).push(g(t as int)));
        t += 1;
    }
    assert(Seq::new(nt as nat, g) =~= Seq::new(e.len(), |t: int| citations(e[t].1)));
    let ghost ks = sutra_keys(e);
    let nk = keys.len();
    let mut out: Vec<SutraEntry> = Vec::new();
    let ghost h = |j: int| (ks[j], first_statement(e, ks[j]), citing_templates(e, ks[j]));
    let mut j: usize = 0;
    while j < nk
        invariant
            nk == keys@.len(),
            texts(keys@) == ks,
            nt == all@.len(),
            nt == e.len(),
            all@.map_values(|p: (&str, &[CachedRule])| (p.0@, p.1@)) == e,
            j <= nk,
            h == (|j: int| (ks[j], first_statement(e, ks[j]), citing_templates(e, ks[j]))),
            out@.map_values(|s: SutraEntry| sutra_view(s)) == Seq::new(j as nat, h),
        decreases nk - j,
    {
        let k = keys[j].as_str();
        assert(ks[j as int] == k@);
        let mut statement: Option<String> = None;
        let mut templates: Vec<String> = Vec::new();
        let ghost has = |t: int| citing_rule(e[t].1, k@) is Some;
        let ghost tf = |t: int|
            if citing_rule(e[t].1, k@) is Some {
                Some(e[t].0)
            } else {
                None
            };
        let mut q: usize = 0;
        while q < nt
            invariant
                nt == all@.len(),
                nt == e.len(),
                all@.map_values(|p: (&str, &[CachedRule])| (p.0@, p.1@)) == e,
                q <= nt,
                has == (|t: int| citing_rule(e[t].1, k@) is Some),
                tf == (|t: int|
                    if citing_rule(e[t].1, k@) is Some {
                        Some(e[t].0)
                    } else {
                        None
                    }),
                texts(templates@) == somes(Seq::new(q as nat, tf)),
                match first_index(Seq::new(q as nat, has)) {
                    Some(t) => statement matches Some(st) && st@ == e[t].1[citing_rule(e[t].1, k@)->0].statement@,
                    None => statement is None,
                },
            decreases nt - q,
        {
            let (slug, rules) = all[q];
            assert(rules@ == e[q as int].1 && slug@ == e[q as int].0);
            assert(Seq::new((q + 1) as nat, tf).drop_last() =~= Seq::new(q as nat, tf));
            let ghost fi = first_index(Seq::new(q as nat, has));
            proof {
                lemma_first_index_extend(Seq::new(q as nat, has), has(q as int));
                assert(Seq::new((q + 1) as nat, has) =~= Seq::new(q as nat, has).push(has(q as int)));
            }
            match find_citing(rules, k) {
                Some(i) => {
                    if statement.is_none() {
                        statement = Some(rules[i].statement.clone());
                    }
                    let ghost before = texts(templates@);
                    templates.push(owned(slug));
                    assert(texts(templates@) =~= before.push(slug@));
                },
                None => {},
            }
            q += 1;
        }
        assert(Seq::new(nt as nat, tf) =~= Seq::new(
            e.len(),
            |t: int|
                if citing_rule(e[t].1, k@) is Some {
                    Some(e[t].0)
                } else {
                    None
                },
        ));
        assert(Seq::new(nt as nat, has) =~= Seq::new(e.len(), |t: int| citing_rule(e[t].1, k@) is Some));
        let st = match statement {
            Some(s) => s,
            None => String::new(),
        };
        let ghost before = out@.map_values(|s: SutraEntry| sutra_view(s));
        out.push(SutraEntry { sutra: owned(k), statement: st, templates });
        assert(out@.map_values(|s: SutraEntry| sutra_view(s)) =~= before.push(h(j as int)));
        assert(Seq::new((j + 1) as nat, h) =~= Seq::new(j as nat, h).push(h(j as int)));
        j += 1;
    }
    out
}

/// The first flagged position of flags extended by one more flag.
pub proof fn lemma_first_index_extend(s: Seq<bool>, b: bool)
    ensures
        first_index(s.push(b)) == match first_index(s) {
            Some(i) => Some(i),
            None => if b {
                Some(s.len() as int)
            } else {
                None
            },
        },
{
    let t = s.push(b);
    match first_index(s) {
        Some(i) => {
            assert(is_first(s, i));
            assert(is_first(t, i));
            let k = choose|k: int| is_first(t, k);
            if k != i {
                if k < i {
                    assert(!s[k]);
                } else {
                    assert(!t[i]);
                }
            }
        },
        None => {
            if b {
                assert(forall|j: int| 0 <= j < s.len() ==> !s[j]) by {
                    if exists|j: int| 0 <= j < s.len() && s[j] {
                        let j = choose|j: int| 0 <= j < s.len() && s[j];
                        lemma_some_first(s, j);
                    }
                }
                assert(is_first(t, s.len() as int));
                let k = choose|k: int| is_first(t, k);
                if k != s.len() {
                    assert(t[k] == s[k]);
                }
            } else {
                if exists|k: int| is_first(t, k) {
                    let k = choose|k: int| is_first(t, k);
                    if k < s.len() {
                        lemma_some_first(s, k);
                    }
                }
            }
        },
    }
}

/// A flag that is set means some first flagged position exists.
pub proof fn lemma_some_first(s: Seq<bool>, j: int)
    requires
        0 <= j < s.len(),
        s[j],
    ensures
        first_index(s) is Some,
    decreases j,
{
    if exists|q: int| 0 <= q < j && s[q] {
        let q = choose|q: int| 0 <= q < j && s[q];
        lemma_some_first(s, q);
    } else {
        assert(is_first(s, j));
    }
}


/// The engine's status: "ok", the version, the number of templates, of rules,
/// and of sandhi rules.
pub fn health(cache: &RuleCache, version: &'static str) -> (r: HealthOutput)
    ensures
        r.status@ == "ok"@,
        r.version == version,
        r.rule_templates == cache.entries().len(),
        r.total_rules == crate::rule_cache::total(cache.entries()),
        r.sandhi_rules == rules_of(*cache, "sandhi_rule"@).len(),
{
    HealthOutput {
        status: "ok",
        version,
        rule_templates: cache.template_count(),
        total_rules: cache.total_rules(),
        sandhi_rules: cache.rule_count("sandhi_rule"),
    }
}

/// Where the rules come from, how much is logged, and where the server listens.
pub struct Config {
    pub vidya_url: Option<String>,
    pub vidya_auth_token: Option<String>,
    pub log_level: String,
    pub http_host: String,
    pub http_port: u16,
}

/// A setting, or its default when unset.
pub fn env_or(value: Option<String>, default: &str) -> (r: String)
    ensures
        r@ == match value {
            Some(v) => v@,
            None => default@,
        },
{
    match value {
        Some(v) => v,
        None => owned(default),
    }
}

/// Every character of a text is an ASCII digit.
pub open spec fn all_digits(s: Seq<char>) -> bool {
    forall|i: int| 0 <= i < s.len() ==> '0' <= #[trigger] s[i] <= '9'
}

/// The number a text of decimal digits writes.
pub open spec fn decimal_value(s: Seq<char>) -> int
    decreases s.len(),
{
    if s.len() == 0 {
        0
    } else {
        decimal_value(s.drop_last()) * 10 + (s.last() as int - '0' as int)
    }
}

/// A text of digits writes a number no smaller than any of its prefixes does.
pub proof fn lemma_decimal_value_grows(s: Seq<char>, i: int)
    requires
        all_digits(s),
        0 <= i <= s.len(),
    ensures
        decimal_value(s.take(i)) <= decimal_value(s),
        decimal_value(s) >= 0,
    decreases s.len(),
{
    if s.len() > 0 {
        assert(all_digits(s.drop_last()));
        if i == s.len() {
            assert(s.take(i) =~= s);
            lemma_decimal_value_grows(s.drop_last(), i - 1);
        } else {
            assert(s.take(i) =~= s.drop_last().take(i));
            lemma_decimal_value_grows(s.drop_last(), i);
        }
    }
}

/// The port a setting names: its value when it is a non-empty run of digits
/// worth at most 65535.
pub open spec fn port_of(s: Seq<char>) -> Option<u16> {
    if s.len() > 0 && all_digits(s) && decimal_value(s) <= 65535 {
        Some(decimal_value(s) as u16)
    } else {
        None
    }
}

/// Reads a port number written in decimal digits.
pub fn parse_port(s: &str) -> (r: Option<u16>)
    ensures
        r == port_of(s@),
{
    let n = s.unicode_len();
    if n == 0 {
        return None;
    }
    let mut value: u32 = 0;
    let mut i: usize = 0;
    while i < n
        invariant
            n == s@.len(),
            i <= n,
            all_digits(s@.take(i as int)),
            value == decimal_value(s@.take(i as int)),
            value <= 65535,
        decreases n - i,
    {
        let c = s.get_char(i);
        let ghost pre = s@.take(i as int);
        assert(s@.take(i + 1).drop_last() =~= pre);
        if c < '0' || c > '9' {
            assert(!all_digits(s@)) by {
                assert(s@[i as int] == c);
            }
            return None;
        }
        let d: u32 = (c as u32) - ('0' as u32);
        let next: u32 = value * 10 + d;
        assert(all_digits(s@.take(i + 1))) by {
            assert forall|k: int| 0 <= k < i + 1 implies '0' <= #[trigger] s@.take(i + 1)[k] <= '9' by {
                if k < i {
                    assert(s@.take(i + 1)[k] == pre[k]);
                }
            }
        }
        if next > 65535 {
            proof {
                if all_digits(s@) {
                    lemma_decimal_value_grows(s@, i + 1);
                }
            }
            return None;
        }
        value = next;
        i += 1;
    }
    assert(s@.take(n as int) =~= s@);
    Some(value as u16)
}

/// A port setting, or 4300 when it is unset or not a port number.
pub open spec fn port_setting(v: Option<Seq<char>>) -> u16 {
    match v {
        Some(s) => match port_of(s) {
            Some(p) => p,
            None => 4300,
        },
        None => 4300,
    }
}

impl Config {
    /// The configuration from the settings found: the vidya URL (rules come
    /// from vidya only when it is set), the optional auth token, the log level
    /// (default info), the bind address (default 127.0.0.1) and the HTTP port
    /// (default 4300).
    pub fn from_settings(
        vidya_url: Option<String>,
        vidya_auth_token: Option<String>,
        log_level: Option<String>,
        http_host: Option<String>,
        http_port: Option<String>,
    ) -> (r: Config)
        ensures
            r.vidya_url == vidya_url,
            r.vidya_auth_token == vidya_auth_token,
            r.log_level@ == match log_level {
                Some(v) => v@,
                None => "info"@,
            },
            r.http_host@ == match http_host {
                Some(v) => v@,
                None => "127.0.0.1"@,
            },
            r.http_port == port_setting(opt_view(http_port)),
    {
        let port = match &http_port {
            Some(p) => match parse_port(p.as_str()) {
                Some(v) => v,
                None => 4300,
            },
            None => 4300,
        };
        Config {
            vidya_url,
            vidya_auth_token,
            log_level: env_or(log_level, "info"),
            http_host: env_or(http_host, "127.0.0.1"),
            http_port: port,
        }
    }
}

} // verus!
