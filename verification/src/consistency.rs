//! Consistency checks on a template's rules: entries that do not parse, rules
//! that another rule makes unreachable (shadowed) or that compete with one at
//! the same precedence (ambiguous), coverage, and missing paradigm cells.
use vstd::prelude::*;
use crate::engine::{count_true, first_index, rank_order, ranked_indices, rule_priority, rule_type_priority, somes};
use crate::params::{CachedRule, Params, rule_get_opt_text, rule_get_text, rule_opt_text, rule_text};
use crate::shapes::{anga_check_error, anga_check_shape, check_anga_check_shape, check_pratyaya_check_shape,
    check_sandhi_shape, check_sup_check_shape, check_tripadi_check_shape, pratyaya_check_error, pratyaya_shape,
    sandhi_error, sandhi_shape, sup_check_error, sup_check_shape, sup_shape, tripadi_check_error,
    tripadi_check_shape};
use crate::sorted::{insert_sorted, insert_text_sorted, sorted_distinct, texts};
use crate::text::{decimal, decimal_text, owned, text_before, text_eq, text_less, concat2, concat3,
    lemma_text_before_irreflexive, lemma_text_before_asymmetric, lemma_text_before_total};

verus! {

broadcast use vstd::seq::Seq::group_seq_flatten;

/// A rule whose parameters could not be read.
pub struct RuleParseError {
    pub index: usize,
    pub statement: String,
    pub error: String,
}

/// A rule that can never fire: a rule tried before it gives the same result.
pub struct ShadowedRule {
    pub shadowed_sutra: String,
    pub shadowed_type: String,
    pub shadowed_by_sutra: String,
    pub shadowed_by_type: String,
    pub pattern: String,
}

/// Two rules for the same pattern, with different results and no precedence between them.
pub struct AmbiguousOverlap {
    pub pattern: String,
    pub rule_a_sutra: String,
    pub rule_a_result: String,
    pub rule_a_type: String,
    pub rule_b_sutra: String,
    pub rule_b_result: String,
    pub rule_b_type: String,
}

/// One axis of coverage and the values seen on it, in order.
pub struct CoverageDimension {
    pub label: String,
    pub values: Vec<String>,
}

/// What a template covers. The counts by sūtra and by type are listed by key,
/// in code-point order, each key once.
pub struct CoverageSummary {
    pub dimensions: Vec<CoverageDimension>,
    pub covered_combinations: usize,
    pub covered_combinations_label: String,
    pub rules_by_sutra: Vec<(String, usize)>,
    pub rules_by_type: Vec<(String, usize)>,
}

/// The paradigm cells of a stem class that no suffix entry fills.
pub struct ParadigmGap {
    pub stem_class: String,
    pub missing_cells: Vec<String>,
    pub present: usize,
    pub expected: usize,
}

/// The counts of each kind of finding and a one-line verdict.
pub struct ReportSummary {
    pub clean: bool,
    pub parse_error_count: usize,
    pub shadowed_count: usize,
    pub ambiguous_count: usize,
    pub verdict: String,
}

/// The findings of a consistency check on one template.
pub struct CheckReport {
    pub template: String,
    pub total_rules: usize,
    pub parse_errors: Vec<RuleParseError>,
    pub shadowed_rules: Vec<ShadowedRule>,
    pub ambiguous_overlaps: Vec<AmbiguousOverlap>,
    pub coverage: CoverageSummary,
    pub paradigm_gaps: Vec<ParadigmGap>,
    pub summary: ReportSummary,
}

// --- Counting by key ---
/// A table of counts by key with one more `k`: its count raised, or `k` added
/// with count 1 in code-point order.
pub open spec fn bump(m: Seq<(Seq<char>, nat)>, k: Seq<char>) -> Seq<(Seq<char>, nat)>
    decreases m.len(),
{
    if m.len() == 0 {
        seq![(k, 1nat)]
    } else if m[0].0 == k {
        seq![(k, m[0].1 + 1)] + m.drop_first()
    } else if text_before(k, m[0].0) {
        seq![(k, 1nat)] + m
    } else {
        seq![m[0]] + bump(m.drop_first(), k)
    }
}

/// The counts of the keys, by key in code-point order.
pub open spec fn tally(keys: Seq<Seq<char>>) -> Seq<(Seq<char>, nat)>
    decreases keys.len(),
{
    if keys.len() == 0 {
        Seq::empty()
    } else {
        bump(tally(keys.drop_last()), keys.last())
    }
}

/// The contents of a table of counts.
pub open spec fn counts_view(v: Seq<(String, usize)>) -> Seq<(Seq<char>, nat)> {
    v.map_values(|p: (String, usize)| (p.0@, p.1 as nat))
}

/// Every count in the table is at most `n`.
pub open spec fn counts_at_most(m: Seq<(Seq<char>, nat)>, n: nat) -> bool {
    forall|i: int| 0 <= i < m.len() ==> #[trigger] m[i].1 <= n
}

/// Bumping a table whose counts are at most `n` leaves them at most `n + 1`.
pub proof fn lemma_bump_bound(m: Seq<(Seq<char>, nat)>, k: Seq<char>, n: nat)
    requires
        counts_at_most(m, n),
    ensures
        counts_at_most(bump(m, k), n + 1),
    decreases m.len(),
{
    if m.len() > 0 && m[0].0 != k && !text_before(k, m[0].0) {
        lemma_bump_bound(m.drop_first(), k, n);
        let b = bump(m, k);
        assert forall|i: int| 0 <= i < b.len() implies #[trigger] b[i].1 <= n + 1 by {
            if i > 0 {
                assert(b[i] == bump(m.drop_first(), k)[i - 1]);
            }
        }
    } else if m.len() > 0 && m[0].0 == k {
        let b = bump(m, k);
        assert forall|i: int| 0 <= i < b.len() implies #[trigger] b[i].1 <= n + 1 by {
            if i > 0 {
                assert(b[i] == m[i]);
            }
        }
    } else if m.len() > 0 {
        let b = bump(m, k);
        assert forall|i: int| 0 <= i < b.len() implies #[trigger] b[i].1 <= n + 1 by {
            if i > 0 {
                assert(b[i] == m[i - 1]);
            }
        }
    }
}

/// No count in the table of `keys` exceeds the number of keys.
pub proof fn lemma_tally_bound(keys: Seq<Seq<char>>)
    ensures
        counts_at_most(tally(keys), keys.len()),
    decreases keys.len(),
{
    if keys.len() > 0 {
        lemma_tally_bound(keys.drop_last());
        lemma_bump_bound(tally(keys.drop_last()), keys.last(), keys.drop_last().len());
    }
}

/// Bumping past entries that come before the key leaves them in place.
proof fn lemma_bump_skip(m: Seq<(Seq<char>, nat)>, k: Seq<char>, i: int)
    requires
        0 <= i <= m.len(),
        forall|j: int| 0 <= j < i ==> text_before(#[trigger] m[j].0, k),
    ensures
        bump(m, k) == m.take(i) + bump(m.skip(i), k),
    decreases i,
{
    if i > 0 {
        lemma_text_before_irreflexive(k);
        lemma_text_before_asymmetric(m[0].0, k);
        assert(m[0].0 != k);
        lemma_bump_skip(m.drop_first(), k, i - 1);
        assert(m.drop_first().take(i - 1) =~= m.take(i).drop_first());
        assert(m.drop_first().skip(i - 1) =~= m.skip(i));
        assert(m.take(i) =~= seq![m[0]] + m.take(i).drop_first());
    } else {
        assert(m.take(0) =~= Seq::<(Seq<char>, nat)>::empty());
        assert(m.skip(0) =~= m);
    }
}

/// Adds one occurrence of `k` to a table of counts.
fn bump_count(map: &mut Vec<(String, usize)>, k: &str)
    requires
        counts_at_most(counts_view(old(map)@), (usize::MAX - 1) as nat),
    ensures
        counts_view(final(map)@) == bump(counts_view(old(map)@), k@),
{
    let ghost m0 = counts_view(map@);
    let n = map.len();
    let mut i: usize = 0;
    while i < n && text_less(map[i].0.as_str(), k)
        invariant
            n == map@.len(),
            m0 == counts_view(map@),
            i <= n,
            forall|j: int| 0 <= j < i ==> text_before(#[trigger] m0[j].0, k@),
        decreases n - i,
    {
        assert(m0[i as int].0 == map@[i as int].0@);
        i += 1;
    }
    proof {
        lemma_bump_skip(m0, k@, i as int);
    }
    if i < n && text_eq(map[i].0.as_str(), k) {
        let c = map[i].1;
        assert(m0[i as int].1 == c as nat);
        assert(c <= usize::MAX - 1);
        map.set(i, (owned(k), c + 1));
        proof {
            let rest = m0.skip(i as int);
            assert(rest[0].0 == k@);
            assert(bump(rest, k@) == seq![(k@, rest[0].1 + 1)] + rest.drop_first());
            assert(counts_view(map@) =~= m0.take(i as int) + (seq![(k@, rest[0].1 + 1)]
                + rest.drop_first()));
        }
    } else {
        let ghost before = map@;
        map.insert(i, (owned(k), 1));
        proof {
            let rest = m0.skip(i as int);
            if i < n {
                assert(m0[i as int].0 == before[i as int].0@);
                lemma_text_before_total(m0[i as int].0, k@);
                assert(text_before(k@, rest[0].0));
                assert(bump(rest, k@) == seq![(k@, 1nat)] + rest);
            } else {
                assert(rest =~= Seq::<(Seq<char>, nat)>::empty());
            }
            assert(counts_view(map@) =~= m0.take(i as int) + (seq![(k@, 1nat)] + rest));
        }
    }
}

/// Counts a rule under its sūtra, unless it names none.
fn count_sutra(sutra: &str, map: &mut Vec<(String, usize)>)
    requires
        counts_at_most(counts_view(old(map)@), (usize::MAX - 1) as nat),
    ensures
        counts_view(final(map)@) == if sutra@.len() > 0 {
            bump(counts_view(old(map)@), sutra@)
        } else {
            counts_view(old(map)@)
        },
{
    if sutra.unicode_len() > 0 {
        bump_count(map, sutra);
    }
}

/// The key a rule is counted under by type: its type, or "unspecified".
pub open spec fn type_key(rule_type: Seq<char>) -> Seq<char> {
    if rule_type.len() == 0 {
        "unspecified"@
    } else {
        rule_type
    }
}

/// Counts a rule under its type.
fn count_type(rule_type: &str, map: &mut Vec<(String, usize)>)
    requires
        counts_at_most(counts_view(old(map)@), (usize::MAX - 1) as nat),
    ensures
        counts_view(final(map)@) == bump(counts_view(old(map)@), type_key(rule_type@)),
{
    if rule_type.unicode_len() == 0 {
        bump_count(map, "unspecified");
    } else {
        bump_count(map, rule_type);
    }
}

// --- The summary ---
/// Texts joined with ", ".
pub open spec fn join_parts(parts: Seq<Seq<char>>) -> Seq<char>
    decreases parts.len(),
{
    if parts.len() == 0 {
        Seq::empty()
    } else if parts.len() == 1 {
        parts[0]
    } else {
        join_parts(parts.drop_last()) + ", "@ + parts.last()
    }
}

/// The number of missing cells over all gaps.
pub open spec fn missing_total(gaps: Seq<ParadigmGap>) -> nat
    decreases gaps.len(),
{
    if gaps.len() == 0 {
        0
    } else {
        missing_total(gaps.drop_last()) + gaps.last().missing_cells@.len()
    }
}

/// The parts of a verdict that name each kind of finding present.
pub open spec fn issue_parts(pe: nat, sh: nat, am: nat, missing: nat, gaps: bool) -> Seq<Seq<char>> {
    (if pe > 0 {
        seq![decimal(pe) + " parse error(s)"@]
    } else {
        Seq::empty()
    }) + (if sh > 0 {
        seq![decimal(sh) + " shadowed rule(s)"@]
    } else {
        Seq::empty()
    }) + (if am > 0 {
        seq![decimal(am) + " ambiguous overlap(s)"@]
    } else {
        Seq::empty()
    }) + (if gaps {
        seq![decimal(missing) + " missing paradigm cell(s)"@]
    } else {
        Seq::empty()
    })
}

/// The verdict line: all clear with the extra note, or the count of issues
/// and what they are.
pub open spec fn verdict_of(n: nat, pe: nat, sh: nat, am: nat, missing: nat, gaps: bool, extra: Seq<char>) -> Seq<char> {
    if pe == 0 && sh == 0 && am == 0 && !gaps {
        "All "@ + decimal(n) + " rules are well-formed with no issues. "@ + extra
    } else {
        decimal(pe + sh + am + missing) + " issue(s) in "@ + decimal(n) + " rules: "@ + join_parts(
            issue_parts(pe, sh, am, missing, gaps),
        )
    }
}

/// The summary of a report's findings.
pub open spec fn summary_is(
    s: ReportSummary,
    n: nat,
    pe: nat,
    sh: nat,
    am: nat,
    gaps: Seq<ParadigmGap>,
    extra: Seq<char>,
) -> bool {
    &&& s.clean == (pe == 0 && sh == 0 && am == 0 && gaps.len() == 0)
    &&& s.parse_error_count == pe
    &&& s.shadowed_count == sh
    &&& s.ambiguous_count == am
    &&& s.verdict@ == verdict_of(n, pe, sh, am, missing_total(gaps), gaps.len() > 0, extra)
}

/// Appends a part to a verdict under construction.
fn add_part(out: &mut String, Ghost(ps): Ghost<Seq<Seq<char>>>, first: bool, n: usize, what: &str)
    requires
        old(out)@ == join_parts(ps),
        first == (ps.len() == 0),
    ensures
        final(out)@ == join_parts(ps.push(decimal(n as nat) + what@)),
{
    let ghost x = decimal(n as nat) + what@;
    assert(ps.push(x).drop_last() =~= ps);
    if !first {
        out.append(", ");
    } else {
        assert(ps.push(x) =~= seq![x]);
    }
    out.append(decimal_text(n).as_str());
    out.append(what);
}

/// The number of missing cells over all gaps.
fn missing_cells_total(paradigm_gaps: &[ParadigmGap]) -> (r: usize)
    requires
        missing_total(paradigm_gaps@) <= usize::MAX,
    ensures
        r == missing_total(paradigm_gaps@),
{
    let ng = paradigm_gaps.len();
    let mut missing: usize = 0;
    let mut g: usize = 0;
    while g < ng
        invariant
            ng == paradigm_gaps@.len(),
            g <= ng,
            missing == missing_total(paradigm_gaps@.take(g as int)),
            missing_total(paradigm_gaps@) <= usize::MAX,
        decreases ng - g,
    {
        proof {
            lemma_missing_total_prefix(paradigm_gaps@, g as int + 1);
        }
        missing = missing + paradigm_gaps[g].missing_cells.len();
        g += 1;
    }
    assert(paradigm_gaps@.take(ng as int) =~= paradigm_gaps@);
    missing
}

/// The parts of a verdict, joined.
fn verdict_parts(pe: usize, sh: usize, am: usize, missing: usize, gaps: bool) -> (r: String)
    ensures
        r@ == join_parts(issue_parts(pe as nat, sh as nat, am as nat, missing as nat, gaps)),
{
    let mut parts = String::new();
    let ghost p0: Seq<Seq<char>> = Seq::empty();
    let ghost p1 = if pe > 0 {
        p0.push(decimal(pe as nat) + " parse error(s)"@)
    } else {
        p0
    };
    if pe > 0 {
        add_part(&mut parts, Ghost(p0), true, pe, " parse error(s)");
    }
    let ghost p2 = if sh > 0 {
        p1.push(decimal(sh as nat) + " shadowed rule(s)"@)
    } else {
        p1
    };
    if sh > 0 {
        add_part(&mut parts, Ghost(p1), !(pe > 0), sh, " shadowed rule(s)");
    }
    let ghost p3 = if am > 0 {
        p2.push(decimal(am as nat) + " ambiguous overlap(s)"@)
    } else {
        p2
    };
    if am > 0 {
        add_part(&mut parts, Ghost(p2), !(pe > 0 || sh > 0), am, " ambiguous overlap(s)");
    }
    let ghost p4 = if gaps {
        p3.push(decimal(missing as nat) + " missing paradigm cell(s)"@)
    } else {
        p3
    };
    if gaps {
        add_part(&mut parts, Ghost(p3), !(pe > 0 || sh > 0 || am > 0), missing, " missing paradigm cell(s)");
    }
    assert(p4 =~= issue_parts(pe as nat, sh as nat, am as nat, missing as nat, gaps));
    parts
}

/// Summarises the findings of a check: clean when there are none; the verdict
/// counts them (each missing paradigm cell counts as an issue).
fn build_summary(
    parsed_count: usize,
    parse_errors: &[RuleParseError],
    shadowed_rules: &[ShadowedRule],
    ambiguous_overlaps: &[AmbiguousOverlap],
    paradigm_gaps: &[ParadigmGap],
    extra_clean_msg: &str,
) -> (r: ReportSummary)
    requires
        parse_errors@.len() + shadowed_rules@.len() + ambiguous_overlaps@.len() + missing_total(
            paradigm_gaps@,
        ) <= usize::MAX,
    ensures
        summary_is(
            r,
            parsed_count as nat,
            parse_errors@.len(),
            shadowed_rules@.len(),
            ambiguous_overlaps@.len(),
            paradigm_gaps@,
            extra_clean_msg@,
        ),
{
    let pe = parse_errors.len();
    let sh = shadowed_rules.len();
    let am = ambiguous_overlaps.len();
    let ng = paradigm_gaps.len();
    let clean = pe == 0 && sh == 0 && am == 0 && ng == 0;
    let missing = missing_cells_total(paradigm_gaps);
    let verdict = if clean {
        let mut v = concat2("All ", decimal_text(parsed_count).as_str());
        v.append(" rules are well-formed with no issues. ");
        v.append(extra_clean_msg);
        v
    } else {
        let mut v = decimal_text(pe + sh + am + missing);
        v.append(" issue(s) in ");
        v.append(decimal_text(parsed_count).as_str());
        v.append(" rules: ");
        v.append(verdict_parts(pe, sh, am, missing, ng > 0).as_str());
        v
    };
    ReportSummary { clean, parse_error_count: pe, shadowed_count: sh, ambiguous_count: am, verdict }
}

/// The missing total of a prefix grows by the next gap's cells.
proof fn lemma_missing_total_prefix(gaps: Seq<ParadigmGap>, k: int)
    requires
        0 < k <= gaps.len(),
    ensures
        missing_total(gaps.take(k)) == missing_total(gaps.take(k - 1)) + gaps[k - 1].missing_cells@.len(),
        missing_total(gaps.take(k)) <= missing_total(gaps),
    decreases gaps.len() - k,
{
    assert(gaps.take(k).drop_last() =~= gaps.take(k - 1));
    if k < gaps.len() {
        lemma_missing_total_prefix(gaps, k + 1);
    } else {
        assert(gaps.take(k) =~= gaps);
    }
}


// --- Templates ---
/// The rule templates a consistency check reads.
pub enum Template {
    Sandhi,
    Sup,
    Pratyaya,
    Anga,
    Tripadi,
}

/// A rule's parameters can be read as an entry of the template.
pub open spec fn tpl_parses(t: Template, p: Params) -> bool {
    match t {
        Template::Sandhi => sandhi_shape(p),
        Template::Sup => sup_check_shape(p),
        Template::Pratyaya => pratyaya_shape(p),
        Template::Anga => anga_check_shape(p),
        Template::Tripadi => tripadi_check_shape(p),
    }
}

/// Why a rule's parameters cannot be read as an entry of the template.
pub open spec fn tpl_error(t: Template, p: Params) -> Seq<char> {
    match t {
        Template::Sandhi => sandhi_error(p),
        Template::Sup => sup_check_error(p),
        Template::Pratyaya => pratyaya_check_error(p),
        Template::Anga => anga_check_error(p),
        Template::Tripadi => tripadi_check_error(p),
    }
}

/// An optional field, or "*" when absent.
pub open spec fn star(r: CachedRule, k: Seq<char>) -> Seq<char> {
    match rule_opt_text(r, k) {
        Some(x) => x,
        None => "*"@,
    }
}

/// The pattern under which a rule competes with the others.
pub open spec fn tpl_key(t: Template, r: CachedRule) -> Seq<char> {
    match t {
        Template::Sandhi => rule_text(r, "first"@) + " + "@ + rule_text(r, "second"@),
        Template::Sup => rule_text(r, "stem_class"@) + " / "@ + rule_text(r, "vibhakti"@) + " / "@
            + rule_text(r, "vacana"@),
        Template::Pratyaya => rule_text(r, "condition_stem_class"@) + " / "@ + rule_text(
            r,
            "condition_suffix"@,
        ) + " / "@ + rule_text(r, "input_suffix"@) + " ["@ + star(r, "condition_vibhakti"@) + "]"@,
        Template::Anga => "stem="@ + rule_text(r, "condition_stem_final"@) + " suffix="@ + star(
            r,
            "condition_suffix_initial"@,
        ) + " vacana="@ + star(r, "condition_vacana"@) + " vibhakti="@ + star(
            r,
            "condition_vibhakti"@,
        ) + " input="@ + rule_text(r, "operation_input"@),
        Template::Tripadi => rule_text(r, "position"@) + " / "@ + rule_text(r, "input"@) + " [prec="@
            + star(r, "condition_preceding"@) + "]"@,
    }
}

/// What a rule produces, for comparing rules of one pattern.
pub open spec fn tpl_result(t: Template, r: CachedRule) -> Seq<char> {
    match t {
        Template::Sandhi => rule_text(r, "result"@),
        Template::Sup => rule_text(r, "pratyaya"@) + "/"@ + rule_text(r, "suffix"@),
        Template::Pratyaya => rule_text(r, "output_suffix"@),
        Template::Anga => rule_text(r, "operation_output"@),
        Template::Tripadi => rule_text(r, "output"@),
    }
}

/// A rule takes part in the overlap check: it parses, and (for sandhi) has no
/// pratyaya condition.
pub open spec fn tpl_grouped(t: Template, r: CachedRule) -> bool {
    &&& tpl_parses(t, r.params)
    &&& (t is Sandhi ==> rule_opt_text(r, "condition_pratyaya"@) is None)
}

/// Checks a rule's parameters against the template.
fn tpl_check(t: &Template, p: &Params) -> (r: Result<(), String>)
    ensures
        r is Ok == tpl_parses(*t, *p),
        r matches Err(m) ==> m@ == tpl_error(*t, *p),
{
    match t {
        Template::Sandhi => check_sandhi_shape(p),
        Template::Sup => check_sup_check_shape(p),
        Template::Pratyaya => check_pratyaya_check_shape(p),
        Template::Anga => check_anga_check_shape(p),
        Template::Tripadi => check_tripadi_check_shape(p),
    }
}

/// An optional field, or "*".
fn star_of(r: &CachedRule, k: &str) -> (s: String)
    ensures
        s@ == star(*r, k@),
{
    match rule_get_opt_text(r, k) {
        Some(x) => x,
        None => owned("*"),
    }
}

/// The pattern of a rule.
fn key_of(t: &Template, r: &CachedRule) -> (s: String)
    ensures
        s@ == tpl_key(*t, *r),
{
    match t {
        Template::Sandhi => concat3(rule_get_text(r, "first").as_str(), " + ", rule_get_text(r, "second").as_str()),
        Template::Sup => {
            let mut s = concat3(rule_get_text(r, "stem_class").as_str(), " / ", rule_get_text(r, "vibhakti").as_str());
            s.append(" / ");
            s.append(rule_get_text(r, "vacana").as_str());
            s
        },
        Template::Pratyaya => {
            let mut s = concat3(
                rule_get_text(r, "condition_stem_class").as_str(),
                " / ",
                rule_get_text(r, "condition_suffix").as_str(),
            );
            s.append(" / ");
            s.append(rule_get_text(r, "input_suffix").as_str());
            s.append(" [");
            s.append(star_of(r, "condition_vibhakti").as_str());
            s.append("]");
            s
        },
        Template::Anga => {
            let mut s = concat2("stem=", rule_get_text(r, "condition_stem_final").as_str());
            s.append(" suffix=");
            s.append(star_of(r, "condition_suffix_initial").as_str());
            s.append(" vacana=");
            s.append(star_of(r, "condition_vacana").as_str());
            s.append(" vibhakti=");
            s.append(star_of(r, "condition_vibhakti").as_str());
            s.append(" input=");
            s.append(rule_get_text(r, "operation_input").as_str());
            s
        },
        Template::Tripadi => {
            let mut s = concat3(rule_get_text(r, "position").as_str(), " / ", rule_get_text(r, "input").as_str());
            s.append(" [prec=");
            s.append(star_of(r, "condition_preceding").as_str());
            s.append("]");
            s
        },
    }
}

/// What a rule produces.
fn result_of(t: &Template, r: &CachedRule) -> (s: String)
    ensures
        s@ == tpl_result(*t, *r),
{
    match t {
        Template::Sandhi => rule_get_text(r, "result"),
        Template::Sup => concat3(rule_get_text(r, "pratyaya").as_str(), "/", rule_get_text(r, "suffix").as_str()),
        Template::Pratyaya => rule_get_text(r, "output_suffix"),
        Template::Anga => rule_get_text(r, "operation_output"),
        Template::Tripadi => rule_get_text(r, "output"),
    }
}

/// Whether a rule takes part in the overlap check.
fn grouped(t: &Template, r: &CachedRule) -> (b: bool)
    ensures
        b == tpl_grouped(*t, *r),
{
    tpl_check(t, &r.params).is_ok() && match t {
        Template::Sandhi => rule_get_opt_text(r, "condition_pratyaya").is_none(),
        _ => true,
    }
}

// --- Parse errors ---
/// The view of a parse error: index, statement, message.
pub open spec fn parse_error_view(e: RuleParseError) -> (int, Seq<char>, Seq<char>) {
    (e.index as int, e.statement@, e.error@)
}

/// The parse errors of the rules, in order.
pub open spec fn parse_errors_of(t: Template, rules: Seq<CachedRule>) -> Seq<(int, Seq<char>, Seq<char>)> {
    somes(
        Seq::new(
            rules.len(),
            |i: int|
                if tpl_parses(t, rules[i].params) {
                    None
                } else {
                    Some((i, rules[i].statement@, tpl_error(t, rules[i].params)))
                },
        ),
    )
}

/// The rules that parse.
pub open spec fn parsed_flags(t: Template, rules: Seq<CachedRule>) -> Seq<bool> {
    Seq::new(rules.len(), |i: int| tpl_parses(t, rules[i].params))
}

/// Reads every rule, collecting the parse errors and marking the rules that parse.
fn parse_rules(t: &Template, rules: &[CachedRule]) -> (r: (Vec<RuleParseError>, Vec<bool>))
    ensures
        r.0@.map_values(|e: RuleParseError| parse_error_view(e)) == parse_errors_of(*t, rules@),
        r.1@ == parsed_flags(*t, rules@),
        r.0@.len() <= rules@.len(),
{
    let n = rules.len();
    let mut errors: Vec<RuleParseError> = Vec::new();
    let mut ok: Vec<bool> = Vec::new();
    let mut i: usize = 0;
    let ghost f = |i: int|
        if tpl_parses(*t, rules@[i].params) {
            None
        } else {
            Some((i, rules@[i].statement@, tpl_error(*t, rules@[i].params)))
        };
    while i < n
        invariant
            n == rules@.len(),
            i <= n,
            ok@ == Seq::new(i as nat, |j: int| tpl_parses(*t, rules@[j].params)),
            errors@.map_values(|e: RuleParseError| parse_error_view(e)) == somes(Seq::new(i as nat, f)),
            errors@.len() <= i,
            f == (|i: int|
                if tpl_parses(*t, rules@[i].params) {
                    None
                } else {
                    Some((i, rules@[i].statement@, tpl_error(*t, rules@[i].params)))
                }),
        decreases n - i,
    {
        let ghost before = errors@;
        assert(Seq::new((i + 1) as nat, f).drop_last() =~= Seq::new(i as nat, f));
        match tpl_check(t, &rules[i].params) {
            Ok(()) => {
                ok.push(true);
            },
            Err(e) => {
                ok.push(false);
                errors.push(RuleParseError { index: i, statement: rules[i].statement.clone(), error: e });
                assert(errors@.map_values(|e: RuleParseError| parse_error_view(e)) =~= before.map_values(
                    |e: RuleParseError| parse_error_view(e),
                ).push((i as int, rules@[i as int].statement@, tpl_error(*t, rules@[i as int].params))));
            },
        }
        assert(ok@ =~= Seq::new((i + 1) as nat, |j: int| tpl_parses(*t, rules@[j].params)));
        i += 1;
    }
    (errors, ok)
}


// --- Overlaps ---
/// The patterns of the rules that take part in the overlap check.
pub open spec fn keys_of(t: Template, rules: Seq<CachedRule>) -> Seq<Seq<char>> {
    somes(
        Seq::new(
            rules.len(),
            |i: int|
                if tpl_grouped(t, rules[i]) {
                    Some(tpl_key(t, rules[i]))
                } else {
                    None
                },
        ),
    )
}

/// The distinct patterns, in code-point order.
pub open spec fn patterns(t: Template, rules: Seq<CachedRule>) -> Seq<Seq<char>> {
    sorted_distinct(keys_of(t, rules))
}

/// The rules of one pattern.
pub open spec fn group_elig(t: Template, rules: Seq<CachedRule>, k: Seq<char>) -> Seq<bool> {
    Seq::new(rules.len(), |i: int| tpl_grouped(t, rules[i]) && tpl_key(t, rules[i]) == k)
}

/// The flagged positions in order.
pub open spec fn in_order(elig: Seq<bool>) -> Seq<int>
    decreases elig.len(),
{
    if elig.len() == 0 {
        Seq::empty()
    } else if elig.last() {
        in_order(elig.drop_last()).push(elig.len() - 1)
    } else {
        in_order(elig.drop_last())
    }
}

/// The rules of one pattern in the order they are compared: listing order for
/// sUP entries (the engine takes the first match), otherwise higher priority
/// first, then the later sūtra, then the rule listed first.
pub open spec fn group_order(t: Template, rules: Seq<CachedRule>, k: Seq<char>) -> Seq<int> {
    if t is Sup {
        in_order(group_elig(t, rules, k))
    } else {
        rank_order(rules, group_elig(t, rules, k), true)
    }
}

/// The view of a shadowed rule.
pub type ShadowView = (Seq<char>, Seq<char>, Seq<char>, Seq<char>, Seq<char>);

/// The view of an ambiguous overlap.
pub type AmbigView = (Seq<char>, Seq<char>, Seq<char>, Seq<char>, Seq<char>, Seq<char>, Seq<char>);

/// The contents of a shadowed-rule finding.
pub open spec fn shadow_view(s: ShadowedRule) -> ShadowView {
    (s.shadowed_sutra@, s.shadowed_type@, s.shadowed_by_sutra@, s.shadowed_by_type@, s.pattern@)
}

/// The contents of an ambiguous-overlap finding.
pub open spec fn ambig_view(a: AmbiguousOverlap) -> AmbigView {
    (
        a.pattern@,
        a.rule_a_sutra@,
        a.rule_a_result@,
        a.rule_a_type@,
        a.rule_b_sutra@,
        a.rule_b_result@,
        a.rule_b_type@,
    )
}

/// The sūtra of a rule.
pub open spec fn sutra_of(r: CachedRule) -> Seq<char> {
    rule_text(r, "sutra"@)
}

/// The type of a rule.
pub open spec fn type_of(r: CachedRule) -> Seq<char> {
    rule_text(r, "rule_type"@)
}

/// Rule `l`, compared after winner `w`, gives the same result: it is shadowed.
pub open spec fn shadow_of(t: Template, rules: Seq<CachedRule>, k: Seq<char>, w: int, l: int) -> Option<ShadowView> {
    if tpl_result(t, rules[l]) == tpl_result(t, rules[w]) {
        Some(
            if t is Sup {
                (sutra_of(rules[l]), "duplicate"@, sutra_of(rules[w]), "first-match"@, k)
            } else {
                (sutra_of(rules[l]), type_of(rules[l]), sutra_of(rules[w]), type_of(rules[w]), k)
            },
        )
    } else {
        None
    }
}

/// Rule `l` gives another result than winner `w` with nothing to choose between
/// them (equal priority; for sUP entries, always): an ambiguity.
pub open spec fn ambig_of(t: Template, rules: Seq<CachedRule>, k: Seq<char>, w: int, l: int) -> Option<AmbigView> {
    if tpl_result(t, rules[l]) != tpl_result(t, rules[w]) && (t is Sup || rule_priority(rules[w])
        == rule_priority(rules[l])) {
        Some(
            if t is Sup {
                (
                    k,
                    sutra_of(rules[w]),
                    tpl_result(t, rules[w]),
                    "first-match"@,
                    sutra_of(rules[l]),
                    tpl_result(t, rules[l]),
                    "shadowed"@,
                )
            } else {
                (
                    k,
                    sutra_of(rules[w]),
                    tpl_result(t, rules[w]),
                    type_of(rules[w]),
                    sutra_of(rules[l]),
                    tpl_result(t, rules[l]),
                    type_of(rules[l]),
                )
            },
        )
    } else {
        None
    }
}

/// The shadowed rules of one pattern: each rule after the first in compare
/// order whose result equals the first's.
pub open spec fn group_shadows(t: Template, rules: Seq<CachedRule>, k: Seq<char>) -> Seq<ShadowView> {
    let ord = group_order(t, rules, k);
    if ord.len() < 2 {
        Seq::empty()
    } else {
        somes(Seq::new((ord.len() - 1) as nat, |m: int| shadow_of(t, rules, k, ord[0], ord[m + 1])))
    }
}

/// The ambiguous overlaps of one pattern.
pub open spec fn group_ambigs(t: Template, rules: Seq<CachedRule>, k: Seq<char>) -> Seq<AmbigView> {
    let ord = group_order(t, rules, k);
    if ord.len() < 2 {
        Seq::empty()
    } else {
        somes(Seq::new((ord.len() - 1) as nat, |m: int| ambig_of(t, rules, k, ord[0], ord[m + 1])))
    }
}

/// The shadowed rules of every pattern, patterns in code-point order.
pub open spec fn all_shadows(t: Template, rules: Seq<CachedRule>) -> Seq<ShadowView> {
    let p = patterns(t, rules);
    Seq::new(p.len(), |j: int| group_shadows(t, rules, p[j])).flatten()
}

/// The ambiguous overlaps of every pattern, patterns in code-point order.
pub open spec fn all_ambigs(t: Template, rules: Seq<CachedRule>) -> Seq<AmbigView> {
    let p = patterns(t, rules);
    Seq::new(p.len(), |j: int| group_ambigs(t, rules, p[j])).flatten()
}

/// There are at most as many present values as entries.
pub proof fn lemma_somes_len<A>(s: Seq<Option<A>>)
    ensures
        somes(s).len() <= s.len(),
    decreases s.len(),
{
    if s.len() > 0 {
        lemma_somes_len(s.drop_last());
    }
}

/// At most as many rules are flagged as there are.
pub proof fn lemma_count_true_le(s: Seq<bool>)
    ensures
        count_true(s) <= s.len(),
    decreases s.len(),
{
    if s.len() > 0 {
        lemma_count_true_le(s.drop_last());
    }
}

/// The ranked order holds at most the flagged rules.
pub proof fn lemma_rank_order_len(rules: Seq<CachedRule>, elig: Seq<bool>, lf: bool)
    ensures
        rank_order(rules, elig, lf).len() <= count_true(elig),
    decreases count_true(elig),
{
    crate::engine::lemma_best_of_some(rules, elig, lf);
    match crate::engine::best_of(rules, elig, lf) {
        Some(b) => {
            crate::engine::lemma_count_true_clear(elig, b);
            lemma_rank_order_len(rules, elig.update(b, false), lf);
        },
        None => {},
    }
}

/// The flagged positions, in order, are as many as the flags and in range.
pub proof fn lemma_in_order(elig: Seq<bool>)
    ensures
        in_order(elig).len() == count_true(elig),
        forall|m: int| 0 <= m < in_order(elig).len() ==> 0 <= #[trigger] in_order(elig)[m] < elig.len(),
    decreases elig.len(),
{
    if elig.len() > 0 {
        lemma_in_order(elig.drop_last());
    }
}

/// The flagged positions, in order, are flagged and increase.
pub proof fn lemma_in_order_sorted(elig: Seq<bool>, i: int, j: int)
    requires
        0 <= i < j < in_order(elig).len(),
    ensures
        in_order(elig)[i] < in_order(elig)[j],
        elig[in_order(elig)[i]],
        elig[in_order(elig)[j]],
    decreases elig.len(),
{
    lemma_in_order(elig.drop_last());
    let prev = in_order(elig.drop_last());
    if elig.last() && j == prev.len() {
        if i + 1 < j {
            lemma_in_order_sorted(elig.drop_last(), i, j - 1);
        } else if prev.len() > 0 {
            lemma_in_order_flagged(elig.drop_last(), i);
        }
        assert(prev[i] < elig.len() - 1);
    } else {
        lemma_in_order_sorted(elig.drop_last(), i, j);
    }
}

/// A flagged position listed in order is flagged.
pub proof fn lemma_in_order_flagged(elig: Seq<bool>, i: int)
    requires
        0 <= i < in_order(elig).len(),
    ensures
        elig[in_order(elig)[i]],
        0 <= in_order(elig)[i] < elig.len(),
    decreases elig.len(),
{
    lemma_in_order(elig);
    lemma_in_order(elig.drop_last());
    let prev = in_order(elig.drop_last());
    if !(elig.last() && i == prev.len()) {
        lemma_in_order_flagged(elig.drop_last(), i);
    }
}

/// Counting flags of two disjoint flag sets together adds their counts.
pub proof fn lemma_count_or(a: Seq<bool>, b: Seq<bool>)
    requires
        a.len() == b.len(),
        forall|i: int| 0 <= i < a.len() ==> !(a[i] && b[i]),
    ensures
        count_true(Seq::new(a.len(), |i: int| a[i] || b[i])) == count_true(a) + count_true(b),
    decreases a.len(),
{
    let c = Seq::new(a.len(), |i: int| a[i] || b[i]);
    if a.len() > 0 {
        lemma_count_or(a.drop_last(), b.drop_last());
        assert(c.drop_last() =~= Seq::new(
            a.drop_last().len(),
            |i: int| a.drop_last()[i] || b.drop_last()[i],
        ));
    }
}

/// The patterns of the rules: their distinct patterns in code-point order.
fn pattern_list(t: &Template, rules: &[CachedRule]) -> (r: Vec<String>)
    ensures
        texts(r@) == patterns(*t, rules@),
{
    let n = rules.len();
    let mut set: Vec<String> = Vec::new();
    let mut i: usize = 0;
    let ghost f = |i: int|
        if tpl_grouped(*t, rules@[i]) {
            Some(tpl_key(*t, rules@[i]))
        } else {
            None
        };
    assert(set@.map_values(|t: String| t@) =~= Seq::<Seq<char>>::empty());
    while i < n
        invariant
            n == rules@.len(),
            i <= n,
            f == (|i: int|
                if tpl_grouped(*t, rules@[i]) {
                    Some(tpl_key(*t, rules@[i]))
                } else {
                    None
                }),
            texts(set@) == sorted_distinct(somes(Seq::new(i as nat, f))),
        decreases n - i,
    {
        assert(Seq::new((i + 1) as nat, f).drop_last() =~= Seq::new(i as nat, f));
        if grouped(t, &rules[i]) {
            let k = key_of(t, &rules[i]);
            insert_text_sorted(&mut set, k.as_str());
            assert(somes(Seq::new((i + 1) as nat, f)) == somes(Seq::new(i as nat, f)).push(k@));
            assert(somes(Seq::new((i + 1) as nat, f)).drop_last() =~= somes(Seq::new(i as nat, f)));
        }
        i += 1;
    }
    assert(Seq::new(n as nat, f) =~= Seq::new(
        rules@.len(),
        |i: int|
            if tpl_grouped(*t, rules@[i]) {
                Some(tpl_key(*t, rules@[i]))
            } else {
                None
            },
    ));
    set
}

/// Marks the rules of one pattern.
fn group_flags(t: &Template, rules: &[CachedRule], k: &str) -> (r: Vec<bool>)
    ensures
        r@ == group_elig(*t, rules@, k@),
{
    let n = rules.len();
    let mut out: Vec<bool> = Vec::new();
    let mut i: usize = 0;
    while i < n
        invariant
            n == rules@.len(),
            i <= n,
            out@ == Seq::new(i as nat, |j: int| tpl_grouped(*t, rules@[j]) && tpl_key(*t, rules@[j]) == k@),
        decreases n - i,
    {
        let b = grouped(t, &rules[i]) && text_eq(key_of(t, &rules[i]).as_str(), k);
        out.push(b);
        assert(out@ =~= Seq::new(
            (i + 1) as nat,
            |j: int| tpl_grouped(*t, rules@[j]) && tpl_key(*t, rules@[j]) == k@,
        ));
        i += 1;
    }
    out
}

/// The flagged positions in order.
fn flagged_in_order(flags: &Vec<bool>) -> (r: Vec<usize>)
    ensures
        crate::engine::as_ints(r@) == in_order(flags@),
{
    let n = flags.len();
    let mut out: Vec<usize> = Vec::new();
    let mut i: usize = 0;
    while i < n
        invariant
            n == flags@.len(),
            i <= n,
            crate::engine::as_ints(out@) == in_order(flags@.take(i as int)),
        decreases n - i,
    {
        assert(flags@.take(i + 1).drop_last() =~= flags@.take(i as int));
        if flags[i] {
            out.push(i);
            assert(crate::engine::as_ints(out@) =~= in_order(flags@.take(i as int)).push(i as int));
        }
        i += 1;
    }
    assert(flags@.take(n as int) =~= flags@);
    out
}


/// Two sequences of options that are never both present have at most as many
/// present values together as entries.
pub proof fn lemma_somes_exclusive<A, B>(a: Seq<Option<A>>, b: Seq<Option<B>>)
    requires
        a.len() == b.len(),
        forall|i: int| 0 <= i < a.len() ==> !(a[i] is Some && b[i] is Some),
    ensures
        somes(a).len() + somes(b).len() <= a.len(),
    decreases a.len(),
{
    if a.len() > 0 {
        lemma_somes_exclusive(a.drop_last(), b.drop_last());
    }
}

/// A pattern's findings are fewer than its rules.
pub proof fn lemma_group_findings_bound(t: Template, rules: Seq<CachedRule>, k: Seq<char>)
    ensures
        group_shadows(t, rules, k).len() + group_ambigs(t, rules, k).len() <= count_true(
            group_elig(t, rules, k),
        ),
{
    let ord = group_order(t, rules, k);
    if t is Sup {
        lemma_in_order(group_elig(t, rules, k));
    } else {
        lemma_rank_order_len(rules, group_elig(t, rules, k), true);
    }
    if ord.len() >= 2 {
        let a = Seq::new((ord.len() - 1) as nat, |m: int| shadow_of(t, rules, k, ord[0], ord[m + 1]));
        let b = Seq::new((ord.len() - 1) as nat, |m: int| ambig_of(t, rules, k, ord[0], ord[m + 1]));
        lemma_somes_exclusive(a, b);
    }
}

/// Records the shadowed rules and ambiguous overlaps of one pattern: the first
/// rule in compare order wins; each later rule with the same result is
/// shadowed, and each with another result at the same priority (for sUP
/// entries, at any) is ambiguous.
fn check_overlap_group(
    t: &Template,
    rules: &[CachedRule],
    pattern: &str,
    shadowed_rules: &mut Vec<ShadowedRule>,
    ambiguous_overlaps: &mut Vec<AmbiguousOverlap>,
)
    ensures
        final(shadowed_rules)@.map_values(|s: ShadowedRule| shadow_view(s)) == old(
            shadowed_rules,
        )@.map_values(|s: ShadowedRule| shadow_view(s)) + group_shadows(*t, rules@, pattern@),
        final(ambiguous_overlaps)@.map_values(|a: AmbiguousOverlap| ambig_view(a)) == old(
            ambiguous_overlaps,
        )@.map_values(|a: AmbiguousOverlap| ambig_view(a)) + group_ambigs(*t, rules@, pattern@),
{
    let ghost s0 = shadowed_rules@.map_values(|s: ShadowedRule| shadow_view(s));
    let ghost a0 = ambiguous_overlaps@.map_values(|a: AmbiguousOverlap| ambig_view(a));
    let flags = group_flags(t, rules, pattern);
    let is_sup = match t {
        Template::Sup => true,
        _ => false,
    };
    let order = if is_sup {
        flagged_in_order(&flags)
    } else {
        ranked_indices(rules, &flags, true)
    };
    let ghost ord = group_order(*t, rules@, pattern@);
    proof {
        if is_sup {
            lemma_in_order(flags@);
        } else {
            crate::declension::lemma_rank_order_in_range(rules@, flags@, true);
        }
    }
    assert(crate::engine::as_ints(order@) == ord);
    if order.len() < 2 {
        assert(s0 + group_shadows(*t, rules@, pattern@) =~= s0);
        assert(a0 + group_ambigs(*t, rules@, pattern@) =~= a0);
        return;
    }
    let w = order[0];
    assert(ord[0] == w as int);
    let rw = &rules[w];
    let wres = result_of(t, rw);
    let wsutra = rule_get_text(rw, "sutra");
    let wtype = rule_get_text(rw, "rule_type");
    let ghost fs = |m: int| shadow_of(*t, rules@, pattern@, ord[0], ord[m + 1]);
    let ghost fa = |m: int| ambig_of(*t, rules@, pattern@, ord[0], ord[m + 1]);
    let mut m: usize = 1;
    while m < order.len()
        invariant
            crate::engine::as_ints(order@) == ord,
            forall|x: int| 0 <= x < ord.len() ==> 0 <= #[trigger] ord[x] < rules@.len(),
            2 <= order@.len(),
            1 <= m <= order@.len(),
            ord[0] == w as int,
            wres@ == tpl_result(*t, rules@[w as int]),
            wsutra@ == sutra_of(rules@[w as int]),
            wtype@ == type_of(rules@[w as int]),
            is_sup == (*t is Sup),
            fs == (|m: int| shadow_of(*t, rules@, pattern@, ord[0], ord[m + 1])),
            fa == (|m: int| ambig_of(*t, rules@, pattern@, ord[0], ord[m + 1])),
            shadowed_rules@.map_values(|s: ShadowedRule| shadow_view(s)) == s0 + somes(
                Seq::new((m - 1) as nat, fs),
            ),
            ambiguous_overlaps@.map_values(|a: AmbiguousOverlap| ambig_view(a)) == a0 + somes(
                Seq::new((m - 1) as nat, fa),
            ),
        decreases order@.len() - m,
    {
        let l = order[m];
        assert(ord[m as int] == l as int);
        let rl = &rules[l];
        let lres = result_of(t, rl);
        let lsutra = rule_get_text(rl, "sutra");
        let ltype = rule_get_text(rl, "rule_type");
        let ghost sb = shadowed_rules@.map_values(|s: ShadowedRule| shadow_view(s));
        let ghost ab = ambiguous_overlaps@.map_values(|a: AmbiguousOverlap| ambig_view(a));
        assert(Seq::new(m as nat, fs).drop_last() =~= Seq::new((m - 1) as nat, fs));
        assert(Seq::new(m as nat, fa).drop_last() =~= Seq::new((m - 1) as nat, fa));
        if text_eq(lres.as_str(), wres.as_str()) {
            let (st, bt) = if is_sup {
                (owned("duplicate"), owned("first-match"))
            } else {
                (ltype.clone(), wtype.clone())
            };
            shadowed_rules.push(
                ShadowedRule {
                    shadowed_sutra: lsutra,
                    shadowed_type: st,
                    shadowed_by_sutra: wsutra.clone(),
                    shadowed_by_type: bt,
                    pattern: owned(pattern),
                },
            );
            assert(shadowed_rules@.map_values(|s: ShadowedRule| shadow_view(s)) =~= sb.push(
                fs(m - 1)->0,
            ));
        } else if is_sup || rule_type_priority(wtype.as_str()) == rule_type_priority(ltype.as_str()) {
            let (at, bt) = if is_sup {
                (owned("first-match"), owned("shadowed"))
            } else {
                (wtype.clone(), ltype.clone())
            };
            ambiguous_overlaps.push(
                AmbiguousOverlap {
                    pattern: owned(pattern),
                    rule_a_sutra: wsutra.clone(),
                    rule_a_result: wres.clone(),
                    rule_a_type: at,
                    rule_b_sutra: lsutra,
                    rule_b_result: lres,
                    rule_b_type: bt,
                },
            );
            assert(ambiguous_overlaps@.map_values(|a: AmbiguousOverlap| ambig_view(a)) =~= ab.push(
                fa(m - 1)->0,
            ));
        }
        m += 1;
    }
    assert(Seq::new((order@.len() - 1) as nat, fs) =~= Seq::new(
        (ord.len() - 1) as nat,
        |m: int| shadow_of(*t, rules@, pattern@, ord[0], ord[m + 1]),
    ));
    assert(Seq::new((order@.len() - 1) as nat, fa) =~= Seq::new(
        (ord.len() - 1) as nat,
        |m: int| ambig_of(*t, rules@, pattern@, ord[0], ord[m + 1]),
    ));
}


/// The rules whose pattern is among the first `j` patterns.
pub open spec fn covered(t: Template, rules: Seq<CachedRule>, ps: Seq<Seq<char>>, j: int) -> Seq<bool> {
    Seq::new(rules.len(), |i: int| tpl_grouped(t, rules[i]) && ps.take(j).contains(tpl_key(t, rules[i])))
}

/// The shadowed rules and ambiguous overlaps of all patterns, in pattern order;
/// there are no more findings than rules.
fn find_overlaps(t: &Template, rules: &[CachedRule]) -> (r: (Vec<ShadowedRule>, Vec<AmbiguousOverlap>))
    ensures
        r.0@.map_values(|s: ShadowedRule| shadow_view(s)) == all_shadows(*t, rules@),
        r.1@.map_values(|a: AmbiguousOverlap| ambig_view(a)) == all_ambigs(*t, rules@),
        r.0@.len() + r.1@.len() <= rules@.len(),
{
    let pats = pattern_list(t, rules);
    let ghost ps = patterns(*t, rules@);
    proof {
        crate::sorted::lemma_sorted_distinct(keys_of(*t, rules@));
    }
    let mut shadowed: Vec<ShadowedRule> = Vec::new();
    let mut ambiguous: Vec<AmbiguousOverlap> = Vec::new();
    let ghost gs = |j: int| group_shadows(*t, rules@, ps[j]);
    let ghost ga = |j: int| group_ambigs(*t, rules@, ps[j]);
    let mut j: usize = 0;
    assert(shadowed@.map_values(|s: ShadowedRule| shadow_view(s)) =~= Seq::new(0, gs).flatten());
    assert(ambiguous@.map_values(|a: AmbiguousOverlap| ambig_view(a)) =~= Seq::new(0, ga).flatten());
    assert(covered(*t, rules@, ps, 0) =~= Seq::new(rules@.len(), |i: int| false));
    proof {
        lemma_count_false(rules@.len());
    }
    while j < pats.len()
        invariant
            texts(pats@) == ps,
            ps == patterns(*t, rules@),
            crate::sorted::strictly_sorted(ps),
            j <= pats@.len(),
            gs == (|j: int| group_shadows(*t, rules@, ps[j])),
            ga == (|j: int| group_ambigs(*t, rules@, ps[j])),
            shadowed@.map_values(|s: ShadowedRule| shadow_view(s)) == Seq::new(j as nat, gs).flatten(),
            ambiguous@.map_values(|a: AmbiguousOverlap| ambig_view(a)) == Seq::new(j as nat, ga).flatten(),
            shadowed@.len() + ambiguous@.len() <= count_true(covered(*t, rules@, ps, j as int)),
        decreases pats@.len() - j,
    {
        let ghost c0 = covered(*t, rules@, ps, j as int);
        let ghost k = ps[j as int];
        assert(pats@[j as int]@ == k);
        let ghost l0 = shadowed@.len() + ambiguous@.len();
        let ghost sv0 = shadowed@.map_values(|s: ShadowedRule| shadow_view(s));
        let ghost av0 = ambiguous@.map_values(|a: AmbiguousOverlap| ambig_view(a));
        check_overlap_group(t, rules, pats[j].as_str(), &mut shadowed, &mut ambiguous);
        proof {
            assert(shadowed@.len() == shadowed@.map_values(|s: ShadowedRule| shadow_view(s)).len());
            assert(ambiguous@.len() == ambiguous@.map_values(|a: AmbiguousOverlap| ambig_view(a)).len());
            assert(shadowed@.len() + ambiguous@.len() == l0 + group_shadows(*t, rules@, k).len()
                + group_ambigs(*t, rules@, k).len());
            assert(Seq::new((j + 1) as nat, gs) =~= Seq::new(j as nat, gs).push(gs(j as int)));
            assert(Seq::new((j + 1) as nat, ga) =~= Seq::new(j as nat, ga).push(ga(j as int)));
            lemma_group_findings_bound(*t, rules@, k);
            let g = group_elig(*t, rules@, k);
            let c1 = covered(*t, rules@, ps, j + 1);
            let t0 = ps.take(j as int);
            let t1 = ps.take(j + 1);
            assert forall|i: int| 0 <= i < rules@.len() implies !(c0[i] && g[i]) by {
                if c0[i] && g[i] {
                    let x = tpl_key(*t, rules@[i]);
                    let q = choose|q: int| 0 <= q < t0.len() && #[trigger] t0[q] == x;
                    assert(ps[q] == ps[j as int]);
                    assert(text_before(ps[q], ps[j as int]));
                    lemma_text_before_irreflexive(ps[q]);
                }
            }
            assert forall|i: int| 0 <= i < rules@.len() implies c1[i] == (c0[i] || g[i]) by {
                let x = tpl_key(*t, rules@[i]);
                if t1.contains(x) {
                    let q = choose|q: int| 0 <= q < t1.len() && #[trigger] t1[q] == x;
                    if q < j {
                        assert(t0[q] == x);
                    }
                }
                if t0.contains(x) {
                    let q = choose|q: int| 0 <= q < t0.len() && #[trigger] t0[q] == x;
                    assert(t1[q] == x);
                }
                if x == k {
                    assert(t1[j as int] == x);
                }
            }
            assert(c1 =~= Seq::new(c0.len(), |i: int| c0[i] || g[i]));
            lemma_count_or(c0, g);
        }
        j += 1;
    }
    proof {
        assert(Seq::new(pats@.len() as nat, gs) =~= Seq::new(ps.len(), |j: int| group_shadows(*t, rules@, ps[j])));
        assert(Seq::new(pats@.len() as nat, ga) =~= Seq::new(ps.len(), |j: int| group_ambigs(*t, rules@, ps[j])));
        lemma_count_true_le(covered(*t, rules@, ps, j as int));
    }
    (shadowed, ambiguous)
}

/// No rule is flagged among none.
pub proof fn lemma_count_false(n: nat)
    ensures
        count_true(Seq::new(n, |i: int| false)) == 0,
    decreases n,
{
    if n > 0 {
        assert(Seq::new(n, |i: int| false).drop_last() =~= Seq::new((n - 1) as nat, |i: int| false));
        lemma_count_false((n - 1) as nat);
    }
}


// --- Coverage ---
/// A field of a rule: its text (absent as empty), or, for an optional field,
/// its text when present.
pub open spec fn field_value(r: CachedRule, key: Seq<char>, opt: bool) -> Option<Seq<char>> {
    if opt {
        rule_opt_text(r, key)
    } else {
        Some(rule_text(r, key))
    }
}

/// The values of a field over the rules that parse, in order.
pub open spec fn values_of(t: Template, rules: Seq<CachedRule>, key: Seq<char>, opt: bool) -> Seq<Seq<char>> {
    somes(
        Seq::new(
            rules.len(),
            |i: int|
                if tpl_parses(t, rules[i].params) {
                    field_value(rules[i], key, opt)
                } else {
                    None
                },
        ),
    )
}

/// The distinct values of a field over the rules that parse, in code-point order.
fn field_values(t: &Template, rules: &[CachedRule], key: &str, opt: bool) -> (r: Vec<String>)
    ensures
        texts(r@) == sorted_distinct(values_of(*t, rules@, key@, opt)),
{
    let n = rules.len();
    let mut set: Vec<String> = Vec::new();
    let ghost f = |i: int|
        if tpl_parses(*t, rules@[i].params) {
            field_value(rules@[i], key@, opt)
        } else {
            None
        };
    assert(texts(set@) =~= Seq::<Seq<char>>::empty());
    let mut i: usize = 0;
    while i < n
        invariant
            n == rules@.len(),
            i <= n,
            f == (|i: int|
                if tpl_parses(*t, rules@[i].params) {
                    field_value(rules@[i], key@, opt)
                } else {
                    None
                }),
            texts(set@) == sorted_distinct(somes(Seq::new(i as nat, f))),
        decreases n - i,
    {
        assert(Seq::new((i + 1) as nat, f).drop_last() =~= Seq::new(i as nat, f));
        if tpl_check(t, &rules[i].params).is_ok() {
            let v = if opt {
                rule_get_opt_text(&rules[i], key)
            } else {
                Some(rule_get_text(&rules[i], key))
            };
            match v {
                Some(x) => {
                    insert_text_sorted(&mut set, x.as_str());
                    assert(somes(Seq::new((i + 1) as nat, f)).drop_last() =~= somes(Seq::new(i as nat, f)));
                },
                None => {},
            }
        }
        i += 1;
    }
    assert(Seq::new(n as nat, f) =~= Seq::new(
        rules@.len(),
        |i: int|
            if tpl_parses(*t, rules@[i].params) {
                field_value(rules@[i], key@, opt)
            } else {
                None
            },
    ));
    set
}

/// What a rule is counted under.
pub enum TallyKind {
    /// Its sūtra, when it names one.
    Sutra,
    /// Its type, or "unspecified".
    Type,
    /// The one kind "suffix-lookup".
    Lookup,
}

/// The key a rule that parses is counted under, if any.
pub open spec fn tally_key(kind: TallyKind, r: CachedRule) -> Option<Seq<char>> {
    match kind {
        TallyKind::Sutra => if sutra_of(r).len() > 0 {
            Some(sutra_of(r))
        } else {
            None
        },
        TallyKind::Type => Some(type_key(type_of(r))),
        TallyKind::Lookup => Some("suffix-lookup"@),
    }
}

/// The keys the rules that parse are counted under, in order.
pub open spec fn tally_keys(t: Template, rules: Seq<CachedRule>, kind: TallyKind) -> Seq<Seq<char>> {
    somes(
        Seq::new(
            rules.len(),
            |i: int|
                if tpl_parses(t, rules[i].params) {
                    tally_key(kind, rules[i])
                } else {
                    None
                },
        ),
    )
}

/// Counts the rules that parse by key.
fn tally_rules(t: &Template, rules: &[CachedRule], kind: &TallyKind) -> (r: Vec<(String, usize)>)
    ensures
        counts_view(r@) == tally(tally_keys(*t, rules@, *kind)),
{
    let n = rules.len();
    let mut map: Vec<(String, usize)> = Vec::new();
    let ghost f = |i: int|
        if tpl_parses(*t, rules@[i].params) {
            tally_key(*kind, rules@[i])
        } else {
            None
        };
    assert(counts_view(map@) =~= Seq::<(Seq<char>, nat)>::empty());
    let mut i: usize = 0;
    while i < n
        invariant
            n == rules@.len(),
            i <= n,
            f == (|i: int|
                if tpl_parses(*t, rules@[i].params) {
                    tally_key(*kind, rules@[i])
                } else {
                    None
                }),
            counts_view(map@) == tally(somes(Seq::new(i as nat, f))),
        decreases n - i,
    {
        let ghost prev = somes(Seq::new(i as nat, f));
        proof {
            lemma_tally_bound(prev);
            lemma_somes_len(Seq::new(i as nat, f));
        }
        assert(Seq::new((i + 1) as nat, f).drop_last() =~= Seq::new(i as nat, f));
        if tpl_check(t, &rules[i].params).is_ok() {
            let r = &rules[i];
            match kind {
                TallyKind::Sutra => {
                    count_sutra(rule_get_text(r, "sutra").as_str(), &mut map);
                },
                TallyKind::Type => {
                    count_type(rule_get_text(r, "rule_type").as_str(), &mut map);
                },
                TallyKind::Lookup => {
                    bump_count(&mut map, "suffix-lookup");
                },
            }
            proof {
                match f(i as int) {
                    Some(x) => {
                        assert(somes(Seq::new((i + 1) as nat, f)).drop_last() =~= prev);
                    },
                    None => {},
                }
            }
        }
        i += 1;
    }
    assert(Seq::new(n as nat, f) =~= Seq::new(
        rules@.len(),
        |i: int|
            if tpl_parses(*t, rules@[i].params) {
                tally_key(*kind, rules@[i])
            } else {
                None
            },
    ));
    map
}

/// Rule `i` is selected, and no earlier selected rule has the same two fields.
pub open spec fn first_of_pair(sel: Seq<bool>, rules: Seq<CachedRule>, k1: Seq<char>, k2: Seq<char>, i: int) -> bool {
    &&& sel[i]
    &&& forall|j: int|
        0 <= j < i && sel[j] ==> !(rule_text(rules[j], k1) == rule_text(rules[i], k1) && rule_text(
            rules[j],
            k2,
        ) == rule_text(rules[i], k2))
}

/// The number of distinct pairs of two fields over the selected rules.
pub open spec fn distinct_pairs(sel: Seq<bool>, rules: Seq<CachedRule>, k1: Seq<char>, k2: Seq<char>) -> nat {
    count_true(Seq::new(sel.len(), |i: int| first_of_pair(sel, rules, k1, k2, i)))
}

/// Whether rule `i` is the first selected rule with its pair of fields.
fn is_first_of_pair(sel: &Vec<bool>, rules: &[CachedRule], k1: &str, k2: &str, i: usize) -> (b: bool)
    requires
        sel@.len() == rules@.len(),
        i < rules@.len(),
    ensures
        b == first_of_pair(sel@, rules@, k1@, k2@, i as int),
{
    if !sel[i] {
        return false;
    }
    let a1 = rule_get_text(&rules[i], k1);
    let a2 = rule_get_text(&rules[i], k2);
    let mut j: usize = 0;
    while j < i
        invariant
            sel@.len() == rules@.len(),
            i < rules@.len(),
            j <= i,
            a1@ == rule_text(rules@[i as int], k1@),
            a2@ == rule_text(rules@[i as int], k2@),
            forall|q: int|
                0 <= q < j && sel@[q] ==> !(rule_text(rules@[q], k1@) == rule_text(rules@[i as int], k1@)
                    && rule_text(rules@[q], k2@) == rule_text(rules@[i as int], k2@)),
        decreases i - j,
    {
        if sel[j] && text_eq(rule_get_text(&rules[j], k1).as_str(), a1.as_str()) && text_eq(
            rule_get_text(&rules[j], k2).as_str(),
            a2.as_str(),
        ) {
            return false;
        }
        j += 1;
    }
    true
}

/// The number of distinct pairs of two fields over the selected rules.
fn count_distinct_pairs(sel: &Vec<bool>, rules: &[CachedRule], k1: &str, k2: &str) -> (r: usize)
    requires
        sel@.len() == rules@.len(),
    ensures
        r == distinct_pairs(sel@, rules@, k1@, k2@),
        r <= rules@.len(),
{
    let n = rules.len();
    let ghost f = |i: int| first_of_pair(sel@, rules@, k1@, k2@, i);
    let mut c: usize = 0;
    let mut i: usize = 0;
    while i < n
        invariant
            n == rules@.len(),
            sel@.len() == n,
            i <= n,
            f == (|i: int| first_of_pair(sel@, rules@, k1@, k2@, i)),
            c == count_true(Seq::new(i as nat, f)),
            c <= i,
        decreases n - i,
    {
        assert(Seq::new((i + 1) as nat, f).drop_last() =~= Seq::new(i as nat, f));
        if is_first_of_pair(sel, rules, k1, k2, i) {
            c += 1;
        }
        i += 1;
    }
    assert(Seq::new(n as nat, f) =~= Seq::new(sel@.len(), |i: int| first_of_pair(sel@, rules@, k1@, k2@, i)));
    c
}

/// Counts the flags that are set.
fn count_set(flags: &Vec<bool>) -> (r: usize)
    ensures
        r == count_true(flags@),
{
    let n = flags.len();
    let mut c: usize = 0;
    let mut i: usize = 0;
    while i < n
        invariant
            n == flags@.len(),
            i <= n,
            c == count_true(flags@.take(i as int)),
            c <= i,
        decreases n - i,
    {
        assert(flags@.take(i + 1).drop_last() =~= flags@.take(i as int));
        if flags[i] {
            c += 1;
        }
        i += 1;
    }
    assert(flags@.take(n as int) =~= flags@);
    c
}


// --- Paradigm completeness of sUP entries ---
/// The case names a paradigm has, in order.
pub open spec fn vibhakti_code(v: int) -> Seq<char> {
    if v == 0 {
        "prathama"@
    } else if v == 1 {
        "dvitiya"@
    } else if v == 2 {
        "tritiya"@
    } else if v == 3 {
        "caturthi"@
    } else if v == 4 {
        "pancami"@
    } else if v == 5 {
        "sasthi"@
    } else if v == 6 {
        "saptami"@
    } else {
        "sambodhana"@
    }
}

/// The number names a paradigm has, in order.
pub open spec fn vacana_code(v: int) -> Seq<char> {
    if v == 0 {
        "ekavacana"@
    } else if v == 1 {
        "dvivacana"@
    } else {
        "bahuvacana"@
    }
}

/// A sUP entry that parses and fills this cell of this stem class.
pub open spec fn sup_cell(r: CachedRule, sc: Seq<char>, vib: Seq<char>, vac: Seq<char>) -> bool {
    &&& sup_check_shape(r.params)
    &&& rule_text(r, "stem_class"@) == sc
    &&& rule_text(r, "vibhakti"@) == vib
    &&& rule_text(r, "vacana"@) == vac
}

/// Some entry fills this cell of this stem class.
pub open spec fn cell_present(rules: Seq<CachedRule>, sc: Seq<char>, vib: Seq<char>, vac: Seq<char>) -> bool {
    exists|i: int| 0 <= i < rules.len() && #[trigger] sup_cell(rules[i], sc, vib, vac)
}

/// The cells of the 24 (eight cases by three numbers, case by case) that no
/// entry of the class fills, each named "case number".
pub open spec fn missing_cells(rules: Seq<CachedRule>, sc: Seq<char>) -> Seq<Seq<char>> {
    somes(
        Seq::new(
            24,
            |c: int|
                if cell_present(rules, sc, vibhakti_code(c / 3), vacana_code(c % 3)) {
                    None
                } else {
                    Some(vibhakti_code(c / 3) + " "@ + vacana_code(c % 3))
                },
        ),
    )
}

/// The entries of a stem class.
pub open spec fn class_sel(rules: Seq<CachedRule>, sc: Seq<char>) -> Seq<bool> {
    Seq::new(rules.len(), |i: int| sup_check_shape(rules[i].params) && rule_text(rules[i], "stem_class"@) == sc)
}

/// The stem classes of the entries, distinct, in code-point order.
pub open spec fn sup_classes_of(rules: Seq<CachedRule>) -> Seq<Seq<char>> {
    sorted_distinct(values_of(Template::Sup, rules, "stem_class"@, false))
}

/// The view of a paradigm gap.
pub open spec fn gap_view(g: ParadigmGap) -> (Seq<char>, Seq<Seq<char>>, nat, nat) {
    (g.stem_class@, texts(g.missing_cells@), g.present as nat, g.expected as nat)
}

/// For each stem class with missing cells, in order: the class, its missing
/// cells, the number of distinct cells its entries fill, and 24.
pub open spec fn sup_gaps(rules: Seq<CachedRule>) -> Seq<(Seq<char>, Seq<Seq<char>>, nat, nat)> {
    let cls = sup_classes_of(rules);
    somes(
        Seq::new(
            cls.len(),
            |j: int|
                if missing_cells(rules, cls[j]).len() > 0 {
                    Some(
                        (
                            cls[j],
                            missing_cells(rules, cls[j]),
                            distinct_pairs(class_sel(rules, cls[j]), rules, "vibhakti"@, "vacana"@),
                            24nat,
                        ),
                    )
                } else {
                    None
                },
        ),
    )
}

/// The name of case `v`.
fn vibhakti_text(v: usize) -> (r: &'static str)
    ensures
        r@ == vibhakti_code(v as int),
{
    if v == 0 {
        "prathama"
    } else if v == 1 {
        "dvitiya"
    } else if v == 2 {
        "tritiya"
    } else if v == 3 {
        "caturthi"
    } else if v == 4 {
        "pancami"
    } else if v == 5 {
        "sasthi"
    } else if v == 6 {
        "saptami"
    } else {
        "sambodhana"
    }
}

/// The name of number `v`.
fn vacana_text(v: usize) -> (r: &'static str)
    ensures
        r@ == vacana_code(v as int),
{
    if v == 0 {
        "ekavacana"
    } else if v == 1 {
        "dvivacana"
    } else {
        "bahuvacana"
    }
}

/// Whether some entry fills this cell of this stem class.
fn has_cell(rules: &[CachedRule], sc: &str, vib: &str, vac: &str) -> (b: bool)
    ensures
        b == cell_present(rules@, sc@, vib@, vac@),
{
    let n = rules.len();
    let mut i: usize = 0;
    while i < n
        invariant
            n == rules@.len(),
            i <= n,
            forall|j: int| 0 <= j < i ==> !sup_cell(rules@[j], sc@, vib@, vac@),
        decreases n - i,
    {
        let r = &rules[i];
        if check_sup_check_shape(&r.params).is_ok() && text_eq(rule_get_text(r, "stem_class").as_str(), sc)
            && text_eq(rule_get_text(r, "vibhakti").as_str(), vib) && text_eq(
            rule_get_text(r, "vacana").as_str(),
            vac,
        ) {
            assert(sup_cell(rules@[i as int], sc@, vib@, vac@));
            return true;
        }
        i += 1;
    }
    false
}

/// The missing cells of a stem class.
fn class_missing_cells(rules: &[CachedRule], sc: &str) -> (r: Vec<String>)
    ensures
        texts(r@) == missing_cells(rules@, sc@),
        r@.len() <= 24,
{
    let ghost f = |c: int|
        if cell_present(rules@, sc@, vibhakti_code(c / 3), vacana_code(c % 3)) {
            None
        } else {
            Some(vibhakti_code(c / 3) + " "@ + vacana_code(c % 3))
        };
    let mut out: Vec<String> = Vec::new();
    let mut c: usize = 0;
    assert(texts(out@) =~= Seq::<Seq<char>>::empty());
    while c < 24
        invariant
            c <= 24,
            f == (|c: int|
                if cell_present(rules@, sc@, vibhakti_code(c / 3), vacana_code(c % 3)) {
                    None
                } else {
                    Some(vibhakti_code(c / 3) + " "@ + vacana_code(c % 3))
                }),
            texts(out@) == somes(Seq::new(c as nat, f)),
            out@.len() <= c,
        decreases 24 - c,
    {
        assert(Seq::new((c + 1) as nat, f).drop_last() =~= Seq::new(c as nat, f));
        let vib = vibhakti_text(c / 3);
        let vac = vacana_text(c % 3);
        if !has_cell(rules, sc, vib, vac) {
            let ghost before = texts(out@);
            out.push(concat3(vib, " ", vac));
            assert(texts(out@) =~= before.push(vib@ + " "@ + vac@));
        }
        c += 1;
    }
    assert(Seq::new(24, f) =~= Seq::new(
        24,
        |c: int|
            if cell_present(rules@, sc@, vibhakti_code(c / 3), vacana_code(c % 3)) {
                None
            } else {
                Some(vibhakti_code(c / 3) + " "@ + vacana_code(c % 3))
            },
    ));
    out
}

/// Marks the entries of a stem class.
fn class_flags(rules: &[CachedRule], sc: &str) -> (r: Vec<bool>)
    ensures
        r@ == class_sel(rules@, sc@),
{
    let n = rules.len();
    let mut out: Vec<bool> = Vec::new();
    let mut i: usize = 0;
    while i < n
        invariant
            n == rules@.len(),
            i <= n,
            out@ == Seq::new(
                i as nat,
                |j: int| sup_check_shape(rules@[j].params) && rule_text(rules@[j], "stem_class"@) == sc@,
            ),
        decreases n - i,
    {
        let r = &rules[i];
        out.push(check_sup_check_shape(&r.params).is_ok() && text_eq(rule_get_text(r, "stem_class").as_str(), sc));
        assert(out@ =~= Seq::new(
            (i + 1) as nat,
            |j: int| sup_check_shape(rules@[j].params) && rule_text(rules@[j], "stem_class"@) == sc@,
        ));
        i += 1;
    }
    out
}

/// The gaps of the stem classes `classes`, in order.
fn paradigm_gaps_of(rules: &[CachedRule], classes: &Vec<String>) -> (r: Vec<ParadigmGap>)
    requires
        texts(classes@) == sup_classes_of(rules@),
    ensures
        r@.map_values(|g: ParadigmGap| gap_view(g)) == sup_gaps(rules@),
        missing_total(r@) <= 24 * classes@.len(),
{
    let ghost cls = sup_classes_of(rules@);
    let ghost f = |j: int|
        if missing_cells(rules@, cls[j]).len() > 0 {
            Some(
                (
                    cls[j],
                    missing_cells(rules@, cls[j]),
                    distinct_pairs(class_sel(rules@, cls[j]), rules@, "vibhakti"@, "vacana"@),
                    24nat,
                ),
            )
        } else {
            None
        };
    let mut gaps: Vec<ParadigmGap> = Vec::new();
    let mut j: usize = 0;
    assert(gaps@.map_values(|g: ParadigmGap| gap_view(g)) =~= Seq::<(Seq<char>, Seq<Seq<char>>, nat, nat)>::empty());
    while j < classes.len()
        invariant
            texts(classes@) == cls,
            j <= classes@.len(),
            f == (|j: int|
                if missing_cells(rules@, cls[j]).len() > 0 {
                    Some(
                        (
                            cls[j],
                            missing_cells(rules@, cls[j]),
                            distinct_pairs(class_sel(rules@, cls[j]), rules@, "vibhakti"@, "vacana"@),
                            24nat,
                        ),
                    )
                } else {
                    None
                }),
            gaps@.map_values(|g: ParadigmGap| gap_view(g)) == somes(Seq::new(j as nat, f)),
            missing_total(gaps@) <= 24 * j,
        decreases classes@.len() - j,
    {
        assert(Seq::new((j + 1) as nat, f).drop_last() =~= Seq::new(j as nat, f));
        let sc = classes[j].as_str();
        assert(cls[j as int] == sc@);
        let missing = class_missing_cells(rules, sc);
        if missing.len() > 0 {
            let sel = class_flags(rules, sc);
            let present = count_distinct_pairs(&sel, rules, "vibhakti", "vacana");
            let ghost before = gaps@;
            let ghost bv = gaps@.map_values(|g: ParadigmGap| gap_view(g));
            gaps.push(ParadigmGap { stem_class: owned(sc), missing_cells: missing, present, expected: 24 });
            assert(gaps@.drop_last() =~= before);
            assert(gaps@.map_values(|g: ParadigmGap| gap_view(g)) =~= bv.push(f(j as int)->0));
        }
        j += 1;
    }
    assert(Seq::new(classes@.len() as nat, f) =~= Seq::new(
        cls.len(),
        |j: int|
            if missing_cells(rules@, cls[j]).len() > 0 {
                Some(
                    (
                        cls[j],
                        missing_cells(rules@, cls[j]),
                        distinct_pairs(class_sel(rules@, cls[j]), rules@, "vibhakti"@, "vacana"@),
                        24nat,
                    ),
                )
            } else {
                None
            },
    ));
    gaps
}

/// A sorted set grows by at most one on insertion.
pub proof fn lemma_insert_sorted_len(s: Seq<Seq<char>>, k: Seq<char>)
    ensures
        insert_sorted(s, k).len() <= s.len() + 1,
    decreases s.len(),
{
    if s.len() > 0 {
        lemma_insert_sorted_len(s.drop_first(), k);
    }
}

/// There are no more distinct texts than texts.
pub proof fn lemma_sorted_distinct_len(keys: Seq<Seq<char>>)
    ensures
        sorted_distinct(keys).len() <= keys.len(),
    decreases keys.len(),
{
    if keys.len() > 0 {
        lemma_sorted_distinct_len(keys.drop_last());
        lemma_insert_sorted_len(sorted_distinct(keys.drop_last()), keys.last());
    }
}


// --- Reports ---
/// The contents of coverage dimensions: label and values.
pub open spec fn dims_view(v: Seq<CoverageDimension>) -> Seq<(Seq<char>, Seq<Seq<char>>)> {
    v.map_values(|d: CoverageDimension| (d.label@, texts(d.values@)))
}

/// A coverage dimension: a label and the distinct values of a field.
pub open spec fn dim(label: Seq<char>, t: Template, rules: Seq<CachedRule>, key: Seq<char>, opt: bool) -> (
    Seq<char>,
    Seq<Seq<char>>,
) {
    (label, sorted_distinct(values_of(t, rules, key, opt)))
}

/// The number of rules that parse.
pub open spec fn parsed_count(t: Template, rules: Seq<CachedRule>) -> nat {
    count_true(parsed_flags(t, rules))
}

/// The number of sūtras the rules that parse cite.
pub open spec fn sutra_count(t: Template, rules: Seq<CachedRule>) -> nat {
    tally(tally_keys(t, rules, TallyKind::Sutra)).len()
}

/// What every report holds: its template, the number of rules, the parse
/// errors, the shadowed rules, the ambiguous overlaps, the counts by sūtra,
/// and a summary of those with the extra note.
pub open spec fn findings_are(r: CheckReport, t: Template, rules: Seq<CachedRule>, name: Seq<char>, extra: Seq<char>) -> bool {
    &&& r.template@ == name
    &&& r.total_rules == rules.len()
    &&& r.parse_errors@.map_values(|e: RuleParseError| parse_error_view(e)) == parse_errors_of(t, rules)
    &&& r.shadowed_rules@.map_values(|s: ShadowedRule| shadow_view(s)) == all_shadows(t, rules)
    &&& r.ambiguous_overlaps@.map_values(|a: AmbiguousOverlap| ambig_view(a)) == all_ambigs(t, rules)
    &&& counts_view(r.coverage.rules_by_sutra@) == tally(tally_keys(t, rules, TallyKind::Sutra))
    &&& summary_is(
        r.summary,
        parsed_count(t, rules),
        parse_errors_of(t, rules).len(),
        all_shadows(t, rules).len(),
        all_ambigs(t, rules).len(),
        r.paradigm_gaps@,
        extra,
    )
}

/// The note of a clean sandhi report.
pub open spec fn sandhi_note(rules: Seq<CachedRule>) -> Seq<char> {
    decimal(distinct_pairs(parsed_flags(Template::Sandhi, rules), rules, "first"@, "second"@))
        + " unique phoneme pairs covered across "@ + decimal(sutra_count(Template::Sandhi, rules))
        + " sūtras."@
}

/// Builds a report from its parts.
fn assemble(
    t: &Template,
    rules: &[CachedRule],
    name: &str,
    dimensions: Vec<CoverageDimension>,
    covered: usize,
    covered_label: &str,
    by_type: Vec<(String, usize)>,
    paradigm_gaps: Vec<ParadigmGap>,
    extra: String,
) -> (r: CheckReport)
    requires
        2 * rules@.len() + missing_total(paradigm_gaps@) <= usize::MAX,
    ensures
        findings_are(r, *t, rules@, name@, extra@),
        r.coverage.dimensions == dimensions,
        r.coverage.covered_combinations == covered,
        r.coverage.covered_combinations_label@ == covered_label@,
        r.coverage.rules_by_type == by_type,
        r.paradigm_gaps == paradigm_gaps,
{
    let (parse_errors, ok) = parse_rules(t, rules);
    let parsed = count_set(&ok);
    let (shadowed_rules, ambiguous_overlaps) = find_overlaps(t, rules);
    let by_sutra = tally_rules(t, rules, &TallyKind::Sutra);
    proof {
        assert(parse_errors@.len() == parse_errors@.map_values(|e: RuleParseError| parse_error_view(e)).len());
        assert(shadowed_rules@.len() == shadowed_rules@.map_values(|s: ShadowedRule| shadow_view(s)).len());
        assert(ambiguous_overlaps@.len() == ambiguous_overlaps@.map_values(|a: AmbiguousOverlap| ambig_view(a)).len());
    }
    let summary = build_summary(
        parsed,
        parse_errors.as_slice(),
        shadowed_rules.as_slice(),
        ambiguous_overlaps.as_slice(),
        paradigm_gaps.as_slice(),
        extra.as_str(),
    );
    CheckReport {
        template: owned(name),
        total_rules: rules.len(),
        parse_errors,
        shadowed_rules,
        ambiguous_overlaps,
        coverage: CoverageSummary {
            dimensions,
            covered_combinations: covered,
            covered_combinations_label: owned(covered_label),
            rules_by_sutra: by_sutra,
            rules_by_type: by_type,
        },
        paradigm_gaps,
        summary,
    }
}

/// A coverage dimension over the distinct values of a field.
fn dimension(t: &Template, rules: &[CachedRule], label: &str, key: &str, opt: bool) -> (r: CoverageDimension)
    ensures
        (r.label@, texts(r.values@)) == dim(label@, *t, rules@, key@, opt),
{
    CoverageDimension { label: owned(label), values: field_values(t, rules, key, opt) }
}

/// The number of sūtras cited by the rules that parse.
fn count_sutras(t: &Template, rules: &[CachedRule]) -> (r: usize)
    ensures
        r == sutra_count(*t, rules@),
{
    tally_rules(t, rules, &TallyKind::Sutra).len()
}

/// Checks the sandhi rules: entries that do not parse; for each pattern
/// (first + second, leaving out rules with a pratyaya condition), rules
/// shadowed by or ambiguous with the highest-ranked one; the first and second
/// phonemes covered, the distinct pairs, and the counts by sūtra and type.
pub fn check_sandhi_rules(rules: &[CachedRule]) -> (r: CheckReport)
    requires
        rules@.len() <= usize::MAX / 2,
    ensures
        findings_are(r, Template::Sandhi, rules@, "sandhi_rule"@, sandhi_note(rules@)),
        dims_view(r.coverage.dimensions@) == seq![
            dim("first phonemes"@, Template::Sandhi, rules@, "first"@, false),
            dim("second phonemes"@, Template::Sandhi, rules@, "second"@, false),
        ],
        r.coverage.covered_combinations == distinct_pairs(
            parsed_flags(Template::Sandhi, rules@),
            rules@,
            "first"@,
            "second"@,
        ),
        r.coverage.covered_combinations_label@ == "phoneme pairs"@,
        counts_view(r.coverage.rules_by_type@) == tally(tally_keys(Template::Sandhi, rules@, TallyKind::Type)),
        r.paradigm_gaps@.len() == 0,
{
    let t = Template::Sandhi;
    let (_, ok) = parse_rules(&t, rules);
    let d1 = dimension(&t, rules, "first phonemes", "first", false);
    let d2 = dimension(&t, rules, "second phonemes", "second", false);
    let dims = vec![d1, d2];
    assert(dims_view(dims@) =~= seq![
        dim("first phonemes"@, Template::Sandhi, rules@, "first"@, false),
        dim("second phonemes"@, Template::Sandhi, rules@, "second"@, false),
    ]);
    let pairs = count_distinct_pairs(&ok, rules, "first", "second");
    let mut extra = decimal_text(pairs);
    extra.append(" unique phoneme pairs covered across ");
    extra.append(decimal_text(count_sutras(&t, rules)).as_str());
    extra.append(" sūtras.");
    let by_type = tally_rules(&t, rules, &TallyKind::Type);
    let gaps: Vec<ParadigmGap> = Vec::new();
    assert(missing_total(gaps@) == 0);
    assemble(&t, rules, "sandhi_rule", dims, pairs, "phoneme pairs", by_type, gaps, extra)
}


/// The note of a clean report that counts its rules: "N <what> across M sūtras."
pub open spec fn counted_note(t: Template, rules: Seq<CachedRule>, what: Seq<char>) -> Seq<char> {
    decimal(parsed_count(t, rules)) + what + decimal(sutra_count(t, rules)) + " sūtras."@
}

/// A report whose covered combinations are the rules that parse, with counts by type.
fn counted_report(
    t: &Template,
    rules: &[CachedRule],
    name: &str,
    dimensions: Vec<CoverageDimension>,
    covered_label: &str,
    what: &str,
) -> (r: CheckReport)
    requires
        rules@.len() <= usize::MAX / 2,
    ensures
        findings_are(r, *t, rules@, name@, counted_note(*t, rules@, what@)),
        r.coverage.dimensions == dimensions,
        r.coverage.covered_combinations == parsed_count(*t, rules@),
        r.coverage.covered_combinations_label@ == covered_label@,
        counts_view(r.coverage.rules_by_type@) == tally(tally_keys(*t, rules@, TallyKind::Type)),
        r.paradigm_gaps@.len() == 0,
{
    let (_, ok) = parse_rules(t, rules);
    let parsed = count_set(&ok);
    let mut extra = decimal_text(parsed);
    extra.append(what);
    extra.append(decimal_text(count_sutras(t, rules)).as_str());
    extra.append(" sūtras.");
    let by_type = tally_rules(t, rules, &TallyKind::Type);
    let gaps: Vec<ParadigmGap> = Vec::new();
    assert(missing_total(gaps@) == 0);
    assemble(t, rules, name, dimensions, parsed, covered_label, by_type, gaps, extra)
}

/// Checks the suffix-modification rules: entries that do not parse; for each
/// pattern (stem class / condition suffix / input suffix [vibhakti or *]),
/// rules shadowed by or ambiguous with the highest-ranked one; the stem
/// classes and pratyayas covered, and the counts by sūtra and type.
pub fn check_pratyaya_rules(rules: &[CachedRule]) -> (r: CheckReport)
    requires
        rules@.len() <= usize::MAX / 2,
    ensures
        findings_are(
            r,
            Template::Pratyaya,
            rules@,
            "pratyaya_rule"@,
            counted_note(Template::Pratyaya, rules@, " modification rules across "@),
        ),
        dims_view(r.coverage.dimensions@) == seq![
            dim("stem classes"@, Template::Pratyaya, rules@, "condition_stem_class"@, false),
            dim("pratyayas"@, Template::Pratyaya, rules@, "condition_suffix"@, false),
        ],
        r.coverage.covered_combinations == parsed_count(Template::Pratyaya, rules@),
        r.coverage.covered_combinations_label@ == "modification rules"@,
        counts_view(r.coverage.rules_by_type@) == tally(tally_keys(Template::Pratyaya, rules@, TallyKind::Type)),
        r.paradigm_gaps@.len() == 0,
{
    let t = Template::Pratyaya;
    let d1 = dimension(&t, rules, "stem classes", "condition_stem_class", false);
    let d2 = dimension(&t, rules, "pratyayas", "condition_suffix", false);
    let dims = vec![d1, d2];
    assert(dims_view(dims@) =~= seq![
        dim("stem classes"@, Template::Pratyaya, rules@, "condition_stem_class"@, false),
        dim("pratyayas"@, Template::Pratyaya, rules@, "condition_suffix"@, false),
    ]);
    counted_report(&t, rules, "pratyaya_rule", dims, "modification rules", " modification rules across ")
}

/// Checks the stem-modification rules: entries that do not parse; for each
/// pattern (stem final, suffix initial, vacana, vibhakti, input), rules
/// shadowed by or ambiguous with the highest-ranked one; the stem finals and
/// suffix initials covered, and the counts by sūtra and type.
pub fn check_anga_rules(rules: &[CachedRule]) -> (r: CheckReport)
    requires
        rules@.len() <= usize::MAX / 2,
    ensures
        findings_are(
            r,
            Template::Anga,
            rules@,
            "anga_rule"@,
            counted_note(Template::Anga, rules@, " stem modification rules across "@),
        ),
        dims_view(r.coverage.dimensions@) == seq![
            dim("stem-final phonemes"@, Template::Anga, rules@, "condition_stem_final"@, false),
            dim("suffix-initial phonemes"@, Template::Anga, rules@, "condition_suffix_initial"@, true),
        ],
        r.coverage.covered_combinations == parsed_count(Template::Anga, rules@),
        r.coverage.covered_combinations_label@ == "stem modification rules"@,
        counts_view(r.coverage.rules_by_type@) == tally(tally_keys(Template::Anga, rules@, TallyKind::Type)),
        r.paradigm_gaps@.len() == 0,
{
    let t = Template::Anga;
    let d1 = dimension(&t, rules, "stem-final phonemes", "condition_stem_final", false);
    let d2 = dimension(&t, rules, "suffix-initial phonemes", "condition_suffix_initial", true);
    let dims = vec![d1, d2];
    assert(dims_view(dims@) =~= seq![
        dim("stem-final phonemes"@, Template::Anga, rules@, "condition_stem_final"@, false),
        dim("suffix-initial phonemes"@, Template::Anga, rules@, "condition_suffix_initial"@, true),
    ]);
    counted_report(&t, rules, "anga_rule", dims, "stem modification rules", " stem modification rules across ")
}

/// Checks the tripādī rules: entries that do not parse; for each pattern
/// (position / input [preceding condition or *]), rules shadowed by or
/// ambiguous with the highest-ranked one; the positions covered, and the
/// counts by sūtra and type.
pub fn check_tripadi_rules(rules: &[CachedRule]) -> (r: CheckReport)
    requires
        rules@.len() <= usize::MAX / 2,
    ensures
        findings_are(
            r,
            Template::Tripadi,
            rules@,
            "tripadi_rule"@,
            counted_note(Template::Tripadi, rules@, " tripādī rules across "@),
        ),
        dims_view(r.coverage.dimensions@) == seq![
            dim("positions"@, Template::Tripadi, rules@, "position"@, false),
        ],
        r.coverage.covered_combinations == parsed_count(Template::Tripadi, rules@),
        r.coverage.covered_combinations_label@ == "tripādī rules"@,
        counts_view(r.coverage.rules_by_type@) == tally(tally_keys(Template::Tripadi, rules@, TallyKind::Type)),
        r.paradigm_gaps@.len() == 0,
{
    let t = Template::Tripadi;
    let d1 = dimension(&t, rules, "positions", "position", false);
    let dims = vec![d1];
    assert(dims_view(dims@) =~= seq![dim("positions"@, Template::Tripadi, rules@, "position"@, false)]);
    counted_report(&t, rules, "tripadi_rule", dims, "tripādī rules", " tripādī rules across ")
}

/// The note of a clean sUP report: classes, filled cells, and possible cells.
pub open spec fn sup_note(rules: Seq<CachedRule>) -> Seq<char> {
    decimal(sup_classes_of(rules).len()) + " stem class(es), "@ + decimal(patterns(Template::Sup, rules).len())
        + " of "@ + decimal(sup_classes_of(rules).len() * 24) + " paradigm cells filled."@
}

/// Checks the sUP suffix entries: entries that do not parse; for each cell
/// (stem class / vibhakti / vacana), later entries that duplicate the first
/// (shadowed) or differ from it (ambiguous, as only the first is used); the
/// cells each stem class is missing of the 24; the stem classes, vibhaktis
/// and vacanas covered; the cells filled; and the counts by sūtra.
pub fn check_sup_suffix(rules: &[CachedRule]) -> (r: CheckReport)
    requires
        rules@.len() <= usize::MAX / 32,
    ensures
        findings_are(r, Template::Sup, rules@, "sup_suffix"@, sup_note(rules@)),
        dims_view(r.coverage.dimensions@) == seq![
            dim("stem classes"@, Template::Sup, rules@, "stem_class"@, false),
            dim("vibhaktis"@, Template::Sup, rules@, "vibhakti"@, false),
            dim("vacanas"@, Template::Sup, rules@, "vacana"@, false),
        ],
        r.coverage.covered_combinations == patterns(Template::Sup, rules@).len(),
        r.coverage.covered_combinations_label@ == "paradigm cells"@,
        counts_view(r.coverage.rules_by_type@) == tally(tally_keys(Template::Sup, rules@, TallyKind::Lookup)),
        r.paradigm_gaps@.map_values(|g: ParadigmGap| gap_view(g)) == sup_gaps(rules@),
{
    let t = Template::Sup;
    let classes = field_values(&t, rules, "stem_class", false);
    proof {
        lemma_sorted_distinct_len(values_of(t, rules@, "stem_class"@, false));
        lemma_somes_len(
            Seq::new(
                rules@.len(),
                |i: int|
                    if tpl_parses(t, rules@[i].params) {
                        field_value(rules@[i], "stem_class"@, false)
                    } else {
                        None
                    },
            ),
        );
    }
    let gaps = paradigm_gaps_of(rules, &classes);
    let d1 = CoverageDimension { label: owned("stem classes"), values: classes };
    let d2 = dimension(&t, rules, "vibhaktis", "vibhakti", false);
    let d3 = dimension(&t, rules, "vacanas", "vacana", false);
    let nclasses = d1.values.len();
    let dims = vec![d1, d2, d3];
    assert(dims_view(dims@) =~= seq![
        dim("stem classes"@, Template::Sup, rules@, "stem_class"@, false),
        dim("vibhaktis"@, Template::Sup, rules@, "vibhakti"@, false),
        dim("vacanas"@, Template::Sup, rules@, "vacana"@, false),
    ]);
    let cells = pattern_list(&t, rules).len();
    let mut extra = decimal_text(nclasses);
    extra.append(" stem class(es), ");
    extra.append(decimal_text(cells).as_str());
    extra.append(" of ");
    extra.append(decimal_text(nclasses * 24).as_str());
    extra.append(" paradigm cells filled.");
    let by_type = tally_rules(&t, rules, &TallyKind::Lookup);
    assemble(&t, rules, "sup_suffix", dims, cells, "paradigm cells", by_type, gaps, extra)
}


/// The slug (and report name) of each template.
pub open spec fn template_name(t: Template) -> Seq<char> {
    match t {
        Template::Sandhi => "sandhi_rule"@,
        Template::Sup => "sup_suffix"@,
        Template::Pratyaya => "pratyaya_rule"@,
        Template::Anga => "anga_rule"@,
        Template::Tripadi => "tripadi_rule"@,
    }
}

/// The note a clean report of each template ends with.
pub open spec fn check_note(t: Template, rules: Seq<CachedRule>) -> Seq<char> {
    match t {
        Template::Sandhi => sandhi_note(rules),
        Template::Sup => sup_note(rules),
        Template::Pratyaya => counted_note(t, rules, " modification rules across "@),
        Template::Anga => counted_note(t, rules, " stem modification rules across "@),
        Template::Tripadi => counted_note(t, rules, " tripādī rules across "@),
    }
}

/// The slug of a template.
pub fn template_slug(t: &Template) -> (r: &'static str)
    ensures
        r@ == template_name(*t),
{
    match t {
        Template::Sandhi => "sandhi_rule",
        Template::Sup => "sup_suffix",
        Template::Pratyaya => "pratyaya_rule",
        Template::Anga => "anga_rule",
        Template::Tripadi => "tripadi_rule",
    }
}

/// Runs the check of a template.
pub fn check_template(t: &Template, rules: &[CachedRule]) -> (r: CheckReport)
    requires
        rules@.len() <= usize::MAX / 32,
    ensures
        findings_are(r, *t, rules@, template_name(*t), check_note(*t, rules@)),
{
    match t {
        Template::Sandhi => check_sandhi_rules(rules),
        Template::Sup => check_sup_suffix(rules),
        Template::Pratyaya => check_pratyaya_rules(rules),
        Template::Anga => check_anga_rules(rules),
        Template::Tripadi => check_tripadi_rules(rules),
    }
}


/// Each rule in a ranked order is eligible, and the first outranks every later one.
pub proof fn lemma_rank_order_members(rules: Seq<CachedRule>, elig: Seq<bool>, lf: bool, m: int)
    requires
        elig.len() == rules.len(),
        0 <= m < rank_order(rules, elig, lf).len(),
    ensures
        elig[rank_order(rules, elig, lf)[m]],
        m > 0 ==> rank_order(rules, elig, lf)[0] != rank_order(rules, elig, lf)[m]
            && crate::engine::outranks(rules, rank_order(rules, elig, lf)[0], rank_order(rules, elig, lf)[m], lf),
    decreases count_true(elig),
{
    crate::engine::lemma_best_of_some(rules, elig, lf);
    let b = crate::engine::best_of(rules, elig, lf)->0;
    crate::engine::lemma_count_true_clear(elig, b);
    let e2 = elig.update(b, false);
    let rest = rank_order(rules, e2, lf);
    assert(rank_order(rules, elig, lf) == seq![b] + rest);
    if m > 0 {
        lemma_rank_order_members(rules, e2, lf, m - 1);
        crate::declension::lemma_rank_order_in_range(rules, e2, lf);
        let x = rest[m - 1];
        assert(0 <= x < e2.len());
        assert(e2[x]);
        assert(x != b);
        assert(elig[x]);
    }
}

/// Of the sandhi rules of one pattern, only the first in compare order can ever
/// join two words: each later one (every rule the check reports as shadowed or
/// ambiguous for that pattern) is never the rule a join uses. Stated for rules
/// whose patterns agree part by part.
pub proof fn law_later_rules_never_join(rules: Seq<CachedRule>, k: Seq<char>, m: int, first: Seq<char>, second: Seq<char>)
    requires
        1 <= m < group_order(Template::Sandhi, rules, k).len(),
        rule_text(rules[group_order(Template::Sandhi, rules, k)[0]], "first"@) == rule_text(
            rules[group_order(Template::Sandhi, rules, k)[m]],
            "first"@,
        ),
        rule_text(rules[group_order(Template::Sandhi, rules, k)[0]], "second"@) == rule_text(
            rules[group_order(Template::Sandhi, rules, k)[m]],
            "second"@,
        ),
    ensures
        crate::sandhi::join_choice(rules, first, second) != Some(group_order(Template::Sandhi, rules, k)[m]),
{
    let ge = group_elig(Template::Sandhi, rules, k);
    let ord = group_order(Template::Sandhi, rules, k);
    lemma_rank_order_members(rules, ge, true, m);
    lemma_rank_order_members(rules, ge, true, 0);
    crate::declension::lemma_rank_order_in_range(rules, ge, true);
    let w = ord[0];
    let l = ord[m];
    assert(0 <= w < rules.len() && 0 <= l < rules.len());
    let je = crate::sandhi::join_eligible(rules, first, second);
    crate::engine::lemma_best_of_some(rules, je, true);
    if crate::sandhi::join_choice(rules, first, second) == Some(l) {
        assert(je[l]);
        assert(crate::sandhi::joinable(rules, w, first, second));
        assert(je[w]);
        assert(crate::engine::outranks(rules, l, w, true));
        crate::engine::lemma_outranks_asymmetric(rules, w, l, true);
    }
}

/// A cell that the check finds missing for a stem class has no sUP entry the
/// engine can use: declining any stem of that class in that case and number
/// fails.
pub proof fn law_missing_cell_cannot_decline(
    rules: Seq<CachedRule>,
    pr: Seq<CachedRule>,
    an: Seq<CachedRule>,
    sa: Seq<CachedRule>,
    tr: Seq<CachedRule>,
    stem: Seq<char>,
    sc: Seq<char>,
    case: Seq<char>,
    number: Seq<char>,
)
    requires
        !cell_present(rules, sc, crate::declension::case_name(case), crate::declension::number_name(number)),
    ensures
        crate::declension::decline(rules, pr, an, sa, tr, stem, sc, case, number) is None,
{
    let vib = crate::declension::case_name(case);
    let vac = crate::declension::number_name(number);
    let flags = Seq::new(rules.len(), |i: int| crate::declension::sup_matches(rules[i], sc, vib, vac));
    if crate::declension::sup_choice(rules, sc, vib, vac) is Some {
        let i = choose|i: int| crate::engine::is_first(flags, i);
        assert(crate::declension::sup_matches(rules[i], sc, vib, vac));
        assert(sup_cell(rules[i], sc, vib, vac));
    }
}

/// Of the sUP entries for one cell, only the first is ever used: each later one
/// (every entry the check reports as shadowed or ambiguous for that cell) is
/// never the entry a declension selects, when the first is one the engine
/// reads. Stated for entries whose cells agree part by part.
pub proof fn law_later_sup_entries_never_chosen(
    rules: Seq<CachedRule>,
    k: Seq<char>,
    m: int,
    sc: Seq<char>,
    vib: Seq<char>,
    vac: Seq<char>,
)
    requires
        1 <= m < group_order(Template::Sup, rules, k).len(),
        sup_shape(rules[group_order(Template::Sup, rules, k)[0]].params),
        rule_text(rules[group_order(Template::Sup, rules, k)[0]], "stem_class"@) == rule_text(
            rules[group_order(Template::Sup, rules, k)[m]],
            "stem_class"@,
        ),
        rule_text(rules[group_order(Template::Sup, rules, k)[0]], "vibhakti"@) == rule_text(
            rules[group_order(Template::Sup, rules, k)[m]],
            "vibhakti"@,
        ),
        rule_text(rules[group_order(Template::Sup, rules, k)[0]], "vacana"@) == rule_text(
            rules[group_order(Template::Sup, rules, k)[m]],
            "vacana"@,
        ),
    ensures
        crate::declension::sup_choice(rules, sc, vib, vac) != Some(group_order(Template::Sup, rules, k)[m]),
{
    let ge = group_elig(Template::Sup, rules, k);
    let ord = group_order(Template::Sup, rules, k);
    lemma_in_order_sorted(ge, 0, m);
    lemma_in_order_flagged(ge, 0);
    lemma_in_order_flagged(ge, m);
    let w = ord[0];
    let l = ord[m];
    let flags = Seq::new(rules.len(), |i: int| crate::declension::sup_matches(rules[i], sc, vib, vac));
    if crate::declension::sup_choice(rules, sc, vib, vac) == Some(l) {
        assert(crate::engine::is_first(flags, l));
        assert(crate::declension::sup_matches(rules[l], sc, vib, vac));
        assert(crate::declension::sup_matches(rules[w], sc, vib, vac));
        assert(flags[w]);
    }
}

/// Of the pratyaya rules of one pattern, only the first in compare order can
/// ever rewrite a suffix: each later one (every rule the check reports as
/// shadowed or ambiguous for that pattern) is never the rule a declension
/// uses. Stated for rules whose patterns agree part by part.
pub proof fn law_later_pratyaya_rules_never_used(
    rules: Seq<CachedRule>,
    k: Seq<char>,
    m: int,
    cls: Seq<char>,
    vib: Seq<char>,
    pname: Seq<char>,
    suffix: Seq<char>,
)
    requires
        1 <= m < group_order(Template::Pratyaya, rules, k).len(),
        rule_text(rules[group_order(Template::Pratyaya, rules, k)[0]], "condition_stem_class"@) == rule_text(
            rules[group_order(Template::Pratyaya, rules, k)[m]],
            "condition_stem_class"@,
        ),
        rule_text(rules[group_order(Template::Pratyaya, rules, k)[0]], "condition_suffix"@) == rule_text(
            rules[group_order(Template::Pratyaya, rules, k)[m]],
            "condition_suffix"@,
        ),
        rule_text(rules[group_order(Template::Pratyaya, rules, k)[0]], "input_suffix"@) == rule_text(
            rules[group_order(Template::Pratyaya, rules, k)[m]],
            "input_suffix"@,
        ),
        rule_opt_text(rules[group_order(Template::Pratyaya, rules, k)[0]], "condition_vibhakti"@) == rule_opt_text(
            rules[group_order(Template::Pratyaya, rules, k)[m]],
            "condition_vibhakti"@,
        ),
    ensures
        crate::declension::pratyaya_choice(rules, cls, vib, pname, suffix) != Some(
            group_order(Template::Pratyaya, rules, k)[m],
        ),
{
    let ge = group_elig(Template::Pratyaya, rules, k);
    let ord = group_order(Template::Pratyaya, rules, k);
    lemma_rank_order_members(rules, ge, true, m);
    lemma_rank_order_members(rules, ge, true, 0);
    crate::declension::lemma_rank_order_in_range(rules, ge, true);
    let w = ord[0];
    let l = ord[m];
    let pe = Seq::new(rules.len(), |i: int| crate::declension::pratyaya_applies(rules[i], cls, vib, pname, suffix));
    crate::engine::lemma_best_of_some(rules, pe, true);
    if crate::declension::pratyaya_choice(rules, cls, vib, pname, suffix) == Some(l) {
        assert(pe[l]);
        assert(crate::declension::pratyaya_applies(rules[w], cls, vib, pname, suffix));
        assert(pe[w]);
        assert(crate::engine::outranks(rules, l, w, true));
        crate::engine::lemma_outranks_asymmetric(rules, w, l, true);
    }
}

/// Of the aṅga rules of one pattern, only the first in compare order can ever
/// rewrite a stem: each later one (every rule the check reports as shadowed or
/// ambiguous for that pattern) is never the rule a declension uses, when the
/// first is one the engine reads. Stated for rules whose patterns agree part
/// by part.
pub proof fn law_later_anga_rules_never_used(
    rules: Seq<CachedRule>,
    k: Seq<char>,
    m: int,
    stem: Seq<char>,
    suffix: Seq<char>,
    vib: Seq<char>,
    vac: Seq<char>,
)
    requires
        1 <= m < group_order(Template::Anga, rules, k).len(),
        crate::shapes::anga_shape(rules[group_order(Template::Anga, rules, k)[0]].params),
        rule_text(rules[group_order(Template::Anga, rules, k)[0]], "condition_stem_final"@) == rule_text(
            rules[group_order(Template::Anga, rules, k)[m]],
            "condition_stem_final"@,
        ),
        rule_opt_text(rules[group_order(Template::Anga, rules, k)[0]], "condition_suffix_initial"@)
            == rule_opt_text(rules[group_order(Template::Anga, rules, k)[m]], "condition_suffix_initial"@),
        rule_opt_text(rules[group_order(Template::Anga, rules, k)[0]], "condition_vacana"@) == rule_opt_text(
            rules[group_order(Template::Anga, rules, k)[m]],
            "condition_vacana"@,
        ),
        rule_opt_text(rules[group_order(Template::Anga, rules, k)[0]], "condition_vibhakti"@) == rule_opt_text(
            rules[group_order(Template::Anga, rules, k)[m]],
            "condition_vibhakti"@,
        ),
        rule_text(rules[group_order(Template::Anga, rules, k)[0]], "operation_input"@) == rule_text(
            rules[group_order(Template::Anga, rules, k)[m]],
            "operation_input"@,
        ),
    ensures
        crate::declension::anga_choice(rules, stem, suffix, vib, vac) != Some(group_order(Template::Anga, rules, k)[m]),
{
    let ge = group_elig(Template::Anga, rules, k);
    let ord = group_order(Template::Anga, rules, k);
    lemma_rank_order_members(rules, ge, true, m);
    lemma_rank_order_members(rules, ge, true, 0);
    crate::declension::lemma_rank_order_in_range(rules, ge, true);
    let w = ord[0];
    let l = ord[m];
    let ae = Seq::new(rules.len(), |i: int| crate::declension::anga_applies(rules[i], stem, suffix, vib, vac));
    crate::engine::lemma_best_of_some(rules, ae, true);
    if crate::declension::anga_choice(rules, stem, suffix, vib, vac) == Some(l) {
        assert(ae[l]);
        assert(crate::declension::anga_applies(rules[w], stem, suffix, vib, vac));
        assert(ae[w]);
        assert(crate::engine::outranks(rules, l, w, true));
        crate::engine::lemma_outranks_asymmetric(rules, w, l, true);
    }
}

} // verus!

