//! Shared result types of the derivation engine, rule priorities, and the
//! order in which competing rules are tried.
use vstd::prelude::*;
use crate::params::{CachedRule, fields_of, text_of, get_text, rule_fields};
use crate::text::{text_before, text_eq, text_less, owned, lemma_text_before_asymmetric,
    lemma_text_before_transitive, lemma_text_before_total, lemma_text_before_irreflexive};

verus! {

/// One sūtra application within a derivation.
pub struct TraceStep {
    pub step: usize,
    pub rule: String,
    pub rule_ref: Option<String>,
    pub input_state: String,
    pub output_state: String,
}

/// One way to split a surface form into two joined words.
pub struct AnalyzeCandidate {
    pub first: String,
    pub second: String,
    pub rule: String,
    pub rule_ref: Option<String>,
    pub specificity: u8,
}

/// The candidate splits of a surface form.
pub struct AnalyzeResult {
    pub input: String,
    pub candidates: Vec<AnalyzeCandidate>,
}

/// One way a surface form can be a declined noun.
pub struct DeclensionCandidate {
    pub stem: String,
    pub stem_type: String,
    pub case: String,
    pub number: String,
    pub form: String,
}

/// The candidate declensions of a surface form.
pub struct DeclensionAnalysis {
    pub input: String,
    pub candidates: Vec<DeclensionCandidate>,
}

/// What a derivation produced, by operation.
pub enum Derived {
    Sandhi { input: String, result: String, steps: usize },
    Declension {
        stem: String,
        stem_type: String,
        case: String,
        number: String,
        form: String,
        steps: usize,
    },
    Conjugation {
        dhatu: String,
        gana: String,
        lakara: String,
        pada: String,
        purusha: String,
        vacana: String,
        form: String,
        steps: usize,
    },
}

/// A derivation: its output and the trace that justifies it.
pub struct DeriveResult {
    pub output: Derived,
    pub trace: Vec<TraceStep>,
}

/// The view of an optional text.
pub open spec fn opt_view(o: Option<String>) -> Option<Seq<char>> {
    match o {
        Some(s) => Some(s@),
        None => None,
    }
}

/// A trace step holds the given values.
pub open spec fn step_is(
    t: TraceStep,
    step: int,
    rule: Seq<char>,
    rule_ref: Option<Seq<char>>,
    input: Seq<char>,
    output: Seq<char>,
) -> bool {
    &&& t.step == step
    &&& t.rule@ == rule
    &&& opt_view(t.rule_ref) == rule_ref
    &&& t.input_state@ == input
    &&& t.output_state@ == output
}

/// A sūtra citation: none for an empty sūtra number.
pub open spec fn sutra_ref_of(sutra: Seq<char>) -> Option<Seq<char>> {
    if sutra.len() == 0 {
        None
    } else {
        Some(sutra)
    }
}

/// The precedence of a rule type: apavāda over nitya over paribhāṣā over
/// utsarga over anything else.
pub open spec fn priority(rule_type: Seq<char>) -> u8 {
    if rule_type == "apavāda"@ || rule_type == "apavada"@ {
        4
    } else if rule_type == "nitya"@ {
        3
    } else if rule_type == "paribhāṣā"@ || rule_type == "paribhasha"@ {
        2
    } else if rule_type == "utsarga"@ {
        1
    } else {
        0
    }
}

/// The rule types, highest precedence first: apavāda, nitya, paribhāṣā, utsarga.
pub open spec fn rule_type_order() -> Seq<Seq<char>> {
    seq!["apavāda"@, "nitya"@, "paribhāṣā"@, "utsarga"@]
}

/// The same rule types spelt without diacritics.
pub open spec fn plain_rule_type_order() -> Seq<Seq<char>> {
    seq!["apavada"@, "nitya"@, "paribhasha"@, "utsarga"@]
}

/// Rule types take precedence strictly in the order apavāda, nitya,
/// paribhāṣā, utsarga; a type spelt without diacritics ranks as the same type,
/// and any other text ranks below all four.
pub proof fn law_rule_type_ranking(x: int, y: int, other: Seq<char>)
    requires
        0 <= x < y < 4,
    ensures
        priority(rule_type_order()[x]) > priority(rule_type_order()[y]),
        priority(plain_rule_type_order()[x]) == priority(rule_type_order()[x]),
        priority(plain_rule_type_order()[y]) == priority(rule_type_order()[y]),
        !rule_type_order().contains(other) && !plain_rule_type_order().contains(other) ==> priority(other)
            < priority(rule_type_order()[3]),
{
    reveal_strlit("apavāda");
    reveal_strlit("apavada");
    reveal_strlit("nitya");
    reveal_strlit("paribhāṣā");
    reveal_strlit("paribhasha");
    reveal_strlit("utsarga");
    assert("utsarga"@[0] != "apavāda"@[0]);
    assert("utsarga"@[0] != "apavada"@[0]);
    let o = rule_type_order();
    let p = plain_rule_type_order();
    assert(o[0] == "apavāda"@ && o[1] == "nitya"@ && o[2] == "paribhāṣā"@ && o[3] == "utsarga"@);
    assert(p[0] == "apavada"@ && p[1] == "nitya"@ && p[2] == "paribhasha"@ && p[3] == "utsarga"@);
    assert(priority("apavāda"@) == 4);
    assert(priority("apavada"@) == 4);
    assert(priority("nitya"@) == 3);
    assert("paribhāṣā"@.len() == 9 && "apavāda"@.len() == 7 && "apavada"@.len() == 7 && "nitya"@.len() == 5);
    assert(priority("paribhāṣā"@) == 2);
    assert("paribhasha"@.len() == 10 && "utsarga"@.len() == 7);
    assert(priority("paribhasha"@) == 2);
    assert(priority("utsarga"@) == 1);
    if !o.contains(other) && !p.contains(other) {
        assert(other != o[0] && other != o[1] && other != o[2] && other != o[3]);
        assert(other != p[0] && other != p[2]);
    }
}

/// The precedence of a rule type.
pub fn rule_type_priority(rule_type: &str) -> (r: u8)
    ensures
        r == priority(rule_type@),
{
    if text_eq(rule_type, "apavāda") || text_eq(rule_type, "apavada") {
        4
    } else if text_eq(rule_type, "nitya") {
        3
    } else if text_eq(rule_type, "paribhāṣā") || text_eq(rule_type, "paribhasha") {
        2
    } else if text_eq(rule_type, "utsarga") {
        1
    } else {
        0
    }
}

/// A sūtra citation: none for an empty sūtra number.
pub fn sutra_ref(sutra: &str) -> (r: Option<String>)
    ensures
        opt_view(r) == sutra_ref_of(sutra@),
{
    if sutra.unicode_len() == 0 {
        None
    } else {
        Some(owned(sutra))
    }
}

/// The precedence of a rule, from its `rule_type` field.
pub open spec fn rule_priority(r: CachedRule) -> u8 {
    priority(text_of(fields_of(r.params), "rule_type"@))
}

/// The position of a rule in the Aṣṭādhyāyī, from its `sutra_position` field.
pub open spec fn rule_position(r: CachedRule) -> Seq<char> {
    text_of(fields_of(r.params), "sutra_position"@)
}

/// Rule `i` is tried before rule `j`: higher priority first; at equal priority
/// the later sūtra first (`later_first`) or the earlier sūtra first; then the
/// rule listed first.
pub open spec fn outranks(rules: Seq<CachedRule>, i: int, j: int, later_first: bool) -> bool {
    let pi = rule_priority(rules[i]);
    let pj = rule_priority(rules[j]);
    let qi = rule_position(rules[i]);
    let qj = rule_position(rules[j]);
    ||| pi > pj
    ||| (pi == pj && (if later_first {
        text_before(qj, qi)
    } else {
        text_before(qi, qj)
    }))
    ||| (pi == pj && qi == qj && i < j)
}

/// Rule `i` is eligible and is tried before every other eligible rule.
pub open spec fn is_best(rules: Seq<CachedRule>, elig: Seq<bool>, later_first: bool, i: int) -> bool {
    &&& 0 <= i < elig.len()
    &&& elig[i]
    &&& forall|j: int|
        0 <= j < elig.len() && elig[j] && j != i ==> #[trigger] outranks(rules, i, j, later_first)
}

/// The eligible rule that is tried first, if any rule is eligible.
pub open spec fn best_of(rules: Seq<CachedRule>, elig: Seq<bool>, later_first: bool) -> Option<int> {
    if exists|i: int| is_best(rules, elig, later_first, i) {
        Some(choose|i: int| is_best(rules, elig, later_first, i))
    } else {
        None
    }
}

/// A trace step without its number: rule, citation, input state, output state.
pub type StepView = (Seq<char>, Option<Seq<char>>, Seq<char>, Seq<char>);

/// The contents of a trace step, without its number.
pub open spec fn step_view(t: TraceStep) -> StepView {
    (t.rule@, opt_view(t.rule_ref), t.input_state@, t.output_state@)
}

/// The contents of a trace.
pub open spec fn step_views(v: Seq<TraceStep>) -> Seq<StepView> {
    v.map_values(|t: TraceStep| step_view(t))
}

/// The steps of a trace are numbered 1, 2, 3, … in order.
pub open spec fn numbered(v: Seq<TraceStep>) -> bool {
    forall|k: int| 0 <= k < v.len() ==> (#[trigger] v[k]).step == k + 1
}

/// Appends a step to a trace, numbering it after the steps already there.
pub fn push_step(
    trace: &mut Vec<TraceStep>,
    rule: String,
    rule_ref: Option<String>,
    input_state: String,
    output_state: String,
)
    requires
        numbered(old(trace)@),
    ensures
        numbered(final(trace)@),
        step_views(final(trace)@) == step_views(old(trace)@).push(
            (rule@, opt_view(rule_ref), input_state@, output_state@),
        ),
{
    let n = trace.len();
    // A vector never holds `usize::MAX` elements before a push, so this is `n + 1`.
    let step = if n < usize::MAX {
        n + 1
    } else {
        n
    };
    let ghost before = trace@;
    let t = TraceStep { step, rule, rule_ref, input_state, output_state };
    let ghost tv = step_view(t);
    trace.push(t);
    let m = trace.len();
    assert(trace@ == before.push(t));
    assert(step_views(trace@) =~= step_views(before).push(tv));
}

/// `i` is the first flagged position.
pub open spec fn is_first(s: Seq<bool>, i: int) -> bool {
    &&& 0 <= i < s.len()
    &&& s[i]
    &&& forall|j: int| 0 <= j < i ==> !s[j]
}

/// The first flagged position, if any.
pub open spec fn first_index(s: Seq<bool>) -> Option<int> {
    if exists|i: int| is_first(s, i) {
        Some(choose|i: int| is_first(s, i))
    } else {
        None
    }
}

/// The first flagged position.
pub fn first_flag(flags: &Vec<bool>) -> (r: Option<usize>)
    ensures
        r matches Some(i) ==> first_index(flags@) == Some(i as int),
        r is None ==> first_index(flags@) is None,
{
    let n = flags.len();
    let mut i: usize = 0;
    while i < n
        invariant
            n == flags@.len(),
            i <= n,
            forall|j: int| 0 <= j < i ==> !flags@[j],
        decreases n - i,
    {
        if flags[i] {
            proof {
                let k = choose|k: int| is_first(flags@, k);
                assert(is_first(flags@, i as int));
                if k != i {
                    if k < i {
                        assert(!flags@[k]);
                    } else {
                        assert(!flags@[i as int]);
                    }
                }
            }
            return Some(i);
        }
        i += 1;
    }
    proof {
        if exists|k: int| is_first(flags@, k) {
            let k = choose|k: int| is_first(flags@, k);
            assert(flags@[k]);
        }
    }
    None
}

/// The present values, in order.
pub open spec fn somes<A>(s: Seq<Option<A>>) -> Seq<A>
    decreases s.len(),
{
    if s.len() == 0 {
        Seq::empty()
    } else {
        match s.last() {
            Some(x) => somes(s.drop_last()).push(x),
            None => somes(s.drop_last()),
        }
    }
}

/// Indices as integers.
pub open spec fn as_ints(v: Seq<usize>) -> Seq<int> {
    v.map_values(|k: usize| k as int)
}

/// The number of eligible rules.
pub open spec fn count_true(s: Seq<bool>) -> nat
    decreases s.len(),
{
    if s.len() == 0 {
        0
    } else {
        (if s.last() {
            1nat
        } else {
            0nat
        }) + count_true(s.drop_last())
    }
}

/// The eligible rules in the order in which they are tried.
pub open spec fn rank_order(rules: Seq<CachedRule>, elig: Seq<bool>, later_first: bool) -> Seq<int>
    decreases count_true(elig),
{
    match best_of(rules, elig, later_first) {
        Some(b) => {
            proof {
                lemma_best_of_some(rules, elig, later_first);
                lemma_count_true_clear(elig, b);
            }
            seq![b] + rank_order(rules, elig.update(b, false), later_first)
        },
        None => Seq::empty(),
    }
}

/// Of two rules, at most one is tried before the other.
pub proof fn lemma_outranks_asymmetric(rules: Seq<CachedRule>, i: int, j: int, later_first: bool)
    ensures
        !(outranks(rules, i, j, later_first) && outranks(rules, j, i, later_first)),
{
    let qi = rule_position(rules[i]);
    let qj = rule_position(rules[j]);
    lemma_text_before_asymmetric(qi, qj);
    lemma_text_before_irreflexive(qi);
}

/// The order in which rules are tried is transitive.
pub proof fn lemma_outranks_transitive(
    rules: Seq<CachedRule>,
    i: int,
    j: int,
    k: int,
    later_first: bool,
)
    requires
        outranks(rules, i, j, later_first),
        outranks(rules, j, k, later_first),
    ensures
        outranks(rules, i, k, later_first),
{
    let qi = rule_position(rules[i]);
    let qj = rule_position(rules[j]);
    let qk = rule_position(rules[k]);
    if later_first {
        if text_before(qj, qi) && text_before(qk, qj) {
            lemma_text_before_transitive(qk, qj, qi);
        }
    } else {
        if text_before(qi, qj) && text_before(qj, qk) {
            lemma_text_before_transitive(qi, qj, qk);
        }
    }
}

/// Of two different rules, one is tried before the other.
pub proof fn lemma_outranks_total(rules: Seq<CachedRule>, i: int, j: int, later_first: bool)
    requires
        i != j,
    ensures
        outranks(rules, i, j, later_first) || outranks(rules, j, i, later_first),
{
    let qi = rule_position(rules[i]);
    let qj = rule_position(rules[j]);
    if qi != qj {
        lemma_text_before_total(qi, qj);
    }
}

/// At most one rule is tried first.
pub proof fn lemma_best_unique(
    rules: Seq<CachedRule>,
    elig: Seq<bool>,
    later_first: bool,
    i: int,
    j: int,
)
    requires
        is_best(rules, elig, later_first, i),
        is_best(rules, elig, later_first, j),
    ensures
        i == j,
{
    if i != j {
        assert(outranks(rules, i, j, later_first));
        assert(outranks(rules, j, i, later_first));
        lemma_outranks_asymmetric(rules, i, j, later_first);
    }
}

/// The chosen rule is the one tried first, and none is chosen only when none is eligible to be first.
pub proof fn lemma_best_of_some(rules: Seq<CachedRule>, elig: Seq<bool>, later_first: bool)
    ensures
        best_of(rules, elig, later_first) matches Some(b) ==> is_best(rules, elig, later_first, b),
        best_of(rules, elig, later_first) is None ==> forall|i: int|
            !is_best(rules, elig, later_first, i),
{
}

/// The best rule is `i` whenever `i` is best.
pub proof fn lemma_best_of_is(rules: Seq<CachedRule>, elig: Seq<bool>, later_first: bool, i: int)
    requires
        is_best(rules, elig, later_first, i),
    ensures
        best_of(rules, elig, later_first) == Some(i),
{
    let b = choose|k: int| is_best(rules, elig, later_first, k);
    lemma_best_unique(rules, elig, later_first, b, i);
}

/// Clearing a set flag lowers the count of flags by one.
pub proof fn lemma_count_true_clear(s: Seq<bool>, b: int)
    requires
        0 <= b < s.len(),
        s[b],
    ensures
        count_true(s.update(b, false)) + 1 == count_true(s),
    decreases s.len(),
{
    let t = s.update(b, false);
    if b == s.len() - 1 {
        assert(t.drop_last() =~= s.drop_last());
    } else {
        assert(t.drop_last() =~= s.drop_last().update(b, false));
        lemma_count_true_clear(s.drop_last(), b);
    }
}

/// The ranking key of a rule: its priority and its position text.
fn rank_key(rule: &CachedRule) -> (r: (u8, String))
    ensures
        r.0 == rule_priority(*rule),
        r.1@ == rule_position(*rule),
{
    match rule_fields(&rule.params) {
        Some(f) => {
            let t = get_text(f, "rule_type");
            (rule_type_priority(t.as_str()), get_text(f, "sutra_position"))
        },
        None => {
            let t = String::new();
            proof {
                assert(fields_of(rule.params) =~= Seq::<crate::params::ParamField>::empty());
                assert(text_of(fields_of(rule.params), "rule_type"@) =~= Seq::<char>::empty());
                assert(text_of(fields_of(rule.params), "sutra_position"@) =~= Seq::<char>::empty());
            }
            (rule_type_priority(t.as_str()), String::new())
        },
    }
}

/// Whether rule `i` is tried before rule `j`.
fn rule_outranks(rules: &[CachedRule], i: usize, j: usize, later_first: bool) -> (r: bool)
    requires
        i < rules@.len(),
        j < rules@.len(),
    ensures
        r == outranks(rules@, i as int, j as int, later_first),
{
    let (pi, qi) = rank_key(&rules[i]);
    let (pj, qj) = rank_key(&rules[j]);
    if pi != pj {
        return pi > pj;
    }
    let before = if later_first {
        text_less(qj.as_str(), qi.as_str())
    } else {
        text_less(qi.as_str(), qj.as_str())
    };
    if before {
        return true;
    }
    text_eq(qi.as_str(), qj.as_str()) && i < j
}

/// The eligible rule that is tried first.
pub fn best_ranked(rules: &[CachedRule], elig: &Vec<bool>, later_first: bool) -> (r: Option<usize>)
    requires
        elig@.len() == rules@.len(),
    ensures
        r matches Some(b) ==> best_of(rules@, elig@, later_first) == Some(b as int),
        r is None ==> best_of(rules@, elig@, later_first) is None,
{
    let n = rules.len();
    let mut best: Option<usize> = None;
    let mut i: usize = 0;
    while i < n
        invariant
            n == rules@.len(),
            n == elig@.len(),
            i <= n,
            best matches Some(b) ==> b < i && elig@[b as int] && forall|j: int|
                0 <= j < i && elig@[j] && j != b ==> outranks(rules@, b as int, j, later_first),
            best is None ==> forall|j: int| 0 <= j < i ==> !elig@[j],
        decreases n - i,
    {
        if elig[i] {
            match best {
                None => {
                    best = Some(i);
                },
                Some(b) => {
                    if rule_outranks(rules, i, b, later_first) {
                        proof {
                            assert forall|j: int|
                                0 <= j < i + 1 && elig@[j] && j != i implies outranks(
                                rules@,
                                i as int,
                                j,
                                later_first,
                            ) by {
                                if j != b {
                                    lemma_outranks_transitive(
                                        rules@,
                                        i as int,
                                        b as int,
                                        j,
                                        later_first,
                                    );
                                }
                            }
                        }
                        best = Some(i);
                    } else {
                        proof {
                            lemma_outranks_total(rules@, i as int, b as int, later_first);
                        }
                    }
                },
            }
        }
        i += 1;
    }
    match best {
        Some(b) => {
            proof {
                lemma_best_of_is(rules@, elig@, later_first, b as int);
            }
            Some(b)
        },
        None => {
            proof {
                if exists|k: int| is_best(rules@, elig@, later_first, k) {
                    let k = choose|k: int| is_best(rules@, elig@, later_first, k);
                    assert(elig@[k]);
                }
            }
            None
        },
    }
}

/// The eligible rules, in the order in which they are tried.
pub fn ranked_indices(rules: &[CachedRule], eligible: &Vec<bool>, later_first: bool) -> (r: Vec<
    usize,
>)
    requires
        eligible@.len() == rules@.len(),
    ensures
        as_ints(r@) == rank_order(rules@, eligible@, later_first),
{
    let ghost start = eligible@;
    let mut elig: Vec<bool> = Vec::new();
    let mut t: usize = 0;
    while t < eligible.len()
        invariant
            t <= eligible@.len(),
            elig@ == eligible@.subrange(0, t as int),
        decreases eligible@.len() - t,
    {
        elig.push(eligible[t]);
        assert(elig@ =~= eligible@.subrange(0, t + 1));
        t += 1;
    }
    assert(elig@ =~= start);
    let mut out: Vec<usize> = Vec::new();
    loop
        invariant
            start == eligible@,
            elig@.len() == rules@.len(),
            as_ints(out@) + rank_order(rules@, elig@, later_first)
                == rank_order(rules@, start, later_first),
        decreases count_true(elig@),
    {
        match best_ranked(rules, &elig, later_first) {
            None => {
                assert(rank_order(rules@, elig@, later_first) =~= Seq::<int>::empty());
                assert(as_ints(out@) + Seq::<int>::empty() =~= as_ints(out@));
                assert(as_ints(out@) == rank_order(rules@, start, later_first));
                return out;
            },
            Some(b) => {
                proof {
                    lemma_best_of_some(rules@, elig@, later_first);
                    lemma_count_true_clear(elig@, b as int);
                }
                let ghost prev_out = as_ints(out@);
                let ghost prev_elig = elig@;
                out.push(b);
                elig.set(b, false);
                proof {
                    assert(as_ints(out@) =~= prev_out.push(b as int));
                    assert(rank_order(rules@, prev_elig, later_first) == seq![b as int]
                        + rank_order(rules@, elig@, later_first));
                    assert(prev_out.push(b as int) + rank_order(rules@, elig@, later_first)
                        =~= prev_out + (seq![b as int] + rank_order(rules@, elig@, later_first)));
                }
            },
        }
    }
}

} // verus!
