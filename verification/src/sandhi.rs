//! Sandhi: joining two words at their boundary, and splitting a joined form.
use vstd::prelude::*;
use crate::engine::{somes, rank_order, AnalyzeCandidate, AnalyzeResult, Derived, opt_view, rule_priority,
    rule_type_priority, DeriveResult, TraceStep, best_of, best_ranked, lemma_best_of_some,
    step_is, sutra_ref, sutra_ref_of};
use crate::error::PaniniError;
use crate::params::{CachedRule, fields_of, opt_text_of, text_of, get_opt_text, get_text,
    rule_fields};
use crate::phoneme::{join_tokens, phonemes, tokenize, views, phoneme_ends_with, phoneme_prefix, phoneme_starts_with,
    phoneme_strip_prefix, phoneme_strip_suffix, phoneme_suffix, strip_phoneme_prefix,
    strip_phoneme_suffix};
use crate::shapes::{check_sandhi_shape, sandhi_error, sandhi_shape};
use crate::text::{is_prefix_of, concat2, concat3, decimal, decimal_text, owned};

verus! {

broadcast use vstd::seq::Seq::group_seq_flatten;

/// The two words to join.
pub struct SandhiInput {
    pub first: String,
    pub second: String,
}

/// The text in field `key` of rule `i`.
pub open spec fn rf(rules: Seq<CachedRule>, i: int, key: Seq<char>) -> Seq<char> {
    text_of(fields_of(rules[i].params), key)
}

/// A rule that word-level sandhi may use: well-formed, with no pratyaya condition.
pub open spec fn sandhi_usable(r: CachedRule) -> bool {
    sandhi_shape(r.params) && opt_text_of(fields_of(r.params), "condition_pratyaya"@) is None
}

/// Rule `i` applies at the boundary of `first` and `second`.
pub open spec fn joinable(rules: Seq<CachedRule>, i: int, first: Seq<char>, second: Seq<char>) -> bool {
    &&& sandhi_usable(rules[i])
    &&& phoneme_suffix(first, rf(rules, i, "first"@))
    &&& phoneme_prefix(second, rf(rules, i, "second"@))
}

/// Which rules apply at the boundary.
pub open spec fn join_eligible(rules: Seq<CachedRule>, first: Seq<char>, second: Seq<char>) -> Seq<
    bool,
> {
    Seq::new(rules.len(), |i: int| joinable(rules, i, first, second))
}

/// The rule used to join the two words: the applicable rule tried first.
pub open spec fn join_choice(rules: Seq<CachedRule>, first: Seq<char>, second: Seq<char>) -> Option<
    int,
> {
    best_of(rules, join_eligible(rules, first, second), true)
}

/// The joined form produced by rule `i`.
pub open spec fn join_with(rules: Seq<CachedRule>, i: int, first: Seq<char>, second: Seq<char>) -> Seq<
    char,
> {
    strip_phoneme_suffix(first, rf(rules, i, "first"@)) + rf(rules, i, "result"@)
        + strip_phoneme_prefix(second, rf(rules, i, "second"@))
}

/// The joined form: the chosen rule's result at the boundary, or plain concatenation.
pub open spec fn joined_text(rules: Seq<CachedRule>, first: Seq<char>, second: Seq<char>) -> Seq<char> {
    match join_choice(rules, first, second) {
        Some(i) => join_with(rules, i, first, second),
        None => first + second,
    }
}

/// Whether a rule applies at the boundary of two words.
fn joinable_rule(rule: &CachedRule, first: &str, second: &str) -> (r: bool)
    ensures
        r == joinable(seq![*rule], 0, first@, second@),
{
    if check_sandhi_shape(&rule.params).is_err() {
        return false;
    }
    match rule_fields(&rule.params) {
        None => false,
        Some(f) => {
            if get_opt_text(f, "condition_pratyaya").is_some() {
                return false;
            }
            let a = get_text(f, "first");
            let b = get_text(f, "second");
            phoneme_ends_with(first, a.as_str()) && phoneme_starts_with(second, b.as_str())
        },
    }
}

/// Marks the rules that apply at the boundary of two words.
fn join_flags(rules: &[CachedRule], first: &str, second: &str) -> (r: Vec<bool>)
    ensures
        r@ == join_eligible(rules@, first@, second@),
{
    let n = rules.len();
    let mut out: Vec<bool> = Vec::new();
    let mut i: usize = 0;
    while i < n
        invariant
            n == rules@.len(),
            i <= n,
            out@.len() == i,
            forall|j: int| 0 <= j < i ==> out@[j] == joinable(rules@, j, first@, second@),
        decreases n - i,
    {
        let b = joinable_rule(&rules[i], first, second);
        assert(seq![rules@[i as int]][0] == rules@[i as int]);
        out.push(b);
        i += 1;
    }
    assert(out@ =~= join_eligible(rules@, first@, second@));
    out
}

/// A sandhi derivation of two words: the output reports "first + second", the
/// joined text and the number of steps; the trace holds the one rule applied
/// (numbered 1, with its statement, citation and states), or is empty when no
/// rule applies.
pub open spec fn sandhi_derived(d: DeriveResult, rules: Seq<CachedRule>, first: Seq<char>, second: Seq<char>) -> bool {
    &&& d.output matches Derived::Sandhi { input: inp, result, steps } && inp@ == first + " + "@
        + second && result@ == joined_text(rules, first, second) && steps == d.trace@.len()
    &&& sandhi_trace_is(d.trace@, rules, first, second)
}

/// The trace of a join: the one rule applied (numbered 1, with its statement,
/// citation and states), or nothing when no rule applies.
pub open spec fn sandhi_trace_is(trace: Seq<TraceStep>, rules: Seq<CachedRule>, first: Seq<char>, second: Seq<char>) -> bool {
    match join_choice(rules, first, second) {
        Some(i) => trace.len() == 1 && step_is(
            trace[0],
            1,
            rules[i].statement@,
            sutra_ref_of(rf(rules, i, "sutra"@)),
            first + " + "@ + second,
            joined_text(rules, first, second),
        ),
        None => trace.len() == 0,
    }
}

/// Joins two words by the highest-ranked applicable sandhi rule (apavāda over
/// nitya over paribhāṣā over utsarga, then the later sūtra, then the rule listed
/// first); with no applicable rule the words are simply concatenated. The trace
/// holds one step for the rule applied, or none.
pub fn derive_sandhi(rules: &[CachedRule], input: SandhiInput) -> (r: Result<DeriveResult, PaniniError>)
    ensures
        r matches Ok(d) && sandhi_derived(d, rules@, input.first@, input.second@),
{
    let first = input.first.as_str();
    let second = input.second.as_str();
    let flags = join_flags(rules, first, second);
    let choice = best_ranked(rules, &flags, true);
    let mut trace: Vec<TraceStep> = Vec::new();
    let result = match choice {
        Some(i) => {
            let rule = &rules[i];
            let f = match rule_fields(&rule.params) {
                Some(f) => f,
                None => {
                    proof {
                        lemma_best_of_some(rules@, flags@, true);
                    }
                    return Err(PaniniError::RuleParse(String::new()));
                },
            };
            proof {
                lemma_best_of_some(rules@, flags@, true);
            }
            let a = get_text(f, "first");
            let b = get_text(f, "second");
            let res = get_text(f, "result");
            let prefix = match phoneme_strip_suffix(first, a.as_str()) {
                Some(p) => p,
                None => {
                    return Err(PaniniError::RuleParse(String::new()));
                },
            };
            let suffix = match phoneme_strip_prefix(second, b.as_str()) {
                Some(s) => s,
                None => {
                    return Err(PaniniError::RuleParse(String::new()));
                },
            };
            let joined = concat3(prefix.as_str(), res.as_str(), suffix.as_str());
            let sutra = get_text(f, "sutra");
            trace.push(
                TraceStep {
                    step: 1,
                    rule: rule.statement.clone(),
                    rule_ref: sutra_ref(sutra.as_str()),
                    input_state: concat3(first, " + ", second),
                    output_state: joined.clone(),
                },
            );
            joined
        },
        None => concat2(first, second),
    };
    let steps = trace.len();
    Ok(
        DeriveResult {
            output: Derived::Sandhi {
                input: concat3(first, " + ", second),
                result,
                steps,
            },
            trace,
        },
    )
}

/// A candidate split: first word, second word, rule statement, citation, specificity.
pub type SplitView = (Seq<char>, Seq<char>, Seq<char>, Option<Seq<char>>, u8);

/// The contents of a candidate split.
pub open spec fn split_view(c: AnalyzeCandidate) -> SplitView {
    (c.first@, c.second@, c.rule@, opt_view(c.rule_ref), c.specificity)
}

/// The contents of a list of candidate splits.
pub open spec fn split_views(v: Seq<AnalyzeCandidate>) -> Seq<SplitView> {
    v.map_values(|c: AnalyzeCandidate| split_view(c))
}

/// The split that rule `i` proposes where its result occurs at phoneme `p` of the form.
pub open spec fn split_at(rules: Seq<CachedRule>, i: int, toks: Seq<Seq<char>>, p: int) -> Option<
    SplitView,
> {
    let rt = phonemes(rf(rules, i, "result"@));
    if toks.subrange(p, p + rt.len()) == rt {
        let first = toks.take(p).flatten() + rf(rules, i, "first"@);
        let second = rf(rules, i, "second"@) + toks.skip(p + rt.len()).flatten();
        if first.len() == 0 || second.len() == 0 {
            None
        } else {
            Some(
                (
                    first,
                    second,
                    rules[i].statement@,
                    sutra_ref_of(rf(rules, i, "sutra"@)),
                    rule_priority(rules[i]),
                ),
            )
        }
    } else {
        None
    }
}

/// The splits rule `i` proposes, left to right.
pub open spec fn rule_splits(rules: Seq<CachedRule>, i: int, toks: Seq<Seq<char>>) -> Seq<SplitView> {
    let rt = phonemes(rf(rules, i, "result"@));
    if !sandhi_usable(rules[i]) || rt.len() == 0 || rt.len() > toks.len() {
        Seq::empty()
    } else {
        somes(Seq::new((toks.len() - rt.len() + 1) as nat, |p: int| split_at(rules, i, toks, p)))
    }
}

/// All proposed splits of a form, rule by rule.
pub open spec fn raw_splits(rules: Seq<CachedRule>, form: Seq<char>) -> Seq<SplitView> {
    Seq::new(rules.len(), |i: int| rule_splits(rules, i, phonemes(form))).flatten()
}

/// The splits of the given specificity, in order.
pub open spec fn of_specificity(s: Seq<SplitView>, level: u8) -> Seq<SplitView>
    decreases s.len(),
{
    if s.len() == 0 {
        Seq::empty()
    } else if s.last().4 == level {
        of_specificity(s.drop_last(), level).push(s.last())
    } else {
        of_specificity(s.drop_last(), level)
    }
}

/// The splits ordered by decreasing specificity, keeping their order within a level.
pub open spec fn ranked_splits(rules: Seq<CachedRule>, form: Seq<char>) -> Seq<SplitView> {
    let raw = raw_splits(rules, form);
    of_specificity(raw, 4) + of_specificity(raw, 3) + of_specificity(raw, 2) + of_specificity(raw, 1)
        + of_specificity(raw, 0)
}

proof fn lemma_flatten_new_push<A>(f: spec_fn(int) -> Seq<A>, i: int)
    requires
        0 <= i,
    ensures
        Seq::new((i + 1) as nat, f).flatten() == Seq::new(i as nat, f).flatten() + f(i),
{
    assert(Seq::new((i + 1) as nat, f) =~= Seq::new(i as nat, f).push(f(i)));
}

/// A copy of a candidate split.
fn copy_candidate(c: &AnalyzeCandidate) -> (r: AnalyzeCandidate)
    ensures
        split_view(r) == split_view(*c),
{
    AnalyzeCandidate {
        first: c.first.clone(),
        second: c.second.clone(),
        rule: c.rule.clone(),
        rule_ref: match &c.rule_ref {
            Some(s) => Some(s.clone()),
            None => None,
        },
        specificity: c.specificity,
    }
}

/// Whether the tokens `rt` occur in `toks` at position `p`.
fn tokens_at(toks: &Vec<String>, p: usize, rt: &Vec<String>) -> (r: bool)
    requires
        p + rt@.len() <= toks@.len(),
    ensures
        r == (views(toks@).subrange(p as int, p + rt@.len()) == views(rt@)),
{
    let m = rt.len();
    let n = toks.len();
    let mut j: usize = 0;
    while j < m
        invariant
            m == rt@.len(),
            n == toks@.len(),
            p + m <= n,
            j <= m,
            forall|k: int| 0 <= k < j ==> views(toks@)[p + k] == views(rt@)[k],
        decreases m - j,
    {
        if toks[p + j] != rt[j] {
            proof {
                if views(toks@).subrange(p as int, p + m) == views(rt@) {
                    assert(views(toks@).subrange(p as int, p + m)[j as int] == views(toks@)[p
                        + j]);
                }
            }
            return false;
        }
        j += 1;
    }
    assert(views(toks@).subrange(p as int, p + m) =~= views(rt@));
    true
}

/// The splits one rule proposes for a form.
fn splits_of_rule(rules: &[CachedRule], i: usize, toks: &Vec<String>, out: &mut Vec<AnalyzeCandidate>)
    requires
        i < rules@.len(),
    ensures
        split_views(final(out)@) == split_views(old(out)@) + rule_splits(rules@, i as int, views(toks@)),
{
    let ghost tv = views(toks@);
    let rule = &rules[i];
    let f = match rule_fields(&rule.params) {
        Some(f) => f,
        None => {
            assert(split_views(out@) =~= split_views(out@) + Seq::<SplitView>::empty());
            return;
        },
    };
    if check_sandhi_shape(&rule.params).is_err() || get_opt_text(f, "condition_pratyaya").is_some() {
        assert(split_views(out@) =~= split_views(out@) + Seq::<SplitView>::empty());
        return;
    }
    let res = get_text(f, "result");
    let rt = tokenize(res.as_str());
    let rlen = rt.len();
    let n = toks.len();
    if rlen == 0 || rlen > n {
        assert(split_views(out@) =~= split_views(out@) + Seq::<SplitView>::empty());
        return;
    }
    let a = get_text(f, "first");
    let b = get_text(f, "second");
    let sutra = get_text(f, "sutra");
    let rt_text = get_text(f, "rule_type");
    let spec_level = rule_type_priority(rt_text.as_str());
    let ghost start = split_views(out@);
    let ghost g = |p: int| split_at(rules@, i as int, tv, p);
    let mut p: usize = 0;
    assert(Seq::new(0, g) =~= Seq::<Option<SplitView>>::empty());
    while p <= n - rlen
        invariant
            n == toks@.len(),
            tv == views(toks@),
            1 <= rlen <= n,
            rlen == rt@.len(),
            views(rt@) == phonemes(rf(rules@, i as int, "result"@)),
            a@ == rf(rules@, i as int, "first"@),
            b@ == rf(rules@, i as int, "second"@),
            sutra@ == rf(rules@, i as int, "sutra"@),
            spec_level == rule_priority(rules@[i as int]),
            p <= n - rlen + 1,
            i < rules@.len(),
            *rule == rules@[i as int],
            g == (|q: int| split_at(rules@, i as int, tv, q)),
            split_views(out@) == start + somes(Seq::new(p as nat, g)),
        decreases n - rlen + 1 - p,
    {
        let ghost before = split_views(out@);
        assert(Seq::new((p + 1) as nat, g).drop_last() =~= Seq::new(p as nat, g));
        assert(Seq::new((p + 1) as nat, g).last() == split_at(rules@, i as int, tv, p as int));
        let ghost nxt = somes(Seq::new((p + 1) as nat, g));
        assert(nxt == match split_at(rules@, i as int, tv, p as int) {
            Some(x) => somes(Seq::new(p as nat, g)).push(x),
            None => somes(Seq::new(p as nat, g)),
        });
        let ghost rts = phonemes(rf(rules@, i as int, "result"@));
        if tokens_at(toks, p, &rt) {
            let head = join_tokens(toks, 0, p);
            let tail = join_tokens(toks, p + rlen, n);
            let first = concat2(head.as_str(), a.as_str());
            let second = concat2(b.as_str(), tail.as_str());
            assert(tv.subrange(0, p as int) =~= tv.take(p as int));
            assert(tv.subrange(p + rlen, n as int) =~= tv.skip(p + rlen));
            assert(tv.subrange(p as int, p + rts.len()) == rts);
            if first.unicode_len() > 0 && second.unicode_len() > 0 {
                let c = AnalyzeCandidate {
                    first,
                    second,
                    rule: rule.statement.clone(),
                    rule_ref: sutra_ref(sutra.as_str()),
                    specificity: spec_level,
                };
                assert(c.first@ == tv.take(p as int).flatten() + rf(rules@, i as int, "first"@));
                assert(c.second@ == rf(rules@, i as int, "second"@) + tv.skip(p + rts.len()).flatten());
                assert(c.rule@ == rules@[i as int].statement@);
                assert(opt_view(c.rule_ref) == sutra_ref_of(rf(rules@, i as int, "sutra"@)));
                assert(c.specificity == rule_priority(rules@[i as int]));
                assert(split_at(rules@, i as int, tv, p as int) == Some(split_view(c)));
                out.push(c);
                assert(split_views(out@) =~= before.push(split_view(c)));
                assert(start + somes(Seq::new(p as nat, g)).push(split_view(c)) =~= (start + somes(
                    Seq::new(p as nat, g),
                )).push(split_view(c)));
            } else {
                assert(split_at(rules@, i as int, tv, p as int) is None);
            }
        } else {
            assert(split_at(rules@, i as int, tv, p as int) is None);
        }
        p += 1;
    }
    assert(Seq::new((n - rlen + 1) as nat, g) =~= Seq::new(
        (tv.len() - views(rt@).len() + 1) as nat,
        |q: int| split_at(rules@, i as int, tv, q),
    ));
}

/// Splits a joined form into candidate word pairs: for every usable sandhi rule
/// and every place where the rule's result occurs as whole phonemes of the form,
/// the words before and after that place are extended by the rule's first and
/// second parts. Candidates are ranked by the specificity of their rule, most
/// specific first; within a level they keep rule order, then position order.
pub fn analyze_sandhi(rules: &[CachedRule], form: &str) -> (r: Result<AnalyzeResult, PaniniError>)
    ensures
        r matches Ok(a) && a.input@ == form@ && split_views(a.candidates@) == ranked_splits(
            rules@,
            form@,
        ),
{
    let toks = tokenize(form);
    let n = rules.len();
    let mut raw: Vec<AnalyzeCandidate> = Vec::new();
    let mut i: usize = 0;
    let ghost h = |k: int| rule_splits(rules@, k, phonemes(form@));
    assert(Seq::new(0, h) =~= Seq::<Seq<SplitView>>::empty());
    while i < n
        invariant
            n == rules@.len(),
            i <= n,
            views(toks@) == phonemes(form@),
            h == (|k: int| rule_splits(rules@, k, phonemes(form@))),
            split_views(raw@) == Seq::new(i as nat, h).flatten(),
        decreases n - i,
    {
        splits_of_rule(rules, i, &toks, &mut raw);
        proof {
            lemma_flatten_new_push(h, i as int);
        }
        i += 1;
    }
    let ghost rawv = split_views(raw@);
    assert(rawv == raw_splits(rules@, form@));
    let mut candidates: Vec<AnalyzeCandidate> = Vec::new();
    let mut level: u8 = 5;
    while level > 0
        invariant
            level <= 5,
            rawv == split_views(raw@),
            split_views(candidates@) == levels_from(rawv, level),
        decreases level,
    {
        level -= 1;
        let m = raw.len();
        let mut k: usize = 0;
        let ghost base = split_views(candidates@);
        while k < m
            invariant
                m == raw@.len(),
                k <= m,
                rawv == split_views(raw@),
                split_views(candidates@) == base + of_specificity(rawv.subrange(0, k as int), level),
            decreases m - k,
        {
            let ghost before = split_views(candidates@);
            assert(rawv.subrange(0, k + 1).drop_last() =~= rawv.subrange(0, k as int));
            assert(rawv.subrange(0, k + 1).last() == split_view(raw@[k as int]));
            if raw[k].specificity == level {
                let c = copy_candidate(&raw[k]);
                candidates.push(c);
                assert(split_views(candidates@) =~= before.push(split_view(c)));
            }
            k += 1;
        }
        assert(rawv.subrange(0, m as int) =~= rawv);
    }
    proof {
        reveal_with_fuel(levels_from, 6);
        assert(levels_from(rawv, 0) =~= ranked_splits(rules@, form@));
    }
    Ok(AnalyzeResult { input: owned(form), candidates })
}

/// The splits of specificity 4 down to `level`.
pub open spec fn levels_from(raw: Seq<SplitView>, level: u8) -> Seq<SplitView>
    decreases 5 - level,
{
    if level >= 5 {
        Seq::empty()
    } else {
        levels_from(raw, (level + 1) as u8) + of_specificity(raw, level)
    }
}

/// The messages for sandhi rules whose parameters cannot be read, in rule order.
pub open spec fn invalid_rule_messages(rules: Seq<CachedRule>) -> Seq<int>
    decreases rules.len(),
{
    if rules.len() == 0 {
        Seq::empty()
    } else if sandhi_shape(rules.last().params) {
        invalid_rule_messages(rules.drop_last())
    } else {
        invalid_rule_messages(rules.drop_last()).push(rules.len() - 1)
    }
}

/// Lists the sandhi rules whose parameters cannot be read: one message per such
/// rule, in rule order, of the form `rule <index> (<statement>): <reason>`.
pub fn validate_rules(rules: &[CachedRule]) -> (r: Vec<String>)
    ensures
        r@.len() == invalid_rule_messages(rules@).len(),
        forall|k: int|
            0 <= k < r@.len() ==> r@[k]@ == #[trigger] rule_message(
                invalid_rule_messages(rules@)[k],
                rules@[invalid_rule_messages(rules@)[k]],
            ),
{
    let n = rules.len();
    let mut out: Vec<String> = Vec::new();
    let mut i: usize = 0;
    while i < n
        invariant
            n == rules@.len(),
            i <= n,
            out@.len() == invalid_rule_messages(rules@.subrange(0, i as int)).len(),
            forall|k: int|
                0 <= k < out@.len() ==> out@[k]@ == #[trigger] rule_message(
                    invalid_rule_messages(rules@.subrange(0, i as int))[k],
                    rules@[invalid_rule_messages(rules@.subrange(0, i as int))[k]],
                ),
            forall|k: int|
                0 <= k < out@.len() ==> 0 <= #[trigger] invalid_rule_messages(
                    rules@.subrange(0, i as int),
                )[k] < i,
        decreases n - i,
    {
        let ghost pre = rules@.subrange(0, i as int);
        let ghost cur = rules@.subrange(0, i + 1);
        assert(cur.drop_last() =~= pre);
        assert(cur.last() == rules@[i as int]);
        match check_sandhi_shape(&rules[i].params) {
            Ok(()) => {},
            Err(e) => {
                let mut m = concat2("rule ", decimal_text(i).as_str());
                m.append(" (");
                m.append(rules[i].statement.as_str());
                m.append("): ");
                m.append(e.as_str());
                assert(m@ =~= rule_message(i as int, rules@[i as int]));
                out.push(m);
            },
        }
        i += 1;
    }
    assert(rules@.subrange(0, n as int) =~= rules@);
    out
}

/// The validation message of a rule that cannot be read: its index, its
/// statement and the reason.
pub open spec fn rule_message(index: int, r: CachedRule) -> Seq<char> {
    "rule "@ + decimal(index as nat) + " ("@ + r.statement@ + "): "@ + sandhi_error(r.params)
}


// --- Laws ---
/// The rule a join chooses ranks at least as high as every other rule that
/// applies at the boundary: an apavāda rule is always chosen over an utsarga one.
pub proof fn law_join_takes_highest_priority(rules: Seq<CachedRule>, first: Seq<char>, second: Seq<char>, j: int)
    requires
        0 <= j < rules.len(),
        joinable(rules, j, first, second),
    ensures
        join_choice(rules, first, second) matches Some(c) && rule_priority(rules[c]) >= rule_priority(rules[j]),
        rule_priority(rules[j]) < 4 && (exists|a: int| 0 <= a < rules.len() && joinable(rules, a, first, second)
            && rule_priority(rules[a]) == 4) ==> join_choice(rules, first, second) != Some(j),
{
    let elig = join_eligible(rules, first, second);
    crate::engine::lemma_best_of_some(rules, elig, true);
    assert(elig[j]);
    if join_choice(rules, first, second) is None {
        lemma_best_exists(rules, elig, j);
    }
    let c = join_choice(rules, first, second)->0;
    if c != j {
        assert(crate::engine::outranks(rules, c, j, true));
    }
    if rule_priority(rules[j]) < 4 && (exists|a: int| 0 <= a < rules.len() && joinable(rules, a, first, second)
        && rule_priority(rules[a]) == 4) {
        let a = choose|a: int| 0 <= a < rules.len() && joinable(rules, a, first, second) && rule_priority(rules[a]) == 4;
        assert(elig[a]);
        if c == j {
            assert(crate::engine::outranks(rules, j, a, true));
        }
    }
}

/// A join never uses a rule when a rule of a higher-ranked type also applies
/// at the boundary (apavāda over nitya over paribhāṣā over utsarga): where a
/// nitya and a paribhāṣā rule both apply, the nitya rule wins.
pub proof fn law_join_prefers_higher_rule_type(
    rules: Seq<CachedRule>,
    first: Seq<char>,
    second: Seq<char>,
    a: int,
    j: int,
    x: int,
    y: int,
)
    requires
        0 <= a < rules.len(),
        0 <= j < rules.len(),
        joinable(rules, a, first, second),
        joinable(rules, j, first, second),
        0 <= x < y < 4,
        rf(rules, a, "rule_type"@) == crate::engine::rule_type_order()[x],
        rf(rules, j, "rule_type"@) == crate::engine::rule_type_order()[y],
    ensures
        join_choice(rules, first, second) != Some(j),
{
    crate::engine::law_rule_type_ranking(x, y, Seq::empty());
    assert(rule_priority(rules[a]) > rule_priority(rules[j]));
    law_join_takes_highest_priority(rules, first, second, a);
}

/// When some rule is eligible, one of them is tried first.
pub proof fn lemma_best_exists(rules: Seq<CachedRule>, elig: Seq<bool>, j: int)
    requires
        elig.len() == rules.len(),
        0 <= j < elig.len(),
        elig[j],
    ensures
        best_of(rules, elig, true) is Some,
{
    lemma_best_exists_below(rules, elig, j, elig.len() as int);
    let b = choose|b: int| #[trigger] is_best_below(rules, elig, b, elig.len() as int);
    assert(crate::engine::is_best(rules, elig, true, b));
}

/// `b` is eligible below `m` and outranks every other eligible rule below `m`.
pub open spec fn is_best_below(rules: Seq<CachedRule>, elig: Seq<bool>, b: int, m: int) -> bool {
    &&& 0 <= b < m
    &&& elig[b]
    &&& forall|q: int| 0 <= q < m && elig[q] && q != b ==> #[trigger] crate::engine::outranks(rules, b, q, true)
}

/// Among the eligible rules below `m`, one outranks the others.
pub proof fn lemma_best_exists_below(rules: Seq<CachedRule>, elig: Seq<bool>, k: int, m: int)
    requires
        0 <= k < m <= elig.len(),
        elig[k],
    ensures
        exists|b: int| #[trigger] is_best_below(rules, elig, b, m),
    decreases m,
{
    if m == 1 {
        assert(is_best_below(rules, elig, 0, 1));
    } else if exists|q: int| 0 <= q < m - 1 && elig[q] {
        let q = choose|q: int| 0 <= q < m - 1 && elig[q];
        lemma_best_exists_below(rules, elig, q, m - 1);
        let b = choose|b: int| #[trigger] is_best_below(rules, elig, b, m - 1);
        crate::engine::lemma_outranks_total(rules, m - 1, b, true);
        if elig[m - 1] && crate::engine::outranks(rules, m - 1, b, true) {
            assert forall|r: int| 0 <= r < m && elig[r] && r != m - 1 implies #[trigger] crate::engine::outranks(
                rules,
                m - 1,
                r,
                true,
            ) by {
                if r != b {
                    crate::engine::lemma_outranks_transitive(rules, m - 1, b, r, true);
                }
            }
            assert(is_best_below(rules, elig, m - 1, m));
        } else {
            assert forall|r: int| 0 <= r < m && elig[r] && r != b implies #[trigger] crate::engine::outranks(
                rules,
                b,
                r,
                true,
            ) by {
                if r == m - 1 {
                    assert(b != m - 1);
                }
            }
            assert(is_best_below(rules, elig, b, m));
        }
    } else {
        assert(k == m - 1);
        assert(is_best_below(rules, elig, m - 1, m));
    }
}

/// The joined form is as long as the two words, less the sounds the rule
/// matched, plus its result; with no rule it is exactly as long as both.
pub proof fn law_join_length(rules: Seq<CachedRule>, first: Seq<char>, second: Seq<char>)
    ensures
        match join_choice(rules, first, second) {
            Some(i) => joined_text(rules, first, second).len() + rf(rules, i, "first"@).len() + rf(
                rules,
                i,
                "second"@,
            ).len() == first.len() + second.len() + rf(rules, i, "result"@).len(),
            None => joined_text(rules, first, second).len() == first.len() + second.len(),
        },
{
    match join_choice(rules, first, second) {
        Some(i) => {
            let elig = join_eligible(rules, first, second);
            crate::engine::lemma_best_of_some(rules, elig, true);
            assert(elig[i]);
            lemma_strip_suffix_len(first, rf(rules, i, "first"@));
            lemma_strip_prefix_len(second, rf(rules, i, "second"@));
        },
        None => {},
    }
}

/// Removing a phoneme suffix removes its characters.
pub proof fn lemma_strip_suffix_len(s: Seq<char>, pat: Seq<char>)
    requires
        phoneme_suffix(s, pat),
    ensures
        strip_phoneme_suffix(s, pat) + pat == s,
        strip_phoneme_suffix(s, pat).len() + pat.len() == s.len(),
{
    let p = phonemes(s);
    let a = phonemes(pat);
    let k = p.len() - a.len();
    crate::phoneme::lemma_phonemes_flatten(s);
    crate::phoneme::lemma_phonemes_flatten(pat);
    assert(p =~= p.take(k) + p.skip(k));
    assert(p.skip(k) =~= a);
    vstd::seq_lib::lemma_flatten_concat(p.take(k), p.skip(k));
}

/// Removing a phoneme prefix removes its characters.
pub proof fn lemma_strip_prefix_len(s: Seq<char>, pat: Seq<char>)
    requires
        phoneme_prefix(s, pat),
    ensures
        pat + strip_phoneme_prefix(s, pat) == s,
        strip_phoneme_prefix(s, pat).len() + pat.len() == s.len(),
{
    let p = phonemes(s);
    let a = phonemes(pat);
    let k = a.len() as int;
    crate::phoneme::lemma_phonemes_flatten(s);
    crate::phoneme::lemma_phonemes_flatten(pat);
    assert(p =~= p.take(k) + p.skip(k));
    assert(p.take(k) =~= a);
    vstd::seq_lib::lemma_flatten_concat(p.take(k), p.skip(k));
}

/// A join of non-empty words is non-empty unless the rule applied has an empty result.
pub proof fn law_join_non_empty(rules: Seq<CachedRule>, first: Seq<char>, second: Seq<char>)
    requires
        first.len() > 0,
        second.len() > 0,
        join_choice(rules, first, second) matches Some(i) ==> rf(rules, i, "result"@).len() > 0,
    ensures
        joined_text(rules, first, second).len() > 0,
{
    law_join_length(rules, first, second);
}


/// The joined form tokenizes at the boundaries of rule `i`: the phonemes left
/// of the rule's first part, those of its result, and those right of its second part.
pub open spec fn keeps_boundaries(rules: Seq<CachedRule>, i: int, first: Seq<char>, second: Seq<char>) -> bool {
    phonemes(join_with(rules, i, first, second)) == phonemes(strip_phoneme_suffix(first, rf(rules, i, "first"@)))
        + phonemes(rf(rules, i, "result"@)) + phonemes(strip_phoneme_prefix(second, rf(rules, i, "second"@)))
}

/// Analysing a join gives the joined words back: when two non-empty words are
/// joined by a rule with a non-empty result and the joined form tokenizes at the
/// rule's boundaries, the split into the two words is among the candidates.
pub proof fn law_join_then_split(rules: Seq<CachedRule>, first: Seq<char>, second: Seq<char>)
    requires
        first.len() > 0,
        second.len() > 0,
        join_choice(rules, first, second) matches Some(i) && rf(rules, i, "result"@).len() > 0
            && keeps_boundaries(rules, i, first, second),
    ensures
        exists|k: int|
            0 <= k < ranked_splits(rules, joined_text(rules, first, second)).len() && (#[trigger] ranked_splits(
                rules,
                joined_text(rules, first, second),
            )[k]).0 == first && ranked_splits(rules, joined_text(rules, first, second))[k].1 == second,
{
    let i = join_choice(rules, first, second)->0;
    let elig = join_eligible(rules, first, second);
    crate::engine::lemma_best_of_some(rules, elig, true);
    assert(elig[i]);
    let a = rf(rules, i, "first"@);
    let b = rf(rules, i, "second"@);
    let res = rf(rules, i, "result"@);
    let pre = strip_phoneme_suffix(first, a);
    let post = strip_phoneme_prefix(second, b);
    let form = joined_text(rules, first, second);
    let toks = phonemes(form);
    let rt = phonemes(res);
    let p = phonemes(pre).len() as int;
    lemma_strip_suffix_len(first, a);
    lemma_strip_prefix_len(second, b);
    crate::phoneme::lemma_phonemes_empty(res);
    crate::phoneme::lemma_phonemes_flatten(pre);
    crate::phoneme::lemma_phonemes_flatten(post);
    assert(toks == phonemes(pre) + rt + phonemes(post));
    assert(toks.subrange(p, p + rt.len()) =~= rt);
    assert(toks.take(p) =~= phonemes(pre));
    assert(toks.skip(p + rt.len()) =~= phonemes(post));
    let x = split_at(rules, i, toks, p);
    assert(x matches Some(v) && v.0 == first && v.1 == second);
    let v = x->0;
    let f = |q: int| split_at(rules, i, toks, q);
    let cnt = (toks.len() - rt.len() + 1) as nat;
    assert(Seq::new(cnt, f)[p] == x);
    lemma_somes_contains(Seq::new(cnt, f), p);
    assert(rule_splits(rules, i, toks) == somes(Seq::new(cnt, f)));
    let g = |k: int| rule_splits(rules, k, phonemes(form));
    assert(Seq::new(rules.len(), g)[i] == rule_splits(rules, i, toks));
    lemma_flatten_member(Seq::new(rules.len(), g), i, v);
    let raw = raw_splits(rules, form);
    assert(raw.contains(v));
    lemma_of_specificity_contains(raw, v);
    let r = ranked_splits(rules, form);
    let lvl = v.4;
    assert(lvl <= 4) by {
        assert(lvl == rule_priority(rules[i]));
    }
    let q = choose|q: int| 0 <= q < of_specificity(raw, lvl).len() && of_specificity(raw, lvl)[q] == v;
    let s4 = of_specificity(raw, 4);
    let s3 = of_specificity(raw, 3);
    let s2 = of_specificity(raw, 2);
    let s1 = of_specificity(raw, 1);
    let s0 = of_specificity(raw, 0);
    let k = if lvl == 4 {
        q
    } else if lvl == 3 {
        s4.len() + q
    } else if lvl == 2 {
        s4.len() + s3.len() + q
    } else if lvl == 1 {
        s4.len() + s3.len() + s2.len() + q
    } else {
        s4.len() + s3.len() + s2.len() + s1.len() + q
    };
    assert(r[k] == v);
}

/// A present value is among the present values.
pub proof fn lemma_somes_contains<A>(s: Seq<Option<A>>, p: int)
    requires
        0 <= p < s.len(),
        s[p] is Some,
    ensures
        somes(s).contains(s[p]->0),
    decreases s.len(),
{
    if p == s.len() - 1 {
        assert(somes(s).last() == s[p]->0);
    } else {
        lemma_somes_contains(s.drop_last(), p);
        let q = choose|q: int| 0 <= q < somes(s.drop_last()).len() && somes(s.drop_last())[q] == s[p]->0;
        match s.last() {
            Some(y) => {
                assert(somes(s)[q] == s[p]->0);
            },
            None => {},
        }
    }
}

/// An element of one part is an element of the whole.
pub proof fn lemma_flatten_member<A>(s: Seq<Seq<A>>, i: int, x: A)
    requires
        0 <= i < s.len(),
        s[i].contains(x),
    ensures
        s.flatten().contains(x),
    decreases s.len(),
{
    assert(s =~= s.drop_last().push(s.last()));
    let q = choose|q: int| 0 <= q < s[i].len() && s[i][q] == x;
    if i == s.len() - 1 {
        assert(s.flatten() == s.drop_last().flatten() + s.last());
        assert(s.flatten()[s.drop_last().flatten().len() + q] == x);
    } else {
        lemma_flatten_member(s.drop_last(), i, x);
        assert(s.flatten() == s.drop_last().flatten() + s.last());
        let r = choose|r: int| 0 <= r < s.drop_last().flatten().len() && s.drop_last().flatten()[r] == x;
        assert(s.flatten()[r] == x);
    }
}

/// Every split is among the splits of its specificity.
pub proof fn lemma_of_specificity_contains(s: Seq<SplitView>, x: SplitView)
    requires
        s.contains(x),
    ensures
        of_specificity(s, x.4).contains(x),
    decreases s.len(),
{
    if s.last() == x {
        assert(of_specificity(s, x.4).last() == x);
    } else {
        let q = choose|q: int| 0 <= q < s.len() && s[q] == x;
        assert(s.drop_last()[q] == x);
        lemma_of_specificity_contains(s.drop_last(), x);
        let r = choose|r: int| 0 <= r < of_specificity(s.drop_last(), x.4).len() && of_specificity(s.drop_last(), x.4)[r] == x;
        assert(of_specificity(s, x.4)[r] == x);
    }
}

} // verus!
