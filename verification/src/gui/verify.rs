//! The verification tab: runs the consistency checks of the loaded templates.
use vstd::prelude::*;
use crate::consistency::{CheckReport, Template, check_note, check_template, findings_are,
    template_name, template_slug};
use crate::service::rules_of;
use crate::rule_cache::RuleCache;

verus! {

/// The reports shown, and whether they are loaded or loading.
pub struct State {
    pub loaded: bool,
    pub loading: bool,
    pub reports: Vec<CheckReport>,
}

/// The event of the tab: the reports are ready.
pub enum Message {
    Loaded(Vec<CheckReport>),
}

impl State {
    /// Nothing loaded yet.
    pub fn new() -> (r: State)
        ensures
            !r.loaded,
            !r.loading,
            r.reports@.len() == 0,
    {
        State { loaded: false, loading: false, reports: Vec::new() }
    }
}

/// Takes the reports in: the tab is loaded and no longer loading.
pub fn update(state: &mut State, msg: Message)
    ensures
        match msg {
            Message::Loaded(reports) => final(state).reports == reports && final(state).loaded
                && !final(state).loading,
        },
{
    match msg {
        Message::Loaded(reports) => {
            state.reports = reports;
            state.loading = false;
            state.loaded = true;
        },
    }
}

/// The templates checked, in order.
pub open spec fn all_templates() -> Seq<Template> {
    seq![Template::Sandhi, Template::Sup, Template::Pratyaya, Template::Anga, Template::Tripadi]
}

/// The templates with rules in the cache, in order.
pub open spec fn checked_templates(c: RuleCache) -> Seq<Template> {
    all_templates().filter(|t: Template| rules_of(c, template_name(t)).len() > 0)
}

/// Every template's rules fit a consistency check.
pub open spec fn checkable(c: RuleCache) -> bool {
    forall|k: int| 0 <= k < 5 ==> rules_of(c, template_name(#[trigger] all_templates()[k])).len() <= usize::MAX / 32
}

/// The template at position `k` of the check order.
fn template_at(k: usize) -> (t: Template)
    requires
        k < 5,
    ensures
        t == all_templates()[k as int],
{
    if k == 0 {
        Template::Sandhi
    } else if k == 1 {
        Template::Sup
    } else if k == 2 {
        Template::Pratyaya
    } else if k == 3 {
        Template::Anga
    } else {
        Template::Tripadi
    }
}

/// The consistency report of each template that has rules, in the order
/// sandhi, sUP, pratyaya, aṅga, tripādī.
pub fn run_checks(cache: &RuleCache) -> (r: Vec<CheckReport>)
    requires
        checkable(*cache),
    ensures
        r@.len() == checked_templates(*cache).len(),
        forall|k: int|
            0 <= k < r@.len() ==> findings_are(
                #[trigger] r@[k],
                checked_templates(*cache)[k],
                rules_of(*cache, template_name(checked_templates(*cache)[k])),
                template_name(checked_templates(*cache)[k]),
                check_note(checked_templates(*cache)[k], rules_of(*cache, template_name(checked_templates(*cache)[k]))),
            ),
{
    let ghost pred = |t: Template| rules_of(*cache, template_name(t)).len() > 0;
    proof {
        reveal(Seq::filter);
    }
    let mut reports: Vec<CheckReport> = Vec::new();
    let mut k: usize = 0;
    assert(all_templates().take(0).filter(pred) =~= Seq::<Template>::empty());
    while k < 5
        invariant
            k <= 5,
            checkable(*cache),
            pred == (|t: Template| rules_of(*cache, template_name(t)).len() > 0),
            reports@.len() == all_templates().take(k as int).filter(pred).len(),
            forall|q: int|
                0 <= q < reports@.len() ==> findings_are(
                    #[trigger] reports@[q],
                    all_templates().take(k as int).filter(pred)[q],
                    rules_of(*cache, template_name(all_templates().take(k as int).filter(pred)[q])),
                    template_name(all_templates().take(k as int).filter(pred)[q]),
                    check_note(
                        all_templates().take(k as int).filter(pred)[q],
                        rules_of(*cache, template_name(all_templates().take(k as int).filter(pred)[q])),
                    ),
                ),
        decreases 5 - k,
    {
        let t = template_at(k);
        let ghost before = all_templates().take(k as int).filter(pred);
        assert(all_templates().take(k + 1) =~= all_templates().take(k as int).push(t));
        proof {
            reveal(Seq::filter);
        }
        assert(all_templates().take(k + 1).drop_last() =~= all_templates().take(k as int));
        assert(all_templates().take(k + 1).last() == t);
        assert(all_templates().take(k + 1).len() > 0);
        let rules = cache.get_rules(template_slug(&t));
        assert(rules@ == rules_of(*cache, template_name(t)));
        if rules.len() > 0 {
            assert(rules@.len() <= usize::MAX / 32) by {
                assert(all_templates()[k as int] == t);
            }
            let report = check_template(&t, rules);
            reports.push(report);
            assert(pred(t));
            assert(all_templates().take(k + 1).filter(pred) == before.push(t));
        } else {
            assert(!pred(t));
            assert(all_templates().take(k + 1).filter(pred) == before);
        }
        k += 1;
    }
    assert(all_templates().take(5) =~= all_templates());
    reports
}

} // verus!
