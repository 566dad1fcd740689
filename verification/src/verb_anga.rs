//! The operations on a verbal stem (aṅga): before the vikaraṇa is added
//! (guṇa, vṛddhi, semivowel) and at the junction with the tiṅ ending.
use vstd::prelude::*;
use crate::conjugation::{cut_bytes, byte_len, medial_replaced, replace_medial_vowel, yan_initial,
    is_yan_initial, cut_last_bytes, bytes_of, split_at_byte};
use crate::engine::{StepView, TraceStep, first_index, first_flag, numbered, push_step, step_views,
    sutra_ref, sutra_ref_of};
use crate::params::{CachedRule, rule_get_opt_flag, rule_get_opt_text, rule_get_text, rule_opt_flag,
    rule_opt_text, rule_text};
use crate::phoneme::{phonemes, tokenize, views, first_phoneme, first_phoneme_of, is_vowel, is_vowel_phoneme, last_phoneme,
    last_phoneme_of};
use crate::shapes::{check_verb_anga_shape, verb_anga_shape};
use crate::declension::{lemma_first_phoneme_prefix, lemma_last_phoneme_suffix};
use crate::text::{concat2, concat3, concat4, drop_last_n, ends_with_text, is_suffix_of, owned, text_drop_first,
    text_drop_last, text_eq, text_slice};

verus! {

broadcast use vstd::seq::Seq::group_seq_flatten;

/// The kinds of aṅga rule, each read from the rules of its stage and type.
pub enum AngaOp {
    Guna,
    Vrddhi,
    Semivowel,
    Dirgha,
    Coalescence,
    GunaAngaFinal,
    YanJunction,
    SnaAlternation,
    ConsonantJunction,
}

/// The stage a kind of rule belongs to.
pub open spec fn op_stage(op: AngaOp) -> Seq<char> {
    match op {
        AngaOp::Guna | AngaOp::Vrddhi | AngaOp::Semivowel => "pre_vikarana"@,
        _ => "pre_tin"@,
    }
}

/// The rule type a kind of rule carries.
pub open spec fn op_type(op: AngaOp) -> Seq<char> {
    match op {
        AngaOp::Guna => "guna"@,
        AngaOp::Vrddhi => "vrddhi"@,
        AngaOp::Semivowel => "semivowel"@,
        AngaOp::Dirgha => "dirgha"@,
        AngaOp::Coalescence => "coalescence"@,
        AngaOp::GunaAngaFinal => "guna_anga_final"@,
        AngaOp::YanJunction => "yan_junction"@,
        AngaOp::SnaAlternation => "sna_alternation"@,
        AngaOp::ConsonantJunction => "consonant_junction"@,
    }
}

/// The optional text field `k` is present.
pub open spec fn has(r: CachedRule, k: Seq<char>) -> bool {
    rule_opt_text(r, k) is Some
}

/// The optional text field `k`, or the empty text.
pub open spec fn ot(r: CachedRule, k: Seq<char>) -> Seq<char> {
    match rule_opt_text(r, k) {
        Some(t) => t,
        None => Seq::empty(),
    }
}

/// `a + b`, as a trace state shows two parts.
pub open spec fn plus(a: Seq<char>, b: Seq<char>) -> Seq<char> {
    a + " + "@ + b
}

/// The trace step of a rule from its statement and sūtra.
pub open spec fn rule_step(r: CachedRule, input: Seq<char>, output: Seq<char>) -> StepView {
    (r.statement@, sutra_ref_of(rule_text(r, "sutra"@)), input, output)
}

/// The ending begins with a vowel phoneme.
pub open spec fn initial_vowel(t: Seq<char>) -> bool {
    first_phoneme_of(t) matches Some(ph) && is_vowel_phoneme(ph)
}

/// The ending begins with a consonant phoneme.
pub open spec fn initial_consonant(t: Seq<char>) -> bool {
    first_phoneme_of(t) matches Some(ph) && !is_vowel_phoneme(ph)
}

/// The last character of a text as a text (empty for an empty text).
pub open spec fn last_char(w: Seq<char>) -> Seq<char> {
    if w.len() > 0 {
        seq![w.last()]
    } else {
        Seq::empty()
    }
}

/// The first character of a text as a text (empty for an empty text).
pub open spec fn first_char(t: Seq<char>) -> Seq<char> {
    if t.len() > 0 {
        seq![t[0]]
    } else {
        Seq::empty()
    }
}

/// An optional phoneme, or the empty text.
pub open spec fn or_empty(o: Option<Seq<char>>) -> Seq<char> {
    match o {
        Some(t) => t,
        None => Seq::empty(),
    }
}

/// The last phoneme of a stem followed by the first of an ending.
pub open spec fn phoneme_junction(w: Seq<char>, t: Seq<char>) -> Seq<char> {
    or_empty(last_phoneme_of(w)) + or_empty(first_phoneme_of(t))
}

/// A guṇa or vṛddhi rule fires on a root: at its end, or on an inner vowel.
pub open spec fn gv_fires(r: CachedRule, w: Seq<char>) -> bool {
    match rule_opt_text(r, "position"@) {
        Some(pos) => if pos == "dhatu_final"@ {
            &&& has(r, "condition_dhatu_final"@)
            &&& has(r, "input"@)
            &&& has(r, "output"@)
            &&& is_suffix_of(ot(r, "condition_dhatu_final"@), w)
        } else if pos == "dhatu_medial"@ {
            &&& has(r, "condition_dhatu_vowel"@)
            &&& has(r, "input"@)
            &&& has(r, "output"@)
            &&& medial_replaced(w, ot(r, "input"@), ot(r, "output"@)) is Some
        } else {
            false
        },
        None => false,
    }
}

/// The śnā rule's pit condition holds for the ending.
pub open spec fn pit_ok(r: CachedRule, tin_pit: bool) -> bool {
    match rule_opt_flag(r, "condition_suffix_pit"@) {
        Some(true) => tin_pit,
        Some(false) => !tin_pit,
        None => true,
    }
}

/// The śnā rule's condition on the ending's first sound holds.
pub open spec fn initial_type_ok(r: CachedRule, tin: Seq<char>) -> bool {
    match rule_opt_text(r, "condition_suffix_initial_type"@) {
        Some(t) => if t == "consonant"@ {
            !initial_vowel(tin)
        } else if t == "vowel"@ {
            initial_vowel(tin)
        } else {
            true
        },
        None => true,
    }
}

/// Rule `r` is a readable rule of this kind and fires on stem `w` before ending
/// `tin`, with the vikaraṇa named `vik_name` and an ending that is pit or not.
pub open spec fn op_fires(
    op: AngaOp,
    r: CachedRule,
    w: Seq<char>,
    tin: Seq<char>,
    vik_name: Seq<char>,
    tin_pit: bool,
) -> bool {
    &&& verb_anga_shape(r.params)
    &&& rule_text(r, "stage"@) == op_stage(op)
    &&& rule_text(r, "rule_type"@) == op_type(op)
    &&& match op {
        AngaOp::Guna | AngaOp::Vrddhi => gv_fires(r, w),
        AngaOp::Semivowel => {
            &&& has(r, "condition_dhatu_final"@)
            &&& has(r, "input"@)
            &&& has(r, "output"@)
            &&& is_suffix_of(ot(r, "condition_dhatu_final"@), w)
        },
        AngaOp::Dirgha => {
            &&& has(r, "condition_suffix_initial_class"@)
            &&& has(r, "input"@)
            &&& has(r, "output"@)
            &&& ot(r, "condition_suffix_initial_class"@) == "yaṅ"@
            &&& yan_initial(tin)
            &&& is_suffix_of(ot(r, "input"@), w)
        },
        AngaOp::Coalescence => {
            &&& has(r, "operation_input"@)
            &&& has(r, "operation_output"@)
            &&& last_char(w) + first_char(tin) == ot(r, "operation_input"@)
        },
        AngaOp::GunaAngaFinal => {
            &&& has(r, "condition_anga_final"@)
            &&& has(r, "input"@)
            &&& has(r, "output"@)
            &&& is_suffix_of(ot(r, "condition_anga_final"@), w)
            &&& initial_consonant(tin)
        },
        AngaOp::YanJunction => {
            &&& has(r, "condition_anga_final"@)
            &&& has(r, "input"@)
            &&& has(r, "output"@)
            &&& is_suffix_of(ot(r, "condition_anga_final"@), w)
            &&& initial_vowel(tin)
        },
        AngaOp::SnaAlternation => {
            &&& (rule_opt_text(r, "condition_vikarana"@) matches Some(v) ==> v == vik_name)
            &&& pit_ok(r, tin_pit)
            &&& initial_type_ok(r, tin)
            &&& has(r, "input"@)
            &&& has(r, "output"@)
            &&& is_suffix_of(ot(r, "input"@), w)
        },
        AngaOp::ConsonantJunction => {
            &&& has(r, "operation_input"@)
            &&& has(r, "operation_output"@)
            &&& phoneme_junction(w, tin) == ot(r, "operation_input"@)
        },
    }
}

/// The first rule of this kind that fires.
pub open spec fn op_choice(
    op: AngaOp,
    an: Seq<CachedRule>,
    w: Seq<char>,
    tin: Seq<char>,
    vik_name: Seq<char>,
    tin_pit: bool,
) -> Option<int> {
    first_index(Seq::new(an.len(), |i: int| op_fires(op, an[i], w, tin, vik_name, tin_pit)))
}

/// The stage and type names of a kind of rule.
fn op_names(op: &AngaOp) -> (r: (&'static str, &'static str))
    ensures
        r.0@ == op_stage(*op),
        r.1@ == op_type(*op),
{
    match op {
        AngaOp::Guna => ("pre_vikarana", "guna"),
        AngaOp::Vrddhi => ("pre_vikarana", "vrddhi"),
        AngaOp::Semivowel => ("pre_vikarana", "semivowel"),
        AngaOp::Dirgha => ("pre_tin", "dirgha"),
        AngaOp::Coalescence => ("pre_tin", "coalescence"),
        AngaOp::GunaAngaFinal => ("pre_tin", "guna_anga_final"),
        AngaOp::YanJunction => ("pre_tin", "yan_junction"),
        AngaOp::SnaAlternation => ("pre_tin", "sna_alternation"),
        AngaOp::ConsonantJunction => ("pre_tin", "consonant_junction"),
    }
}

/// An optional text field, or the empty text, and whether it was present.
fn opt_field(r: &CachedRule, k: &str) -> (res: (String, bool))
    ensures
        res.1 == has(*r, k@),
        res.0@ == ot(*r, k@),
{
    match rule_get_opt_text(r, k) {
        Some(t) => (t, true),
        None => (String::new(), false),
    }
}

/// Whether an ending begins with a vowel phoneme.
fn starts_with_vowel(t: &str) -> (r: bool)
    ensures
        r == initial_vowel(t@),
{
    match first_phoneme(t) {
        Some(ph) => is_vowel(ph.as_str()),
        None => false,
    }
}

/// Whether an ending begins with a consonant phoneme.
fn starts_with_consonant(t: &str) -> (r: bool)
    ensures
        r == initial_consonant(t@),
{
    match first_phoneme(t) {
        Some(ph) => !is_vowel(ph.as_str()),
        None => false,
    }
}

/// The last character of a text as a text.
fn last_char_text(w: &str) -> (r: String)
    ensures
        r@ == last_char(w@),
{
    let n = w.unicode_len();
    if n > 0 {
        let s = text_slice(w, n - 1, n);
        assert(s@ =~= seq![w@.last()]);
        s
    } else {
        String::new()
    }
}

/// The first character of a text as a text.
fn first_char_text(t: &str) -> (r: String)
    ensures
        r@ == first_char(t@),
{
    let n = t.unicode_len();
    if n > 0 {
        let s = text_slice(t, 0, 1);
        assert(s@ =~= seq![t@[0]]);
        s
    } else {
        String::new()
    }
}

/// An optional phoneme, or the empty text.
fn phoneme_or_empty(o: Option<String>) -> (r: String)
    ensures
        r@ == or_empty(match o {
            Some(t) => Some(t@),
            None => None,
        }),
{
    match o {
        Some(t) => t,
        None => String::new(),
    }
}

/// Whether a guṇa or vṛddhi rule fires on a root.
fn gv_fires_exec(r: &CachedRule, w: &str) -> (b: bool)
    ensures
        b == gv_fires(*r, w@),
{
    match rule_get_opt_text(r, "position") {
        Some(pos) => {
            let (inp, hi) = opt_field(r, "input");
            let (out, ho) = opt_field(r, "output");
            if text_eq(pos.as_str(), "dhatu_final") {
                let (cond, hc) = opt_field(r, "condition_dhatu_final");
                hc && hi && ho && ends_with_text(w, cond.as_str())
            } else if text_eq(pos.as_str(), "dhatu_medial") {
                let (_cond, hc) = opt_field(r, "condition_dhatu_vowel");
                hc && hi && ho && replace_medial_vowel(w, inp.as_str(), out.as_str()).is_some()
            } else {
                false
            }
        },
        None => false,
    }
}

/// Whether rule `r` of this kind fires.
fn op_fires_exec(op: &AngaOp, r: &CachedRule, w: &str, tin: &str, vik_name: &str, tin_pit: bool) -> (b: bool)
    ensures
        b == op_fires(*op, *r, w@, tin@, vik_name@, tin_pit),
{
    if check_verb_anga_shape(&r.params).is_err() {
        return false;
    }
    let (stage, kind) = op_names(op);
    if !text_eq(rule_get_text(r, "stage").as_str(), stage) || !text_eq(
        rule_get_text(r, "rule_type").as_str(),
        kind,
    ) {
        return false;
    }
    let (inp, hi) = opt_field(r, "input");
    let (_out, ho) = opt_field(r, "output");
    match op {
        AngaOp::Guna | AngaOp::Vrddhi => gv_fires_exec(r, w),
        AngaOp::Semivowel => {
            let (cond, hc) = opt_field(r, "condition_dhatu_final");
            hc && hi && ho && ends_with_text(w, cond.as_str())
        },
        AngaOp::Dirgha => {
            let (cls, hc) = opt_field(r, "condition_suffix_initial_class");
            hc && hi && ho && text_eq(cls.as_str(), "yaṅ") && is_yan_initial(tin) && ends_with_text(
                w,
                inp.as_str(),
            )
        },
        AngaOp::Coalescence => {
            let (oi, h1) = opt_field(r, "operation_input");
            let (_oo, h2) = opt_field(r, "operation_output");
            let j = concat2(last_char_text(w).as_str(), first_char_text(tin).as_str());
            h1 && h2 && text_eq(j.as_str(), oi.as_str())
        },
        AngaOp::GunaAngaFinal => {
            let (cond, hc) = opt_field(r, "condition_anga_final");
            hc && hi && ho && ends_with_text(w, cond.as_str()) && starts_with_consonant(tin)
        },
        AngaOp::YanJunction => {
            let (cond, hc) = opt_field(r, "condition_anga_final");
            hc && hi && ho && ends_with_text(w, cond.as_str()) && starts_with_vowel(tin)
        },
        AngaOp::SnaAlternation => {
            let vik_ok = match rule_get_opt_text(r, "condition_vikarana") {
                Some(v) => text_eq(v.as_str(), vik_name),
                None => true,
            };
            let pit = match rule_get_opt_flag(r, "condition_suffix_pit") {
                Some(true) => tin_pit,
                Some(false) => !tin_pit,
                None => true,
            };
            let ty = match rule_get_opt_text(r, "condition_suffix_initial_type") {
                Some(t) => if text_eq(t.as_str(), "consonant") {
                    !starts_with_vowel(tin)
                } else if text_eq(t.as_str(), "vowel") {
                    starts_with_vowel(tin)
                } else {
                    true
                },
                None => true,
            };
            vik_ok && pit && ty && hi && ho && ends_with_text(w, inp.as_str())
        },
        AngaOp::ConsonantJunction => {
            let (oi, h1) = opt_field(r, "operation_input");
            let (_oo, h2) = opt_field(r, "operation_output");
            let j = concat2(
                phoneme_or_empty(last_phoneme(w)).as_str(),
                phoneme_or_empty(first_phoneme(tin)).as_str(),
            );
            h1 && h2 && text_eq(j.as_str(), oi.as_str())
        },
    }
}

/// The first rule of this kind that fires.
pub fn op_first(op: &AngaOp, an: &[CachedRule], w: &str, tin: &str, vik_name: &str, tin_pit: bool) -> (r: Option<usize>)
    ensures
        r matches Some(i) ==> op_choice(*op, an@, w@, tin@, vik_name@, tin_pit) == Some(i as int),
        r is None ==> op_choice(*op, an@, w@, tin@, vik_name@, tin_pit) is None,
{
    let n = an.len();
    let mut flags: Vec<bool> = Vec::new();
    let mut i: usize = 0;
    while i < n
        invariant
            n == an@.len(),
            i <= n,
            flags@.len() == i,
            forall|j: int|
                0 <= j < i ==> flags@[j] == op_fires(*op, an@[j], w@, tin@, vik_name@, tin_pit),
        decreases n - i,
    {
        flags.push(op_fires_exec(op, &an[i], w, tin, vik_name, tin_pit));
        i += 1;
    }
    assert(flags@ =~= Seq::new(
        an@.len(),
        |i: int| op_fires(*op, an@[i], w@, tin@, vik_name@, tin_pit),
    ));
    first_flag(&flags)
}


/// What the aṅga operations read besides the stem: the aṅga rules, the
/// vikaraṇa and its name, the root's class, and two properties of the ending.
pub struct VerbCtx {
    pub an: Seq<CachedRule>,
    pub vik: Seq<char>,
    pub vik_name: Seq<char>,
    pub gana: Seq<char>,
    pub tin_pit: bool,
    pub nit: bool,
}

/// A derivation in progress: the stem, the ending, and the steps so far.
#[verifier::ext_equal]
pub struct VerbState {
    pub anga: Seq<char>,
    pub tin: Seq<char>,
    pub steps: Seq<StepView>,
}

/// The executable context of the aṅga operations.
pub struct VerbRules<'a> {
    pub an: &'a [CachedRule],
    pub vik: String,
    pub vik_name: String,
    pub gana: String,
    pub tin_pit: bool,
    pub nit: bool,
}

impl<'a> VerbRules<'a> {
    /// The context these values stand for.
    pub open spec fn ctx(&self) -> VerbCtx {
        VerbCtx {
            an: self.an@,
            vik: self.vik@,
            vik_name: self.vik_name@,
            gana: self.gana@,
            tin_pit: self.tin_pit,
            nit: self.nit,
        }
    }
}

/// The state after an executable step: the stem, the ending, and the trace.
pub open spec fn state_of(anga: Seq<char>, tin: Seq<char>, trace: Seq<TraceStep>) -> VerbState {
    VerbState { anga, tin, steps: step_views(trace) }
}

/// The word with the rule's `input` bytes cut from its end and `output` added;
/// none when the cut would fall inside a character.
pub open spec fn cut_result(r: CachedRule, w: Seq<char>) -> Option<Seq<char>> {
    match cut_bytes(w, byte_len(ot(r, "input"@))) {
        Some(h) => Some(h + ot(r, "output"@)),
        None => None,
    }
}

/// What a rule that rewrites the end of a word (or an inner vowel, for a
/// medial guṇa or vṛddhi) makes of it; none when a byte cut fails.
pub open spec fn end_result(op: AngaOp, r: CachedRule, w: Seq<char>) -> Option<Seq<char>> {
    match op {
        AngaOp::Dirgha | AngaOp::SnaAlternation => Some(
            drop_last_n(w, ot(r, "input"@).len() as int) + ot(r, "output"@),
        ),
        AngaOp::Guna | AngaOp::Vrddhi => if ot(r, "position"@) == "dhatu_final"@ {
            cut_result(r, w)
        } else {
            medial_replaced(w, ot(r, "input"@), ot(r, "output"@))
        },
        _ => cut_result(r, w),
    }
}

/// The rewriting kinds of rule (all but the two junction kinds).
pub open spec fn rewrites_end(op: AngaOp) -> bool {
    !(op is Coalescence) && !(op is ConsonantJunction)
}

/// The first rule of a rewriting kind applied to `w`: the new word and its
/// step, shown as `w` followed by `sfx`; the word unchanged when no rule fires;
/// none when a byte cut fails.
pub open spec fn end_stage(op: AngaOp, c: VerbCtx, w: Seq<char>, tin: Seq<char>, sfx: Seq<char>) -> Option<
    (Seq<char>, Seq<StepView>),
> {
    match op_choice(op, c.an, w, tin, c.vik_name, c.tin_pit) {
        Some(i) => match end_result(op, c.an[i], w) {
            Some(nw) => Some((nw, seq![rule_step(c.an[i], w + sfx, nw + sfx)])),
            None => None,
        },
        None => Some((w, Seq::empty())),
    }
}

/// The first junction rule of this kind: the stem and ending fused into one
/// word (the ending becomes empty), or the state unchanged.
pub open spec fn junction_stage(op: AngaOp, c: VerbCtx, s: VerbState) -> VerbState {
    match op_choice(op, c.an, s.anga, s.tin, c.vik_name, c.tin_pit) {
        Some(i) => {
            let la = if op is Coalescence {
                last_char(s.anga)
            } else {
                or_empty(last_phoneme_of(s.anga))
            };
            let ft = if op is Coalescence {
                first_char(s.tin)
            } else {
                or_empty(first_phoneme_of(s.tin))
            };
            let comb = drop_last_n(s.anga, la.len() as int) + ot(c.an[i], "operation_output"@)
                + s.tin.skip(ft.len() as int);
            VerbState {
                anga: comb,
                tin: Seq::empty(),
                steps: s.steps.push(rule_step(c.an[i], plus(s.anga, s.tin), comb)),
            }
        },
        None => s,
    }
}

/// Appends the step of a rule to a trace.
pub(crate) fn push_rule_step(trace: &mut Vec<TraceStep>, r: &CachedRule, input: String, output: String)
    requires
        numbered(old(trace)@),
    ensures
        numbered(final(trace)@),
        step_views(final(trace)@) == step_views(old(trace)@).push(rule_step(*r, input@, output@)),
{
    push_step(trace, r.statement.clone(), sutra_ref(rule_get_text(r, "sutra").as_str()), input, output);
}

/// The word with the rule's `input` bytes cut from its end and `output` added.
fn cut_apply(r: &CachedRule, w: &str) -> (res: Option<String>)
    ensures
        res matches Some(x) ==> cut_result(*r, w@) == Some(x@),
        res is None ==> cut_result(*r, w@) is None,
{
    let (inp, _) = opt_field(r, "input");
    let (out, _) = opt_field(r, "output");
    match cut_last_bytes(w, bytes_of(inp.as_str())) {
        Some(h) => Some(concat2(h.as_str(), out.as_str())),
        None => None,
    }
}

/// What a firing rule of a rewriting kind makes of a word.
fn end_apply(op: &AngaOp, r: &CachedRule, w: &str, tin: &str, vik_name: &str, tin_pit: bool) -> (res: Option<String>)
    requires
        rewrites_end(*op),
        op_fires(*op, *r, w@, tin@, vik_name@, tin_pit),
    ensures
        res matches Some(x) ==> end_result(*op, *r, w@) == Some(x@),
        res is None ==> end_result(*op, *r, w@) is None,
{
    let (inp, _) = opt_field(r, "input");
    let (out, _) = opt_field(r, "output");
    match op {
        AngaOp::Dirgha | AngaOp::SnaAlternation => {
            let head = text_drop_last(w, inp.unicode_len());
            Some(concat2(head.as_str(), out.as_str()))
        },
        AngaOp::Guna | AngaOp::Vrddhi => {
            let (pos, _) = opt_field(r, "position");
            if text_eq(pos.as_str(), "dhatu_final") {
                cut_apply(r, w)
            } else {
                replace_medial_vowel(w, inp.as_str(), out.as_str())
            }
        },
        _ => cut_apply(r, w),
    }
}

/// Applies the first rule of a rewriting kind to `w`, recording its step.
fn end_stage_exec(c: &VerbRules, op: &AngaOp, w: String, tin: &str, sfx: &str, trace: &mut Vec<TraceStep>) -> (res: Option<String>)
    requires
        rewrites_end(*op),
        numbered(old(trace)@),
    ensures
        numbered(final(trace)@),
        match end_stage(*op, c.ctx(), w@, tin@, sfx@) {
            Some((nw, st)) => res matches Some(x) && x@ == nw && step_views(final(trace)@)
                == step_views(old(trace)@) + st,
            None => res is None,
        },
{
    match op_first(op, c.an, w.as_str(), tin, c.vik_name.as_str(), c.tin_pit) {
        Some(i) => {
            let r = &c.an[i];
            match end_apply(op, r, w.as_str(), tin, c.vik_name.as_str(), c.tin_pit) {
                Some(nw) => {
                    let ghost before = step_views(trace@);
                    push_rule_step(trace, r, concat2(w.as_str(), sfx), concat2(nw.as_str(), sfx));
                    assert(step_views(trace@) =~= before + seq![rule_step(*r, w@ + sfx@, nw@ + sfx@)]);
                    Some(nw)
                },
                None => None,
            }
        },
        None => {
            assert(step_views(trace@) =~= step_views(trace@) + Seq::<StepView>::empty());
            Some(w)
        },
    }
}

/// Fuses the stem and ending by the first junction rule of this kind, recording its step.
fn junction_stage_exec(c: &VerbRules, op: &AngaOp, anga: String, tin: String, trace: &mut Vec<TraceStep>) -> (res: (String, String))
    requires
        !rewrites_end(*op),
        numbered(old(trace)@),
    ensures
        numbered(final(trace)@),
        state_of(res.0@, res.1@, final(trace)@) == junction_stage(
            *op,
            c.ctx(),
            state_of(anga@, tin@, old(trace)@),
        ),
{
    match op_first(op, c.an, anga.as_str(), tin.as_str(), c.vik_name.as_str(), c.tin_pit) {
        Some(i) => {
            let r = &c.an[i];
            let (la, ft) = match op {
                AngaOp::Coalescence => (last_char_text(anga.as_str()), first_char_text(tin.as_str())),
                _ => {
                    proof {
                        if anga@.len() > 0 {
                            lemma_last_phoneme_suffix(anga@);
                        }
                        if tin@.len() > 0 {
                            lemma_first_phoneme_prefix(tin@);
                        }
                    }
                    (phoneme_or_empty(last_phoneme(anga.as_str())), phoneme_or_empty(first_phoneme(tin.as_str())))
                },
            };
            let (out, _) = opt_field(r, "operation_output");
            let head = text_drop_last(anga.as_str(), la.unicode_len());
            let rest = text_drop_first(tin.as_str(), ft.unicode_len());
            let comb = concat3(head.as_str(), out.as_str(), rest.as_str());
            push_rule_step(trace, r, concat3(anga.as_str(), " + ", tin.as_str()), comb.clone());
            (comb, String::new())
        },
        None => (anga, tin),
    }
}


/// The guṇa of an iK vowel: i ī → e, u ū → o, ṛ ṝ → ar, ḷ → al.
pub open spec fn guna_of(t: Seq<char>) -> Option<Seq<char>> {
    if t == "i"@ || t == "ī"@ {
        Some("e"@)
    } else if t == "u"@ || t == "ū"@ {
        Some("o"@)
    } else if t == "ṛ"@ || t == "ṝ"@ {
        Some("ar"@)
    } else if t == "ḷ"@ {
        Some("al"@)
    } else {
        None
    }
}

/// Guṇa of the stem's penultimate phoneme before a pit ending (7.3.84).
pub open spec fn upadha_guna(s: VerbState) -> VerbState {
    let t = phonemes(s.anga);
    if t.len() >= 2 {
        match guna_of(t[t.len() - 2]) {
            Some(g) => {
                let na = t.update(t.len() - 2, g).flatten();
                VerbState {
                    anga: na,
                    tin: s.tin,
                    steps: s.steps.push(
                        (
                            t[t.len() - 2] + " → "@ + g
                                + " (guṇa of upadha before pit sārvadhātuka, Aṣṭ. 7.3.84)"@,
                            Some("7.3.84"@),
                            plus(s.anga, s.tin),
                            plus(na, s.tin),
                        ),
                    ),
                }
            },
            None => s,
        }
    } else {
        s
    }
}

/// A voiced aspirate loses voice and aspiration before a voiceless sound:
/// gh → k, jh → c, ḍh → ṭ, dh → t, bh → p.
pub open spec fn devoiced(t: Seq<char>) -> Option<Seq<char>> {
    if t == "gh"@ {
        Some("k"@)
    } else if t == "jh"@ {
        Some("c"@)
    } else if t == "ḍh"@ {
        Some("ṭ"@)
    } else if t == "dh"@ {
        Some("t"@)
    } else if t == "bh"@ {
        Some("p"@)
    } else {
        None
    }
}

/// The voiceless sounds (khar) that cause devoicing.
pub open spec fn is_khar(t: Seq<char>) -> bool {
    t == "k"@ || t == "kh"@ || t == "c"@ || t == "ch"@ || t == "ṭ"@ || t == "ṭh"@ || t == "t"@
        || t == "th"@ || t == "p"@ || t == "ph"@ || t == "ś"@ || t == "ṣ"@ || t == "s"@
}

/// A stop takes aspiration; other sounds stay.
pub open spec fn aspirated(t: Seq<char>) -> Seq<char> {
    if t == "k"@ {
        "kh"@
    } else if t == "g"@ {
        "gh"@
    } else if t == "c"@ {
        "ch"@
    } else if t == "j"@ {
        "jh"@
    } else if t == "ṭ"@ {
        "ṭh"@
    } else if t == "ḍ"@ {
        "ḍh"@
    } else if t == "t"@ {
        "th"@
    } else if t == "d"@ {
        "dh"@
    } else if t == "p"@ {
        "ph"@
    } else if t == "b"@ {
        "bh"@
    } else {
        t
    }
}

/// Loss of a reduplicated stem's final ā before a non-pit ending (6.4.64); when
/// that leaves a voiced aspirate before a voiceless sound, it is devoiced and
/// its aspiration moves to the stem's first consonant (8.4.55), fusing stem and ending.
pub open spec fn a_lopa(s: VerbState) -> VerbState {
    let a1 = drop_last_n(s.anga, "ā"@.len() as int);
    let s1 = (
        "ā → lopa in abhyasta before ṅit sārvadhātuka (Aṣṭ. 6.4.64)"@,
        Some("6.4.64"@),
        plus(s.anga, s.tin),
        plus(a1, s.tin),
    );
    let fph = or_empty(last_phoneme_of(a1));
    let tph = or_empty(first_phoneme_of(s.tin));
    match devoiced(fph) {
        Some(dv) => if is_khar(tph) {
            let prefix = drop_last_n(a1, fph.len() as int);
            let fp = or_empty(first_phoneme_of(prefix));
            let asp = aspirated(fp);
            let comb = asp + prefix.skip(fp.len() as int) + dv + s.tin;
            VerbState {
                anga: comb,
                tin: Seq::empty(),
                steps: s.steps.push(s1).push(
                    (
                        fph + " → "@ + dv + " (khari ca) + aspiration → "@ + asp + " (Aṣṭ. 8.4.55)"@,
                        Some("8.4.55"@),
                        plus(a1, s.tin),
                        comb,
                    ),
                ),
            }
        } else {
            VerbState { anga: a1, tin: s.tin, steps: s.steps.push(s1) }
        },
        None => VerbState { anga: a1, tin: s.tin, steps: s.steps.push(s1) },
    }
}

/// The sounds that cause ṇatva: ṛ ṝ r ṣ.
pub open spec fn natva_trigger(t: Seq<char>) -> bool {
    t == "ṛ"@ || t == "ṝ"@ || t == "r"@ || t == "ṣ"@
}

/// Some phoneme of the text causes ṇatva.
pub open spec fn has_natva_trigger(head: Seq<char>) -> bool {
    exists|i: int| 0 <= i < phonemes(head).len() && natva_trigger(#[trigger] phonemes(head)[i])
}

/// ṇatva (8.4.2): the n that begins the vikaraṇa part of the stem (from byte
/// `off`) becomes ṇ when the part before it has ṛ ṝ r or ṣ. None when byte
/// `off` does not fall between characters of the stem.
pub open spec fn natva(off: int, s: VerbState) -> Option<VerbState> {
    match crate::conjugation::split_bytes(s.anga, off) {
        None => None,
        Some((head, tail)) => if has_natva_trigger(head) && tail.len() > 0 && tail[0] == 'n' {
            let na = head + "ṇ"@ + tail.skip(1);
            Some(
                VerbState {
                    anga: na,
                    tin: s.tin,
                    steps: s.steps.push(
                        (
                            "n → ṇ (ṇatva, aṭkupvāṅ... Aṣṭ. 8.4.2)"@,
                            Some("8.4.2"@),
                            plus(s.anga, s.tin),
                            plus(na, s.tin),
                        ),
                    ),
                },
            )
        } else {
            Some(s)
        },
    }
}

/// A rewriting stage applied to the stem, before the ending.
pub open spec fn tin_stage(op: AngaOp, c: VerbCtx, o: Option<VerbState>) -> Option<VerbState> {
    match o {
        None => None,
        Some(s) => match end_stage(op, c, s.anga, s.tin, " + "@ + s.tin) {
            Some((na, st)) => Some(VerbState { anga: na, tin: s.tin, steps: s.steps + st }),
            None => None,
        },
    }
}

/// The operations at the junction of stem and ending, in order: lengthening
/// (dīrgha), coalescence, guṇa of the penultimate (with a ṅit vikaraṇa and pit
/// ending), guṇa of the stem's end (pit ending), yaṇ, śnā alternation, ā-lopa
/// (class 3, non-pit ending), ṇatva (vikaraṇa in n), and consonant junction.
/// Stages after a fusion see an empty ending and, but for ṇatva, do nothing.
/// None when a byte cut or split fails.
pub open spec fn pre_tin_layer(c: VerbCtx, off: int, s0: VerbState) -> Option<VerbState> {
    let s1 = tin_stage(AngaOp::Dirgha, c, Some(s0));
    let s2 = match s1 {
        Some(s) => Some(junction_stage(AngaOp::Coalescence, c, s)),
        None => None,
    };
    let s3 = match s2 {
        Some(s) => if s.tin.len() > 0 && c.tin_pit && c.nit {
            Some(upadha_guna(s))
        } else {
            Some(s)
        },
        None => None,
    };
    let s4 = match s3 {
        Some(s) => if s.tin.len() > 0 && c.tin_pit {
            tin_stage(AngaOp::GunaAngaFinal, c, Some(s))
        } else {
            Some(s)
        },
        None => None,
    };
    let s5 = match s4 {
        Some(s) => if s.tin.len() > 0 {
            tin_stage(AngaOp::YanJunction, c, Some(s))
        } else {
            Some(s)
        },
        None => None,
    };
    let s6 = match s5 {
        Some(s) => if s.tin.len() > 0 {
            tin_stage(AngaOp::SnaAlternation, c, Some(s))
        } else {
            Some(s)
        },
        None => None,
    };
    let s7 = match s6 {
        Some(s) => if s.tin.len() > 0 && c.gana == "3"@ && !c.tin_pit && is_suffix_of("ā"@, s.anga) {
            Some(a_lopa(s))
        } else {
            Some(s)
        },
        None => None,
    };
    let s8 = match s7 {
        Some(s) => if c.vik.len() > 0 && c.vik[0] == 'n' {
            natva(off, s)
        } else {
            Some(s)
        },
        None => None,
    };
    match s8 {
        Some(s) => if s.tin.len() > 0 {
            Some(junction_stage(AngaOp::ConsonantJunction, c, s))
        } else {
            Some(s)
        },
        None => None,
    }
}

/// Guṇa of an iK vowel.
fn guna_vowel(t: &str) -> (r: Option<&'static str>)
    ensures
        match guna_of(t@) {
            Some(g) => r matches Some(x) && x@ == g,
            None => r is None,
        },
{
    if text_eq(t, "i") || text_eq(t, "ī") {
        Some("e")
    } else if text_eq(t, "u") || text_eq(t, "ū") {
        Some("o")
    } else if text_eq(t, "ṛ") || text_eq(t, "ṝ") {
        Some("ar")
    } else if text_eq(t, "ḷ") {
        Some("al")
    } else {
        None
    }
}

/// The tokens glued back together with token `k` replaced by `to`.
pub fn replace_token(t: &Vec<String>, k: usize, to: &str) -> (r: String)
    requires
        k < t@.len(),
    ensures
        r@ == views(t@).update(k as int, to@).flatten(),
{
    let n = t.len();
    let ghost nt = views(t@).update(k as int, to@);
    let mut out = String::new();
    let mut j: usize = 0;
    assert(nt.subrange(0, 0) =~= Seq::<Seq<char>>::empty());
    while j < n
        invariant
            n == t@.len(),
            k < n,
            nt == views(t@).update(k as int, to@),
            j <= n,
            out@ == nt.subrange(0, j as int).flatten(),
        decreases n - j,
    {
        if j == k {
            out.append(to);
        } else {
            out.append(t[j].as_str());
        }
        assert(nt.subrange(0, j + 1) =~= nt.subrange(0, j as int).push(nt[j as int]));
        j += 1;
    }
    assert(nt.subrange(0, n as int) =~= nt);
    out
}

/// Guṇa of the stem's penultimate phoneme, recording its step.
fn upadha_guna_exec(anga: String, tin: &str, trace: &mut Vec<TraceStep>) -> (r: String)
    requires
        numbered(old(trace)@),
    ensures
        numbered(final(trace)@),
        state_of(r@, tin@, final(trace)@) == upadha_guna(state_of(anga@, tin@, old(trace)@)),
{
    let t = tokenize(anga.as_str());
    let n = t.len();
    if n >= 2 {
        assert(views(t@)[n - 2] == t@[n - 2]@);
        match guna_vowel(t[n - 2].as_str()) {
            Some(g) => {
                let na = replace_token(&t, n - 2, g);
                let mut rule = concat3(t[n - 2].as_str(), " → ", g);
                rule.append(" (guṇa of upadha before pit sārvadhātuka, Aṣṭ. 7.3.84)");
                push_step(
                    trace,
                    rule,
                    Some(owned("7.3.84")),
                    concat3(anga.as_str(), " + ", tin),
                    concat3(na.as_str(), " + ", tin),
                );
                na
            },
            None => anga,
        }
    } else {
        anga
    }
}

/// The devoiced form of a voiced aspirate.
fn devoice(t: &str) -> (r: Option<&'static str>)
    ensures
        match devoiced(t@) {
            Some(g) => r matches Some(x) && x@ == g,
            None => r is None,
        },
{
    if text_eq(t, "gh") {
        Some("k")
    } else if text_eq(t, "jh") {
        Some("c")
    } else if text_eq(t, "ḍh") {
        Some("ṭ")
    } else if text_eq(t, "dh") {
        Some("t")
    } else if text_eq(t, "bh") {
        Some("p")
    } else {
        None
    }
}

/// Whether a phoneme is voiceless (khar).
fn khar(t: &str) -> (r: bool)
    ensures
        r == is_khar(t@),
{
    text_eq(t, "k") || text_eq(t, "kh") || text_eq(t, "c") || text_eq(t, "ch") || text_eq(t, "ṭ")
        || text_eq(t, "ṭh") || text_eq(t, "t") || text_eq(t, "th") || text_eq(t, "p") || text_eq(
        t,
        "ph",
    ) || text_eq(t, "ś") || text_eq(t, "ṣ") || text_eq(t, "s")
}

/// A stop with aspiration.
fn aspirate(t: &str) -> (r: String)
    ensures
        r@ == aspirated(t@),
{
    if text_eq(t, "k") {
        owned("kh")
    } else if text_eq(t, "g") {
        owned("gh")
    } else if text_eq(t, "c") {
        owned("ch")
    } else if text_eq(t, "j") {
        owned("jh")
    } else if text_eq(t, "ṭ") {
        owned("ṭh")
    } else if text_eq(t, "ḍ") {
        owned("ḍh")
    } else if text_eq(t, "t") {
        owned("th")
    } else if text_eq(t, "d") {
        owned("dh")
    } else if text_eq(t, "p") {
        owned("ph")
    } else if text_eq(t, "b") {
        owned("bh")
    } else {
        owned(t)
    }
}


/// ā-lopa and the devoicing that may follow it, recording their steps.
fn a_lopa_exec(anga: String, tin: String, trace: &mut Vec<TraceStep>) -> (r: (String, String))
    requires
        numbered(old(trace)@),
        is_suffix_of("ā"@, anga@),
    ensures
        numbered(final(trace)@),
        state_of(r.0@, r.1@, final(trace)@) == a_lopa(state_of(anga@, tin@, old(trace)@)),
{
    let a1 = text_drop_last(anga.as_str(), "ā".unicode_len());
    push_step(
        trace,
        owned("ā → lopa in abhyasta before ṅit sārvadhātuka (Aṣṭ. 6.4.64)"),
        Some(owned("6.4.64")),
        concat3(anga.as_str(), " + ", tin.as_str()),
        concat3(a1.as_str(), " + ", tin.as_str()),
    );
    let fph = phoneme_or_empty(last_phoneme(a1.as_str()));
    let tph = phoneme_or_empty(first_phoneme(tin.as_str()));
    match devoice(fph.as_str()) {
        Some(dv) => {
            if khar(tph.as_str()) {
                proof {
                    if a1@.len() > 0 {
                        lemma_last_phoneme_suffix(a1@);
                    }
                }
                let prefix = text_drop_last(a1.as_str(), fph.unicode_len());
                let fp = phoneme_or_empty(first_phoneme(prefix.as_str()));
                proof {
                    if prefix@.len() > 0 {
                        lemma_first_phoneme_prefix(prefix@);
                    }
                }
                let asp = aspirate(fp.as_str());
                let rest = text_drop_first(prefix.as_str(), fp.unicode_len());
                let comb = concat4(asp.as_str(), rest.as_str(), dv, tin.as_str());
                let mut rule = concat3(fph.as_str(), " → ", dv);
                rule.append(" (khari ca) + aspiration → ");
                rule.append(asp.as_str());
                rule.append(" (Aṣṭ. 8.4.55)");
                push_step(
                    trace,
                    rule,
                    Some(owned("8.4.55")),
                    concat3(a1.as_str(), " + ", tin.as_str()),
                    comb.clone(),
                );
                (comb, String::new())
            } else {
                (a1, tin)
            }
        },
        None => (a1, tin),
    }
}

/// Whether some phoneme of a text causes ṇatva.
fn natva_trigger_in(head: &str) -> (r: bool)
    ensures
        r == has_natva_trigger(head@),
{
    let t = tokenize(head);
    let n = t.len();
    let mut i: usize = 0;
    while i < n
        invariant
            n == t@.len(),
            views(t@) == phonemes(head@),
            i <= n,
            forall|j: int| 0 <= j < i ==> !natva_trigger(#[trigger] phonemes(head@)[j]),
        decreases n - i,
    {
        let x = t[i].as_str();
        assert(phonemes(head@)[i as int] == x@);
        if text_eq(x, "ṛ") || text_eq(x, "ṝ") || text_eq(x, "r") || text_eq(x, "ṣ") {
            return true;
        }
        i += 1;
    }
    false
}

/// ṇatva of the vikaraṇa part of the stem, recording its step.
fn natva_exec(off: usize, anga: String, tin: &str, trace: &mut Vec<TraceStep>) -> (r: Option<String>)
    requires
        numbered(old(trace)@),
    ensures
        numbered(final(trace)@),
        match natva(off as int, state_of(anga@, tin@, old(trace)@)) {
            Some(s) => r matches Some(a) && state_of(a@, tin@, final(trace)@) == s,
            None => r is None,
        },
{
    match split_at_byte(anga.as_str(), off) {
        None => None,
        Some((head, tail)) => {
            if natva_trigger_in(head.as_str()) && tail.unicode_len() > 0 && tail.get_char(0) == 'n' {
                let na = concat3(head.as_str(), "ṇ", text_drop_first(tail.as_str(), 1).as_str());
                push_step(
                    trace,
                    owned("n → ṇ (ṇatva, aṭkupvāṅ... Aṣṭ. 8.4.2)"),
                    Some(owned("8.4.2")),
                    concat3(anga.as_str(), " + ", tin),
                    concat3(na.as_str(), " + ", tin),
                );
                Some(na)
            } else {
                Some(anga)
            }
        },
    }
}

/// A rewriting stage before the ending, recording its step.
fn tin_stage_exec(c: &VerbRules, op: &AngaOp, anga: String, tin: &str, trace: &mut Vec<TraceStep>) -> (r: Option<String>)
    requires
        rewrites_end(*op),
        numbered(old(trace)@),
    ensures
        numbered(final(trace)@),
        match tin_stage(*op, c.ctx(), Some(state_of(anga@, tin@, old(trace)@))) {
            Some(s) => r matches Some(a) && state_of(a@, tin@, final(trace)@) == s,
            None => r is None,
        },
{
    let sfx = concat2(" + ", tin);
    end_stage_exec(c, op, anga, tin, sfx.as_str(), trace)
}

/// The operations at the junction of stem and ending, recording their steps.
pub fn pre_tin_exec(c: &VerbRules, off: usize, anga: String, tin: String, trace: &mut Vec<TraceStep>) -> (r: Option<(String, String)>)
    requires
        numbered(old(trace)@),
    ensures
        numbered(final(trace)@),
        match pre_tin_layer(c.ctx(), off as int, state_of(anga@, tin@, old(trace)@)) {
            Some(s) => r matches Some((a, t)) && state_of(a@, t@, final(trace)@) == s,
            None => r is None,
        },
{
    let ghost cx = c.ctx();
    let ghost s0 = state_of(anga@, tin@, trace@);
    let ghost s1 = tin_stage(AngaOp::Dirgha, cx, Some(s0));
    let a1 = match tin_stage_exec(c, &AngaOp::Dirgha, anga, tin.as_str(), trace) {
        Some(a) => a,
        None => {
            return None;
        },
    };
    assert(s1 == Some(state_of(a1@, tin@, trace@)));
    let ghost s2 = junction_stage(AngaOp::Coalescence, cx, state_of(a1@, tin@, trace@));
    let (a2, t2) = junction_stage_exec(c, &AngaOp::Coalescence, a1, tin, trace);
    assert(s2 == state_of(a2@, t2@, trace@));
    let a3 = if t2.unicode_len() > 0 && c.tin_pit && c.nit {
        upadha_guna_exec(a2, t2.as_str(), trace)
    } else {
        a2
    };
    let ghost s3 = state_of(a3@, t2@, trace@);
    let a4 = if t2.unicode_len() > 0 && c.tin_pit {
        match tin_stage_exec(c, &AngaOp::GunaAngaFinal, a3, t2.as_str(), trace) {
            Some(a) => a,
            None => {
                return None;
            },
        }
    } else {
        a3
    };
    let ghost s4 = state_of(a4@, t2@, trace@);
    let a5 = if t2.unicode_len() > 0 {
        match tin_stage_exec(c, &AngaOp::YanJunction, a4, t2.as_str(), trace) {
            Some(a) => a,
            None => {
                return None;
            },
        }
    } else {
        a4
    };
    let ghost s5 = state_of(a5@, t2@, trace@);
    let a6 = if t2.unicode_len() > 0 {
        match tin_stage_exec(c, &AngaOp::SnaAlternation, a5, t2.as_str(), trace) {
            Some(a) => a,
            None => {
                return None;
            },
        }
    } else {
        a5
    };
    let ghost s6 = state_of(a6@, t2@, trace@);
    let (a7, t7) = if t2.unicode_len() > 0 && text_eq(c.gana.as_str(), "3") && !c.tin_pit && ends_with_text(
        a6.as_str(),
        "ā",
    ) {
        a_lopa_exec(a6, t2, trace)
    } else {
        (a6, t2)
    };
    let ghost s7 = state_of(a7@, t7@, trace@);
    let a8 = if c.vik.unicode_len() > 0 && c.vik.get_char(0) == 'n' {
        match natva_exec(off, a7, t7.as_str(), trace) {
            Some(a) => a,
            None => {
                return None;
            },
        }
    } else {
        a7
    };
    let ghost s8 = state_of(a8@, t7@, trace@);
    if t7.unicode_len() > 0 {
        let (a9, t9) = junction_stage_exec(c, &AngaOp::ConsonantJunction, a8, t7, trace);
        Some((a9, t9))
    } else {
        Some((a8, t7))
    }
}


/// The operations on the root before the vikaraṇa: unless skipped, the first
/// firing guṇa rule (or vṛddhi rule), then the first firing semivowel rule.
/// Steps show the root, the vikaraṇa and the ending. None when a byte cut fails.
pub open spec fn pre_vikarana_layer(c: VerbCtx, s: VerbState, skip: bool, vrddhi: bool) -> Option<VerbState> {
    if skip {
        Some(s)
    } else {
        let sfx = " + "@ + c.vik + " + "@ + s.tin;
        let op = if vrddhi {
            AngaOp::Vrddhi
        } else {
            AngaOp::Guna
        };
        match end_stage(op, c, s.anga, s.tin, sfx) {
            None => None,
            Some((d1, st1)) => match end_stage(AngaOp::Semivowel, c, d1, s.tin, sfx) {
                None => None,
                Some((d2, st2)) => Some(VerbState { anga: d2, tin: s.tin, steps: s.steps + st1 + st2 }),
            },
        }
    }
}

/// The operations on the root before the vikaraṇa, recording their steps.
pub fn pre_vikarana_exec(c: &VerbRules, dhatu: String, tin: &str, skip: bool, vrddhi: bool, trace: &mut Vec<TraceStep>) -> (r: Option<String>)
    requires
        numbered(old(trace)@),
    ensures
        numbered(final(trace)@),
        match pre_vikarana_layer(c.ctx(), state_of(dhatu@, tin@, old(trace)@), skip, vrddhi) {
            Some(s) => r matches Some(d) && state_of(d@, tin@, final(trace)@) == s,
            None => r is None,
        },
{
    if skip {
        return Some(dhatu);
    }
    let sfx = concat4(" + ", c.vik.as_str(), " + ", tin);
    let op = if vrddhi {
        AngaOp::Vrddhi
    } else {
        AngaOp::Guna
    };
    let ghost st0 = step_views(trace@);
    let d1 = match end_stage_exec(c, &op, dhatu, tin, sfx.as_str(), trace) {
        Some(d) => d,
        None => {
            return None;
        },
    };
    let ghost st1 = step_views(trace@);
    let d2 = match end_stage_exec(c, &AngaOp::Semivowel, d1, tin, sfx.as_str(), trace) {
        Some(d) => d,
        None => {
            return None;
        },
    };
    proof {
        let (_, a) = end_stage(op, c.ctx(), dhatu@, tin@, sfx@)->0;
        let (_, b) = end_stage(AngaOp::Semivowel, c.ctx(), d1@, tin@, sfx@)->0;
        assert(step_views(trace@) =~= st0 + a + b);
    }
    Some(d2)
}

} // verus!
