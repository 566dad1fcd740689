//! Declension: the five-layer derivation of an inflected noun form, and the
//! reverse analysis of a surface form.
use vstd::prelude::*;
use crate::engine::{somes, DeclensionAnalysis, DeclensionCandidate, Derived, DeriveResult, StepView, TraceStep, best_of, best_ranked,
    first_flag, first_index, lemma_best_of_some, numbered, push_step, rank_order, ranked_indices,
    step_views, sutra_ref, sutra_ref_of, as_ints};
use crate::error::PaniniError;
use crate::params::{CachedRule, rule_get_opt_text, rule_get_text, rule_opt_text, rule_text};
use crate::phoneme::{first_phoneme, first_phoneme_of, last_phoneme, last_phoneme_of};
use crate::shapes::{anga_shape, check_anga_shape, check_pratyaya_shape, check_sandhi_shape,
    check_sup_shape, check_tripadi_shape, pratyaya_shape, sandhi_shape, sup_shape, tripadi_shape};
use crate::sorted::{insert_text_sorted, sorted_distinct, texts};
use crate::text::{is_prefix_of, concat2, concat3, drop_last_n, ends_with_text, is_suffix_of, owned, text_drop_first,
    text_drop_last, text_eq, text_slice};

verus! {

broadcast use vstd::seq::Seq::group_seq_flatten;

/// What to decline: a stem of a stem class, in a case and a number.
pub struct DeclensionInput {
    pub stem: String,
    pub stem_type: String,
    pub case: String,
    pub number: String,
}

/// The vibhakti named by a case: `1`–`8` or its English name; other names
/// are taken as vibhakti names already.
pub open spec fn case_name(c: Seq<char>) -> Seq<char> {
    if c == "1"@ || c == "nominative"@ {
        "prathama"@
    } else if c == "2"@ || c == "accusative"@ {
        "dvitiya"@
    } else if c == "3"@ || c == "instrumental"@ {
        "tritiya"@
    } else if c == "4"@ || c == "dative"@ {
        "caturthi"@
    } else if c == "5"@ || c == "ablative"@ {
        "pancami"@
    } else if c == "6"@ || c == "genitive"@ {
        "sasthi"@
    } else if c == "7"@ || c == "locative"@ {
        "saptami"@
    } else if c == "8"@ || c == "vocative"@ {
        "sambodhana"@
    } else {
        c
    }
}

/// The vacana named by a number: `sg`/`du`/`pl` or the English name; other
/// names are taken as vacana names already.
pub open spec fn number_name(n: Seq<char>) -> Seq<char> {
    if n == "sg"@ || n == "singular"@ {
        "ekavacana"@
    } else if n == "du"@ || n == "dual"@ {
        "dvivacana"@
    } else if n == "pl"@ || n == "plural"@ {
        "bahuvacana"@
    } else {
        n
    }
}

/// The English names of the eight cases, in the order of the vibhaktis.
pub open spec fn english_case(k: int) -> Seq<char> {
    seq![
        "nominative"@,
        "accusative"@,
        "instrumental"@,
        "dative"@,
        "ablative"@,
        "genitive"@,
        "locative"@,
        "vocative"@,
    ][k]
}

/// The English names of the three numbers, in the order of the vacanas.
pub open spec fn english_number(k: int) -> Seq<char> {
    seq!["singular"@, "dual"@, "plural"@][k]
}

/// The short names of the three numbers, in the order of the vacanas.
pub open spec fn short_number(k: int) -> Seq<char> {
    seq!["sg"@, "du"@, "pl"@][k]
}

/// Spells out the case and number names.
proof fn lemma_case_name_letters()
    ensures
        "1"@ == seq!['1'],
        "2"@ == seq!['2'],
        "3"@ == seq!['3'],
        "4"@ == seq!['4'],
        "5"@ == seq!['5'],
        "6"@ == seq!['6'],
        "7"@ == seq!['7'],
        "8"@ == seq!['8'],
        "nominative"@.len() == 10 && "nominative"@[0] == 'n',
        "accusative"@.len() == 10 && "accusative"@[0] == 'a',
        "instrumental"@.len() == 12,
        "dative"@.len() == 6,
        "ablative"@.len() == 8 && "ablative"@[0] == 'a',
        "genitive"@.len() == 8 && "genitive"@[0] == 'g',
        "locative"@.len() == 8 && "locative"@[0] == 'l',
        "vocative"@.len() == 8 && "vocative"@[0] == 'v',
        "sg"@ == seq!['s', 'g'],
        "du"@ == seq!['d', 'u'],
        "pl"@ == seq!['p', 'l'],
        "singular"@.len() == 8,
        "dual"@.len() == 4,
        "plural"@.len() == 6,
        "prathama"@.len() == 8 && "prathama"@[0] == 'p',
        "dvitiya"@.len() == 7 && "dvitiya"@[0] == 'd',
        "tritiya"@.len() == 7 && "tritiya"@[0] == 't',
        "caturthi"@.len() == 8 && "caturthi"@[0] == 'c',
        "pancami"@.len() == 7 && "pancami"@[0] == 'p',
        "sasthi"@.len() == 6,
        "saptami"@.len() == 7 && "saptami"@[0] == 's',
        "sambodhana"@.len() == 10,
        "ekavacana"@.len() == 9 && "ekavacana"@[0] == 'e',
        "dvivacana"@.len() == 9 && "dvivacana"@[0] == 'd',
        "bahuvacana"@.len() == 10,
{
    reveal_strlit("1");
    reveal_strlit("2");
    reveal_strlit("3");
    reveal_strlit("4");
    reveal_strlit("5");
    reveal_strlit("6");
    reveal_strlit("7");
    reveal_strlit("8");
    reveal_strlit("nominative");
    reveal_strlit("accusative");
    reveal_strlit("instrumental");
    reveal_strlit("dative");
    reveal_strlit("ablative");
    reveal_strlit("genitive");
    reveal_strlit("locative");
    reveal_strlit("vocative");
    reveal_strlit("sg");
    reveal_strlit("du");
    reveal_strlit("pl");
    reveal_strlit("singular");
    reveal_strlit("dual");
    reveal_strlit("plural");
    reveal_strlit("prathama");
    reveal_strlit("dvitiya");
    reveal_strlit("tritiya");
    reveal_strlit("caturthi");
    reveal_strlit("pancami");
    reveal_strlit("sasthi");
    reveal_strlit("saptami");
    reveal_strlit("sambodhana");
    reveal_strlit("ekavacana");
    reveal_strlit("dvivacana");
    reveal_strlit("bahuvacana");
}

/// Case `k + 1` and its English name (nominative, accusative, instrumental,
/// dative, ablative, genitive, locative, vocative) both name the `k`-th
/// vibhakti (prathamā, dvitīyā, tṛtīyā, caturthī, pañcamī, ṣaṣṭhī, saptamī,
/// sambodhana), and different cases name different vibhaktis: so declining
/// in the dative is declining in case 4, the caturthī, never the pañcamī.
pub proof fn law_case_names_follow_vibhakti_order(
    sup: Seq<CachedRule>,
    pr: Seq<CachedRule>,
    an: Seq<CachedRule>,
    sa: Seq<CachedRule>,
    tr: Seq<CachedRule>,
    stem: Seq<char>,
    cls: Seq<char>,
    number: Seq<char>,
    k: int,
    j: int,
)
    requires
        0 <= k < 8,
        0 <= j < 8,
    ensures
        case_name(crate::text::decimal((k + 1) as nat)) == crate::consistency::vibhakti_code(k),
        case_name(english_case(k)) == crate::consistency::vibhakti_code(k),
        j != k ==> case_name(english_case(j)) != case_name(english_case(k)),
        decline(sup, pr, an, sa, tr, stem, cls, english_case(k), number) == decline(
            sup,
            pr,
            an,
            sa,
            tr,
            stem,
            cls,
            crate::text::decimal((k + 1) as nat),
            number,
        ),
{
    lemma_case_name_letters();
    let code = crate::text::decimal((k + 1) as nat);
    assert(code == seq![crate::text::digit_char((k + 1) as nat)]);
    let cases = seq![
        "nominative"@,
        "accusative"@,
        "instrumental"@,
        "dative"@,
        "ablative"@,
        "genitive"@,
        "locative"@,
        "vocative"@,
    ];
    assert(english_case(k) == cases[k] && english_case(j) == cases[j]);
    let v = crate::consistency::vibhakti_code(k);
    if k == 0 {
        assert(code =~= "1"@);
    } else if k == 1 {
        assert(code =~= "2"@);
        assert(code[0] != "1"@[0]);
    } else if k == 2 {
        assert(code =~= "3"@);
        assert(code[0] != "1"@[0]);
        assert(code[0] != "2"@[0]);
    } else if k == 3 {
        assert(code =~= "4"@);
        assert(code[0] != "1"@[0]);
        assert(code[0] != "2"@[0]);
        assert(code[0] != "3"@[0]);
    } else if k == 4 {
        assert(code =~= "5"@);
        assert(code[0] != "1"@[0]);
        assert(code[0] != "2"@[0]);
        assert(code[0] != "3"@[0]);
        assert(code[0] != "4"@[0]);
    } else if k == 5 {
        assert(code =~= "6"@);
        assert(code[0] != "1"@[0]);
        assert(code[0] != "2"@[0]);
        assert(code[0] != "3"@[0]);
        assert(code[0] != "4"@[0]);
        assert(code[0] != "5"@[0]);
    } else if k == 6 {
        assert(code =~= "7"@);
        assert(code[0] != "1"@[0]);
        assert(code[0] != "2"@[0]);
        assert(code[0] != "3"@[0]);
        assert(code[0] != "4"@[0]);
        assert(code[0] != "5"@[0]);
        assert(code[0] != "6"@[0]);
    } else {
        assert(code =~= "8"@);
        assert(code[0] != "1"@[0]);
        assert(code[0] != "2"@[0]);
        assert(code[0] != "3"@[0]);
        assert(code[0] != "4"@[0]);
        assert(code[0] != "5"@[0]);
        assert(code[0] != "6"@[0]);
        assert(code[0] != "7"@[0]);
    }
    assert(case_name(code) == v);
    assert(case_name(english_case(k)) == v);
    let w = crate::consistency::vibhakti_code(j);
    assert(case_name(english_case(j)) == w);
    if j != k {
        assert(v != w) by {
            if k == 0 || k == 3 {
                assert(v.len() == w.len() ==> v[0] != w[0]);
            } else if k == 1 || k == 2 || k == 4 || k == 6 {
                assert(v.len() == w.len() ==> v[0] != w[0]);
            }
        }
    }
}

/// Number `sg`, `du` or `pl` and its English name (singular, dual, plural)
/// both name the `k`-th vacana (ekavacana, dvivacana, bahuvacana), and
/// different numbers name different vacanas.
pub proof fn law_number_names_follow_vacana_order(k: int, j: int)
    requires
        0 <= k < 3,
        0 <= j < 3,
    ensures
        number_name(short_number(k)) == crate::consistency::vacana_code(k),
        number_name(english_number(k)) == crate::consistency::vacana_code(k),
        j != k ==> number_name(short_number(j)) != number_name(short_number(k)),
{
    lemma_case_name_letters();
    assert(short_number(k) == seq!["sg"@, "du"@, "pl"@][k]);
    assert(english_number(k) == seq!["singular"@, "dual"@, "plural"@][k]);
    assert(short_number(j) == seq!["sg"@, "du"@, "pl"@][j]);
    let v = crate::consistency::vacana_code(k);
    let w = crate::consistency::vacana_code(j);
    assert(number_name(short_number(j)) == w);
    if j != k {
        assert(v != w) by {
            if v.len() == w.len() {
                assert(v[0] != w[0]);
            }
        }
    }
}

/// The vibhakti named by a case.
pub fn translate_case(case: &str) -> (r: String)
    ensures
        r@ == case_name(case@),
{
    if text_eq(case, "1") || text_eq(case, "nominative") {
        owned("prathama")
    } else if text_eq(case, "2") || text_eq(case, "accusative") {
        owned("dvitiya")
    } else if text_eq(case, "3") || text_eq(case, "instrumental") {
        owned("tritiya")
    } else if text_eq(case, "4") || text_eq(case, "dative") {
        owned("caturthi")
    } else if text_eq(case, "5") || text_eq(case, "ablative") {
        owned("pancami")
    } else if text_eq(case, "6") || text_eq(case, "genitive") {
        owned("sasthi")
    } else if text_eq(case, "7") || text_eq(case, "locative") {
        owned("saptami")
    } else if text_eq(case, "8") || text_eq(case, "vocative") {
        owned("sambodhana")
    } else {
        owned(case)
    }
}

/// The vacana named by a number.
pub fn translate_number(number: &str) -> (r: String)
    ensures
        r@ == number_name(number@),
{
    if text_eq(number, "sg") || text_eq(number, "singular") {
        owned("ekavacana")
    } else if text_eq(number, "du") || text_eq(number, "dual") {
        owned("dvivacana")
    } else if text_eq(number, "pl") || text_eq(number, "plural") {
        owned("bahuvacana")
    } else {
        owned(number)
    }
}

// --- Layer 1: suffix selection ---
/// A sUP entry for this stem class, vibhakti and vacana.
pub open spec fn sup_matches(r: CachedRule, cls: Seq<char>, vib: Seq<char>, vac: Seq<char>) -> bool {
    &&& sup_shape(r.params)
    &&& rule_text(r, "stem_class"@) == cls
    &&& rule_text(r, "vibhakti"@) == vib
    &&& rule_text(r, "vacana"@) == vac
}

/// The sUP entry used: the first that matches.
pub open spec fn sup_choice(sup: Seq<CachedRule>, cls: Seq<char>, vib: Seq<char>, vac: Seq<char>) -> Option<int> {
    first_index(Seq::new(sup.len(), |i: int| sup_matches(sup[i], cls, vib, vac)))
}

// --- Layer 2: pratyaya modification ---
/// A pratyaya rule that rewrites this suffix of this pratyaya after this stem class.
pub open spec fn pratyaya_applies(
    r: CachedRule,
    cls: Seq<char>,
    vib: Seq<char>,
    pname: Seq<char>,
    suffix: Seq<char>,
) -> bool {
    &&& pratyaya_shape(r.params)
    &&& rule_text(r, "condition_stem_class"@) == cls
    &&& rule_text(r, "condition_suffix"@) == pname
    &&& (rule_opt_text(r, "condition_vibhakti"@) matches Some(v) ==> v == vib)
    &&& rule_text(r, "input_suffix"@) == suffix
}

/// The pratyaya rule used: the applicable rule tried first.
pub open spec fn pratyaya_choice(
    pr: Seq<CachedRule>,
    cls: Seq<char>,
    vib: Seq<char>,
    pname: Seq<char>,
    suffix: Seq<char>,
) -> Option<int> {
    best_of(pr, Seq::new(pr.len(), |i: int| pratyaya_applies(pr[i], cls, vib, pname, suffix)), true)
}

// --- Layer 3: aṅga modification ---
/// An aṅga rule that rewrites the end of this stem before this suffix, in this
/// vibhakti and vacana (each condition only where the rule names one).
pub open spec fn anga_applies(
    r: CachedRule,
    stem: Seq<char>,
    suffix: Seq<char>,
    vib: Seq<char>,
    vac: Seq<char>,
) -> bool {
    &&& stem.len() > 0
    &&& anga_shape(r.params)
    &&& rule_text(r, "condition_stem_final"@) == seq![stem.last()]
    &&& (rule_opt_text(r, "condition_suffix_initial"@) matches Some(c) ==> first_phoneme_of(suffix)
        == Some(c))
    &&& (rule_opt_text(r, "condition_vacana"@) matches Some(v) ==> v == vac)
    &&& (rule_opt_text(r, "condition_vibhakti"@) matches Some(v) ==> v == vib)
    &&& is_suffix_of(rule_text(r, "operation_input"@), stem)
}

/// The aṅga rule used: the applicable rule tried first.
pub open spec fn anga_choice(
    an: Seq<CachedRule>,
    stem: Seq<char>,
    suffix: Seq<char>,
    vib: Seq<char>,
    vac: Seq<char>,
) -> Option<int> {
    best_of(an, Seq::new(an.len(), |i: int| anga_applies(an[i], stem, suffix, vib, vac)), true)
}

/// The stem after aṅga rule `r`.
pub open spec fn anga_result(r: CachedRule, stem: Seq<char>) -> Seq<char> {
    drop_last_n(stem, rule_text(r, "operation_input"@).len() as int) + rule_text(
        r,
        "operation_output"@,
    )
}

// --- Layer 4: junction sandhi ---
/// A sandhi rule that joins this stem-final and suffix-initial phoneme.
pub open spec fn junction_applies(r: CachedRule, stem: Seq<char>, suffix: Seq<char>, pname: Seq<char>) -> bool {
    &&& stem.len() > 0
    &&& suffix.len() > 0
    &&& sandhi_shape(r.params)
    &&& (rule_opt_text(r, "condition_pratyaya"@) matches Some(p) ==> p == pname)
    &&& last_phoneme_of(stem) == Some(rule_text(r, "first"@))
    &&& first_phoneme_of(suffix) == Some(rule_text(r, "second"@))
}

/// The junction rule used: the applicable rule tried first.
pub open spec fn junction_choice(sa: Seq<CachedRule>, stem: Seq<char>, suffix: Seq<char>, pname: Seq<char>) -> Option<int> {
    best_of(sa, Seq::new(sa.len(), |i: int| junction_applies(sa[i], stem, suffix, pname)), true)
}

/// The joined word after junction rule `r`.
pub open spec fn junction_result(r: CachedRule, stem: Seq<char>, suffix: Seq<char>) -> Seq<char> {
    drop_last_n(stem, rule_text(r, "first"@).len() as int) + rule_text(r, "result"@) + suffix.skip(
        rule_text(r, "second"@).len() as int,
    )
}

// --- Layer 5: tripādī ---
/// The vowels that trigger retroflexion of a following `s`: i, u, e, o, ṛ.
pub open spec fn is_iuk_char(c: char) -> bool {
    c == 'i' || c == 'u' || c == 'e' || c == 'o' || c == 'ṛ'
}

/// Position `i` holds `input` inside the word, after an iuK vowel.
pub open spec fn iuk_site(w: Seq<char>, input: Seq<char>, i: int) -> bool {
    &&& 0 < i
    &&& i + 1 < w.len()
    &&& seq![w[i]] == input
    &&& is_iuk_char(w[i - 1])
}

/// The word with `output` at the first iuK site, if there is one.
pub open spec fn iuk_retroflex(w: Seq<char>, input: Seq<char>, output: Seq<char>) -> Option<Seq<char>> {
    match first_index(Seq::new(w.len(), |i: int| iuk_site(w, input, i))) {
        Some(i) => Some(w.take(i) + output + w.skip(i + 1)),
        None => None,
    }
}

/// What tripādī rule `r` does to a word, if it fires; internal rules only
/// when `with_internal`.
pub open spec fn tripadi_step(r: CachedRule, w: Seq<char>, with_internal: bool) -> Option<Seq<char>> {
    let input = rule_text(r, "input"@);
    let output = rule_text(r, "output"@);
    if rule_text(r, "position"@) == "word_final"@ {
        if is_suffix_of(input, w) {
            Some(drop_last_n(w, input.len() as int) + output)
        } else {
            None
        }
    } else if with_internal && rule_text(r, "position"@) == "internal"@ && rule_opt_text(
        r,
        "condition_preceding"@,
    ) == Some("iuk"@) {
        iuk_retroflex(w, input, output)
    } else {
        None
    }
}

/// The readable tripādī rules.
pub open spec fn tripadi_flags(tr: Seq<CachedRule>) -> Seq<bool> {
    Seq::new(tr.len(), |i: int| tripadi_shape(tr[i].params))
}

/// Applying the tripādī rules in the given order: the final word and the steps that fired.
pub open spec fn tripadi_pass(tr: Seq<CachedRule>, order: Seq<int>, w: Seq<char>, with_internal: bool) -> (
    Seq<char>,
    Seq<StepView>,
)
    decreases order.len(),
{
    if order.len() == 0 {
        (w, Seq::empty())
    } else {
        let prev = tripadi_pass(tr, order.drop_last(), w, with_internal);
        let r = tr[order.last()];
        match tripadi_step(r, prev.0, with_internal) {
            Some(nw) => (
                nw,
                prev.1.push((r.statement@, sutra_ref_of(rule_text(r, "sutra"@)), prev.0, nw)),
            ),
            None => prev,
        }
    }
}

/// The tripādī layer: every readable rule in turn, higher priority first, then
/// the earlier sūtra, then the rule listed first.
pub open spec fn tripadi_layer(tr: Seq<CachedRule>, w: Seq<char>, with_internal: bool) -> (Seq<char>, Seq<StepView>) {
    tripadi_pass(tr, rank_order(tr, tripadi_flags(tr), false), w, with_internal)
}

/// The message when no sUP entry matches.
pub open spec fn no_sup_message(cls: Seq<char>, vib: Seq<char>, vac: Seq<char>) -> Seq<char> {
    "no sup_suffix for stem_class="@ + cls + ", vibhakti="@ + vib + ", vacana="@ + vac
}

/// The declined form and its trace, or none when no sUP entry matches.
pub open spec fn decline(
    sup: Seq<CachedRule>,
    pr: Seq<CachedRule>,
    an: Seq<CachedRule>,
    sa: Seq<CachedRule>,
    tr: Seq<CachedRule>,
    stem: Seq<char>,
    cls: Seq<char>,
    case: Seq<char>,
    number: Seq<char>,
) -> Option<(Seq<char>, Seq<StepView>)> {
    let vib = case_name(case);
    let vac = number_name(number);
    match sup_choice(sup, cls, vib, vac) {
        None => None,
        Some(s) => {
            let pname = rule_text(sup[s], "pratyaya"@);
            let suf0 = rule_text(sup[s], "suffix"@);
            let step1: StepView = (
                sup[s].statement@,
                sutra_ref_of(rule_text(sup[s], "sutra"@)),
                stem + " + "@ + pname + " ("@ + cls + " "@ + vib + " "@ + vac + ")"@,
                stem + " + "@ + suf0,
            );
            let suf1 = match pratyaya_choice(pr, cls, vib, pname, suf0) {
                Some(j) => rule_text(pr[j], "output_suffix"@),
                None => suf0,
            };
            let steps2: Seq<StepView> = match pratyaya_choice(pr, cls, vib, pname, suf0) {
                Some(j) => seq![
                    (
                        pr[j].statement@,
                        sutra_ref_of(rule_text(pr[j], "sutra"@)),
                        stem + " + "@ + suf0,
                        stem + " + "@ + suf1,
                    ),
                ],
                None => Seq::empty(),
            };
            let stem2 = match anga_choice(an, stem, suf1, vib, vac) {
                Some(j) => anga_result(an[j], stem),
                None => stem,
            };
            let steps3: Seq<StepView> = match anga_choice(an, stem, suf1, vib, vac) {
                Some(j) => seq![
                    (
                        an[j].statement@,
                        sutra_ref_of(rule_text(an[j], "sutra"@)),
                        stem + " + "@ + suf1,
                        stem2 + " + "@ + suf1,
                    ),
                ],
                None => Seq::empty(),
            };
            let word = match junction_choice(sa, stem2, suf1, pname) {
                Some(j) => junction_result(sa[j], stem2, suf1),
                None => stem2 + suf1,
            };
            let steps4: Seq<StepView> = match junction_choice(sa, stem2, suf1, pname) {
                Some(j) => seq![
                    (
                        sa[j].statement@,
                        sutra_ref_of(rule_text(sa[j], "sutra"@)),
                        stem2 + " + "@ + suf1,
                        word,
                    ),
                ],
                None => Seq::empty(),
            };
            let fin = tripadi_layer(tr, word, true);
            Some((fin.0, seq![step1] + steps2 + steps3 + steps4 + fin.1))
        },
    }
}

/// The first iuK site in a word.
fn iuk_site_flags(word: &str, input: &str) -> (r: Vec<bool>)
    ensures
        r@ == Seq::new(word@.len(), |i: int| iuk_site(word@, input@, i)),
{
    let n = word.unicode_len();
    let m = input.unicode_len();
    let mut out: Vec<bool> = Vec::new();
    let mut i: usize = 0;
    while i < n
        invariant
            n == word@.len(),
            m == input@.len(),
            i <= n,
            out@.len() == i,
            forall|j: int| 0 <= j < i ==> out@[j] == iuk_site(word@, input@, j),
        decreases n - i,
    {
        let mut site = false;
        if i > 0 && i + 1 < n && m == 1 {
            let c = word.get_char(i);
            let p = word.get_char(i - 1);
            site = c == input.get_char(0) && (p == 'i' || p == 'u' || p == 'e' || p == 'o' || p == 'ṛ');
            proof {
                if site {
                    assert(seq![word@[i as int]] =~= input@);
                } else if seq![word@[i as int]] == input@ {
                    assert(input@[0] == word@[i as int]);
                }
            }
        } else {
            proof {
                if i > 0 && i + 1 < n && seq![word@[i as int]] == input@ {
                    assert(input@.len() == 1);
                }
            }
        }
        out.push(site);
        i += 1;
    }
    assert(out@ =~= Seq::new(word@.len(), |i: int| iuk_site(word@, input@, i)));
    out
}

/// Retroflexion of `input` (ādeśapratyayayoḥ, 8.3.59): the first occurrence of
/// the one-character `input` strictly inside the word and right after one of
/// i, u, e, o, ṛ becomes `output`; none when there is no such occurrence.
pub fn try_apply_iuk_retroflexion(word: &str, input: &str, output: &str) -> (r: Option<String>)
    ensures
        r matches Some(w) ==> iuk_retroflex(word@, input@, output@) == Some(w@),
        r is None ==> iuk_retroflex(word@, input@, output@) is None,
{
    let flags = iuk_site_flags(word, input);
    match first_flag(&flags) {
        Some(i) => {
            let n = word.unicode_len();
            let head = text_slice(word, 0, i);
            let tail = text_slice(word, i + 1, n);
            assert(word@.subrange(0, i as int) =~= word@.take(i as int));
            assert(word@.subrange(i + 1, n as int) =~= word@.skip(i + 1));
            Some(concat3(head.as_str(), output, tail.as_str()))
        },
        None => None,
    }
}

/// Marks the sUP entries that match.
fn sup_flags(sup: &[CachedRule], cls: &str, vib: &str, vac: &str) -> (r: Vec<bool>)
    ensures
        r@ == Seq::new(sup@.len(), |i: int| sup_matches(sup@[i], cls@, vib@, vac@)),
{
    let n = sup.len();
    let mut out: Vec<bool> = Vec::new();
    let mut i: usize = 0;
    while i < n
        invariant
            n == sup@.len(),
            i <= n,
            out@.len() == i,
            forall|j: int| 0 <= j < i ==> out@[j] == sup_matches(sup@[j], cls@, vib@, vac@),
        decreases n - i,
    {
        let r = &sup[i];
        let b = check_sup_shape(&r.params).is_ok() && text_eq(
            rule_get_text(r, "stem_class").as_str(),
            cls,
        ) && text_eq(rule_get_text(r, "vibhakti").as_str(), vib) && text_eq(
            rule_get_text(r, "vacana").as_str(),
            vac,
        );
        out.push(b);
        i += 1;
    }
    assert(out@ =~= Seq::new(sup@.len(), |i: int| sup_matches(sup@[i], cls@, vib@, vac@)));
    out
}

/// Marks the applicable pratyaya rules.
fn pratyaya_flags(pr: &[CachedRule], cls: &str, vib: &str, pname: &str, suffix: &str) -> (r: Vec<bool>)
    ensures
        r@ == Seq::new(pr@.len(), |i: int| pratyaya_applies(pr@[i], cls@, vib@, pname@, suffix@)),
{
    let n = pr.len();
    let mut out: Vec<bool> = Vec::new();
    let mut i: usize = 0;
    while i < n
        invariant
            n == pr@.len(),
            i <= n,
            out@.len() == i,
            forall|j: int|
                0 <= j < i ==> out@[j] == pratyaya_applies(pr@[j], cls@, vib@, pname@, suffix@),
        decreases n - i,
    {
        let r = &pr[i];
        let vib_ok = match rule_get_opt_text(r, "condition_vibhakti") {
            Some(v) => text_eq(v.as_str(), vib),
            None => true,
        };
        let b = check_pratyaya_shape(&r.params).is_ok() && text_eq(
            rule_get_text(r, "condition_stem_class").as_str(),
            cls,
        ) && text_eq(rule_get_text(r, "condition_suffix").as_str(), pname) && vib_ok && text_eq(
            rule_get_text(r, "input_suffix").as_str(),
            suffix,
        );
        out.push(b);
        i += 1;
    }
    assert(out@ =~= Seq::new(
        pr@.len(),
        |i: int| pratyaya_applies(pr@[i], cls@, vib@, pname@, suffix@),
    ));
    out
}

/// Marks the applicable aṅga rules.
fn anga_flags(an: &[CachedRule], stem: &str, suffix: &str, vib: &str, vac: &str) -> (r: Vec<bool>)
    ensures
        r@ == Seq::new(an@.len(), |i: int| anga_applies(an@[i], stem@, suffix@, vib@, vac@)),
{
    let n = an.len();
    let slen = stem.unicode_len();
    let first = first_phoneme(suffix);
    let mut out: Vec<bool> = Vec::new();
    let mut i: usize = 0;
    while i < n
        invariant
            n == an@.len(),
            slen == stem@.len(),
            first matches Some(t) ==> first_phoneme_of(suffix@) == Some(t@),
            first is None ==> first_phoneme_of(suffix@) is None,
            i <= n,
            out@.len() == i,
            forall|j: int| 0 <= j < i ==> out@[j] == anga_applies(an@[j], stem@, suffix@, vib@, vac@),
        decreases n - i,
    {
        let r = &an[i];
        let mut b = false;
        if slen > 0 && check_anga_shape(&r.params).is_ok() {
            let last = text_slice(stem, slen - 1, slen);
            assert(last@ =~= seq![stem@.last()]);
            let si_ok = match rule_get_opt_text(r, "condition_suffix_initial") {
                Some(c) => match &first {
                    Some(t) => text_eq(t.as_str(), c.as_str()),
                    None => false,
                },
                None => true,
            };
            let vac_ok = match rule_get_opt_text(r, "condition_vacana") {
                Some(v) => text_eq(v.as_str(), vac),
                None => true,
            };
            let vib_ok = match rule_get_opt_text(r, "condition_vibhakti") {
                Some(v) => text_eq(v.as_str(), vib),
                None => true,
            };
            b = text_eq(rule_get_text(r, "condition_stem_final").as_str(), last.as_str()) && si_ok
                && vac_ok && vib_ok && ends_with_text(stem, rule_get_text(r, "operation_input").as_str());
        }
        out.push(b);
        i += 1;
    }
    assert(out@ =~= Seq::new(an@.len(), |i: int| anga_applies(an@[i], stem@, suffix@, vib@, vac@)));
    out
}

/// Marks the applicable junction rules.
fn junction_flags(sa: &[CachedRule], stem: &str, suffix: &str, pname: &str) -> (r: Vec<bool>)
    ensures
        r@ == Seq::new(sa@.len(), |i: int| junction_applies(sa@[i], stem@, suffix@, pname@)),
{
    let n = sa.len();
    let se = last_phoneme(stem);
    let ss = first_phoneme(suffix);
    let mut out: Vec<bool> = Vec::new();
    let mut i: usize = 0;
    while i < n
        invariant
            n == sa@.len(),
            se matches Some(t) ==> last_phoneme_of(stem@) == Some(t@),
            se is None ==> last_phoneme_of(stem@) is None,
            ss matches Some(t) ==> first_phoneme_of(suffix@) == Some(t@),
            ss is None ==> first_phoneme_of(suffix@) is None,
            i <= n,
            out@.len() == i,
            forall|j: int|
                0 <= j < i ==> out@[j] == junction_applies(sa@[j], stem@, suffix@, pname@),
        decreases n - i,
    {
        let r = &sa[i];
        let mut b = false;
        match (&se, &ss) {
            (Some(e), Some(s)) => {
                if check_sandhi_shape(&r.params).is_ok() {
                    let prat_ok = match rule_get_opt_text(r, "condition_pratyaya") {
                        Some(p) => text_eq(p.as_str(), pname),
                        None => true,
                    };
                    b = prat_ok && text_eq(rule_get_text(r, "first").as_str(), e.as_str())
                        && text_eq(rule_get_text(r, "second").as_str(), s.as_str());
                }
            },
            _ => {},
        }
        out.push(b);
        i += 1;
    }
    assert(out@ =~= Seq::new(sa@.len(), |i: int| junction_applies(sa@[i], stem@, suffix@, pname@)));
    out
}

/// Marks the readable tripādī rules.
fn tripadi_rule_flags(tr: &[CachedRule]) -> (r: Vec<bool>)
    ensures
        r@ == tripadi_flags(tr@),
{
    let n = tr.len();
    let mut out: Vec<bool> = Vec::new();
    let mut i: usize = 0;
    while i < n
        invariant
            n == tr@.len(),
            i <= n,
            out@.len() == i,
            forall|j: int| 0 <= j < i ==> out@[j] == tripadi_shape(tr@[j].params),
        decreases n - i,
    {
        out.push(check_tripadi_shape(&tr[i].params).is_ok());
        i += 1;
    }
    assert(out@ =~= tripadi_flags(tr@));
    out
}

/// What one tripādī rule does to a word.
fn tripadi_rule_step(r: &CachedRule, w: &str, with_internal: bool) -> (res: Option<String>)
    ensures
        res matches Some(nw) ==> tripadi_step(*r, w@, with_internal) == Some(nw@),
        res is None ==> tripadi_step(*r, w@, with_internal) is None,
{
    let input = rule_get_text(r, "input");
    let output = rule_get_text(r, "output");
    let pos = rule_get_text(r, "position");
    if text_eq(pos.as_str(), "word_final") {
        if ends_with_text(w, input.as_str()) {
            let head = text_drop_last(w, input.unicode_len());
            Some(concat2(head.as_str(), output.as_str()))
        } else {
            None
        }
    } else if with_internal && text_eq(pos.as_str(), "internal") && match rule_get_opt_text(
        r,
        "condition_preceding",
    ) {
        Some(p) => text_eq(p.as_str(), "iuk"),
        None => false,
    } {
        try_apply_iuk_retroflexion(w, input.as_str(), output.as_str())
    } else {
        proof {
            if with_internal && rule_text(*r, "position"@) == "internal"@ && rule_opt_text(
                *r,
                "condition_preceding"@,
            ) == Some("iuk"@) {
                assert(false);
            }
        }
        None
    }
}

/// Applies the tripādī layer to a word, appending the steps that fire.
pub fn apply_tripadi(tr: &[CachedRule], word: String, trace: &mut Vec<TraceStep>, with_internal: bool) -> (r: String)
    requires
        numbered(old(trace)@),
    ensures
        numbered(final(trace)@),
        r@ == tripadi_layer(tr@, word@, with_internal).0,
        step_views(final(trace)@) == step_views(old(trace)@) + tripadi_layer(tr@, word@, with_internal).1,
{
    let flags = tripadi_rule_flags(tr);
    let order = ranked_indices(tr, &flags, false);
    let ghost ord = rank_order(tr@, tripadi_flags(tr@), false);
    proof {
        lemma_rank_order_in_range(tr@, tripadi_flags(tr@), false);
    }
    let ghost start = step_views(trace@);
    let mut result = word;
    let mut k: usize = 0;
    assert(ord.subrange(0, 0) =~= Seq::<int>::empty());
    while k < order.len()
        invariant
            as_ints(order@) == ord,
            ord == rank_order(tr@, tripadi_flags(tr@), false),
            forall|m: int| 0 <= m < ord.len() ==> 0 <= #[trigger] ord[m] < tr@.len(),
            k <= order@.len(),
            numbered(trace@),
            result@ == tripadi_pass(tr@, ord.subrange(0, k as int), word@, with_internal).0,
            step_views(trace@) == start + tripadi_pass(tr@, ord.subrange(0, k as int), word@, with_internal).1,
        decreases order@.len() - k,
    {
        let idx = order[k];
        assert(ord[k as int] == idx as int);
        assert(ord.subrange(0, k + 1).drop_last() =~= ord.subrange(0, k as int));
        assert(ord.subrange(0, k + 1).last() == idx as int);
        let r = &tr[idx];
        match tripadi_rule_step(r, result.as_str(), with_internal) {
            Some(nw) => {
                let ghost before = step_views(trace@);
                push_step(
                    trace,
                    r.statement.clone(),
                    sutra_ref(rule_get_text(r, "sutra").as_str()),
                    result,
                    nw.clone(),
                );
                assert(start + tripadi_pass(tr@, ord.subrange(0, k + 1), word@, with_internal).1 =~= before.push(
                    (r.statement@, sutra_ref_of(rule_text(*r, "sutra"@)), tripadi_pass(tr@, ord.subrange(0, k as int), word@, with_internal).0, nw@),
                ));
                result = nw;
            },
            None => {},
        }
        k += 1;
    }
    assert(ord.subrange(0, order@.len() as int) =~= ord);
    result
}

/// Every rule in the order is a rule index.
pub proof fn lemma_rank_order_in_range(rules: Seq<CachedRule>, elig: Seq<bool>, later_first: bool)
    requires
        elig.len() == rules.len(),
    ensures
        forall|m: int|
            0 <= m < rank_order(rules, elig, later_first).len() ==> 0 <= #[trigger] rank_order(
                rules,
                elig,
                later_first,
            )[m] < rules.len(),
    decreases crate::engine::count_true(elig),
{
    lemma_best_of_some(rules, elig, later_first);
    match best_of(rules, elig, later_first) {
        Some(b) => {
            crate::engine::lemma_count_true_clear(elig, b);
            lemma_rank_order_in_range(rules, elig.update(b, false), later_first);
            let rest = rank_order(rules, elig.update(b, false), later_first);
            assert(rank_order(rules, elig, later_first) == seq![b] + rest);
            assert forall|m: int|
                0 <= m < rank_order(rules, elig, later_first).len() implies 0
                <= #[trigger] rank_order(rules, elig, later_first)[m] < rules.len() by {
                if m > 0 {
                    assert(rank_order(rules, elig, later_first)[m] == rest[m - 1]);
                }
            }
        },
        None => {},
    }
}

/// The output of a declension reports its input and the form.
pub open spec fn declension_output_is(
    d: DeriveResult,
    stem: Seq<char>,
    cls: Seq<char>,
    case: Seq<char>,
    number: Seq<char>,
    form: Seq<char>,
) -> bool {
    match d.output {
        Derived::Declension { stem: s, stem_type, case: c, number: n, form: f, steps } => {
            &&& s@ == stem
            &&& stem_type@ == cls
            &&& c@ == case
            &&& n@ == number
            &&& f@ == form
            &&& steps == d.trace@.len()
        },
        _ => false,
    }
}

/// The declined form and its trace, computed layer by layer.
fn run_declension(
    sup_rules: &[CachedRule],
    pratyaya_rules: &[CachedRule],
    anga_rules: &[CachedRule],
    sandhi_rules: &[CachedRule],
    tripadi_rules: &[CachedRule],
    stem: &str,
    cls: &str,
    case: &str,
    number: &str,
) -> (r: Result<(String, Vec<TraceStep>), PaniniError>)
    ensures
        match decline(
            sup_rules@,
            pratyaya_rules@,
            anga_rules@,
            sandhi_rules@,
            tripadi_rules@,
            stem@,
            cls@,
            case@,
            number@,
        ) {
            None => r matches Err(PaniniError::RuleParse(m)) && m@ == no_sup_message(
                cls@,
                case_name(case@),
                number_name(number@),
            ),
            Some((form, steps)) => (r matches Ok((f, t)) && numbered(t@) && step_views(t@) == steps
                && f@ == form),
        },
{
    let vib = translate_case(case);
    let vac = translate_number(number);

    // Layer 1: suffix selection.
    let sflags = sup_flags(sup_rules, cls, vib.as_str(), vac.as_str());
    let s = match first_flag(&sflags) {
        Some(s) => s,
        None => {
            let mut m = concat2("no sup_suffix for stem_class=", cls);
            m.append(", vibhakti=");
            m.append(vib.as_str());
            m.append(", vacana=");
            m.append(vac.as_str());
            return Err(PaniniError::RuleParse(m));
        },
    };
    let sup = &sup_rules[s];
    let pname = rule_get_text(sup, "pratyaya");
    let suf0 = rule_get_text(sup, "suffix");
    let mut trace: Vec<TraceStep> = Vec::new();
    let mut in1 = concat3(stem, " + ", pname.as_str());
    in1.append(" (");
    in1.append(cls);
    in1.append(" ");
    in1.append(vib.as_str());
    in1.append(" ");
    in1.append(vac.as_str());
    in1.append(")");
    push_step(
        &mut trace,
        sup.statement.clone(),
        sutra_ref(rule_get_text(sup, "sutra").as_str()),
        in1,
        concat3(stem, " + ", suf0.as_str()),
    );

    // Layer 2: pratyaya modification.
    let pflags = pratyaya_flags(pratyaya_rules, cls, vib.as_str(), pname.as_str(), suf0.as_str());
    let suf1 = match best_ranked(pratyaya_rules, &pflags, true) {
        Some(j) => {
            let r = &pratyaya_rules[j];
            let out = rule_get_text(r, "output_suffix");
            push_step(
                &mut trace,
                r.statement.clone(),
                sutra_ref(rule_get_text(r, "sutra").as_str()),
                concat3(stem, " + ", suf0.as_str()),
                concat3(stem, " + ", out.as_str()),
            );
            out
        },
        None => suf0.clone(),
    };

    // Layer 3: aṅga modification.
    let aflags = anga_flags(anga_rules, stem, suf1.as_str(), vib.as_str(), vac.as_str());
    let stem2 = match best_ranked(anga_rules, &aflags, true) {
        Some(j) => {
            proof {
                lemma_best_of_some(anga_rules@, aflags@, true);
            }
            let r = &anga_rules[j];
            let inp = rule_get_text(r, "operation_input");
            let head = text_drop_last(stem, inp.unicode_len());
            let ns = concat2(head.as_str(), rule_get_text(r, "operation_output").as_str());
            push_step(
                &mut trace,
                r.statement.clone(),
                sutra_ref(rule_get_text(r, "sutra").as_str()),
                concat3(stem, " + ", suf1.as_str()),
                concat3(ns.as_str(), " + ", suf1.as_str()),
            );
            ns
        },
        None => owned(stem),
    };

    // Layer 4: junction sandhi.
    let jflags = junction_flags(sandhi_rules, stem2.as_str(), suf1.as_str(), pname.as_str());
    let word = match best_ranked(sandhi_rules, &jflags, true) {
        Some(j) => {
            proof {
                lemma_best_of_some(sandhi_rules@, jflags@, true);
            }
            let r = &sandhi_rules[j];
            let a = rule_get_text(r, "first");
            let b = rule_get_text(r, "second");
            proof {
                crate::phoneme::lemma_phonemes_flatten(stem2@);
                lemma_last_phoneme_suffix(stem2@);
                crate::phoneme::lemma_phonemes_flatten(suf1@);
                lemma_first_phoneme_prefix(suf1@);
            }
            let head = text_drop_last(stem2.as_str(), a.unicode_len());
            let tail = text_drop_first(suf1.as_str(), b.unicode_len());
            let joined = concat3(head.as_str(), rule_get_text(r, "result").as_str(), tail.as_str());
            push_step(
                &mut trace,
                r.statement.clone(),
                sutra_ref(rule_get_text(r, "sutra").as_str()),
                concat3(stem2.as_str(), " + ", suf1.as_str()),
                joined.clone(),
            );
            joined
        },
        None => concat2(stem2.as_str(), suf1.as_str()),
    };

    // Layer 5: tripādī.
    let form = apply_tripadi(tripadi_rules, word, &mut trace, true);
    Ok((form, trace))
}

/// What deriving a declined form gives: the error naming the stem class, case
/// and number when no sUP entry matches, or else the form and its numbered trace.
pub open spec fn declension_result_is(
    r: Result<DeriveResult, PaniniError>,
    sup: Seq<CachedRule>,
    pr: Seq<CachedRule>,
    an: Seq<CachedRule>,
    sa: Seq<CachedRule>,
    tr: Seq<CachedRule>,
    stem: Seq<char>,
    cls: Seq<char>,
    case: Seq<char>,
    number: Seq<char>,
) -> bool {
    match decline(sup, pr, an, sa, tr, stem, cls, case, number) {
        None => r matches Err(PaniniError::RuleParse(m)) && m@ == no_sup_message(
            cls,
            case_name(case),
            number_name(number),
        ),
        Some((form, steps)) => (r matches Ok(d) && numbered(d.trace@) && step_views(d.trace@) == steps
            && declension_output_is(d, stem, cls, case, number, form)),
    }
}

/// Derives a declined form through the five layers: sUP suffix selection (the
/// first matching entry), pratyaya modification, aṅga modification and junction
/// sandhi (each the highest-ranked applicable rule, at most one), then every
/// readable tripādī rule in rank order. The trace holds the suffix selection and
/// one step for each rule that fired, numbered from 1. Fails exactly when no sUP
/// entry matches the stem class, case and number.
pub fn derive_declension(
    sup_rules: &[CachedRule],
    pratyaya_rules: &[CachedRule],
    anga_rules: &[CachedRule],
    sandhi_rules: &[CachedRule],
    tripadi_rules: &[CachedRule],
    input: DeclensionInput,
) -> (r: Result<DeriveResult, PaniniError>)
    ensures
        declension_result_is(
            r,
            sup_rules@,
            pratyaya_rules@,
            anga_rules@,
            sandhi_rules@,
            tripadi_rules@,
            input.stem@,
            input.stem_type@,
            input.case@,
            input.number@,
        ),
{
    let (form, trace) = run_declension(
        sup_rules,
        pratyaya_rules,
        anga_rules,
        sandhi_rules,
        tripadi_rules,
        input.stem.as_str(),
        input.stem_type.as_str(),
        input.case.as_str(),
        input.number.as_str(),
    )?;
    let steps = trace.len();
    Ok(
        DeriveResult {
            output: Derived::Declension {
                stem: input.stem,
                stem_type: input.stem_type,
                case: input.case,
                number: input.number,
                form,
                steps,
            },
            trace,
        },
    )
}

/// The name of a stem class up to its first hyphen: the stem vowel as the slug
/// writes it.
pub open spec fn class_prefix(cls: Seq<char>) -> Seq<char> {
    match first_index(Seq::new(cls.len(), |i: int| cls[i] == '-')) {
        Some(i) => cls.take(i),
        None => cls,
    }
}

/// A slug's doubled vowel written as the long vowel it stands for (aa, ii, uu
/// become ā, ī, ū); any other text as it is.
pub open spec fn long_vowel_of(v: Seq<char>) -> Seq<char> {
    if v == "aa"@ {
        "ā"@
    } else if v == "ii"@ {
        "ī"@
    } else if v == "uu"@ {
        "ū"@
    } else {
        v
    }
}

/// The probe stem of a stem class: the stem vowel its name begins with (the
/// name up to its first hyphen), a doubled vowel read as the long vowel, so
/// that aa-stem-f probes with ā.
pub open spec fn probe_stem_of(cls: Seq<char>) -> Seq<char> {
    long_vowel_of(class_prefix(cls))
}

/// The stem classes of the readable sUP entries, distinct and in code-point order.
pub open spec fn sup_classes(sup: Seq<CachedRule>) -> Seq<Seq<char>> {
    sorted_distinct(
        somes(
            Seq::new(
                sup.len(),
                |i: int|
                    if sup_shape(sup[i].params) {
                        Some(rule_text(sup[i], "stem_class"@))
                    } else {
                        None
                    },
            ),
        ),
    )
}

/// The case codes tried by the analysis, in order: `1` … `8`.
pub open spec fn analysis_case(k: int) -> Seq<char> {
    if k == 0 {
        "1"@
    } else if k == 1 {
        "2"@
    } else if k == 2 {
        "3"@
    } else if k == 3 {
        "4"@
    } else if k == 4 {
        "5"@
    } else if k == 5 {
        "6"@
    } else if k == 6 {
        "7"@
    } else {
        "8"@
    }
}

/// The number codes tried by the analysis, in code-point order: `du`, `pl`, `sg`.
pub open spec fn analysis_number(k: int) -> Seq<char> {
    if k == 0 {
        "du"@
    } else if k == 1 {
        "pl"@
    } else {
        "sg"@
    }
}

/// A candidate declension: stem, stem class, case, number, form.
pub type DeclView = (Seq<char>, Seq<char>, Seq<char>, Seq<char>, Seq<char>);

/// The contents of a candidate declension.
pub open spec fn decl_view(c: DeclensionCandidate) -> DeclView {
    (c.stem@, c.stem_type@, c.case@, c.number@, c.form@)
}

/// The contents of a list of candidate declensions.
pub open spec fn decl_views(v: Seq<DeclensionCandidate>) -> Seq<DeclView> {
    v.map_values(|c: DeclensionCandidate| decl_view(c))
}

/// The candidate for one class, case and number: the probe stem's form must end
/// the surface form, and the stem it suggests must derive the surface form.
pub open spec fn cell_candidate(
    sup: Seq<CachedRule>,
    pr: Seq<CachedRule>,
    an: Seq<CachedRule>,
    sa: Seq<CachedRule>,
    tr: Seq<CachedRule>,
    form: Seq<char>,
    cls: Seq<char>,
    case: Seq<char>,
    number: Seq<char>,
) -> Option<DeclView> {
    let probe = probe_stem_of(cls);
    match decline(sup, pr, an, sa, tr, probe, cls, case, number) {
        None => None,
        Some((pf, _)) => if !is_suffix_of(pf, form) {
            None
        } else {
            let cs = drop_last_n(form, pf.len() as int) + probe;
            match decline(sup, pr, an, sa, tr, cs, cls, case, number) {
                Some((vf, _)) => if vf == form {
                    Some((cs, cls, case, number, form))
                } else {
                    None
                },
                None => None,
            }
        },
    }
}

/// The candidates of one stem class, by case and then number.
pub open spec fn class_candidates(
    sup: Seq<CachedRule>,
    pr: Seq<CachedRule>,
    an: Seq<CachedRule>,
    sa: Seq<CachedRule>,
    tr: Seq<CachedRule>,
    form: Seq<char>,
    cls: Seq<char>,
) -> Seq<DeclView> {
    somes(
        Seq::new(
            24,
            |k: int|
                cell_candidate(
                    sup,
                    pr,
                    an,
                    sa,
                    tr,
                    form,
                    cls,
                    analysis_case(k / 3),
                    analysis_number(k % 3),
                ),
        ),
    )
}

/// All candidates, by stem class, case and number.
pub open spec fn declension_candidates(
    sup: Seq<CachedRule>,
    pr: Seq<CachedRule>,
    an: Seq<CachedRule>,
    sa: Seq<CachedRule>,
    tr: Seq<CachedRule>,
    form: Seq<char>,
) -> Seq<DeclView> {
    let cl = sup_classes(sup);
    Seq::new(cl.len(), |c: int| class_candidates(sup, pr, an, sa, tr, form, cl[c])).flatten()
}

/// The probe stem of a stem class.
fn probe_stem(cls: &str) -> (r: String)
    ensures
        r@ == probe_stem_of(cls@),
{
    let n = cls.unicode_len();
    let mut flags: Vec<bool> = Vec::new();
    let mut i: usize = 0;
    while i < n
        invariant
            n == cls@.len(),
            i <= n,
            flags@.len() == i,
            forall|j: int| 0 <= j < i ==> flags@[j] == (cls@[j] == '-'),
        decreases n - i,
    {
        flags.push(cls.get_char(i) == '-');
        i += 1;
    }
    assert(flags@ =~= Seq::new(cls@.len(), |i: int| cls@[i] == '-'));
    let prefix = match first_flag(&flags) {
        Some(k) => {
            assert(cls@.subrange(0, k as int) =~= cls@.take(k as int));
            text_slice(cls, 0, k)
        },
        None => owned(cls),
    };
    if text_eq(prefix.as_str(), "aa") {
        owned("ā")
    } else if text_eq(prefix.as_str(), "ii") {
        owned("ī")
    } else if text_eq(prefix.as_str(), "uu") {
        owned("ū")
    } else {
        prefix
    }
}

/// The case code at position `k` of the analysis order.
fn case_code(k: usize) -> (r: &'static str)
    ensures
        r@ == analysis_case(k as int),
{
    if k == 0 {
        "1"
    } else if k == 1 {
        "2"
    } else if k == 2 {
        "3"
    } else if k == 3 {
        "4"
    } else if k == 4 {
        "5"
    } else if k == 5 {
        "6"
    } else if k == 6 {
        "7"
    } else {
        "8"
    }
}

/// The number code at position `k` of the analysis order.
fn number_code(k: usize) -> (r: &'static str)
    ensures
        r@ == analysis_number(k as int),
{
    if k == 0 {
        "du"
    } else if k == 1 {
        "pl"
    } else {
        "sg"
    }
}

/// The stem classes of the readable sUP entries, distinct and sorted.
fn stem_classes(sup: &[CachedRule]) -> (r: Vec<String>)
    ensures
        texts(r@) == sup_classes(sup@),
{
    let n = sup.len();
    let mut set: Vec<String> = Vec::new();
    let ghost g = |i: int|
        if sup_shape(sup@[i].params) {
            Some(rule_text(sup@[i], "stem_class"@))
        } else {
            None
        };
    let mut i: usize = 0;
    assert(somes(Seq::new(0, g)) =~= Seq::<Seq<char>>::empty());
    while i < n
        invariant
            n == sup@.len(),
            i <= n,
            g == (|i: int|
                if sup_shape(sup@[i].params) {
                    Some(rule_text(sup@[i], "stem_class"@))
                } else {
                    None
                }),
            texts(set@) == sorted_distinct(somes(Seq::new(i as nat, g))),
        decreases n - i,
    {
        assert(Seq::new((i + 1) as nat, g).drop_last() =~= Seq::new(i as nat, g));
        assert(Seq::new((i + 1) as nat, g).last() == g(i as int));
        if check_sup_shape(&sup[i].params).is_ok() {
            let c = rule_get_text(&sup[i], "stem_class");
            insert_text_sorted(&mut set, c.as_str());
            assert(somes(Seq::new((i + 1) as nat, g)) == somes(Seq::new(i as nat, g)).push(c@));
            assert(somes(Seq::new((i + 1) as nat, g)).drop_last() =~= somes(Seq::new(i as nat, g)));
        }
        i += 1;
    }
    set
}

/// The candidate for one class, case and number.
fn cell(
    sup: &[CachedRule],
    pr: &[CachedRule],
    an: &[CachedRule],
    sa: &[CachedRule],
    tr: &[CachedRule],
    form: &str,
    cls: &str,
    case: &str,
    number: &str,
) -> (r: Option<DeclensionCandidate>)
    ensures
        r matches Some(c) ==> cell_candidate(sup@, pr@, an@, sa@, tr@, form@, cls@, case@, number@)
            == Some(decl_view(c)),
        r is None ==> cell_candidate(sup@, pr@, an@, sa@, tr@, form@, cls@, case@, number@) is None,
{
    let probe = probe_stem(cls);
    let (pf, _) = match run_declension(sup, pr, an, sa, tr, probe.as_str(), cls, case, number) {
        Ok(x) => x,
        Err(_) => {
            return None;
        },
    };
    if !ends_with_text(form, pf.as_str()) {
        return None;
    }
    let head = text_drop_last(form, pf.unicode_len());
    let cs = concat2(head.as_str(), probe.as_str());
    let (vf, _) = match run_declension(sup, pr, an, sa, tr, cs.as_str(), cls, case, number) {
        Ok(x) => x,
        Err(_) => {
            return None;
        },
    };
    if text_eq(vf.as_str(), form) {
        Some(
            DeclensionCandidate {
                stem: cs,
                stem_type: owned(cls),
                case: owned(case),
                number: owned(number),
                form: owned(form),
            },
        )
    } else {
        None
    }
}

/// Analyses a surface form as a declined noun: for every stem class of the sUP
/// entries (in code-point order), every case `1`–`8` and number (`du`, `pl`,
/// `sg`), the form the class's probe stem takes there suggests a stem; the
/// suggestion is kept when that stem derives exactly the surface form.
pub fn analyze_declension(
    sup_rules: &[CachedRule],
    pratyaya_rules: &[CachedRule],
    anga_rules: &[CachedRule],
    sandhi_rules: &[CachedRule],
    tripadi_rules: &[CachedRule],
    form: &str,
) -> (r: Result<DeclensionAnalysis, PaniniError>)
    ensures
        r matches Ok(a) && a.input@ == form@ && decl_views(a.candidates@) == declension_candidates(
            sup_rules@,
            pratyaya_rules@,
            anga_rules@,
            sandhi_rules@,
            tripadi_rules@,
            form@,
        ),
{
    let classes = stem_classes(sup_rules);
    let ghost cl = sup_classes(sup_rules@);
    let ghost h = |c: int|
        class_candidates(
            sup_rules@,
            pratyaya_rules@,
            anga_rules@,
            sandhi_rules@,
            tripadi_rules@,
            form@,
            cl[c],
        );
    let mut candidates: Vec<DeclensionCandidate> = Vec::new();
    let mut c: usize = 0;
    assert(Seq::new(0, h) =~= Seq::<Seq<DeclView>>::empty());
    while c < classes.len()
        invariant
            texts(classes@) == cl,
            c <= classes@.len(),
            h == (|c: int|
                class_candidates(
                    sup_rules@,
                    pratyaya_rules@,
                    anga_rules@,
                    sandhi_rules@,
                    tripadi_rules@,
                    form@,
                    cl[c],
                )),
            decl_views(candidates@) == Seq::new(c as nat, h).flatten(),
        decreases classes@.len() - c,
    {
        let cls = classes[c].as_str();
        assert(cl[c as int] == cls@);
        let ghost base = decl_views(candidates@);
        let ghost g = |k: int|
            cell_candidate(
                sup_rules@,
                pratyaya_rules@,
                anga_rules@,
                sandhi_rules@,
                tripadi_rules@,
                form@,
                cls@,
                analysis_case(k / 3),
                analysis_number(k % 3),
            );
        let mut k: usize = 0;
        assert(somes(Seq::new(0, g)) =~= Seq::<DeclView>::empty());
        assert(base + Seq::<DeclView>::empty() =~= base);
        while k < 24
            invariant
                k <= 24,
                g == (|k: int|
                    cell_candidate(
                        sup_rules@,
                        pratyaya_rules@,
                        anga_rules@,
                        sandhi_rules@,
                        tripadi_rules@,
                        form@,
                        cls@,
                        analysis_case(k / 3),
                        analysis_number(k % 3),
                    )),
                decl_views(candidates@) == base + somes(Seq::new(k as nat, g)),
            decreases 24 - k,
        {
            let ghost before = decl_views(candidates@);
            assert(Seq::new((k + 1) as nat, g).drop_last() =~= Seq::new(k as nat, g));
            assert(Seq::new((k + 1) as nat, g).last() == g(k as int));
            match cell(
                sup_rules,
                pratyaya_rules,
                anga_rules,
                sandhi_rules,
                tripadi_rules,
                form,
                cls,
                case_code(k / 3),
                number_code(k % 3),
            ) {
                Some(cand) => {
                    let ghost cv = decl_view(cand);
                    candidates.push(cand);
                    assert(decl_views(candidates@) =~= before.push(cv));
                    assert(base + somes(Seq::new((k + 1) as nat, g)) =~= (base + somes(
                        Seq::new(k as nat, g),
                    )).push(cv));
                },
                None => {},
            }
            k += 1;
        }
        proof {
            assert(Seq::new(24, g) =~= Seq::new(
                24,
                |k: int|
                    cell_candidate(
                        sup_rules@,
                        pratyaya_rules@,
                        anga_rules@,
                        sandhi_rules@,
                        tripadi_rules@,
                        form@,
                        cl[c as int],
                        analysis_case(k / 3),
                        analysis_number(k % 3),
                    ),
            ));
            assert(Seq::new((c + 1) as nat, h) =~= Seq::new(c as nat, h).push(h(c as int)));
        }
        c += 1;
    }
    Ok(DeclensionAnalysis { input: owned(form), candidates })
}

/// The last phoneme of a non-empty text is a suffix of it.
pub proof fn lemma_last_phoneme_suffix(s: Seq<char>)
    requires
        s.len() > 0,
    ensures
        is_suffix_of(crate::phoneme::phonemes(s).last(), s),
{
    let p = crate::phoneme::phonemes(s);
    crate::phoneme::lemma_phonemes_flatten(s);
    crate::phoneme::lemma_phonemes_empty(s);
    assert(p =~= p.drop_last().push(p.last()));
    assert(p.flatten() == p.drop_last().flatten() + p.last());
    assert(s.subrange(s.len() - p.last().len(), s.len() as int) =~= p.last());
}

/// The first phoneme of a non-empty text is a prefix of it.
pub proof fn lemma_first_phoneme_prefix(s: Seq<char>)
    requires
        s.len() > 0,
    ensures
        is_prefix_of(crate::phoneme::phonemes(s)[0], s),
{
    let k = crate::phoneme::head_len(s);
    assert(crate::phoneme::phonemes(s)[0] == s.subrange(0, k));
}


/// Every value of the present values comes from some entry.
pub proof fn lemma_somes_source<A>(s: Seq<Option<A>>, k: int)
    requires
        0 <= k < somes(s).len(),
    ensures
        exists|p: int| 0 <= p < s.len() && s[p] == Some(somes(s)[k]),
    decreases s.len(),
{
    crate::consistency::lemma_somes_len(s.drop_last());
    match s.last() {
        Some(y) => {
            if k == somes(s).len() - 1 {
                assert(s[s.len() - 1] == Some(somes(s)[k]));
            } else {
                lemma_somes_source(s.drop_last(), k);
                let p = choose|p: int| 0 <= p < s.drop_last().len() && s.drop_last()[p] == Some(
                    somes(s.drop_last())[k],
                );
                assert(s[p] == Some(somes(s)[k]));
            }
        },
        None => {
            lemma_somes_source(s.drop_last(), k);
            let p = choose|p: int| 0 <= p < s.drop_last().len() && s.drop_last()[p] == Some(
                somes(s.drop_last())[k],
            );
            assert(s[p] == Some(somes(s)[k]));
        },
    }
}

/// Every element of a flattened sequence comes from one of its parts.
pub proof fn lemma_flatten_source<A>(s: Seq<Seq<A>>, k: int)
    requires
        0 <= k < s.flatten().len(),
    ensures
        exists|i: int, q: int| 0 <= i < s.len() && 0 <= q < s[i].len() && s[i][q] == s.flatten()[k],
    decreases s.len(),
{
    assert(s =~= s.drop_last().push(s.last()));
    assert(s.flatten() == s.drop_last().flatten() + s.last());
    let n = s.drop_last().flatten().len();
    if k < n {
        lemma_flatten_source(s.drop_last(), k);
        let (i, q) = choose|i: int, q: int|
            0 <= i < s.drop_last().len() && 0 <= q < s.drop_last()[i].len() && s.drop_last()[i][q]
                == s.drop_last().flatten()[k];
        assert(s[i][q] == s.flatten()[k]);
    } else {
        assert(s[s.len() - 1][k - n] == s.flatten()[k]);
    }
}

/// Every candidate of a declension analysis derives the analysed form: its
/// stem, declined in its class, case and number, gives exactly that form.
pub proof fn law_analysis_candidates_derive(
    sup: Seq<CachedRule>,
    pr: Seq<CachedRule>,
    an: Seq<CachedRule>,
    sa: Seq<CachedRule>,
    tr: Seq<CachedRule>,
    form: Seq<char>,
    k: int,
)
    requires
        0 <= k < declension_candidates(sup, pr, an, sa, tr, form).len(),
    ensures
        ({
            let c = declension_candidates(sup, pr, an, sa, tr, form)[k];
            &&& c.4 == form
            &&& decline(sup, pr, an, sa, tr, c.0, c.1, c.2, c.3) matches Some((f, _)) && f == form
        }),
{
    let cl = sup_classes(sup);
    let parts = Seq::new(cl.len(), |c: int| class_candidates(sup, pr, an, sa, tr, form, cl[c]));
    lemma_flatten_source(parts, k);
    let (i, q) = choose|i: int, q: int|
        0 <= i < parts.len() && 0 <= q < parts[i].len() && parts[i][q] == parts.flatten()[k];
    let cells = Seq::new(
        24,
        |j: int|
            cell_candidate(sup, pr, an, sa, tr, form, cl[i], analysis_case(j / 3), analysis_number(j % 3)),
    );
    assert(parts[i] == somes(cells));
    lemma_somes_source(cells, q);
    let p = choose|p: int| 0 <= p < cells.len() && cells[p] == Some(somes(cells)[q]);
    assert(cells[p] == cell_candidate(sup, pr, an, sa, tr, form, cl[i], analysis_case(p / 3), analysis_number(p % 3)));
}

/// The form of a declension, or the empty text when there is none.
pub open spec fn declined_form(d: Option<(Seq<char>, Seq<StepView>)>) -> Seq<char> {
    match d {
        Some((f, _)) => f,
        None => Seq::empty(),
    }
}

/// Declining and then analysing finds the stem again whenever the stem
/// declines as its class's probe stem does: for a stem made of some text
/// followed by the probe, whose form is that text followed by the probe's form
/// in the same case and number, the analysis of that form lists the stem with
/// its class, case and number.
pub proof fn law_analysis_finds_declined_stem(
    sup: Seq<CachedRule>,
    pr: Seq<CachedRule>,
    an: Seq<CachedRule>,
    sa: Seq<CachedRule>,
    tr: Seq<CachedRule>,
    x: Seq<char>,
    cls: Seq<char>,
    ci: int,
    ni: int,
)
    requires
        sup_classes(sup).contains(cls),
        0 <= ci < 8,
        0 <= ni < 3,
        decline(sup, pr, an, sa, tr, probe_stem_of(cls), cls, analysis_case(ci), analysis_number(ni)) is Some,
        decline(sup, pr, an, sa, tr, x + probe_stem_of(cls), cls, analysis_case(ci), analysis_number(ni))
            matches Some((f, _)) && f == x + declined_form(
            decline(sup, pr, an, sa, tr, probe_stem_of(cls), cls, analysis_case(ci), analysis_number(ni)),
        ),
    ensures
        ({
            let pf = declined_form(
                decline(sup, pr, an, sa, tr, probe_stem_of(cls), cls, analysis_case(ci), analysis_number(ni)),
            );
            declension_candidates(sup, pr, an, sa, tr, x + pf).contains(
                (x + probe_stem_of(cls), cls, analysis_case(ci), analysis_number(ni), x + pf),
            )
        }),
{
    let probe = probe_stem_of(cls);
    let case = analysis_case(ci);
    let number = analysis_number(ni);
    let pf = declined_form(decline(sup, pr, an, sa, tr, probe, cls, case, number));
    let form = x + pf;
    let view = (x + probe, cls, case, number, form);
    assert(form.subrange(form.len() - pf.len(), form.len() as int) =~= pf);
    assert(drop_last_n(form, pf.len() as int) =~= x);
    assert(cell_candidate(sup, pr, an, sa, tr, form, cls, case, number) == Some(view));
    let k = ci * 3 + ni;
    assert(k / 3 == ci && k % 3 == ni);
    let cells = Seq::new(
        24,
        |j: int| cell_candidate(sup, pr, an, sa, tr, form, cls, analysis_case(j / 3), analysis_number(j % 3)),
    );
    assert(cells[k] == Some(view));
    crate::sandhi::lemma_somes_contains(cells, k);
    assert(class_candidates(sup, pr, an, sa, tr, form, cls) == somes(cells));
    let cl = sup_classes(sup);
    let c = choose|c: int| 0 <= c < cl.len() && cl[c] == cls;
    let parts = Seq::new(cl.len(), |c: int| class_candidates(sup, pr, an, sa, tr, form, cl[c]));
    assert(parts[c].contains(view));
    crate::sandhi::lemma_flatten_member(parts, c, view);
}

/// A case may be named by its number, its English name or its vibhakti, and a
/// number by its short name, English name or vacana: names of the same case
/// and number decline alike (the same form and steps, or no entry for both).
pub proof fn law_case_and_number_names_agree(
    sup: Seq<CachedRule>,
    pr: Seq<CachedRule>,
    an: Seq<CachedRule>,
    sa: Seq<CachedRule>,
    tr: Seq<CachedRule>,
    stem: Seq<char>,
    cls: Seq<char>,
    case1: Seq<char>,
    case2: Seq<char>,
    number1: Seq<char>,
    number2: Seq<char>,
)
    requires
        case_name(case1) == case_name(case2),
        number_name(number1) == number_name(number2),
    ensures
        decline(sup, pr, an, sa, tr, stem, cls, case1, number1) == decline(
            sup,
            pr,
            an,
            sa,
            tr,
            stem,
            cls,
            case2,
            number2,
        ),
{
}

} // verus!

