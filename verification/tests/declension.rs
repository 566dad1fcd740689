use panini::declension::{DeclensionInput, analyze_declension, derive_declension, translate_case, translate_number, try_apply_iuk_retroflexion};
use panini::engine::{DeclensionAnalysis, DeriveResult, Derived};
use panini::params::{CachedRule, ParamField, ParamValue, Params};

const CASES: [&str; 8] = ["1", "2", "3", "4", "5", "6", "7", "8"];
const NUMBERS: [&str; 3] = ["sg", "du", "pl"];

fn t(k: &str, v: &str) -> ParamField {
    ParamField { key: k.to_string(), value: ParamValue::Text(v.to_string()) }
}

fn n(k: &str) -> ParamField {
    ParamField { key: k.to_string(), value: ParamValue::Null }
}

fn l(k: &str, items: &[&str]) -> ParamField {
    ParamField { key: k.to_string(), value: ParamValue::TextList(items.iter().map(|s| s.to_string()).collect()) }
}

fn rule(fields: Vec<ParamField>, statement: &str) -> CachedRule {
    CachedRule { params: Params::Object(fields), statement: statement.to_string() }
}

fn fixture_sup_suffixes() -> Vec<CachedRule> {
    let data: Vec<(&str, &str, &str, &str, Vec<&str>, &str)> = vec![
        ("prathama", "ekavacana", "su", "s", vec!["u"], "4.1.2"),
        ("prathama", "dvivacana", "au", "au", vec![], "4.1.2"),
        ("prathama", "bahuvacana", "jas", "as", vec!["j"], "4.1.2"),
        ("dvitiya", "ekavacana", "am", "am", vec![], "4.1.2"),
        ("dvitiya", "dvivacana", "aut", "au", vec!["t"], "4.1.2"),
        ("dvitiya", "bahuvacana", "śas", "as", vec!["ś"], "4.1.2"),
        ("tritiya", "ekavacana", "ṭā", "ā", vec!["ṭ"], "4.1.2"),
        ("tritiya", "dvivacana", "bhyām", "bhyām", vec![], "4.1.2"),
        ("tritiya", "bahuvacana", "bhis", "bhis", vec![], "4.1.2"),
        ("caturthi", "ekavacana", "ṅe", "e", vec!["ṅ"], "4.1.2"),
        ("caturthi", "dvivacana", "bhyām", "bhyām", vec![], "4.1.2"),
        ("caturthi", "bahuvacana", "bhyas", "bhyas", vec![], "4.1.2"),
        ("pancami", "ekavacana", "ṅasi", "as", vec!["ṅ", "i"], "4.1.2"),
        ("pancami", "dvivacana", "bhyām", "bhyām", vec![], "4.1.2"),
        ("pancami", "bahuvacana", "bhyas", "bhyas", vec![], "4.1.2"),
        ("sasthi", "ekavacana", "ṅas", "as", vec!["ṅ"], "4.1.2"),
        ("sasthi", "dvivacana", "os", "os", vec![], "4.1.2"),
        ("sasthi", "bahuvacana", "ām", "ām", vec![], "4.1.2"),
        ("saptami", "ekavacana", "ṅi", "i", vec!["ṅ"], "4.1.2"),
        ("saptami", "dvivacana", "os", "os", vec![], "4.1.2"),
        ("saptami", "bahuvacana", "sup", "su", vec!["p"], "4.1.2"),
        ("sambodhana", "ekavacana", "su", "s", vec!["u"], "4.1.2"),
        ("sambodhana", "dvivacana", "au", "au", vec![], "4.1.2"),
        ("sambodhana", "bahuvacana", "jas", "as", vec!["j"], "4.1.2"),
    ];
    data.into_iter()
        .map(|(vib, vac, prat, suf, markers, sutra)| {
            rule(
                vec![
                    t("stem_class", "a-stem-m"),
                    t("vibhakti", vib),
                    t("vacana", vac),
                    t("pratyaya", prat),
                    t("suffix", suf),
                    l("markers", &markers),
                    t("sutra", sutra),
                    t("sutra_position", "04.01.002"),
                ],
                sutra,
            )
        })
        .collect()
}

fn fixture_pratyaya_rules() -> Vec<CachedRule> {
    vec![
        rule(vec![t("condition_stem_class", "a-stem-m"), t("condition_suffix", "bhis"), l("condition_markers", &[]), t("input_suffix", "bhis"), t("output_suffix", "ais"), t("sutra", "7.1.9"), t("sutra_position", "07.01.009"), t("rule_type", "nitya")], "7.1.9"),
        rule(vec![t("condition_stem_class", "a-stem-m"), t("condition_suffix", "ṭā"), l("condition_markers", &[]), t("input_suffix", "ā"), t("output_suffix", "ina"), t("sutra", "7.1.12"), t("sutra_position", "07.01.012"), t("rule_type", "nitya")], "7.1.12"),
        rule(vec![t("condition_stem_class", "a-stem-m"), t("condition_suffix", "ṅasi"), l("condition_markers", &[]), t("input_suffix", "as"), t("output_suffix", "t"), t("sutra", "7.1.12"), t("sutra_position", "07.01.012"), t("rule_type", "nitya")], "7.1.12"),
        rule(vec![t("condition_stem_class", "a-stem-m"), t("condition_suffix", "ṅas"), l("condition_markers", &[]), t("input_suffix", "as"), t("output_suffix", "sya"), t("sutra", "7.1.12"), t("sutra_position", "07.01.012"), t("rule_type", "nitya")], "7.1.12"),
        rule(vec![t("condition_stem_class", "a-stem-m"), t("condition_suffix", "ṅe"), l("condition_markers", &[]), t("input_suffix", "e"), t("output_suffix", "ya"), t("sutra", "7.1.13"), t("sutra_position", "07.01.013"), t("rule_type", "nitya")], "7.1.13"),
        rule(vec![t("condition_stem_class", "a-stem-m"), t("condition_suffix", "ām"), l("condition_markers", &[]), t("input_suffix", "ām"), t("output_suffix", "nām"), t("sutra", "7.1.54"), t("sutra_position", "07.01.054"), t("rule_type", "nitya")], "7.1.54"),
        rule(vec![t("condition_stem_class", "a-stem-m"), t("condition_suffix", "su"), l("condition_markers", &[]), t("input_suffix", "s"), t("output_suffix", ""), t("sutra", "6.1.69"), t("sutra_position", "06.01.069"), t("rule_type", "nitya"), t("condition_vibhakti", "sambodhana")], "6.1.69"),
        rule(vec![t("condition_stem_class", "a-stem-m"), t("condition_suffix", "śas"), l("condition_markers", &[]), t("input_suffix", "as"), t("output_suffix", "n"), t("sutra", "6.1.103"), t("sutra_position", "06.01.103"), t("rule_type", "nitya")], "6.1.103"),
    ]
}

fn fixture_anga_rules() -> Vec<CachedRule> {
    vec![
        rule(vec![t("condition_stem_final", "a"), l("condition_markers", &[]), t("condition_suffix_initial", "y"), n("condition_vacana"), t("operation", "lengthen"), t("operation_target", "stem_final"), t("operation_input", "a"), t("operation_output", "ā"), t("sutra", "7.3.101/102"), t("sutra_position", "07.03.101"), t("rule_type", "utsarga")], "7.3.101/102"),
        rule(vec![t("condition_stem_final", "a"), l("condition_markers", &[]), t("condition_suffix_initial", "n"), n("condition_vacana"), t("operation", "lengthen"), t("operation_target", "stem_final"), t("operation_input", "a"), t("operation_output", "ā"), t("sutra", "7.3.101/102"), t("sutra_position", "07.03.101"), t("rule_type", "utsarga")], "7.3.101/102"),
        rule(vec![t("condition_stem_final", "a"), l("condition_markers", &[]), t("condition_suffix_initial", "bh"), n("condition_vacana"), t("operation", "lengthen"), t("operation_target", "stem_final"), t("operation_input", "a"), t("operation_output", "ā"), t("sutra", "7.3.101/102"), t("sutra_position", "07.03.101"), t("rule_type", "utsarga")], "7.3.101/102"),
        rule(vec![t("condition_stem_final", "a"), l("condition_markers", &[]), t("condition_suffix_initial", "t"), n("condition_vacana"), t("operation", "lengthen"), t("operation_target", "stem_final"), t("operation_input", "a"), t("operation_output", "ā"), t("sutra", "7.3.101/102"), t("sutra_position", "07.03.101"), t("rule_type", "utsarga")], "7.3.101/102"),
        rule(vec![t("condition_stem_final", "a"), l("condition_markers", &[]), t("condition_suffix_initial", "bh"), t("condition_vacana", "bahuvacana"), t("operation", "substitute"), t("operation_target", "stem_final"), t("operation_input", "a"), t("operation_output", "e"), t("sutra", "7.3.103"), t("sutra_position", "07.03.103"), t("rule_type", "apavada")], "7.3.103"),
        rule(vec![t("condition_stem_final", "a"), l("condition_markers", &[]), t("condition_suffix_initial", "s"), t("condition_vacana", "bahuvacana"), t("operation", "substitute"), t("operation_target", "stem_final"), t("operation_input", "a"), t("operation_output", "e"), t("sutra", "7.3.103"), t("sutra_position", "07.03.103"), t("rule_type", "apavada")], "7.3.103"),
        rule(vec![t("condition_stem_final", "a"), l("condition_markers", &[]), t("condition_suffix_initial", "o"), n("condition_vacana"), t("operation", "substitute"), t("operation_target", "stem_final"), t("operation_input", "a"), t("operation_output", "e"), t("sutra", "7.3.104"), t("sutra_position", "07.03.104"), t("rule_type", "nitya")], "7.3.104"),
    ]
}

fn fixture_sandhi_rules() -> Vec<CachedRule> {
    vec![
        rule(vec![t("first", "a"), t("second", "a"), t("result", "a"), t("sutra", "6.1.107"), t("sutra_position", "06.01.107"), t("rule_type", "apavada"), t("condition_pratyaya", "am")], "6.1.107"),
        rule(vec![t("first", "a"), t("second", "a"), t("result", "ā"), t("sutra", "6.1.101"), t("sutra_position", "06.01.101"), t("rule_type", "utsarga")], "6.1.101"),
        rule(vec![t("first", "a"), t("second", "i"), t("result", "e"), t("sutra", "6.1.87"), t("sutra_position", "06.01.087"), t("rule_type", "utsarga")], "6.1.87"),
        rule(vec![t("first", "a"), t("second", "u"), t("result", "o"), t("sutra", "6.1.87"), t("sutra_position", "06.01.087"), t("rule_type", "utsarga")], "6.1.87"),
        rule(vec![t("first", "a"), t("second", "au"), t("result", "au"), t("sutra", "6.1.88"), t("sutra_position", "06.01.088"), t("rule_type", "utsarga")], "6.1.88"),
        rule(vec![t("first", "a"), t("second", "ai"), t("result", "ai"), t("sutra", "6.1.88"), t("sutra_position", "06.01.088"), t("rule_type", "utsarga")], "6.1.88"),
        rule(vec![t("first", "e"), t("second", "o"), t("result", "ayo"), t("sutra", "6.1.78"), t("sutra_position", "06.01.078"), t("rule_type", "utsarga")], "6.1.78"),
    ]
}

fn fixture_tripadi_rules() -> Vec<CachedRule> {
    vec![
        rule(vec![t("context", "word_final"), n("condition_preceding"), n("condition_following"), t("input", "s"), t("output", "r"), t("position", "word_final"), t("sutra", "8.2.66"), t("sutra_position", "08.02.066"), t("rule_type", "nitya")], "8.2.66"),
        rule(vec![t("context", "word_final"), n("condition_preceding"), n("condition_following"), t("input", "r"), t("output", "ḥ"), t("position", "word_final"), t("sutra", "8.3.15"), t("sutra_position", "08.03.015"), t("rule_type", "nitya")], "8.3.15"),
        rule(vec![t("context", "after_iuk"), t("condition_preceding", "iuk"), n("condition_following"), t("input", "s"), t("output", "ṣ"), t("position", "internal"), t("sutra", "8.3.59"), t("sutra_position", "08.03.059"), t("rule_type", "nitya")], "8.3.59"),
    ]
}

fn form_of(r: &DeriveResult) -> String {
    match &r.output {
        Derived::Declension { form, .. } => form.clone(),
        _ => panic!("not a declension"),
    }
}

fn derive(case: &str, number: &str) -> DeriveResult {
    derive_declension(
        &fixture_sup_suffixes(),
        &fixture_pratyaya_rules(),
        &fixture_anga_rules(),
        &fixture_sandhi_rules(),
        &fixture_tripadi_rules(),
        DeclensionInput {
            stem: "deva".into(),
            stem_type: "a-stem-m".into(),
            case: case.into(),
            number: number.into(),
        },
    )
    .ok().unwrap()
}

fn form(case: &str, number: &str) -> String {
    form_of(&derive(case, number))
}

#[test]
fn nom_sg() {
    assert_eq!(form("1", "sg"), "devaḥ");
}

#[test]
fn trace_includes_sutra_citations() {
    let r = derive("1", "sg");
    assert!(r.trace.iter().any(|t| t.rule_ref.is_some()));
    let tripadi_step = r.trace.iter().find(|t| t.rule_ref.as_deref() == Some("8.2.66"));
    assert!(tripadi_step.is_some(), "expected tripadi 8.2.66 in trace");
}

#[test]
fn no_op_layers_omitted() {
    let r = derive("1", "du");
    let step_rules: Vec<_> = r.trace.iter().map(|t| t.rule_ref.clone()).collect();
    assert!(
        !step_rules.iter().any(|r| r.as_deref() == Some("7.1.9")),
        "pratyaya rule 7.1.9 should not appear for nom du"
    );
}

#[test]
fn full_deva_paradigm() {
    let expected: Vec<(&str, &str, &str)> = vec![
        ("1", "sg", "devaḥ"),
        ("1", "du", "devau"),
        ("1", "pl", "devāḥ"),
        ("2", "sg", "devam"),
        ("2", "du", "devau"),
        ("2", "pl", "devān"),
        ("3", "sg", "devena"),
        ("3", "du", "devābhyām"),
        ("3", "pl", "devaiḥ"),
        ("4", "sg", "devāya"),
        ("4", "du", "devābhyām"),
        ("4", "pl", "devebhyaḥ"),
        ("5", "sg", "devāt"),
        ("5", "du", "devābhyām"),
        ("5", "pl", "devebhyaḥ"),
        ("6", "sg", "devasya"),
        ("6", "du", "devayoḥ"),
        ("6", "pl", "devānām"),
        ("7", "sg", "deve"),
        ("7", "du", "devayoḥ"),
        ("7", "pl", "deveṣu"),
        ("8", "sg", "deva"),
        ("8", "du", "devau"),
        ("8", "pl", "devāḥ"),
    ];
    for (case, number, exp) in expected {
        assert_eq!(
            form(case, number),
            exp,
            "case={case} number={number} expected={exp}"
        );
    }
}

#[test]
fn english_case_names() {
    assert_eq!(form("nominative", "singular"), "devaḥ");
    assert_eq!(form("accusative", "plural"), "devān");
    assert_eq!(form("instrumental", "dual"), "devābhyām");
}

#[test]
fn iuk_retroflexion() {
    assert_eq!(
        try_apply_iuk_retroflexion("devesu", "s", "ṣ"),
        Some("deveṣu".into())
    );
    assert_eq!(
        try_apply_iuk_retroflexion("devasu", "s", "ṣ"),
        None,
    );
}

fn analyze(form: &str) -> DeclensionAnalysis {
    analyze_declension(
        &fixture_sup_suffixes(),
        &fixture_pratyaya_rules(),
        &fixture_anga_rules(),
        &fixture_sandhi_rules(),
        &fixture_tripadi_rules(),
        form,
    )
    .ok().unwrap()
}

#[test]
fn analyze_nom_sg() {
    let result = analyze("devaḥ");
    assert!(result.candidates.iter().any(|c| c.stem == "deva"
        && c.case == "1"
        && c.number == "sg"));
}

#[test]
fn analyze_ambiguous_form() {
    let result = analyze("devau");
    let cases: Vec<&str> = result
        .candidates
        .iter()
        .filter(|c| c.stem == "deva" && c.number == "du")
        .map(|c| c.case.as_str())
        .collect();
    assert!(cases.contains(&"1"), "should match nom du");
    assert!(cases.contains(&"2"), "should match acc du");
    assert!(cases.contains(&"8"), "should match voc du");
}

#[test]
fn analyze_no_match() {
    assert!(analyze("xyz").candidates.is_empty());
}

#[test]
fn analyze_round_trip_all_24() {
    for case in CASES {
        for number in NUMBERS {
            let derived = derive(case, number);
            let f = form_of(&derived);
            let f = f.as_str();
            let analyzed = analyze(f);
            assert!(
                analyzed.candidates.iter().any(|c| c.stem == "deva"
                    && c.case == case
                    && c.number == number),
                "round-trip failed: case={case} number={number} form={f}"
            );
        }
    }
}

#[test]
fn case_and_number_names_translate() {
    assert_eq!(translate_case("1"), "prathama");
    assert_eq!(translate_case("locative"), "saptami");
    assert_eq!(translate_case("8"), "sambodhana");
    assert_eq!(translate_case("dvitiya"), "dvitiya");
    assert_eq!(translate_number("du"), "dvivacana");
    assert_eq!(translate_number("plural"), "bahuvacana");
    assert_eq!(translate_number("x"), "x");
}

#[test]
fn missing_sup_entry_is_an_error() {
    let r = derive_declension(
        &fixture_sup_suffixes(),
        &fixture_pratyaya_rules(),
        &fixture_anga_rules(),
        &fixture_sandhi_rules(),
        &fixture_tripadi_rules(),
        DeclensionInput {
            stem: "phala".into(),
            stem_type: "a-stem-n".into(),
            case: "1".into(),
            number: "sg".into(),
        },
    );
    match r {
        Err(e) => assert_eq!(
            e.message(),
            "failed to parse rule: no sup_suffix for stem_class=a-stem-n, vibhakti=prathama, vacana=ekavacana"
        ),
        Ok(_) => panic!("expected an error"),
    }
}

#[test]
fn declension_output_echoes_input() {
    let r = derive("3", "pl");
    match &r.output {
        Derived::Declension { stem, stem_type, case, number, form, steps } => {
            assert_eq!(stem, "deva");
            assert_eq!(stem_type, "a-stem-m");
            assert_eq!(case, "3");
            assert_eq!(number, "pl");
            assert_eq!(form, "devaiḥ");
            assert_eq!(*steps, r.trace.len());
        }
        _ => panic!("not a declension"),
    }
    for (i, step) in r.trace.iter().enumerate() {
        assert_eq!(step.step, i + 1);
    }
}

#[test]
fn every_analysis_candidate_derives_the_form() {
    let a = analyze("devābhyām");
    assert!(!a.candidates.is_empty());
    for c in &a.candidates {
        assert_eq!(form(&c.case, &c.number), "devābhyām");
        assert_eq!(c.form, "devābhyām");
    }
}

#[test]
fn iuk_retroflexion_needs_an_inner_site() {
    assert_eq!(try_apply_iuk_retroflexion("s", "s", "ṣ"), None);
    assert_eq!(try_apply_iuk_retroflexion("isa", "s", "ṣ"), Some("iṣa".to_string()));
    assert_eq!(try_apply_iuk_retroflexion("agnisu", "s", "ṣ"), Some("agniṣu".to_string()));
}

#[test]
fn later_duplicate_sup_entry_is_never_used() {
    let mut sup = fixture_sup_suffixes();
    sup.push(rule(
        vec![
            t("stem_class", "a-stem-m"),
            t("vibhakti", "prathama"),
            t("vacana", "ekavacana"),
            t("pratyaya", "su"),
            t("suffix", "XX"),
            l("markers", &[]),
            t("sutra", "4.1.2-dup"),
        ],
        "4.1.2-dup",
    ));
    let report = panini::consistency::check_sup_suffix(&sup);
    assert_eq!(report.ambiguous_overlaps.len(), 1);
    assert_eq!(report.ambiguous_overlaps[0].rule_b_sutra, "4.1.2-dup");
    let r = derive_declension(
        &sup,
        &fixture_pratyaya_rules(),
        &fixture_anga_rules(),
        &fixture_sandhi_rules(),
        &fixture_tripadi_rules(),
        DeclensionInput { stem: "deva".into(), stem_type: "a-stem-m".into(), case: "1".into(), number: "sg".into() },
    )
    .ok()
    .unwrap();
    assert_eq!(form_of(&r), "devaḥ");
}

#[test]
fn reported_missing_cell_cannot_be_declined() {
    let sup: Vec<CachedRule> = fixture_sup_suffixes().into_iter().skip(1).collect();
    let report = panini::consistency::check_sup_suffix(&sup);
    assert_eq!(report.paradigm_gaps[0].missing_cells, vec!["prathama ekavacana".to_string()]);
    let r = derive_declension(
        &sup,
        &fixture_pratyaya_rules(),
        &fixture_anga_rules(),
        &fixture_sandhi_rules(),
        &fixture_tripadi_rules(),
        DeclensionInput { stem: "deva".into(), stem_type: "a-stem-m".into(), case: "nominative".into(), number: "sg".into() },
    );
    assert!(r.is_err());
}

#[test]
fn lower_ranked_pratyaya_rule_is_never_used() {
    let mut pr = fixture_pratyaya_rules();
    pr.push(rule(
        vec![
            t("condition_stem_class", "a-stem-m"),
            t("condition_suffix", "bhis"),
            l("condition_markers", &[]),
            t("input_suffix", "bhis"),
            t("output_suffix", "XX"),
            t("sutra", "7.1.1"),
            t("sutra_position", "07.01.001"),
            t("rule_type", "nitya"),
        ],
        "7.1.1",
    ));
    let report = panini::consistency::check_pratyaya_rules(&pr);
    assert_eq!(report.ambiguous_overlaps.len(), 1);
    assert_eq!(report.ambiguous_overlaps[0].rule_a_sutra, "7.1.9");
    assert_eq!(report.ambiguous_overlaps[0].rule_b_sutra, "7.1.1");
    let r = derive_declension(
        &fixture_sup_suffixes(),
        &pr,
        &fixture_anga_rules(),
        &fixture_sandhi_rules(),
        &fixture_tripadi_rules(),
        DeclensionInput { stem: "deva".into(), stem_type: "a-stem-m".into(), case: "3".into(), number: "pl".into() },
    )
    .ok()
    .unwrap();
    assert_eq!(form_of(&r), "devaiḥ");
}

fn sambodhana_anga_rule() -> Vec<CachedRule> {
    vec![rule(
        vec![
            t("condition_stem_final", "a"),
            t("condition_vacana", "ekavacana"),
            t("condition_vibhakti", "sambodhana"),
            t("operation_input", "a"),
            t("operation_output", "e"),
            t("sutra", "7.3.106"),
            t("rule_type", "nitya"),
        ],
        "7.3.106",
    )]
}

fn derive_with_anga(an: &[CachedRule], case: &str) -> DeriveResult {
    derive_declension(
        &fixture_sup_suffixes(),
        &[],
        an,
        &[],
        &[],
        DeclensionInput { stem: "deva".into(), stem_type: "a-stem-m".into(), case: case.into(), number: "sg".into() },
    )
    .ok()
    .unwrap()
}

#[test]
fn anga_rule_limited_to_a_vibhakti() {
    let an = sambodhana_anga_rule();
    let nom = derive_with_anga(&an, "1");
    assert_eq!(form_of(&nom), "devas");
    assert_eq!(nom.trace.len(), 1);
    let voc = derive_with_anga(&an, "8");
    assert_eq!(form_of(&voc), "deves");
    assert!(voc.trace.iter().any(|s| s.rule_ref.as_deref() == Some("7.3.106")));
}

#[test]
fn long_a_feminine_forms_are_analysed() {
    let sup = vec![rule(
        vec![
            t("stem_class", "aa-stem-f"),
            t("vibhakti", "caturthi"),
            t("vacana", "ekavacana"),
            t("pratyaya", "ṅe"),
            t("suffix", "e"),
            l("markers", &["ṅ"]),
            t("sutra", "4.1.2"),
        ],
        "4.1.2",
    )];
    let pr = vec![rule(
        vec![
            t("condition_stem_class", "aa-stem-f"),
            t("condition_suffix", "ṅe"),
            t("input_suffix", "e"),
            t("output_suffix", "yai"),
            t("sutra", "7.3.113"),
            t("rule_type", "nitya"),
        ],
        "7.3.113",
    )];
    let a = analyze_declension(&sup, &pr, &[], &[], &[], "vidyāyai").ok().unwrap();
    assert!(
        a.candidates.iter().any(|c| c.stem == "vidyā" && c.stem_type == "aa-stem-f" && c.case == "4" && c.number == "sg"),
        "should find vidyāyai as aa-stem-f"
    );
}

#[test]
fn case_names_decline_alike() {
    for (a, b) in [(("1", "sg"), ("nominative", "singular")), (("2", "pl"), ("dvitiya", "bahuvacana")), (("8", "du"), ("vocative", "dual"))] {
        let x = derive(a.0, a.1);
        let y = derive(b.0, b.1);
        assert_eq!(form_of(&x), form_of(&y));
        assert_eq!(x.trace.len(), y.trace.len());
        for (s, t) in x.trace.iter().zip(y.trace.iter()) {
            assert_eq!(s.rule, t.rule);
            assert_eq!(s.rule_ref, t.rule_ref);
            assert_eq!(s.input_state, t.input_state);
            assert_eq!(s.output_state, t.output_state);
        }
    }
}
