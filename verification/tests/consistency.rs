use panini::consistency::{CheckReport, Template, check_anga_rules, check_pratyaya_rules, check_sandhi_rules, check_sup_suffix, check_template, check_tripadi_rules, template_slug};
use panini::params::{CachedRule, ParamField, ParamValue, Params};

const VIBHAKTIS: &[&str] = &[
    "prathama",
    "dvitiya",
    "tritiya",
    "caturthi",
    "pancami",
    "sasthi",
    "saptami",
    "sambodhana",
];
const VACANAS: &[&str] = &["ekavacana", "dvivacana", "bahuvacana"];

fn t(k: &str, v: &str) -> ParamField {
    ParamField { key: k.to_string(), value: ParamValue::Text(v.to_string()) }
}

fn b(k: &str, v: bool) -> ParamField {
    ParamField { key: k.to_string(), value: ParamValue::Bool(v) }
}

fn make(fields: Vec<ParamField>) -> CachedRule {
    let stmt = fields
        .iter()
        .find(|f| f.key == "sutra")
        .and_then(|f| match &f.value {
            ParamValue::Text(s) => Some(s.clone()),
            _ => None,
        })
        .unwrap_or_else(|| "test".to_string());
    CachedRule { params: Params::Object(fields), statement: stmt }
}

// --- sandhi ---

#[test]
fn sandhi_clean() {
    let rules = vec![
        make(vec![t("first", "a"), t("second", "a"), t("result", "ā"), t("sutra", "6.1.101"), t("sutra_position", "06.01.101"), t("rule_type", "utsarga")]),
        make(vec![t("first", "a"), t("second", "i"), t("result", "e"), t("sutra", "6.1.87"), t("sutra_position", "06.01.087"), t("rule_type", "utsarga")]),
    ];
    let report = check_sandhi_rules(&rules);
    assert!(report.summary.clean);
    assert_eq!(report.coverage.covered_combinations, 2);
}

#[test]
fn sandhi_shadowed() {
    let rules = vec![
        make(vec![t("first", "a"), t("second", "a"), t("result", "ā"), t("sutra", "6.1.101"), t("sutra_position", "06.01.101"), t("rule_type", "utsarga")]),
        make(vec![t("first", "a"), t("second", "a"), t("result", "ā"), t("sutra", "6.1.101-dup"), t("sutra_position", "06.01.101"), t("rule_type", "utsarga")]),
    ];
    let report = check_sandhi_rules(&rules);
    assert!(!report.summary.clean);
    assert_eq!(report.shadowed_rules.len(), 1);
}

#[test]
fn sandhi_ambiguous() {
    let rules = vec![
        make(vec![t("first", "a"), t("second", "a"), t("result", "ā"), t("sutra", "6.1.101"), t("sutra_position", "06.01.101"), t("rule_type", "utsarga")]),
        make(vec![t("first", "a"), t("second", "a"), t("result", "a"), t("sutra", "6.1.102"), t("sutra_position", "06.01.102"), t("rule_type", "utsarga")]),
    ];
    let report = check_sandhi_rules(&rules);
    assert_eq!(report.ambiguous_overlaps.len(), 1);
}

#[test]
fn sandhi_apavada_ok() {
    let rules = vec![
        make(vec![t("first", "a"), t("second", "a"), t("result", "ā"), t("sutra", "6.1.101"), t("sutra_position", "06.01.101"), t("rule_type", "utsarga")]),
        make(vec![t("first", "a"), t("second", "a"), t("result", "a"), t("sutra", "6.1.107"), t("sutra_position", "06.01.107"), t("rule_type", "apavāda")]),
    ];
    assert!(check_sandhi_rules(&rules).summary.clean);
}

#[test]
fn sandhi_parse_error() {
    let rules = vec![CachedRule {
        statement: "broken".into(),
        params: Params::Object(vec![b("bogus", true)]),
    }];
    let report = check_sandhi_rules(&rules);
    assert_eq!(report.parse_errors.len(), 1);
}

#[test]
fn sandhi_pratyaya_excluded() {
    let rules = vec![
        make(vec![t("first", "a"), t("second", "a"), t("result", "ā"), t("sutra", "6.1.101"), t("sutra_position", "06.01.101"), t("rule_type", "utsarga")]),
        make(vec![t("first", "a"), t("second", "a"), t("result", "a"), t("sutra", "6.1.107"), t("sutra_position", "06.01.107"), t("rule_type", "apavāda"), t("condition_pratyaya", "am")]),
    ];
    assert!(check_sandhi_rules(&rules).summary.clean);
}

// --- sup_suffix ---

#[test]
fn sup_complete_paradigm_clean() {
    let rules: Vec<CachedRule> = VIBHAKTIS
        .iter()
        .flat_map(|v| {
            VACANAS.iter().map(move |n| {
                make(vec![t("stem_class", "a-stem-m"), t("vibhakti", v), t("vacana", n), t("pratyaya", "test"), t("suffix", "x"), t("sutra", "4.1.2")])
            })
        })
        .collect();
    let report = check_sup_suffix(&rules);
    assert!(report.summary.clean);
    assert!(report.paradigm_gaps.is_empty());
    assert_eq!(report.coverage.covered_combinations, 24);
}

#[test]
fn sup_detects_missing_cells() {
    let rules = vec![make(vec![t("stem_class", "a-stem-m"), t("vibhakti", "prathama"), t("vacana", "ekavacana"), t("pratyaya", "su"), t("suffix", "s"), t("sutra", "4.1.2")])];
    let report = check_sup_suffix(&rules);
    assert!(!report.summary.clean);
    assert_eq!(report.paradigm_gaps.len(), 1);
    assert_eq!(report.paradigm_gaps[0].present, 1);
    assert_eq!(report.paradigm_gaps[0].expected, 24);
    assert_eq!(report.paradigm_gaps[0].missing_cells.len(), 23);
}

#[test]
fn sup_duplicate_detected() {
    let rules = vec![
        make(vec![t("stem_class", "a-stem-m"), t("vibhakti", "prathama"), t("vacana", "ekavacana"), t("pratyaya", "su"), t("suffix", "s"), t("sutra", "4.1.2")]),
        make(vec![t("stem_class", "a-stem-m"), t("vibhakti", "prathama"), t("vacana", "ekavacana"), t("pratyaya", "su"), t("suffix", "s"), t("sutra", "4.1.2-dup")]),
    ];
    let report = check_sup_suffix(&rules);
    assert_eq!(report.shadowed_rules.len(), 1);
}

// --- pratyaya_rule ---

#[test]
fn pratyaya_clean() {
    let rules = vec![
        make(vec![t("condition_stem_class", "a-stem-m"), t("condition_suffix", "bhis"), t("input_suffix", "bhis"), t("output_suffix", "ais"), t("sutra", "7.1.9"), t("sutra_position", "07.01.009"), t("rule_type", "nitya")]),
        make(vec![t("condition_stem_class", "a-stem-m"), t("condition_suffix", "ṭā"), t("input_suffix", "ā"), t("output_suffix", "ina"), t("sutra", "7.1.12"), t("sutra_position", "07.01.012"), t("rule_type", "nitya")]),
    ];
    assert!(check_pratyaya_rules(&rules).summary.clean);
}

#[test]
fn pratyaya_ambiguous() {
    let rules = vec![
        make(vec![t("condition_stem_class", "a-stem-m"), t("condition_suffix", "bhis"), t("input_suffix", "bhis"), t("output_suffix", "ais"), t("sutra", "7.1.9"), t("sutra_position", "07.01.009"), t("rule_type", "nitya")]),
        make(vec![t("condition_stem_class", "a-stem-m"), t("condition_suffix", "bhis"), t("input_suffix", "bhis"), t("output_suffix", "WRONG"), t("sutra", "7.1.99"), t("sutra_position", "07.01.099"), t("rule_type", "nitya")]),
    ];
    let report = check_pratyaya_rules(&rules);
    assert_eq!(report.ambiguous_overlaps.len(), 1);
}

// --- anga_rule ---

#[test]
fn anga_clean() {
    let rules = vec![make(vec![t("condition_stem_final", "a"), t("condition_suffix_initial", "y"), t("operation_input", "a"), t("operation_output", "ā"), t("sutra", "7.3.101"), t("sutra_position", "07.03.101"), t("rule_type", "utsarga")])];
    assert!(check_anga_rules(&rules).summary.clean);
}

#[test]
fn anga_parse_error() {
    let rules = vec![CachedRule {
        statement: "broken".into(),
        params: Params::Object(vec![b("bad", true)]),
    }];
    assert_eq!(check_anga_rules(&rules).parse_errors.len(), 1);
}

// --- tripadi_rule ---

#[test]
fn tripadi_clean() {
    let rules = vec![
        make(vec![t("input", "s"), t("output", "r"), t("position", "word_final"), t("sutra", "8.2.66"), t("sutra_position", "08.02.066"), t("rule_type", "nitya")]),
        make(vec![t("input", "r"), t("output", "ḥ"), t("position", "word_final"), t("sutra", "8.3.15"), t("sutra_position", "08.03.015"), t("rule_type", "nitya")]),
    ];
    assert!(check_tripadi_rules(&rules).summary.clean);
}

#[test]
fn tripadi_shadowed() {
    let rules = vec![
        make(vec![t("input", "s"), t("output", "r"), t("position", "word_final"), t("sutra", "8.2.66"), t("sutra_position", "08.02.066"), t("rule_type", "nitya")]),
        make(vec![t("input", "s"), t("output", "r"), t("position", "word_final"), t("sutra", "8.2.66-dup"), t("sutra_position", "08.02.066"), t("rule_type", "nitya")]),
    ];
    assert_eq!(check_tripadi_rules(&rules).shadowed_rules.len(), 1);
}

fn two_sandhi() -> Vec<CachedRule> {
    vec![
        make(vec![t("first", "a"), t("second", "a"), t("result", "ā"), t("sutra", "6.1.101"), t("sutra_position", "06.01.101"), t("rule_type", "utsarga")]),
        make(vec![t("first", "a"), t("second", "i"), t("result", "e"), t("sutra", "6.1.87"), t("sutra_position", "06.01.087"), t("rule_type", "utsarga")]),
    ]
}

#[test]
fn clean_sandhi_verdict_and_counts() {
    let report = check_sandhi_rules(&two_sandhi());
    assert_eq!(report.template, "sandhi_rule");
    assert_eq!(report.total_rules, 2);
    assert_eq!(
        report.summary.verdict,
        "All 2 rules are well-formed with no issues. 2 unique phoneme pairs covered across 2 sūtras."
    );
    assert_eq!(
        report.coverage.rules_by_sutra,
        vec![("6.1.101".to_string(), 1), ("6.1.87".to_string(), 1)]
    );
    assert_eq!(report.coverage.rules_by_type, vec![("utsarga".to_string(), 2)]);
    assert_eq!(report.coverage.dimensions[0].label, "first phonemes");
    assert_eq!(report.coverage.dimensions[0].values, vec!["a".to_string()]);
    assert_eq!(report.coverage.dimensions[1].values, vec!["a".to_string(), "i".to_string()]);
}

#[test]
fn shadowed_rule_names_its_winner() {
    let rules = vec![
        make(vec![t("first", "a"), t("second", "a"), t("result", "ā"), t("sutra", "6.1.101"), t("sutra_position", "06.01.101"), t("rule_type", "utsarga")]),
        make(vec![t("first", "a"), t("second", "a"), t("result", "ā"), t("sutra", "6.1.101-dup"), t("sutra_position", "06.01.101"), t("rule_type", "utsarga")]),
    ];
    let report = check_sandhi_rules(&rules);
    let s = &report.shadowed_rules[0];
    assert_eq!(s.pattern, "a + a");
    assert_eq!(s.shadowed_sutra, "6.1.101-dup");
    assert_eq!(s.shadowed_by_sutra, "6.1.101");
    assert_eq!(report.summary.shadowed_count, 1);
    assert_eq!(report.summary.verdict, "1 issue(s) in 2 rules: 1 shadowed rule(s)");
}

#[test]
fn parse_errors_name_the_rule() {
    let rules = vec![CachedRule { statement: "broken".into(), params: Params::NotObject(ParamValue::Text("x".into())) }];
    let report = check_anga_rules(&rules);
    assert_eq!(report.parse_errors.len(), 1);
    assert_eq!(report.parse_errors[0].index, 0);
    assert_eq!(report.parse_errors[0].statement, "broken");
    assert_eq!(report.parse_errors[0].error, "invalid type: string \"x\", expected struct AngaParams");
    assert_eq!(report.summary.verdict, "1 issue(s) in 0 rules: 1 parse error(s)");
}

#[test]
fn sup_gap_lists_missing_cells() {
    let rules = vec![make(vec![t("stem_class", "a-stem-m"), t("vibhakti", "prathama"), t("vacana", "ekavacana"), t("pratyaya", "su"), t("suffix", "s"), t("sutra", "4.1.2")])];
    let report = check_sup_suffix(&rules);
    assert_eq!(report.paradigm_gaps[0].stem_class, "a-stem-m");
    assert_eq!(report.paradigm_gaps[0].missing_cells[0], "prathama dvivacana");
    assert_eq!(report.summary.verdict, "23 issue(s) in 1 rules: 23 missing paradigm cell(s)");
}

#[test]
fn check_template_dispatches_by_slug() {
    let rules = two_sandhi();
    let a: CheckReport = check_template(&Template::Sandhi, &rules);
    let b = check_sandhi_rules(&rules);
    assert_eq!(a.summary.verdict, b.summary.verdict);
    assert_eq!(template_slug(&Template::Sandhi), "sandhi_rule");
    assert_eq!(template_slug(&Template::Sup), "sup_suffix");
    assert_eq!(template_slug(&Template::Pratyaya), "pratyaya_rule");
    assert_eq!(template_slug(&Template::Anga), "anga_rule");
    assert_eq!(template_slug(&Template::Tripadi), "tripadi_rule");
}

#[test]
fn apavada_winner_is_never_shadowed() {
    let rules = vec![
        make(vec![t("first", "a"), t("second", "a"), t("result", "a"), t("sutra", "6.1.107"), t("sutra_position", "06.01.107"), t("rule_type", "apavāda")]),
        make(vec![t("first", "a"), t("second", "a"), t("result", "a"), t("sutra", "6.1.101"), t("sutra_position", "06.01.101"), t("rule_type", "utsarga")]),
    ];
    let report = check_sandhi_rules(&rules);
    assert_eq!(report.shadowed_rules.len(), 1);
    assert_eq!(report.shadowed_rules[0].shadowed_sutra, "6.1.101");
    assert_eq!(report.shadowed_rules[0].shadowed_by_type, "apavāda");
}
