use panini::engine::{DeriveResult, Derived};
use panini::params::{CachedRule, ParamField, ParamValue, Params};
use panini::sandhi::{SandhiInput, analyze_sandhi, derive_sandhi, validate_rules};

fn t(k: &str, v: &str) -> ParamField {
    ParamField { key: k.to_string(), value: ParamValue::Text(v.to_string()) }
}

fn rule(fields: Vec<ParamField>, statement: &str) -> CachedRule {
    CachedRule { params: Params::Object(fields), statement: statement.to_string() }
}

fn numbered(specs: Vec<Vec<ParamField>>) -> Vec<CachedRule> {
    specs
        .into_iter()
        .enumerate()
        .map(|(i, f)| rule(f, &format!("test rule {}", i + 1)))
        .collect()
}

fn fixture_rules() -> Vec<CachedRule> {
    numbered(vec![
        vec![t("first", "a"), t("second", "a"), t("result", "ā"), t("sutra", "6.1.101"), t("sutra_position", "06.01.101"), t("rule_type", "utsarga")],
        vec![t("first", "a"), t("second", "i"), t("result", "e"), t("sutra", "6.1.87"), t("sutra_position", "06.01.087"), t("rule_type", "utsarga")],
        vec![t("first", "a"), t("second", "u"), t("result", "o"), t("sutra", "6.1.87"), t("sutra_position", "06.01.087"), t("rule_type", "utsarga")],
        vec![t("first", "a"), t("second", "e"), t("result", "ai"), t("sutra", "6.1.88"), t("sutra_position", "06.01.088"), t("rule_type", "utsarga")],
        vec![t("first", "a"), t("second", "o"), t("result", "au"), t("sutra", "6.1.88"), t("sutra_position", "06.01.088"), t("rule_type", "utsarga")],
        vec![t("first", "i"), t("second", "a"), t("result", "ya"), t("sutra", "6.1.77"), t("sutra_position", "06.01.077"), t("rule_type", "utsarga")],
        vec![t("first", "u"), t("second", "a"), t("result", "va"), t("sutra", "6.1.77"), t("sutra_position", "06.01.077"), t("rule_type", "utsarga")],
        vec![t("first", "i"), t("second", "i"), t("result", "ī"), t("sutra", "6.1.101"), t("sutra_position", "06.01.101"), t("rule_type", "utsarga")],
        vec![t("first", "u"), t("second", "u"), t("result", "ū"), t("sutra", "6.1.101"), t("sutra_position", "06.01.101"), t("rule_type", "utsarga")],
        vec![t("first", "ṛ"), t("second", "a"), t("result", "ra"), t("sutra", "6.1.77"), t("sutra_position", "06.01.077"), t("rule_type", "utsarga")],
        vec![t("first", "aḥ"), t("second", "a"), t("result", "o '"), t("sutra", "6.1.109"), t("sutra_position", "06.01.109"), t("rule_type", "utsarga")],
        vec![t("first", "aḥ"), t("second", "g"), t("result", "og"), t("sutra", "8.3.17"), t("sutra_position", "08.03.017"), t("rule_type", "utsarga")],
        vec![t("first", "t"), t("second", "c"), t("result", "cc"), t("sutra", "8.4.40"), t("sutra_position", "08.04.040"), t("rule_type", "utsarga")],
        vec![t("first", "t"), t("second", "ch"), t("result", "cch"), t("sutra", "8.4.40"), t("sutra_position", "08.04.040"), t("rule_type", "utsarga")],
        vec![t("first", "t"), t("second", "j"), t("result", "jj"), t("sutra", "8.4.40"), t("sutra_position", "08.04.040"), t("rule_type", "utsarga")],
        vec![t("first", "t"), t("second", "jh"), t("result", "jjh"), t("sutra", "8.4.40"), t("sutra_position", "08.04.040"), t("rule_type", "utsarga")],
        vec![t("first", "d"), t("second", "c"), t("result", "cc"), t("sutra", "8.4.40"), t("sutra_position", "08.04.040"), t("rule_type", "utsarga")],
        vec![t("first", "d"), t("second", "ch"), t("result", "cch"), t("sutra", "8.4.40"), t("sutra_position", "08.04.040"), t("rule_type", "utsarga")],
        vec![t("first", "d"), t("second", "j"), t("result", "jj"), t("sutra", "8.4.40"), t("sutra_position", "08.04.040"), t("rule_type", "utsarga")],
        vec![t("first", "d"), t("second", "jh"), t("result", "jjh"), t("sutra", "8.4.40"), t("sutra_position", "08.04.040"), t("rule_type", "utsarga")],
        vec![t("first", "n"), t("second", "c"), t("result", "ñc"), t("sutra", "8.4.40"), t("sutra_position", "08.04.040"), t("rule_type", "utsarga")],
        vec![t("first", "n"), t("second", "ch"), t("result", "ñch"), t("sutra", "8.4.40"), t("sutra_position", "08.04.040"), t("rule_type", "utsarga")],
        vec![t("first", "n"), t("second", "j"), t("result", "ñj"), t("sutra", "8.4.40"), t("sutra_position", "08.04.040"), t("rule_type", "utsarga")],
        vec![t("first", "n"), t("second", "jh"), t("result", "ñjh"), t("sutra", "8.4.40"), t("sutra_position", "08.04.040"), t("rule_type", "utsarga")],
        vec![t("first", "t"), t("second", "ś"), t("result", "cch"), t("sutra", "8.4.40"), t("sutra_position", "08.04.040"), t("rule_type", "utsarga")],
        vec![t("first", "d"), t("second", "ś"), t("result", "cch"), t("sutra", "8.4.40"), t("sutra_position", "08.04.040"), t("rule_type", "utsarga")],
        vec![t("first", "n"), t("second", "ś"), t("result", "ñch"), t("sutra", "8.4.40"), t("sutra_position", "08.04.040"), t("rule_type", "utsarga")],
        vec![t("first", "t"), t("second", "ṭ"), t("result", "ṭṭ"), t("sutra", "8.4.41"), t("sutra_position", "08.04.041"), t("rule_type", "utsarga")],
        vec![t("first", "t"), t("second", "ṭh"), t("result", "ṭṭh"), t("sutra", "8.4.41"), t("sutra_position", "08.04.041"), t("rule_type", "utsarga")],
        vec![t("first", "t"), t("second", "ḍ"), t("result", "ḍḍ"), t("sutra", "8.4.41"), t("sutra_position", "08.04.041"), t("rule_type", "utsarga")],
        vec![t("first", "t"), t("second", "ḍh"), t("result", "ḍḍh"), t("sutra", "8.4.41"), t("sutra_position", "08.04.041"), t("rule_type", "utsarga")],
        vec![t("first", "d"), t("second", "ṭ"), t("result", "ṭṭ"), t("sutra", "8.4.41"), t("sutra_position", "08.04.041"), t("rule_type", "utsarga")],
        vec![t("first", "d"), t("second", "ṭh"), t("result", "ṭṭh"), t("sutra", "8.4.41"), t("sutra_position", "08.04.041"), t("rule_type", "utsarga")],
        vec![t("first", "d"), t("second", "ḍ"), t("result", "ḍḍ"), t("sutra", "8.4.41"), t("sutra_position", "08.04.041"), t("rule_type", "utsarga")],
        vec![t("first", "d"), t("second", "ḍh"), t("result", "ḍḍh"), t("sutra", "8.4.41"), t("sutra_position", "08.04.041"), t("rule_type", "utsarga")],
        vec![t("first", "n"), t("second", "ṭ"), t("result", "ṇṭ"), t("sutra", "8.4.41"), t("sutra_position", "08.04.041"), t("rule_type", "utsarga")],
        vec![t("first", "n"), t("second", "ṭh"), t("result", "ṇṭh"), t("sutra", "8.4.41"), t("sutra_position", "08.04.041"), t("rule_type", "utsarga")],
        vec![t("first", "n"), t("second", "ḍ"), t("result", "ṇḍ"), t("sutra", "8.4.41"), t("sutra_position", "08.04.041"), t("rule_type", "utsarga")],
        vec![t("first", "n"), t("second", "ḍh"), t("result", "ṇḍh"), t("sutra", "8.4.41"), t("sutra_position", "08.04.041"), t("rule_type", "utsarga")],
        vec![t("first", "t"), t("second", "g"), t("result", "dg"), t("sutra", "8.4.53"), t("sutra_position", "08.04.053"), t("rule_type", "utsarga")],
        vec![t("first", "t"), t("second", "gh"), t("result", "dgh"), t("sutra", "8.4.53"), t("sutra_position", "08.04.053"), t("rule_type", "utsarga")],
        vec![t("first", "t"), t("second", "d"), t("result", "dd"), t("sutra", "8.4.53"), t("sutra_position", "08.04.053"), t("rule_type", "utsarga")],
        vec![t("first", "t"), t("second", "dh"), t("result", "ddh"), t("sutra", "8.4.53"), t("sutra_position", "08.04.053"), t("rule_type", "utsarga")],
        vec![t("first", "t"), t("second", "b"), t("result", "db"), t("sutra", "8.4.53"), t("sutra_position", "08.04.053"), t("rule_type", "utsarga")],
        vec![t("first", "t"), t("second", "bh"), t("result", "dbh"), t("sutra", "8.4.53"), t("sutra_position", "08.04.053"), t("rule_type", "utsarga")],
        vec![t("first", "k"), t("second", "g"), t("result", "gg"), t("sutra", "8.4.53"), t("sutra_position", "08.04.053"), t("rule_type", "utsarga")],
        vec![t("first", "k"), t("second", "gh"), t("result", "ggh"), t("sutra", "8.4.53"), t("sutra_position", "08.04.053"), t("rule_type", "utsarga")],
        vec![t("first", "k"), t("second", "j"), t("result", "gj"), t("sutra", "8.4.53"), t("sutra_position", "08.04.053"), t("rule_type", "utsarga")],
        vec![t("first", "k"), t("second", "d"), t("result", "gd"), t("sutra", "8.4.53"), t("sutra_position", "08.04.053"), t("rule_type", "utsarga")],
        vec![t("first", "k"), t("second", "dh"), t("result", "gdh"), t("sutra", "8.4.53"), t("sutra_position", "08.04.053"), t("rule_type", "utsarga")],
        vec![t("first", "k"), t("second", "b"), t("result", "gb"), t("sutra", "8.4.53"), t("sutra_position", "08.04.053"), t("rule_type", "utsarga")],
        vec![t("first", "k"), t("second", "bh"), t("result", "gbh"), t("sutra", "8.4.53"), t("sutra_position", "08.04.053"), t("rule_type", "utsarga")],
        vec![t("first", "p"), t("second", "g"), t("result", "bg"), t("sutra", "8.4.53"), t("sutra_position", "08.04.053"), t("rule_type", "utsarga")],
        vec![t("first", "p"), t("second", "d"), t("result", "bd"), t("sutra", "8.4.53"), t("sutra_position", "08.04.053"), t("rule_type", "utsarga")],
        vec![t("first", "p"), t("second", "b"), t("result", "bb"), t("sutra", "8.4.53"), t("sutra_position", "08.04.053"), t("rule_type", "utsarga")],
        vec![t("first", "p"), t("second", "bh"), t("result", "bbh"), t("sutra", "8.4.53"), t("sutra_position", "08.04.053"), t("rule_type", "utsarga")],
        vec![t("first", "t"), t("second", "n"), t("result", "nn"), t("sutra", "8.4.45"), t("sutra_position", "08.04.045"), t("rule_type", "utsarga")],
        vec![t("first", "t"), t("second", "m"), t("result", "nm"), t("sutra", "8.4.45"), t("sutra_position", "08.04.045"), t("rule_type", "utsarga")],
        vec![t("first", "k"), t("second", "ṅ"), t("result", "ṅṅ"), t("sutra", "8.4.45"), t("sutra_position", "08.04.045"), t("rule_type", "utsarga")],
        vec![t("first", "k"), t("second", "n"), t("result", "ṅn"), t("sutra", "8.4.45"), t("sutra_position", "08.04.045"), t("rule_type", "utsarga")],
        vec![t("first", "k"), t("second", "m"), t("result", "ṅm"), t("sutra", "8.4.45"), t("sutra_position", "08.04.045"), t("rule_type", "utsarga")],
        vec![t("first", "p"), t("second", "n"), t("result", "mn"), t("sutra", "8.4.45"), t("sutra_position", "08.04.045"), t("rule_type", "utsarga")],
        vec![t("first", "p"), t("second", "m"), t("result", "mm"), t("sutra", "8.4.45"), t("sutra_position", "08.04.045"), t("rule_type", "utsarga")],
        vec![t("first", "m"), t("second", "k"), t("result", "ṃk"), t("sutra", "8.3.23"), t("sutra_position", "08.03.023"), t("rule_type", "utsarga")],
        vec![t("first", "m"), t("second", "g"), t("result", "ṃg"), t("sutra", "8.3.23"), t("sutra_position", "08.03.023"), t("rule_type", "utsarga")],
        vec![t("first", "m"), t("second", "c"), t("result", "ṃc"), t("sutra", "8.3.23"), t("sutra_position", "08.03.023"), t("rule_type", "utsarga")],
        vec![t("first", "m"), t("second", "t"), t("result", "ṃt"), t("sutra", "8.3.23"), t("sutra_position", "08.03.023"), t("rule_type", "utsarga")],
        vec![t("first", "m"), t("second", "p"), t("result", "ṃp"), t("sutra", "8.3.23"), t("sutra_position", "08.03.023"), t("rule_type", "utsarga")],
        vec![t("first", "m"), t("second", "s"), t("result", "ṃs"), t("sutra", "8.3.23"), t("sutra_position", "08.03.023"), t("rule_type", "utsarga")],
        vec![t("first", "m"), t("second", "n"), t("result", "ṃn"), t("sutra", "8.3.23"), t("sutra_position", "08.03.023"), t("rule_type", "utsarga")],
        vec![t("first", "t"), t("second", "a"), t("result", "da"), t("sutra", "8.2.39"), t("sutra_position", "08.02.039"), t("rule_type", "utsarga")],
        vec![t("first", "t"), t("second", "ā"), t("result", "dā"), t("sutra", "8.2.39"), t("sutra_position", "08.02.039"), t("rule_type", "utsarga")],
        vec![t("first", "t"), t("second", "i"), t("result", "di"), t("sutra", "8.2.39"), t("sutra_position", "08.02.039"), t("rule_type", "utsarga")],
        vec![t("first", "t"), t("second", "u"), t("result", "du"), t("sutra", "8.2.39"), t("sutra_position", "08.02.039"), t("rule_type", "utsarga")],
        vec![t("first", "t"), t("second", "e"), t("result", "de"), t("sutra", "8.2.39"), t("sutra_position", "08.02.039"), t("rule_type", "utsarga")],
        vec![t("first", "k"), t("second", "a"), t("result", "ga"), t("sutra", "8.2.39"), t("sutra_position", "08.02.039"), t("rule_type", "utsarga")],
        vec![t("first", "k"), t("second", "ā"), t("result", "gā"), t("sutra", "8.2.39"), t("sutra_position", "08.02.039"), t("rule_type", "utsarga")],
        vec![t("first", "k"), t("second", "i"), t("result", "gi"), t("sutra", "8.2.39"), t("sutra_position", "08.02.039"), t("rule_type", "utsarga")],
        vec![t("first", "k"), t("second", "ī"), t("result", "gī"), t("sutra", "8.2.39"), t("sutra_position", "08.02.039"), t("rule_type", "utsarga")],
        vec![t("first", "ṭ"), t("second", "a"), t("result", "ḍa"), t("sutra", "8.2.39"), t("sutra_position", "08.02.039"), t("rule_type", "utsarga")],
        vec![t("first", "p"), t("second", "a"), t("result", "ba"), t("sutra", "8.2.39"), t("sutra_position", "08.02.039"), t("rule_type", "utsarga")],
        vec![t("first", "p"), t("second", "i"), t("result", "bi"), t("sutra", "8.2.39"), t("sutra_position", "08.02.039"), t("rule_type", "utsarga")],
    ])
}

fn derive(rules: &[CachedRule], first: &str, second: &str) -> DeriveResult {
    derive_sandhi(rules, SandhiInput { first: first.to_string(), second: second.to_string() }).unwrap()
}

fn result_of(d: &DeriveResult) -> String {
    match &d.output {
        Derived::Sandhi { result, .. } => result.clone(),
        _ => panic!("not a sandhi derivation"),
    }
}

fn rule_ref(d: &DeriveResult, i: usize) -> Option<String> {
    d.trace[i].rule_ref.clone()
}

#[test]
fn guna_a_plus_i() {
    let rules = fixture_rules();
    let result = derive(&rules, "a", "i");
    assert_eq!(result_of(&result), "e");
    assert_eq!(result.trace.len(), 1);
    assert_eq!(rule_ref(&result, 0).as_deref(), Some("6.1.87"));
    assert_eq!(result.trace[0].input_state, "a + i");
    assert_eq!(result.trace[0].output_state, "e");
}

#[test]
fn savarna_dirgha_a_plus_a() {
    let rules = fixture_rules();
    assert_eq!(result_of(&derive(&rules, "a", "a")), "ā");
}

#[test]
fn vrddhi_a_plus_e() {
    let rules = fixture_rules();
    let result = derive(&rules, "a", "e");
    assert_eq!(result_of(&result), "ai");
    assert_eq!(rule_ref(&result, 0).as_deref(), Some("6.1.88"));
}

#[test]
fn yan_sandhi_i_plus_a() {
    let rules = fixture_rules();
    let result = derive(&rules, "i", "a");
    assert_eq!(result_of(&result), "ya");
    assert_eq!(rule_ref(&result, 0).as_deref(), Some("6.1.77"));
}

#[test]
fn word_level_sandhi() {
    let rules = fixture_rules();
    assert_eq!(result_of(&derive(&rules, "deva", "indra")), "devendra");
}

#[test]
fn all_ten_vowel_cases() {
    let rules = fixture_rules();
    let cases = vec![
        ("a", "a", "ā"),
        ("a", "i", "e"),
        ("a", "u", "o"),
        ("a", "e", "ai"),
        ("a", "o", "au"),
        ("i", "a", "ya"),
        ("u", "a", "va"),
        ("i", "i", "ī"),
        ("u", "u", "ū"),
        ("ṛ", "a", "ra"),
    ];
    for (first, second, expected) in cases {
        let result = derive(&rules, first, second);
        assert_eq!(result_of(&result), expected, "{first} + {second} should be {expected}");
    }
}

#[test]
fn visarga_a_plus_a() {
    let rules = fixture_rules();
    let result = derive(&rules, "devaḥ", "atra");
    assert_eq!(result_of(&result), "devo 'tra");
    assert_eq!(rule_ref(&result, 0).as_deref(), Some("6.1.109"));
}

#[test]
fn visarga_before_voiced_consonant() {
    let rules = fixture_rules();
    let result = derive(&rules, "devaḥ", "gacchati");
    assert_eq!(result_of(&result), "devogacchati");
    assert_eq!(rule_ref(&result, 0).as_deref(), Some("8.3.17"));
}

#[test]
fn no_matching_rule() {
    let rules = fixture_rules();
    let result = derive(&rules, "tat", "kim");
    assert_eq!(result_of(&result), "tatkim");
    assert!(result.trace.is_empty());
}

#[test]
fn empty_rules() {
    let result = derive(&[], "a", "i");
    assert_eq!(result_of(&result), "ai");
    assert!(result.trace.is_empty());
}

#[test]
fn analyze_guna_vowel() {
    let rules = fixture_rules();
    let result = analyze_sandhi(&rules, "devendra").unwrap();
    let found = result.candidates.iter().any(|c| c.first == "deva" && c.second == "indra");
    assert!(found, "expected deva + indra in candidates");
}

#[test]
fn analyze_visarga_before_a() {
    let rules = fixture_rules();
    let result = analyze_sandhi(&rules, "rāmo 'tra").unwrap();
    let found = result.candidates.iter().any(|c| c.first == "rāmaḥ" && c.second == "atra");
    assert!(found, "expected rāmaḥ + atra in candidates");
}

#[test]
fn analyze_visarga_before_voiced() {
    let rules = fixture_rules();
    let result = analyze_sandhi(&rules, "narogacchati").unwrap();
    let found = result.candidates.iter().any(|c| c.first == "naraḥ" && c.second == "gacchati");
    assert!(found, "expected naraḥ + gacchati in candidates");
}

#[test]
fn analyze_specificity_ranking() {
    let mut rules = fixture_rules();
    rules.push(rule(
        vec![
            t("first", "a"),
            t("second", "i"),
            t("result", "e"),
            t("sutra", "6.1.94"),
            t("sutra_position", "06.01.094"),
            t("rule_type", "apavāda"),
        ],
        "apavāda guṇa rule",
    ));
    let result = analyze_sandhi(&rules, "devendra").unwrap();
    let matching: Vec<_> =
        result.candidates.iter().filter(|c| c.first == "deva" && c.second == "indra").collect();
    assert!(matching.len() >= 2, "expected at least 2 matching candidates");
    assert!(
        matching[0].specificity > matching[1].specificity,
        "apavāda ({}) should rank before utsarga ({})",
        matching[0].specificity,
        matching[1].specificity
    );
}

#[test]
fn analyze_no_valid_decomposition() {
    let rules = fixture_rules();
    let result = analyze_sandhi(&rules, "tatkim").unwrap();
    assert!(result.candidates.is_empty(), "expected no candidates for 'tatkim'");
}

#[test]
fn derive_class_assimilation_palatal() {
    let rules = fixture_rules();
    let result = derive(&rules, "tat", "ca");
    assert_eq!(result_of(&result), "tacca");
    assert_eq!(result.trace.len(), 1);
    assert_eq!(rule_ref(&result, 0).as_deref(), Some("8.4.40"));
}

#[test]
fn derive_class_assimilation_palatal_voiced() {
    let rules = fixture_rules();
    let result = derive(&rules, "tat", "jayati");
    assert_eq!(result_of(&result), "tajjayati");
    assert_eq!(rule_ref(&result, 0).as_deref(), Some("8.4.40"));
}

#[test]
fn derive_class_assimilation_retroflex() {
    let rules = fixture_rules();
    let result = derive(&rules, "tat", "ṭīkā");
    assert_eq!(result_of(&result), "taṭṭīkā");
    assert_eq!(rule_ref(&result, 0).as_deref(), Some("8.4.41"));
}

#[test]
fn derive_voicing_before_voiced() {
    let rules = fixture_rules();
    let result = derive(&rules, "tat", "gacchati");
    assert_eq!(result_of(&result), "tadgacchati");
    assert_eq!(rule_ref(&result, 0).as_deref(), Some("8.4.53"));
}

#[test]
fn derive_nasal_assimilation() {
    let rules = fixture_rules();
    let result = derive(&rules, "tat", "nayati");
    assert_eq!(result_of(&result), "tannayati");
    assert_eq!(rule_ref(&result, 0).as_deref(), Some("8.4.45"));
}

#[test]
fn derive_anusvara() {
    let rules = fixture_rules();
    let result = derive(&rules, "sam", "kalpam");
    assert_eq!(result_of(&result), "saṃkalpam");
    assert_eq!(rule_ref(&result, 0).as_deref(), Some("8.3.23"));
}

#[test]
fn derive_stop_voicing_before_vowel() {
    let rules = fixture_rules();
    let result = derive(&rules, "tat", "atra");
    assert_eq!(result_of(&result), "tadatra");
    assert_eq!(rule_ref(&result, 0).as_deref(), Some("8.2.39"));
}

#[test]
fn derive_velar_voicing_before_vowel() {
    let rules = fixture_rules();
    let result = derive(&rules, "vāk", "īśvaraḥ");
    assert_eq!(result_of(&result), "vāgīśvaraḥ");
    assert_eq!(rule_ref(&result, 0).as_deref(), Some("8.2.39"));
}

#[test]
fn no_false_sandhi_velar_voiceless_palatal() {
    let rules = fixture_rules();
    let result = derive(&rules, "vāk", "ca");
    assert_eq!(result_of(&result), "vākca");
    assert!(result.trace.is_empty());
}

#[test]
fn analyze_consonant_round_trip() {
    let rules = fixture_rules();
    let cases = [
        ("tat", "ca"),
        ("tat", "jayati"),
        ("tat", "ṭīkā"),
        ("tat", "gacchati"),
        ("tat", "nayati"),
        ("sam", "kalpam"),
        ("tat", "atra"),
        ("vāk", "īśvaraḥ"),
    ];
    for (first, second) in cases {
        let combined = result_of(&derive(&rules, first, second));
        let analyzed = analyze_sandhi(&rules, &combined).unwrap();
        let found = analyzed.candidates.iter().any(|c| c.first == first && c.second == second);
        assert!(found, "consonant round-trip failed: {} + {} → {}", first, second, combined);
    }
}

#[test]
fn sandhi_analyze_consonant_ranking() {
    let mut rules = fixture_rules();
    rules.push(rule(
        vec![
            t("first", "t"),
            t("second", "g"),
            t("result", "dg"),
            t("sutra", "8.4.53"),
            t("sutra_position", "08.04.053"),
            t("rule_type", "apavāda"),
        ],
        "apavāda voicing rule",
    ));
    let result = analyze_sandhi(&rules, "tadgacchati").unwrap();
    let matching: Vec<_> =
        result.candidates.iter().filter(|c| c.first == "tat" && c.second == "gacchati").collect();
    assert!(matching.len() >= 2, "expected both utsarga and apavāda candidates");
    assert!(matching[0].specificity > matching[1].specificity, "apavāda should rank before utsarga");
}

#[test]
fn round_trip_vowel_cases() {
    let rules = fixture_rules();
    let cases = [
        ("deva", "indra"),
        ("deva", "artha"),
        ("deva", "udaya"),
        ("deva", "eṣa"),
        ("deva", "ojas"),
        ("devi", "atra"),
    ];
    for (first, second) in cases {
        let combined = result_of(&derive(&rules, first, second));
        let analyzed = analyze_sandhi(&rules, &combined).unwrap();
        let found = analyzed.candidates.iter().any(|c| c.first == first && c.second == second);
        assert!(found, "round-trip failed for {} + {} → {}", first, second, combined);
    }
}

fn property_rules() -> Vec<CachedRule> {
    numbered(vec![
        vec![t("first", "a"), t("second", "a"), t("result", "ā"), t("sutra", "6.1.101"), t("sutra_position", "06.01.101"), t("rule_type", "utsarga")],
        vec![t("first", "a"), t("second", "i"), t("result", "e"), t("sutra", "6.1.87"), t("sutra_position", "06.01.087"), t("rule_type", "utsarga")],
        vec![t("first", "a"), t("second", "u"), t("result", "o"), t("sutra", "6.1.87"), t("sutra_position", "06.01.087"), t("rule_type", "utsarga")],
        vec![t("first", "a"), t("second", "e"), t("result", "ai"), t("sutra", "6.1.88"), t("sutra_position", "06.01.088"), t("rule_type", "utsarga")],
        vec![t("first", "a"), t("second", "o"), t("result", "au"), t("sutra", "6.1.88"), t("sutra_position", "06.01.088"), t("rule_type", "utsarga")],
        vec![t("first", "i"), t("second", "a"), t("result", "ya"), t("sutra", "6.1.77"), t("sutra_position", "06.01.077"), t("rule_type", "utsarga")],
        vec![t("first", "u"), t("second", "a"), t("result", "va"), t("sutra", "6.1.77"), t("sutra_position", "06.01.077"), t("rule_type", "utsarga")],
        vec![t("first", "i"), t("second", "i"), t("result", "ī"), t("sutra", "6.1.101"), t("sutra_position", "06.01.101"), t("rule_type", "utsarga")],
        vec![t("first", "u"), t("second", "u"), t("result", "ū"), t("sutra", "6.1.101"), t("sutra_position", "06.01.101"), t("rule_type", "utsarga")],
        vec![t("first", "ṛ"), t("second", "a"), t("result", "ra"), t("sutra", "6.1.77"), t("sutra_position", "06.01.077"), t("rule_type", "utsarga")],
        vec![t("first", "aḥ"), t("second", "a"), t("result", "o '"), t("sutra", "6.1.109"), t("sutra_position", "06.01.109"), t("rule_type", "utsarga")],
        vec![t("first", "aḥ"), t("second", "g"), t("result", "og"), t("sutra", "8.3.17"), t("sutra_position", "08.03.017"), t("rule_type", "utsarga")],
        vec![t("first", "t"), t("second", "c"), t("result", "cc"), t("sutra", "8.4.40"), t("sutra_position", "08.04.040"), t("rule_type", "utsarga")],
        vec![t("first", "t"), t("second", "j"), t("result", "jj"), t("sutra", "8.4.40"), t("sutra_position", "08.04.040"), t("rule_type", "utsarga")],
        vec![t("first", "t"), t("second", "g"), t("result", "dg"), t("sutra", "8.4.53"), t("sutra_position", "08.04.053"), t("rule_type", "utsarga")],
        vec![t("first", "t"), t("second", "d"), t("result", "dd"), t("sutra", "8.4.53"), t("sutra_position", "08.04.053"), t("rule_type", "utsarga")],
        vec![t("first", "t"), t("second", "b"), t("result", "db"), t("sutra", "8.4.53"), t("sutra_position", "08.04.053"), t("rule_type", "utsarga")],
        vec![t("first", "t"), t("second", "n"), t("result", "nn"), t("sutra", "8.4.45"), t("sutra_position", "08.04.045"), t("rule_type", "utsarga")],
        vec![t("first", "t"), t("second", "m"), t("result", "nm"), t("sutra", "8.4.45"), t("sutra_position", "08.04.045"), t("rule_type", "utsarga")],
        vec![t("first", "m"), t("second", "k"), t("result", "ṃk"), t("sutra", "8.3.23"), t("sutra_position", "08.03.023"), t("rule_type", "utsarga")],
        vec![t("first", "m"), t("second", "t"), t("result", "ṃt"), t("sutra", "8.3.23"), t("sutra_position", "08.03.023"), t("rule_type", "utsarga")],
        vec![t("first", "m"), t("second", "p"), t("result", "ṃp"), t("sutra", "8.3.23"), t("sutra_position", "08.03.023"), t("rule_type", "utsarga")],
        vec![t("first", "t"), t("second", "a"), t("result", "da"), t("sutra", "8.2.39"), t("sutra_position", "08.02.039"), t("rule_type", "utsarga")],
        vec![t("first", "t"), t("second", "i"), t("result", "di"), t("sutra", "8.2.39"), t("sutra_position", "08.02.039"), t("rule_type", "utsarga")],
        vec![t("first", "t"), t("second", "u"), t("result", "du"), t("sutra", "8.2.39"), t("sutra_position", "08.02.039"), t("rule_type", "utsarga")],
        vec![t("first", "k"), t("second", "a"), t("result", "ga"), t("sutra", "8.2.39"), t("sutra_position", "08.02.039"), t("rule_type", "utsarga")],
        vec![t("first", "p"), t("second", "a"), t("result", "ba"), t("sutra", "8.2.39"), t("sutra_position", "08.02.039"), t("rule_type", "utsarga")],
    ])
}

#[test]
fn sandhi_vowel_round_trip_all_pairs() {
    let rules = property_rules();
    let stems = ["deva", "rāma", "hari", "guru", "pitṛ"];
    let seconds = ["atra", "iti", "udaya", "eṣa", "indra"];
    let mut failures = Vec::new();
    for first in &stems {
        for second in &seconds {
            let result = derive(&rules, first, second);
            let combined = result_of(&result);
            if result.trace.is_empty() {
                continue;
            }
            let analysis = analyze_sandhi(&rules, &combined).unwrap();
            let found = analysis.candidates.iter().any(|c| c.first == *first && c.second == *second);
            if !found {
                failures.push(format!("{first} + {second} → {combined}: not found in analysis candidates"));
            }
        }
    }
    assert!(failures.is_empty(), "round-trip failures:\n{}", failures.join("\n"));
}

#[test]
fn apavada_beats_utsarga_on_examples() {
    let mut rules = property_rules();
    rules.push(rule(
        vec![
            t("first", "a"),
            t("second", "i"),
            t("result", "APAVADA"),
            t("sutra", "test.apavada"),
            t("sutra_position", "99.99.999"),
            t("rule_type", "apavāda"),
        ],
        "test apavāda override",
    ));
    for prefix in ["k", "deva", "rām", "gur"] {
        let first = format!("{prefix}a");
        let combined = result_of(&derive(&rules, &first, "iti"));
        assert!(combined.contains("APAVADA"), "apavāda should override utsarga for {first} + iti, got {combined}");
    }
}

#[test]
fn trace_steps_are_numbered_from_one() {
    let rules = property_rules();
    for (first, second) in [("deva", "indra"), ("tat", "kim"), ("sam", "kalpam")] {
        let result = derive(&rules, first, second);
        for (i, step) in result.trace.iter().enumerate() {
            assert_eq!(step.step, i + 1);
        }
    }
}

#[test]
fn join_length_matches_rule() {
    let rules = property_rules();
    let result = result_of(&derive(&rules, "devaḥ", "atra"));
    assert_eq!(result.chars().count(), "devaḥ".chars().count() + "atra".chars().count() - 3 + 3);
    assert_eq!(result, "devo 'tra");
    let plain = result_of(&derive(&rules, "tat", "kim"));
    assert_eq!(plain.chars().count(), 6);
}

#[test]
fn derive_output_reports_input_and_steps() {
    let rules = property_rules();
    let result = derive(&rules, "deva", "indra");
    match &result.output {
        Derived::Sandhi { input, result: r, steps } => {
            assert_eq!(input, "deva + indra");
            assert_eq!(r, "devendra");
            assert_eq!(*steps, 1);
        }
        _ => panic!("not a sandhi derivation"),
    }
    assert_eq!(result.trace[0].rule, "test rule 2");
}

#[test]
fn pratyaya_conditioned_rules_do_not_join_words() {
    let rules = vec![rule(
        vec![t("first", "a"), t("second", "a"), t("result", "a"), t("condition_pratyaya", "am")],
        "conditioned",
    )];
    let result = derive(&rules, "deva", "atra");
    assert_eq!(result_of(&result), "devaatra");
    assert!(result.trace.is_empty());
}

#[test]
fn validate_rules_reports_unreadable_rules() {
    let rules = vec![
        rule(vec![t("first", "a"), t("second", "a"), t("result", "ā")], "fine"),
        rule(vec![t("bogus", "x")], "broken"),
    ];
    let problems = validate_rules(&rules);
    assert_eq!(problems.len(), 1);
    assert_eq!(problems[0], "rule 1 (broken): missing field `first`");
}
