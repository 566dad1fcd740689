use panini::conjugation::{ConjugationInput, abhyasa, derive_conjugation, is_upadha_laghu, is_yan_initial, lakara_to_type, replace_medial_vowel, try_derive_conjugation, upadha_is_vowel};
use panini::engine::{DeriveResult, Derived};
use panini::params::{CachedRule, ParamField, ParamValue, Params, rule_get_list, rule_get_opt_text};
use panini::shapes::check_vikarana_shape;

fn t(k: &str, v: &str) -> ParamField {
    ParamField { key: k.to_string(), value: ParamValue::Text(v.to_string()) }
}

fn b(k: &str, v: bool) -> ParamField {
    ParamField { key: k.to_string(), value: ParamValue::Bool(v) }
}

fn l(k: &str, items: &[&str]) -> ParamField {
    ParamField { key: k.to_string(), value: ParamValue::TextList(items.iter().map(|s| s.to_string()).collect()) }
}

fn rule(fields: Vec<ParamField>, statement: &str) -> CachedRule {
    CachedRule { params: Params::Object(fields), statement: statement.to_string() }
}

fn form_of(r: &DeriveResult) -> String {
    match &r.output {
        Derived::Conjugation { form, .. } => form.clone(),
        _ => panic!("not a conjugation"),
    }
}

fn fixture_tin() -> Vec<CachedRule> {
    vec![rule(
        vec![t("lakara", "laṭ"), t("purusha", "prathama"), t("vacana", "ekavacana"), t("pada", "parasmaipada"), t("pratyaya_name", "tip"), t("suffix", "ti"), b("is_pit", true), t("sutra", "3.4.78"), t("sutra_position", "03.04.078")],
        "prathama ekavacana: tip → ti",
    )]
}

fn fixture_vikarana() -> Vec<CachedRule> {
    vec![rule(
        vec![t("gana", "1"), t("vikarana_name", "śap"), t("suffix", "a"), l("it_markers", &["ś", "p"]), t("lakara_type", "sārvadhātuka"), t("sutra", "3.1.68"), t("sutra_position", "03.01.068")],
        "class 1: śap → a",
    )]
}

fn fixture_verb_anga() -> Vec<CachedRule> {
    vec![
        rule(
            vec![t("stage", "pre_vikarana"), t("rule_type", "guna"), t("condition_dhatu_final", "ū"), t("position", "dhatu_final"), t("input", "ū"), t("output", "o"), t("sutra", "7.3.84"), t("sutra_position", "07.03.084")],
            "ū → o (guṇa)",
        ),
        rule(
            vec![t("stage", "pre_vikarana"), t("rule_type", "semivowel"), t("condition_dhatu_final", "o"), t("position", "dhatu_final"), t("input", "o"), t("output", "av"), t("sutra", "6.1.78"), t("sutra_position", "06.01.078")],
            "o → av (semivowel)",
        ),
    ]
}

fn fixture_tripadi() -> Vec<CachedRule> {
    vec![
        rule(
            vec![t("context", "word_final"), t("position", "word_final"), t("input", "s"), t("output", "r"), t("sutra", "8.2.66"), t("sutra_position", "08.02.066"), t("rule_type", "nitya")],
            "s → r word-finally",
        ),
        rule(
            vec![t("context", "word_final"), t("position", "word_final"), t("input", "r"), t("output", "ḥ"), t("sutra", "8.3.15"), t("sutra_position", "08.03.015"), t("rule_type", "nitya")],
            "r → ḥ at avasāna",
        ),
    ]
}

fn derive(
    tin: &[CachedRule],
    vik: &[CachedRule],
    anga: &[CachedRule],
    tri: &[CachedRule],
    dhatu: &str,
) -> DeriveResult {
    derive_conjugation(
        tin,
        vik,
        anga,
        tri,
        ConjugationInput {
            dhatu: dhatu.into(),
            gana: "1".into(),
            lakara: "laṭ".into(),
            pada: "parasmaipada".into(),
            purusha: "prathama".into(),
            vacana: "ekavacana".into(),
        },
    )
    .ok()
    .unwrap()
}

#[test]
fn bhuu_prathama_ekavacana() {
    let result = derive(
        &fixture_tin(),
        &fixture_vikarana(),
        &fixture_verb_anga(),
        &fixture_tripadi(),
        "bhū",
    );
    assert_eq!(form_of(&result), "bhavati");
}

#[test]
fn trace_includes_sutra_refs() {
    let result = derive(
        &fixture_tin(),
        &fixture_vikarana(),
        &fixture_verb_anga(),
        &fixture_tripadi(),
        "bhū",
    );
    let refs: Vec<_> = result
        .trace
        .iter()
        .filter_map(|t| t.rule_ref.as_deref())
        .collect();
    assert!(refs.contains(&"3.4.78"));
    assert!(refs.contains(&"3.1.68"));
    assert!(refs.contains(&"7.3.84"));
    assert!(refs.contains(&"6.1.78"));
}

#[test]
fn medial_guna() {
    let anga = vec![rule(
        vec![t("stage", "pre_vikarana"), t("rule_type", "guna"), t("condition_dhatu_vowel", "u"), t("position", "dhatu_medial"), t("input", "u"), t("output", "o"), t("sutra", "7.3.84"), t("sutra_position", "07.03.084")],
        "u → o (medial guṇa)",
    )];
    let result = derive(
        &fixture_tin(),
        &fixture_vikarana(),
        &anga,
        &fixture_tripadi(),
        "budh",
    );
    assert_eq!(form_of(&result), "bodhati");
}

#[test]
fn no_guna_for_consonant_final() {
    let result = derive(
        &fixture_tin(),
        &fixture_vikarana(),
        &fixture_verb_anga(),
        &fixture_tripadi(),
        "paṭh",
    );
    assert_eq!(form_of(&result), "paṭhati");
}

fn medial_guna_anga() -> Vec<CachedRule> {
    vec![rule(
        vec![t("stage", "pre_vikarana"), t("rule_type", "guna"), t("condition_dhatu_vowel", "u"), t("position", "dhatu_medial"), t("input", "u"), t("output", "o"), t("sutra", "7.3.84"), t("sutra_position", "07.03.084")],
        "u → o (medial guṇa)",
    )]
}

#[test]
fn medial_guna_skips_final_vowel() {
    // "śru" has u as final, not medial — should NOT get medial guṇa
    let result = derive(
        &fixture_tin(),
        &fixture_vikarana(),
        &medial_guna_anga(),
        &fixture_tripadi(),
        "śru",
    );
    assert_eq!(form_of(&result), "śruati",
        "final u should not be rewritten by dhatu_medial rule");
}

#[test]
fn medial_guna_skips_initial_vowel() {
    // "ukṣ" has u as initial — should NOT get medial guṇa
    let result = derive(
        &fixture_tin(),
        &fixture_vikarana(),
        &medial_guna_anga(),
        &fixture_tripadi(),
        "ukṣ",
    );
    assert_eq!(form_of(&result), "ukṣati",
        "initial u should not be rewritten by dhatu_medial rule");
}

#[test]
fn medial_guna_multi_vowel_targets_medial() {
    // "krudh" has u between consonants — should get medial guṇa
    let result = derive(
        &fixture_tin(),
        &fixture_vikarana(),
        &medial_guna_anga(),
        &fixture_tripadi(),
        "krudh",
    );
    assert_eq!(form_of(&result), "krodhati");
}

#[test]
fn vikarana_matches_lakara_type() {
    let vik = vec![rule(
        vec![t("gana", "1"), t("vikarana_name", "śap"), t("suffix", "a"), t("lakara_type", "sārvadhātuka"), t("sutra", "3.1.68"), t("sutra_position", "03.01.068")],
        "class 1: śap → a",
    )];
    let result = derive_conjugation(
        &fixture_tin(),
        &vik,
        &fixture_verb_anga(),
        &fixture_tripadi(),
        ConjugationInput {
            dhatu: "bhū".into(),
            gana: "1".into(),
            lakara: "laṭ".into(),
            pada: "parasmaipada".into(),
            purusha: "prathama".into(),
            vacana: "ekavacana".into(),
        },
    );
    assert!(result.is_ok(), "laṭ (sārvadhātuka) should match");
}

#[test]
fn vikarana_rejects_wrong_lakara_type() {
    let vik = vec![rule(
        vec![t("gana", "1"), t("vikarana_name", "śap"), t("suffix", "a"), t("lakara_type", "sārvadhātuka"), t("sutra", "3.1.68"), t("sutra_position", "03.01.068")],
        "class 1: śap → a",
    )];
    let result = derive_conjugation(
        &fixture_tin(),
        &vik,
        &fixture_verb_anga(),
        &fixture_tripadi(),
        ConjugationInput {
            dhatu: "bhū".into(),
            gana: "1".into(),
            lakara: "liṭ".into(),
            pada: "parasmaipada".into(),
            purusha: "prathama".into(),
            vacana: "ekavacana".into(),
        },
    );
    assert!(result.is_err(), "liṭ (ārdhadhātuka) should not match sārvadhātuka vikaraṇa");
}

#[test]
fn sap_it_markers_deserialize() {
    let json = rule(vec![t("gana", "1"), t("vikarana_name", "śap"), t("suffix", "a"), l("it_markers", &["ś", "p"]), t("lakara_type", "sārvadhātuka"), t("sutra", "3.1.68")], "test rule");
    assert!(check_vikarana_shape(&json.params).is_ok());
    let it_markers = rule_get_list(&json, "it_markers");
    assert_eq!(it_markers, vec!["ś", "p"]);
    let is_sarvadhatuka = rule_get_opt_text(&json, "lakara_type").as_deref() == Some("sārvadhātuka");
    let is_pit = it_markers.iter().any(|m| m == "p");
    let is_nit = is_sarvadhatuka && !is_pit;
    assert!(!is_nit, "śap is pit, so should NOT be ṅit");
}

#[test]
fn nit_blocks_guna() {
    let vik = vec![rule(
        vec![t("gana", "4"), t("vikarana_name", "śyan"), t("suffix", "ya"), l("it_markers", &["ś", "n"]), t("lakara_type", "sārvadhātuka"), t("sutra", "3.1.69"), t("sutra_position", "03.01.069")],
        "class 4: śyan → ya",
    )];
    let anga = vec![rule(
        vec![t("stage", "pre_vikarana"), t("rule_type", "guna"), t("condition_dhatu_vowel", "u"), t("position", "dhatu_medial"), t("input", "u"), t("output", "o"), t("sutra", "7.3.84"), t("sutra_position", "07.03.084")],
        "u → o (medial guṇa)",
    )];
    let result = derive_conjugation(
        &fixture_tin(),
        &vik,
        &anga,
        &fixture_tripadi(),
        ConjugationInput {
            dhatu: "div".into(),
            gana: "4".into(),
            lakara: "laṭ".into(),
            pada: "parasmaipada".into(),
            purusha: "prathama".into(),
            vacana: "ekavacana".into(),
        },
    )
    .ok()
    .unwrap();
    assert_eq!(form_of(&result), "divyati",
        "gaṇa 4 śyan is ṅit — guṇa must be blocked");
}

#[test]
fn is_upadha_laghu_check() {
    assert!(is_upadha_laghu("cur"), "upadha 'u' is laghu");
    assert!(is_upadha_laghu("tud"), "upadha 'u' is laghu");
    assert!(!is_upadha_laghu("cint"), "upadha 'n' is consonant, not laghu");
}

fn input(dhatu: &str, gana: &str, lakara: &str) -> ConjugationInput {
    ConjugationInput {
        dhatu: dhatu.into(),
        gana: gana.into(),
        lakara: lakara.into(),
        pada: "parasmaipada".into(),
        purusha: "prathama".into(),
        vacana: "ekavacana".into(),
    }
}

#[test]
fn lakara_types() {
    assert_eq!(lakara_to_type("laṭ"), "sārvadhātuka");
    assert_eq!(lakara_to_type("liṭ"), "ārdhadhātuka");
    assert_eq!(lakara_to_type("lṛṭ"), "ārdhadhātuka");
    assert_eq!(lakara_to_type("loṭ"), "sārvadhātuka");
}

#[test]
fn yan_initial_suffixes() {
    assert!(is_yan_initial("yati"));
    assert!(is_yan_initial("mi"));
    assert!(!is_yan_initial("ti"));
    assert!(!is_yan_initial(""));
}

#[test]
fn upadha_vowel_check() {
    assert!(upadha_is_vowel("cur"));
    assert!(upadha_is_vowel("nī") == false);
    assert!(!upadha_is_vowel("cint"));
}

#[test]
fn medial_vowel_replacement() {
    assert_eq!(replace_medial_vowel("budh", "u", "o"), Some("bodh".to_string()));
    assert_eq!(replace_medial_vowel("śru", "u", "o"), None);
    assert_eq!(replace_medial_vowel("ukṣ", "u", "o"), None);
}

#[test]
fn reduplication_syllables() {
    assert_eq!(abhyasa("hu"), "ju");
    assert_eq!(abhyasa("dhā"), "da");
    assert_eq!(abhyasa("bhī"), "bi");
    assert_eq!(abhyasa("kṛ"), "cṛ");
}

#[test]
fn missing_tin_entry_is_an_error() {
    let r = derive_conjugation(&[], &fixture_vikarana(), &fixture_verb_anga(), &fixture_tripadi(), input("bhū", "1", "laṭ"));
    match r {
        Err(e) => assert_eq!(
            e.message(),
            "failed to parse rule: no tin_suffix for lakāra=laṭ, puruṣa=prathama, vacana=ekavacana, pada=parasmaipada"
        ),
        Ok(_) => panic!("expected an error"),
    }
}

#[test]
fn missing_vikarana_entry_is_an_error() {
    let r = derive_conjugation(&fixture_tin(), &fixture_vikarana(), &fixture_verb_anga(), &fixture_tripadi(), input("bhū", "2", "laṭ"));
    match r {
        Err(e) => assert_eq!(e.message(), "failed to parse rule: no vikarana_rule for gaṇa=2, lakāra_type=sārvadhātuka"),
        Ok(_) => panic!("expected an error"),
    }
}

#[test]
fn try_derive_agrees_with_derive() {
    let r = try_derive_conjugation(&fixture_tin(), &fixture_vikarana(), &fixture_verb_anga(), &fixture_tripadi(), input("bhū", "1", "laṭ"));
    match r {
        Some(Ok(d)) => {
            assert_eq!(form_of(&d), "bhavati");
            match &d.output {
                Derived::Conjugation { dhatu, gana, lakara, pada, purusha, vacana, steps, .. } => {
                    assert_eq!(dhatu, "bhū");
                    assert_eq!(gana, "1");
                    assert_eq!(lakara, "laṭ");
                    assert_eq!(pada, "parasmaipada");
                    assert_eq!(purusha, "prathama");
                    assert_eq!(vacana, "ekavacana");
                    assert_eq!(*steps, d.trace.len());
                }
                _ => panic!("not a conjugation"),
            }
            for (i, s) in d.trace.iter().enumerate() {
                assert_eq!(s.step, i + 1);
            }
        }
        _ => panic!("expected a derivation"),
    }
}

#[test]
fn bhuu_prathama_dvivacana_takes_visarga() {
    let tin = vec![rule(
        vec![t("lakara", "laṭ"), t("purusha", "prathama"), t("vacana", "dvivacana"), t("pada", "parasmaipada"), t("pratyaya_name", "tas"), t("suffix", "tas"), b("is_pit", false), t("sutra", "3.4.78"), t("sutra_position", "03.04.078")],
        "prathama dvivacana: tas",
    )];
    let mut inp = input("bhū", "1", "laṭ");
    inp.vacana = "dvivacana".into();
    let result = derive_conjugation(&tin, &fixture_vikarana(), &fixture_verb_anga(), &fixture_tripadi(), inp)
        .ok()
        .unwrap();
    assert_eq!(form_of(&result), "bhavataḥ");
    let refs: Vec<_> = result.trace.iter().filter_map(|t| t.rule_ref.as_deref()).collect();
    assert!(refs.contains(&"8.2.66"), "missing s→r tripadi rule");
    assert!(refs.contains(&"8.3.15"), "missing r→ḥ tripadi rule");
}
