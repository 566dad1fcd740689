use panini::script::{is_consonant, is_vowel, to_devanagari, transliterate, transliterate_lowercase, vowel_sign};

#[test]
fn simple_words() {
    assert_eq!(to_devanagari("deva"), "देव");
    assert_eq!(to_devanagari("devaḥ"), "देवः");
    assert_eq!(to_devanagari("dharmaḥ"), "धर्मः");
}

#[test]
fn conjuncts() {
    assert_eq!(to_devanagari("kṣatriyaḥ"), "क्षत्रियः");
    assert_eq!(to_devanagari("jña"), "ज्ञ");
    assert_eq!(to_devanagari("śra"), "श्र");
}

#[test]
fn vowels_standalone() {
    assert_eq!(to_devanagari("a"), "अ");
    assert_eq!(to_devanagari("ā"), "आ");
    assert_eq!(to_devanagari("i"), "इ");
    assert_eq!(to_devanagari("ī"), "ई");
    assert_eq!(to_devanagari("u"), "उ");
    assert_eq!(to_devanagari("ū"), "ऊ");
    assert_eq!(to_devanagari("ṛ"), "ऋ");
    assert_eq!(to_devanagari("e"), "ए");
    assert_eq!(to_devanagari("ai"), "ऐ");
    assert_eq!(to_devanagari("o"), "ओ");
    assert_eq!(to_devanagari("au"), "औ");
}

#[test]
fn vowel_signs() {
    assert_eq!(to_devanagari("kā"), "का");
    assert_eq!(to_devanagari("ki"), "कि");
    assert_eq!(to_devanagari("ku"), "कु");
    assert_eq!(to_devanagari("ke"), "के");
    assert_eq!(to_devanagari("kai"), "कै");
    assert_eq!(to_devanagari("ko"), "को");
    assert_eq!(to_devanagari("kau"), "कौ");
    assert_eq!(to_devanagari("kṛ"), "कृ");
}

#[test]
fn anusvara_visarga() {
    assert_eq!(to_devanagari("saṃskṛtam"), "संस्कृतम्");
    assert_eq!(to_devanagari("deveṣu"), "देवेषु");
    assert_eq!(to_devanagari("ṛṣiḥ"), "ऋषिः");
}

#[test]
fn full_diacritics() {
    assert_eq!(to_devanagari("ṃ"), "ं");
    assert_eq!(to_devanagari("ḥ"), "ः");
    assert_eq!(to_devanagari("ṅ"), "ङ्");
    assert_eq!(to_devanagari("ñ"), "ञ्");
    assert_eq!(to_devanagari("ś"), "श्");
    assert_eq!(to_devanagari("ṣ"), "ष्");
    assert_eq!(to_devanagari("ṭ"), "ट्");
    assert_eq!(to_devanagari("ḍ"), "ड्");
    assert_eq!(to_devanagari("ṇ"), "ण्");
}

#[test]
fn aspirates() {
    assert_eq!(to_devanagari("kha"), "ख");
    assert_eq!(to_devanagari("gha"), "घ");
    assert_eq!(to_devanagari("cha"), "छ");
    assert_eq!(to_devanagari("jha"), "झ");
    assert_eq!(to_devanagari("ṭha"), "ठ");
    assert_eq!(to_devanagari("ḍha"), "ढ");
    assert_eq!(to_devanagari("tha"), "थ");
    assert_eq!(to_devanagari("dha"), "ध");
    assert_eq!(to_devanagari("pha"), "फ");
    assert_eq!(to_devanagari("bha"), "भ");
}

#[test]
fn paradigm_forms() {
    assert_eq!(to_devanagari("devam"), "देवम्");
    assert_eq!(to_devanagari("devena"), "देवेन");
    assert_eq!(to_devanagari("devāya"), "देवाय");
    assert_eq!(to_devanagari("devāt"), "देवात्");
    assert_eq!(to_devanagari("devasya"), "देवस्य");
    assert_eq!(to_devanagari("deve"), "देवे");
}

#[test]
fn empty() {
    assert_eq!(to_devanagari(""), "");
}

#[test]
fn passthrough_non_iast() {
    assert_eq!(to_devanagari("123"), "123");
    assert_eq!(to_devanagari("deva 123"), "देव 123");
}

#[test]
fn uppercase_input_is_lowered_first() {
    assert_eq!(to_devanagari("DEVA"), "देव");
    assert_eq!(transliterate("Rāma"), "राम");
}

#[test]
fn lowered_text_is_rendered_as_is() {
    assert_eq!(transliterate_lowercase("dharmaḥ"), "धर्मः");
    assert_eq!(transliterate_lowercase("D"), "D");
}

#[test]
fn akshara_classification() {
    assert!(is_vowel("अ"));
    assert!(!is_vowel("क"));
    assert!(is_consonant("क"));
    assert!(!is_consonant("ं"));
    assert_eq!(vowel_sign("आ"), Some("ा"));
    assert_eq!(vowel_sign("अ"), None);
    assert_eq!(vowel_sign("क"), None);
}

#[test]
fn final_consonant_takes_virama() {
    assert_eq!(to_devanagari("vāk"), "वाक्");
    assert_eq!(to_devanagari("tat kim"), "तत् किम्");
}

#[test]
fn words_are_spelt_apart_at_a_space() {
    let joined = transliterate_lowercase("devaḥ rāmaḥ tat");
    assert_eq!(
        joined,
        format!("{} {} {}", transliterate_lowercase("devaḥ"), transliterate_lowercase("rāmaḥ"), transliterate_lowercase("tat"))
    );
    assert_eq!(joined, "देवः रामः तत्");
}
