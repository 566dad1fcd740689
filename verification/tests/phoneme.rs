use panini::phoneme::{first_phoneme, last_phoneme, phoneme_ends_with, phoneme_starts_with, tokenize};

#[test]
fn tokenize_splits_aspirates_and_diphthongs() {
    assert_eq!(tokenize("bhavati"), vec!["bh", "a", "v", "a", "t", "i"]);
    assert_eq!(tokenize("kaiṭabha"), vec!["k", "ai", "ṭ", "a", "bh", "a"]);
    assert_eq!(tokenize("gauḥ"), vec!["g", "au", "ḥ"]);
    assert!(tokenize("").is_empty());
}

#[test]
fn tokenize_round_trips_and_never_yields_empty_tokens() {
    for w in ["kṣatriyaḥ", "devendra", "tacchrutvā", "ṛṣiḥ", "jñānam"] {
        let toks = tokenize(w);
        assert_eq!(toks.concat(), w);
        assert!(toks.iter().all(|t| !t.is_empty()));
    }
}

#[test]
fn phoneme_edges() {
    assert_eq!(first_phoneme("bhū"), Some("bh".to_string()));
    assert_eq!(last_phoneme("devau"), Some("au".to_string()));
    assert_eq!(first_phoneme(""), None);
    assert!(phoneme_ends_with("tat", "t"));
    assert!(!phoneme_ends_with("rath", "t"));
    assert!(phoneme_starts_with("gacchati", "g"));
    assert!(!phoneme_starts_with("ghaṭa", "g"));
}
