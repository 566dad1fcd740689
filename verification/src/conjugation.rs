//! Conjugation: the layered derivation of a present-tense verb form.
use vstd::prelude::*;
use vstd::utf8::{decode_utf8, encode_utf8, is_char_boundary};
use crate::engine::{Derived, DeriveResult, StepView, TraceStep, first_flag, first_index,
    numbered, push_step, step_views, sutra_ref, sutra_ref_of};
use crate::error::PaniniError;
use crate::params::{CachedRule, rule_flag, rule_get_flag, rule_get_list, rule_get_opt_flag,
    rule_get_opt_text, rule_get_text, rule_list, rule_opt_flag, rule_opt_text, rule_text};
use crate::phoneme::{first_phoneme, first_phoneme_of, is_vowel, is_vowel_phoneme, join_tokens,
    last_phoneme, last_phoneme_of, phonemes, tokenize, views};
use crate::shapes::{check_tin_shape, check_verb_anga_shape, check_vikarana_shape, tin_shape,
    verb_anga_shape, vikarana_shape};
use crate::verb_anga::{push_rule_step, VerbCtx, VerbRules, VerbState, or_empty, plus, pre_tin_layer, pre_vikarana_layer, rule_step, state_of, pre_tin_exec, pre_vikarana_exec};
use crate::declension::{lemma_last_phoneme_suffix, tripadi_layer, apply_tripadi};
use crate::text::{concat2, concat3, concat4, drop_last_n, ends_with_text, is_suffix_of, owned, starts_with_text,
    text_drop_first, text_drop_last, text_eq, text_slice};

verus! {

broadcast use vstd::seq::Seq::group_seq_flatten;

/// What to conjugate: a root of a class, in a lakāra, pada, person and number.
pub struct ConjugationInput {
    pub dhatu: String,
    pub gana: String,
    pub lakara: String,
    pub pada: String,
    pub purusha: String,
    pub vacana: String,
}

/// The ārdhadhātuka lakāras; every other lakāra counts as sārvadhātuka.
pub open spec fn is_ardhadhatuka_lakara(l: Seq<char>) -> bool {
    l == "liṭ"@ || l == "luṭ"@ || l == "lṛṭ"@ || l == "āśīrliṅ"@ || l == "luṅ"@ || l == "lṛṅ"@
        || l == "leṭ"@
}

/// The type of a lakāra: sārvadhātuka or ārdhadhātuka.
pub open spec fn lakara_type_of(l: Seq<char>) -> Seq<char> {
    if is_ardhadhatuka_lakara(l) {
        "ārdhadhātuka"@
    } else {
        "sārvadhātuka"@
    }
}

/// The sārvadhātuka lakāras: laṭ, loṭ, laṅ and vidhiliṅ.
pub open spec fn sarvadhatuka_lakaras() -> Seq<Seq<char>> {
    seq!["laṭ"@, "loṭ"@, "laṅ"@, "vidhiliṅ"@]
}

/// The ārdhadhātuka lakāras: liṭ, luṭ, lṛṭ, āśīrliṅ, luṅ, lṛṅ and leṭ.
pub open spec fn ardhadhatuka_lakaras() -> Seq<Seq<char>> {
    seq!["liṭ"@, "luṭ"@, "lṛṭ"@, "āśīrliṅ"@, "luṅ"@, "lṛṅ"@, "leṭ"@]
}

/// Spells out the letters of the lakāra names.
proof fn lemma_lakara_names()
    ensures
        "laṭ"@ == seq!['l', 'a', 'ṭ'],
        "loṭ"@ == seq!['l', 'o', 'ṭ'],
        "laṅ"@ == seq!['l', 'a', 'ṅ'],
        "vidhiliṅ"@.len() == 8,
        "liṭ"@ == seq!['l', 'i', 'ṭ'],
        "luṭ"@ == seq!['l', 'u', 'ṭ'],
        "lṛṭ"@ == seq!['l', 'ṛ', 'ṭ'],
        "āśīrliṅ"@.len() == 7,
        "luṅ"@ == seq!['l', 'u', 'ṅ'],
        "lṛṅ"@ == seq!['l', 'ṛ', 'ṅ'],
        "leṭ"@ == seq!['l', 'e', 'ṭ'],
        "sārvadhātuka"@[0] == 's',
        "ārdhadhātuka"@[0] == 'ā',
{
    reveal_strlit("laṭ");
    reveal_strlit("loṭ");
    reveal_strlit("laṅ");
    reveal_strlit("vidhiliṅ");
    reveal_strlit("liṭ");
    reveal_strlit("luṭ");
    reveal_strlit("lṛṭ");
    reveal_strlit("āśīrliṅ");
    reveal_strlit("luṅ");
    reveal_strlit("lṛṅ");
    reveal_strlit("leṭ");
    reveal_strlit("sārvadhātuka");
    reveal_strlit("ārdhadhātuka");
}

/// The lakāras laṭ, loṭ, laṅ and vidhiliṅ are sārvadhātuka and the seven
/// others ārdhadhātuka; so the four sārvadhātuka lakāras choose the same
/// vikaraṇa entry of a class (laṅ takes the vikaraṇa that laṭ takes), and
/// never the one given for the ārdhadhātuka lakāras alone.
pub proof fn law_lakara_types(i: int, j: int, vik: Seq<CachedRule>, gana: Seq<char>)
    requires
        0 <= i < 4,
        0 <= j < 7,
    ensures
        lakara_type_of(sarvadhatuka_lakaras()[i]) == "sārvadhātuka"@,
        lakara_type_of(ardhadhatuka_lakaras()[j]) == "ārdhadhātuka"@,
        lakara_type_of(sarvadhatuka_lakaras()[i]) != lakara_type_of(ardhadhatuka_lakaras()[j]),
        vik_choice(vik, gana, lakara_type_of(sarvadhatuka_lakaras()[i])) == vik_choice(
            vik,
            gana,
            lakara_type_of("laṭ"@),
        ),
{
    lemma_lakara_names();
    let sv = sarvadhatuka_lakaras();
    let av = ardhadhatuka_lakaras();
    let l = sv[i];
    assert(l.len() == 3 ==> l[1] == 'a' || l[1] == 'o');
    assert(!is_ardhadhatuka_lakara(l)) by {
        if l.len() == 3 {
            assert(l[1] != "liṭ"@[1] && l[1] != "luṭ"@[1] && l[1] != "lṛṭ"@[1] && l[1] != "luṅ"@[1]
                && l[1] != "lṛṅ"@[1] && l[1] != "leṭ"@[1]);
        }
    }
    assert(!is_ardhadhatuka_lakara("laṭ"@)) by {
        assert(sv[0] == "laṭ"@);
        assert("laṭ"@[1] == 'a');
    }
    assert(is_ardhadhatuka_lakara(av[j]));
    assert("sārvadhātuka"@ != "ārdhadhātuka"@);
}

/// The type of a lakāra: sārvadhātuka or ārdhadhātuka.
pub fn lakara_to_type(lakara: &str) -> (r: &'static str)
    ensures
        r@ == lakara_type_of(lakara@),
{
    if text_eq(lakara, "liṭ") || text_eq(lakara, "luṭ") || text_eq(lakara, "lṛṭ") || text_eq(
        lakara,
        "āśīrliṅ",
    ) || text_eq(lakara, "luṅ") || text_eq(lakara, "lṛṅ") || text_eq(lakara, "leṭ") {
        "ārdhadhātuka"
    } else {
        "sārvadhātuka"
    }
}

/// The yaÑ sounds that lengthen a preceding a: y v r l ñ m ṅ ṇ n.
pub open spec fn is_yan_char(c: char) -> bool {
    c == 'y' || c == 'v' || c == 'r' || c == 'l' || c == 'ñ' || c == 'm' || c == 'ṅ' || c == 'ṇ'
        || c == 'n'
}

/// A suffix that begins with a yaÑ sound.
pub open spec fn yan_initial(s: Seq<char>) -> bool {
    s.len() > 0 && is_yan_char(s[0])
}

/// Whether a suffix begins with a yaÑ sound.
pub fn is_yan_initial(suffix: &str) -> (r: bool)
    ensures
        r == yan_initial(suffix@),
{
    if suffix.unicode_len() == 0 {
        return false;
    }
    let c = suffix.get_char(0);
    c == 'y' || c == 'v' || c == 'r' || c == 'l' || c == 'ñ' || c == 'm' || c == 'ṅ' || c == 'ṇ'
        || c == 'n'
}

/// The penultimate phoneme (upadhā) of a root is a vowel.
pub open spec fn upadha_vowel(d: Seq<char>) -> bool {
    let t = phonemes(d);
    t.len() >= 2 && is_vowel_phoneme(t[t.len() - 2])
}

/// The penultimate phoneme of a root is a short vowel: a i u ṛ ḷ.
pub open spec fn upadha_laghu(d: Seq<char>) -> bool {
    let t = phonemes(d);
    t.len() >= 2 && is_short_vowel(t[t.len() - 2])
}

/// The short vowels a i u ṛ ḷ.
pub open spec fn is_short_vowel(t: Seq<char>) -> bool {
    t == seq!['a'] || t == seq!['i'] || t == seq!['u'] || t == seq!['ṛ'] || t == seq!['ḷ']
}

/// Whether the penultimate phoneme of a root is a vowel.
pub fn upadha_is_vowel(dhatu: &str) -> (r: bool)
    ensures
        r == upadha_vowel(dhatu@),
{
    let t = tokenize(dhatu);
    if t.len() < 2 {
        return false;
    }
    assert(views(t@)[t@.len() - 2] == t@[t@.len() - 2]@);
    is_vowel(t[t.len() - 2].as_str())
}

/// Whether a phoneme is one of the short vowels a i u ṛ ḷ.
fn short_vowel(t: &str) -> (r: bool)
    ensures
        r == is_short_vowel(t@),
{
    if t.unicode_len() != 1 {
        proof {
            if is_short_vowel(t@) {
                assert(t@.len() == 1);
            }
        }
        return false;
    }
    let c = t.get_char(0);
    let r = c == 'a' || c == 'i' || c == 'u' || c == 'ṛ' || c == 'ḷ';
    proof {
        if r {
            assert(t@ =~= seq![c]);
        } else if is_short_vowel(t@) {
            assert(t@[0] == c);
        }
    }
    r
}

/// Whether the penultimate phoneme of a root is a short (laghu) vowel.
pub fn is_upadha_laghu(dhatu: &str) -> (r: bool)
    ensures
        r == upadha_laghu(dhatu@),
{
    let t = tokenize(dhatu);
    if t.len() < 2 {
        return false;
    }
    assert(views(t@)[t@.len() - 2] == t@[t@.len() - 2]@);
    short_vowel(t[t.len() - 2].as_str())
}

/// Position `i` is an inner vowel of the phonemes equal to `from`.
pub open spec fn medial_site(t: Seq<Seq<char>>, from: Seq<char>, i: int) -> bool {
    1 <= i < t.len() - 1 && is_vowel_phoneme(t[i]) && t[i] == from
}

/// The root with its first inner (neither first nor last) vowel `from`
/// replaced by `to`, if it has one.
pub open spec fn medial_replaced(d: Seq<char>, from: Seq<char>, to: Seq<char>) -> Option<Seq<char>> {
    let t = phonemes(d);
    match first_index(Seq::new(t.len(), |i: int| medial_site(t, from, i))) {
        Some(i) => Some(t.update(i, to).flatten()),
        None => None,
    }
}

/// Replaces the first inner vowel `from` of a root by `to`.
pub fn replace_medial_vowel(dhatu: &str, from: &str, to: &str) -> (r: Option<String>)
    ensures
        r matches Some(s) ==> medial_replaced(dhatu@, from@, to@) == Some(s@),
        r is None ==> medial_replaced(dhatu@, from@, to@) is None,
{
    let t = tokenize(dhatu);
    let n = t.len();
    let ghost tv = views(t@);
    let mut flags: Vec<bool> = Vec::new();
    let mut i: usize = 0;
    while i < n
        invariant
            n == t@.len(),
            tv == views(t@),
            i <= n,
            flags@.len() == i,
            forall|j: int| 0 <= j < i ==> flags@[j] == medial_site(tv, from@, j),
        decreases n - i,
    {
        let b = 1 <= i && i + 1 < n && is_vowel(t[i].as_str()) && text_eq(t[i].as_str(), from);
        flags.push(b);
        i += 1;
    }
    assert(flags@ =~= Seq::new(tv.len(), |i: int| medial_site(tv, from@, i)));
    match first_flag(&flags) {
        Some(k) => {
            let mut out = String::new();
            let mut j: usize = 0;
            let ghost nt = tv.update(k as int, to@);
            assert(nt.subrange(0, 0) =~= Seq::<Seq<char>>::empty());
            while j < n
                invariant
                    n == t@.len(),
                    tv == views(t@),
                    k < n,
                    nt == tv.update(k as int, to@),
                    j <= n,
                    out@ == nt.subrange(0, j as int).flatten(),
                decreases n - j,
            {
                if j == k {
                    out.append(to);
                } else {
                    out.append(t[j].as_str());
                }
                assert(nt.subrange(0, j + 1) =~= nt.subrange(0, j as int).push(nt[j as int]));
                j += 1;
            }
            assert(nt.subrange(0, n as int) =~= nt);
            Some(out)
        },
        None => None,
    }
}

/// An aspirated stop loses its aspiration; other phonemes stay.
pub open spec fn deaspirated(t: Seq<char>) -> Seq<char> {
    if t == "kh"@ {
        "k"@
    } else if t == "gh"@ {
        "g"@
    } else if t == "ch"@ {
        "c"@
    } else if t == "jh"@ {
        "j"@
    } else if t == "ṭh"@ {
        "ṭ"@
    } else if t == "ḍh"@ {
        "ḍ"@
    } else if t == "th"@ {
        "t"@
    } else if t == "dh"@ {
        "d"@
    } else if t == "ph"@ {
        "p"@
    } else if t == "bh"@ {
        "b"@
    } else {
        t
    }
}

/// A velar (or h) becomes the matching palatal (kuhoś cuḥ); other phonemes stay.
pub open spec fn palatalized(t: Seq<char>) -> Seq<char> {
    if t == "k"@ {
        "c"@
    } else if t == "g"@ {
        "j"@
    } else if t == "ṅ"@ {
        "ñ"@
    } else if t == "h"@ {
        "j"@
    } else {
        t
    }
}

/// A long vowel becomes short (hrasvaḥ); other phonemes stay.
pub open spec fn shortened(t: Seq<char>) -> Seq<char> {
    if t == "ā"@ {
        "a"@
    } else if t == "ī"@ {
        "i"@
    } else if t == "ū"@ {
        "u"@
    } else if t == "ṝ"@ {
        "ṛ"@
    } else {
        t
    }
}

/// The reduplicated syllable (abhyāsa) of a root: its initial consonant,
/// deaspirated and palatalized, then its first vowel, shortened.
pub open spec fn abhyasa_of(d: Seq<char>) -> Seq<char> {
    let t = phonemes(d);
    let lead = if t.len() > 0 && !is_vowel_phoneme(t[0]) {
        palatalized(deaspirated(t[0]))
    } else {
        Seq::empty()
    };
    match first_index(Seq::new(t.len(), |i: int| is_vowel_phoneme(t[i]))) {
        Some(i) => lead + shortened(t[i]),
        None => lead,
    }
}

/// An aspirated stop without aspiration.
fn deaspirate(t: &str) -> (r: String)
    ensures
        r@ == deaspirated(t@),
{
    if text_eq(t, "kh") {
        owned("k")
    } else if text_eq(t, "gh") {
        owned("g")
    } else if text_eq(t, "ch") {
        owned("c")
    } else if text_eq(t, "jh") {
        owned("j")
    } else if text_eq(t, "ṭh") {
        owned("ṭ")
    } else if text_eq(t, "ḍh") {
        owned("ḍ")
    } else if text_eq(t, "th") {
        owned("t")
    } else if text_eq(t, "dh") {
        owned("d")
    } else if text_eq(t, "ph") {
        owned("p")
    } else if text_eq(t, "bh") {
        owned("b")
    } else {
        owned(t)
    }
}

/// A velar (or h) as the matching palatal.
fn palatalize(t: &str) -> (r: String)
    ensures
        r@ == palatalized(t@),
{
    if text_eq(t, "k") {
        owned("c")
    } else if text_eq(t, "g") {
        owned("j")
    } else if text_eq(t, "ṅ") {
        owned("ñ")
    } else if text_eq(t, "h") {
        owned("j")
    } else {
        owned(t)
    }
}

/// A long vowel made short.
fn shorten(t: &str) -> (r: String)
    ensures
        r@ == shortened(t@),
{
    if text_eq(t, "ā") {
        owned("a")
    } else if text_eq(t, "ī") {
        owned("i")
    } else if text_eq(t, "ū") {
        owned("u")
    } else if text_eq(t, "ṝ") {
        owned("ṛ")
    } else {
        owned(t)
    }
}

/// The reduplicated syllable of a root.
pub fn abhyasa(dhatu: &str) -> (r: String)
    ensures
        r@ == abhyasa_of(dhatu@),
{
    let t = tokenize(dhatu);
    let n = t.len();
    let ghost tv = views(t@);
    let lead = if n > 0 && !is_vowel(t[0].as_str()) {
        assert(tv[0] == t@[0]@);
        palatalize(deaspirate(t[0].as_str()).as_str())
    } else {
        String::new()
    };
    let mut flags: Vec<bool> = Vec::new();
    let mut i: usize = 0;
    while i < n
        invariant
            n == t@.len(),
            tv == views(t@),
            i <= n,
            flags@.len() == i,
            forall|j: int| 0 <= j < i ==> flags@[j] == is_vowel_phoneme(tv[j]),
        decreases n - i,
    {
        flags.push(is_vowel(t[i].as_str()));
        i += 1;
    }
    assert(flags@ =~= Seq::new(tv.len(), |i: int| is_vowel_phoneme(tv[i])));
    match first_flag(&flags) {
        Some(k) => concat2(lead.as_str(), shorten(t[k].as_str()).as_str()),
        None => lead,
    }
}

/// The number of bytes of a text's UTF-8 encoding.
pub open spec fn byte_len(s: Seq<char>) -> int {
    encode_utf8(s).len() as int
}

/// The text without its last `k` bytes, when that cut falls between
/// characters (otherwise a byte slice would fail).
pub open spec fn cut_bytes(s: Seq<char>, k: int) -> Option<Seq<char>> {
    let b = encode_utf8(s);
    if 0 <= k <= b.len() && is_char_boundary(b, b.len() - k) {
        Some(decode_utf8(b.subrange(0, b.len() - k)))
    } else {
        None
    }
}

/// The text split at byte `off`, when that falls between characters.
pub open spec fn split_bytes(s: Seq<char>, off: int) -> Option<(Seq<char>, Seq<char>)> {
    let b = encode_utf8(s);
    if 0 <= off <= b.len() && is_char_boundary(b, off) {
        Some((decode_utf8(b.subrange(0, off)), decode_utf8(b.subrange(off, b.len() as int))))
    } else {
        None
    }
}

/// A text without its last `k` bytes.
pub(crate) fn cut_last_bytes(s: &str, k: usize) -> (r: Option<String>)
    ensures
        r matches Some(t) ==> cut_bytes(s@, k as int) == Some(t@),
        r is None ==> cut_bytes(s@, k as int) is None,
{
    let n = s.as_bytes().len();
    if k > n {
        return None;
    }
    if !s.is_char_boundary(n - k) {
        return None;
    }
    let (head, _) = s.split_at(n - k);
    proof {
        vstd::utf8::encode_utf8_decode_utf8(head@);
    }
    Some(owned(head))
}

/// A text split at byte `off`.
pub(crate) fn split_at_byte(s: &str, off: usize) -> (r: Option<(String, String)>)
    ensures
        r matches Some((a, b)) ==> split_bytes(s@, off as int) == Some((a@, b@)),
        r is None ==> split_bytes(s@, off as int) is None,
{
    let n = s.as_bytes().len();
    if off > n {
        return None;
    }
    if !s.is_char_boundary(off) {
        return None;
    }
    let (head, tail) = s.split_at(off);
    proof {
        vstd::utf8::encode_utf8_decode_utf8(head@);
        vstd::utf8::encode_utf8_decode_utf8(tail@);
    }
    Some((owned(head), owned(tail)))
}

/// The number of bytes of a text.
pub(crate) fn bytes_of(s: &str) -> (r: usize)
    ensures
        r == byte_len(s@),
{
    s.as_bytes().len()
}


// --- Layer 1 and 2: tiṅ and vikaraṇa selection ---
/// A tiṅ entry for this lakāra, person, number and pada.
pub open spec fn tin_matches(
    r: CachedRule,
    lakara: Seq<char>,
    purusha: Seq<char>,
    vacana: Seq<char>,
    pada: Seq<char>,
) -> bool {
    &&& tin_shape(r.params)
    &&& rule_text(r, "lakara"@) == lakara
    &&& rule_text(r, "purusha"@) == purusha
    &&& rule_text(r, "vacana"@) == vacana
    &&& rule_text(r, "pada"@) == pada
}

/// The tiṅ entry used: the first that matches.
pub open spec fn tin_choice(
    tin: Seq<CachedRule>,
    lakara: Seq<char>,
    purusha: Seq<char>,
    vacana: Seq<char>,
    pada: Seq<char>,
) -> Option<int> {
    first_index(Seq::new(tin.len(), |i: int| tin_matches(tin[i], lakara, purusha, vacana, pada)))
}

/// A vikaraṇa entry for this class, of this lakāra type or of any.
pub open spec fn vik_matches(r: CachedRule, gana: Seq<char>, ltype: Seq<char>) -> bool {
    &&& vikarana_shape(r.params)
    &&& rule_text(r, "gana"@) == gana
    &&& (rule_opt_text(r, "lakara_type"@) matches Some(t) ==> t == ltype)
}

/// The vikaraṇa entry used: the first that matches.
pub open spec fn vik_choice(vik: Seq<CachedRule>, gana: Seq<char>, ltype: Seq<char>) -> Option<int> {
    first_index(Seq::new(vik.len(), |i: int| vik_matches(vik[i], gana, ltype)))
}

/// The message when no tiṅ entry matches.
pub open spec fn no_tin_message(lakara: Seq<char>, purusha: Seq<char>, vacana: Seq<char>, pada: Seq<char>) -> Seq<char> {
    "no tin_suffix for lakāra="@ + lakara + ", puruṣa="@ + purusha + ", vacana="@ + vacana
        + ", pada="@ + pada
}

/// The message when no vikaraṇa entry matches.
pub open spec fn no_vik_message(gana: Seq<char>, ltype: Seq<char>) -> Seq<char> {
    "no vikarana_rule for gaṇa="@ + gana + ", lakāra_type="@ + ltype
}

/// Marks the tiṅ entries that match.
fn tin_flags(tin: &[CachedRule], lakara: &str, purusha: &str, vacana: &str, pada: &str) -> (r: Vec<bool>)
    ensures
        r@ == Seq::new(tin@.len(), |i: int| tin_matches(tin@[i], lakara@, purusha@, vacana@, pada@)),
{
    let n = tin.len();
    let mut out: Vec<bool> = Vec::new();
    let mut i: usize = 0;
    while i < n
        invariant
            n == tin@.len(),
            i <= n,
            out@.len() == i,
            forall|j: int|
                0 <= j < i ==> out@[j] == tin_matches(tin@[j], lakara@, purusha@, vacana@, pada@),
        decreases n - i,
    {
        let r = &tin[i];
        let b = check_tin_shape(&r.params).is_ok() && text_eq(rule_get_text(r, "lakara").as_str(), lakara)
            && text_eq(rule_get_text(r, "purusha").as_str(), purusha) && text_eq(
            rule_get_text(r, "vacana").as_str(),
            vacana,
        ) && text_eq(rule_get_text(r, "pada").as_str(), pada);
        out.push(b);
        i += 1;
    }
    assert(out@ =~= Seq::new(
        tin@.len(),
        |i: int| tin_matches(tin@[i], lakara@, purusha@, vacana@, pada@),
    ));
    out
}

/// Marks the vikaraṇa entries that match.
fn vik_flags(vik: &[CachedRule], gana: &str, ltype: &str) -> (r: Vec<bool>)
    ensures
        r@ == Seq::new(vik@.len(), |i: int| vik_matches(vik@[i], gana@, ltype@)),
{
    let n = vik.len();
    let mut out: Vec<bool> = Vec::new();
    let mut i: usize = 0;
    while i < n
        invariant
            n == vik@.len(),
            i <= n,
            out@.len() == i,
            forall|j: int| 0 <= j < i ==> out@[j] == vik_matches(vik@[j], gana@, ltype@),
        decreases n - i,
    {
        let r = &vik[i];
        let lt_ok = match rule_get_opt_text(r, "lakara_type") {
            Some(t) => text_eq(t.as_str(), ltype),
            None => true,
        };
        let b = check_vikarana_shape(&r.params).is_ok() && text_eq(
            rule_get_text(r, "gana").as_str(),
            gana,
        ) && lt_ok;
        out.push(b);
        i += 1;
    }
    assert(out@ =~= Seq::new(vik@.len(), |i: int| vik_matches(vik@[i], gana@, ltype@)));
    out
}

/// Whether a list of texts holds a given text.
fn list_has(v: &Vec<String>, t: &str) -> (r: bool)
    ensures
        r == v@.map_values(|s: String| s@).contains(t@),
{
    let n = v.len();
    let ghost vv = v@.map_values(|s: String| s@);
    let mut i: usize = 0;
    while i < n
        invariant
            n == v@.len(),
            vv == v@.map_values(|s: String| s@),
            i <= n,
            forall|j: int| 0 <= j < i ==> vv[j] != t@,
        decreases n - i,
    {
        if text_eq(v[i].as_str(), t) {
            assert(vv[i as int] == t@);
            return true;
        }
        i += 1;
    }
    false
}


// --- Forming the aṅga ---
/// The last phoneme of a root, or the empty text.
pub open spec fn last_of(d: Seq<char>) -> Seq<char> {
    or_empty(last_phoneme_of(d))
}

/// A root without its last phoneme.
pub open spec fn before_last(d: Seq<char>) -> Seq<char> {
    drop_last_n(d, last_of(d).len() as int)
}

/// 6.4.111 śnasor allopaḥ: an infix ending in a loses it before a non-pit ending.
pub open spec fn allopa(vik: Seq<char>, tin_pit: bool) -> bool {
    !tin_pit && vik.len() > 0 && vik.last() == 'a'
}

/// The infix as inserted.
pub open spec fn infix_form(vik: Seq<char>, tin_pit: bool) -> Seq<char> {
    if allopa(vik, tin_pit) {
        vik.drop_last()
    } else {
        vik
    }
}

/// The aṅga: the root followed by the vikaraṇa, or with the (infix)
/// vikaraṇa before its last phoneme.
pub open spec fn formed(d: Seq<char>, vik: Seq<char>, tin_pit: bool, infix: bool) -> Seq<char> {
    if infix {
        before_last(d) + infix_form(vik, tin_pit) + last_of(d)
    } else {
        d + vik
    }
}

/// The byte offset in the aṅga where the vikaraṇa part begins.
pub open spec fn vik_offset(d: Seq<char>, infix: bool) -> int {
    if infix {
        byte_len(before_last(d))
    } else {
        byte_len(d)
    }
}

/// The allopa step, when an infix loses its a.
pub open spec fn form_steps(d: Seq<char>, vik: Seq<char>, tin: Seq<char>, tin_pit: bool, infix: bool) -> Seq<StepView> {
    if infix && allopa(vik, tin_pit) {
        seq![
            (
                vik + " → "@ + infix_form(vik, tin_pit) + " (allopaḥ, Aṣṭ. 6.4.111)"@,
                Some("6.4.111"@),
                plus(before_last(d) + vik + last_of(d), tin),
                plus(formed(d, vik, tin_pit, infix), tin),
            ),
        ]
    } else {
        Seq::empty()
    }
}

/// A root without its last phoneme, and that phoneme.
fn split_last_phoneme(d: &str) -> (r: (String, String))
    ensures
        r.0@ == before_last(d@),
        r.1@ == last_of(d@),
{
    let last = match last_phoneme(d) {
        Some(t) => t,
        None => String::new(),
    };
    proof {
        if d@.len() > 0 {
            lemma_last_phoneme_suffix(d@);
        }
    }
    let head = text_drop_last(d, last.unicode_len());
    (head, last)
}

/// Forms the aṅga, recording the allopa step; returns it with the vikaraṇa offset.
fn form_anga(d: &str, vik: &str, tin: &str, tin_pit: bool, infix: bool, trace: &mut Vec<TraceStep>) -> (r: (String, usize))
    requires
        numbered(old(trace)@),
    ensures
        numbered(final(trace)@),
        r.0@ == formed(d@, vik@, tin_pit, infix),
        r.1 == vik_offset(d@, infix),
        step_views(final(trace)@) == step_views(old(trace)@) + form_steps(d@, vik@, tin@, tin_pit, infix),
{
    if infix {
        let (prefix, fin) = split_last_phoneme(d);
        let n = vik.unicode_len();
        let cut = !tin_pit && n > 0 && vik.get_char(n - 1) == 'a';
        let actual = if cut {
            text_drop_last(vik, 1)
        } else {
            owned(vik)
        };
        assert(cut == allopa(vik@, tin_pit));
        proof {
            if cut {
                assert(vik@.drop_last() =~= drop_last_n(vik@, 1));
            }
        }
        let a = concat3(prefix.as_str(), actual.as_str(), fin.as_str());
        if cut {
            let mut rule = concat3(vik, " → ", actual.as_str());
            rule.append(" (allopaḥ, Aṣṭ. 6.4.111)");
            let mut input = concat3(prefix.as_str(), vik, fin.as_str());
            input.append(" + ");
            input.append(tin);
            let ghost before = step_views(trace@);
            push_step(trace, rule, Some(owned("6.4.111")), input, concat3(a.as_str(), " + ", tin));
            assert(step_views(trace@) =~= before + form_steps(d@, vik@, tin@, tin_pit, infix));
        } else {
            assert(step_views(trace@) =~= step_views(trace@) + form_steps(d@, vik@, tin@, tin_pit, infix));
        }
        (a, bytes_of(prefix.as_str()))
    } else {
        assert(step_views(trace@) =~= step_views(trace@) + form_steps(d@, vik@, tin@, tin_pit, infix));
        (concat2(d, vik), bytes_of(d))
    }
}

// --- The whole derivation ---
/// How a conjugation ends: no tiṅ entry, no vikaraṇa entry, a byte slice that
/// would fall inside a character, or a form and its trace.
pub enum Conjugated {
    NoTin,
    NoVikarana,
    Fault,
    Form(Seq<char>, Seq<StepView>),
}

/// The vikaraṇa step: the vikaraṇa after the root, or inside it before its last phoneme.
pub open spec fn vik_step(vr: CachedRule, d: Seq<char>, vik: Seq<char>, tin: Seq<char>, infix: bool) -> StepView {
    rule_step(
        vr,
        plus(d, tin),
        if infix {
            plus(before_last(d) + vik + last_of(d), tin)
        } else {
            plus(plus(d, vik), tin)
        },
    )
}

/// The reduplication step of a class 3 root (6.1.1).
pub open spec fn dvitva_step(d: Seq<char>, tin: Seq<char>) -> StepView {
    (
        d + " → "@ + abhyasa_of(d) + " + "@ + d + " (dvitva + abhyāsa, Aṣṭ. 6.1.1, 7.4.59-60, 7.4.62)"@,
        Some("6.1.1"@),
        plus(d, tin),
        plus(abhyasa_of(d) + d, tin),
    )
}

/// The vikaraṇa is ṅit (1.2.4): sārvadhātuka and not marked p.
pub open spec fn vik_nit(vr: CachedRule) -> bool {
    rule_opt_text(vr, "lakara_type"@) == Some("sārvadhātuka"@) && !rule_list(vr, "it_markers"@).contains(
        "p"@,
    )
}

/// Where a conjugation stands after the first two layers: the context of
/// the aṅga operations, the state (root after reduplication, ending, steps),
/// whether the root operations are skipped or use vṛddhi, and whether the
/// vikaraṇa is an infix.
pub struct ConjStart {
    pub c: VerbCtx,
    pub s: VerbState,
    pub skip: bool,
    pub vrddhi: bool,
    pub infix: bool,
}

/// The first two layers: no tiṅ entry, no vikaraṇa entry, or a start.
pub enum Started {
    NoTin,
    NoVikarana,
    Ready(ConjStart),
}

/// The first two layers of a conjugation: the first matching tiṅ entry; the
/// first vikaraṇa entry of the class and lakāra type; for class 3,
/// reduplication and (for jhi) ati. The root operations are skipped for a ṅit
/// or empty vikaraṇa, and for a ṇit one when the penultimate is no vowel; a ṇit
/// one takes vṛddhi unless the penultimate is short.
pub open spec fn conj_start(
    tin: Seq<CachedRule>,
    vik: Seq<CachedRule>,
    an: Seq<CachedRule>,
    d: Seq<char>,
    g: Seq<char>,
    l: Seq<char>,
    p: Seq<char>,
    pu: Seq<char>,
    va: Seq<char>,
) -> Started {
    match tin_choice(tin, l, pu, va, p) {
        None => Started::NoTin,
        Some(ti) => {
            let trule = tin[ti];
            let pname = rule_text(trule, "pratyaya_name"@);
            let t0 = rule_text(trule, "suffix"@);
            let st1 = rule_step(
                trule,
                d + " + "@ + pname + " ("@ + l + " "@ + pu + " "@ + va + ")"@,
                plus(d, t0),
            );
            match vik_choice(vik, g, lakara_type_of(l)) {
                None => Started::NoVikarana,
                Some(vi) => {
                    let vr = vik[vi];
                    let vk = rule_text(vr, "suffix"@);
                    let nit_marker = rule_list(vr, "it_markers"@).contains("ṇ"@);
                    let infix = rule_opt_text(vr, "insertion_mode"@) == Some("infix"@);
                    let red = g == "3"@;
                    let jhi = red && pname == "jhi"@;
                    let d1 = if red {
                        abhyasa_of(d) + d
                    } else {
                        d
                    };
                    let st3: Seq<StepView> = if red {
                        seq![dvitva_step(d, t0)]
                    } else {
                        Seq::empty()
                    };
                    let st4: Seq<StepView> = if jhi {
                        seq![
                            (
                                "jhi → ati after abhyasta (ad abhyastāt, Aṣṭ. 7.1.4)"@,
                                Some("7.1.4"@),
                                plus(d1, t0),
                                plus(d1, "ati"@),
                            ),
                        ]
                    } else {
                        Seq::empty()
                    };
                    Started::Ready(
                        ConjStart {
                            c: VerbCtx {
                                an,
                                vik: vk,
                                vik_name: rule_text(vr, "vikarana_name"@),
                                gana: g,
                                tin_pit: rule_flag(trule, "is_pit"@),
                                nit: vik_nit(vr),
                            },
                            s: VerbState {
                                anga: d1,
                                tin: if jhi {
                                    "ati"@
                                } else {
                                    t0
                                },
                                steps: seq![st1, vik_step(vr, d, vk, t0, infix)] + st3 + st4,
                            },
                            skip: vik_nit(vr) || vk.len() == 0 || (nit_marker && !upadha_vowel(d1)),
                            vrddhi: nit_marker && !upadha_laghu(d1),
                            infix,
                        },
                    )
                },
            }
        },
    }
}

/// The rest of a conjugation: the root operations, forming the aṅga, the
/// junction operations, and the word-final tripādī rules.
pub open spec fn conj_finish(tr: Seq<CachedRule>, st: ConjStart) -> Conjugated {
    let c = st.c;
    match pre_vikarana_layer(c, st.s, st.skip, st.vrddhi) {
        None => Conjugated::Fault,
        Some(s3) => {
            let s4 = VerbState {
                anga: formed(s3.anga, c.vik, c.tin_pit, st.infix),
                tin: s3.tin,
                steps: s3.steps + form_steps(s3.anga, c.vik, s3.tin, c.tin_pit, st.infix),
            };
            match pre_tin_layer(c, vik_offset(s3.anga, st.infix), s4) {
                None => Conjugated::Fault,
                Some(s5) => {
                    let fin = tripadi_layer(tr, s5.anga + s5.tin, false);
                    Conjugated::Form(fin.0, s5.steps + fin.1)
                },
            }
        },
    }
}

/// The conjugated form and its trace, layer by layer.
pub open spec fn conjugate(
    tin: Seq<CachedRule>,
    vik: Seq<CachedRule>,
    an: Seq<CachedRule>,
    tr: Seq<CachedRule>,
    d: Seq<char>,
    g: Seq<char>,
    l: Seq<char>,
    p: Seq<char>,
    pu: Seq<char>,
    va: Seq<char>,
) -> Conjugated {
    match conj_start(tin, vik, an, d, g, l, p, pu, va) {
        Started::NoTin => Conjugated::NoTin,
        Started::NoVikarana => Conjugated::NoVikarana,
        Started::Ready(st) => conj_finish(tr, st),
    }
}

/// The output of a conjugation reports its input and the form.
pub open spec fn conjugation_output_is(r: DeriveResult, input: ConjugationInput, form: Seq<char>) -> bool {
    match r.output {
        Derived::Conjugation { dhatu, gana, lakara, pada, purusha, vacana, form: f, steps } => {
            &&& dhatu@ == input.dhatu@
            &&& gana@ == input.gana@
            &&& lakara@ == input.lakara@
            &&& pada@ == input.pada@
            &&& purusha@ == input.purusha@
            &&& vacana@ == input.vacana@
            &&& f@ == form
            &&& steps == r.trace@.len()
        },
        _ => false,
    }
}


/// A conjugation after its first two layers.
struct StartExec<'a> {
    rules: VerbRules<'a>,
    dhatu: String,
    tin: String,
    skip: bool,
    vrddhi: bool,
    infix: bool,
    trace: Vec<TraceStep>,
}

impl<'a> StartExec<'a> {
    /// The start these values stand for.
    spec fn view_start(&self) -> ConjStart {
        ConjStart {
            c: self.rules.ctx(),
            s: state_of(self.dhatu@, self.tin@, self.trace@),
            skip: self.skip,
            vrddhi: self.vrddhi,
            infix: self.infix,
        }
    }
}

/// The first two layers of a conjugation.
fn start_conjugation<'a>(
    tin_rules: &[CachedRule],
    vikarana_rules: &[CachedRule],
    verb_anga_rules: &'a [CachedRule],
    d: &str,
    g: &str,
    l: &str,
    p: &str,
    pu: &str,
    va: &str,
) -> (r: Result<StartExec<'a>, PaniniError>)
    ensures
        match conj_start(tin_rules@, vikarana_rules@, verb_anga_rules@, d@, g@, l@, p@, pu@, va@) {
            Started::NoTin => r matches Err(PaniniError::RuleParse(m)) && m@ == no_tin_message(
                l@,
                pu@,
                va@,
                p@,
            ),
            Started::NoVikarana => r matches Err(PaniniError::RuleParse(m)) && m@ == no_vik_message(
                g@,
                lakara_type_of(l@),
            ),
            Started::Ready(st) => r matches Ok(x) && x.view_start() == st && numbered(x.trace@),
        },
{
    // Layer 1: tiṅ selection.
    let tflags = tin_flags(tin_rules, l, pu, va, p);
    let ti = match first_flag(&tflags) {
        Some(i) => i,
        None => {
            let mut m = concat2("no tin_suffix for lakāra=", l);
            m.append(", puruṣa=");
            m.append(pu);
            m.append(", vacana=");
            m.append(va);
            m.append(", pada=");
            m.append(p);
            return Err(PaniniError::RuleParse(m));
        },
    };
    let trule = &tin_rules[ti];
    let pname = rule_get_text(trule, "pratyaya_name");
    let t0 = rule_get_text(trule, "suffix");
    let tin_pit = rule_get_flag(trule, "is_pit");
    let mut trace: Vec<TraceStep> = Vec::new();
    let mut in1 = concat3(d, " + ", pname.as_str());
    in1.append(" (");
    in1.append(l);
    in1.append(" ");
    in1.append(pu);
    in1.append(" ");
    in1.append(va);
    in1.append(")");
    push_rule_step(&mut trace, trule, in1, concat3(d, " + ", t0.as_str()));

    // Layer 2: vikaraṇa insertion.
    let ltype = lakara_to_type(l);
    let vflags = vik_flags(vikarana_rules, g, ltype);
    let vi = match first_flag(&vflags) {
        Some(i) => i,
        None => {
            let mut m = concat2("no vikarana_rule for gaṇa=", g);
            m.append(", lakāra_type=");
            m.append(ltype);
            return Err(PaniniError::RuleParse(m));
        },
    };
    let vr = &vikarana_rules[vi];
    let vk = rule_get_text(vr, "suffix");
    let markers = rule_get_list(vr, "it_markers");
    assert(markers@.map_values(|s: String| s@) =~= rule_list(*vr, "it_markers"@));
    let sarva = match rule_get_opt_text(vr, "lakara_type") {
        Some(t) => text_eq(t.as_str(), "sārvadhātuka"),
        None => false,
    };
    let nit = sarva && !list_has(&markers, "p");
    let nit_marker = list_has(&markers, "ṇ");
    let infix = match rule_get_opt_text(vr, "insertion_mode") {
        Some(t) => text_eq(t.as_str(), "infix"),
        None => false,
    };
    let out2 = if infix {
        let (pre, fin) = split_last_phoneme(d);
        let mut o = concat3(pre.as_str(), vk.as_str(), fin.as_str());
        o.append(" + ");
        o.append(t0.as_str());
        o
    } else {
        let mut o = concat3(d, " + ", vk.as_str());
        o.append(" + ");
        o.append(t0.as_str());
        o
    };
    push_rule_step(&mut trace, vr, concat3(d, " + ", t0.as_str()), out2);
    let ghost two = step_views(trace@);
    assert(two =~= seq![
        rule_step(*trule, d@ + " + "@ + pname@ + " ("@ + l@ + " "@ + pu@ + " "@ + va@ + ")"@, plus(d@, t0@)),
        vik_step(*vr, d@, vk@, t0@, infix),
    ]);

    // Reduplication (6.1.1) and jhi → ati (7.1.4) for class 3.
    let red = text_eq(g, "3");
    let jhi = red && text_eq(pname.as_str(), "jhi");
    let d1 = if red {
        let ab = abhyasa(d);
        let d1 = concat2(ab.as_str(), d);
        let mut rule = concat4(d, " → ", ab.as_str(), " + ");
        rule.append(d);
        rule.append(" (dvitva + abhyāsa, Aṣṭ. 6.1.1, 7.4.59-60, 7.4.62)");
        push_step(
            &mut trace,
            rule,
            Some(owned("6.1.1")),
            concat3(d, " + ", t0.as_str()),
            concat3(d1.as_str(), " + ", t0.as_str()),
        );
        assert(step_views(trace@) =~= two + seq![dvitva_step(d@, t0@)]);
        d1
    } else {
        assert(step_views(trace@) =~= two + Seq::<StepView>::empty());
        owned(d)
    };
    let ghost three = step_views(trace@);
    let t1 = if jhi {
        push_step(
            &mut trace,
            owned("jhi → ati after abhyasta (ad abhyastāt, Aṣṭ. 7.1.4)"),
            Some(owned("7.1.4")),
            concat3(d1.as_str(), " + ", t0.as_str()),
            concat3(d1.as_str(), " + ", "ati"),
        );
        owned("ati")
    } else {
        assert(step_views(trace@) =~= three + Seq::<StepView>::empty());
        t0
    };
    let skip = nit || vk.unicode_len() == 0 || (nit_marker && !upadha_is_vowel(d1.as_str()));
    let vrddhi = nit_marker && !is_upadha_laghu(d1.as_str());
    let rules = VerbRules {
        an: verb_anga_rules,
        vik: vk,
        vik_name: rule_get_text(vr, "vikarana_name"),
        gana: owned(g),
        tin_pit,
        nit,
    };
    let x = StartExec { rules, dhatu: d1, tin: t1, skip, vrddhi, infix, trace };
    proof {
        let st = conj_start(tin_rules@, vikarana_rules@, verb_anga_rules@, d@, g@, l@, p@, pu@, va@);
        assert(st is Ready);
        let ConjStart { c, s, skip: sk, vrddhi: vd, infix: inf } = st->0;
        assert(c == x.rules.ctx());
        assert(s.anga == x.dhatu@);
        assert(s.tin == x.tin@);
        assert(s.steps == step_views(x.trace@));
        assert(sk == x.skip);
        assert(vd == x.vrddhi);
        assert(inf == x.infix);
    }
    Ok(x)
}

/// The rest of a conjugation; none where a byte slice would fall inside a character.
fn finish_conjugation(tripadi_rules: &[CachedRule], st: StartExec) -> (r: Option<(String, Vec<TraceStep>)>)
    requires
        numbered(st.trace@),
    ensures
        match conj_finish(tripadi_rules@, st.view_start()) {
            Conjugated::Form(f, steps) => r matches Some((x, t)) && x@ == f && numbered(t@)
                && step_views(t@) == steps,
            _ => r is None,
        },
{
    let StartExec { rules, dhatu, tin, skip, vrddhi, infix, mut trace } = st;
    let d3 = match pre_vikarana_exec(&rules, dhatu, tin.as_str(), skip, vrddhi, &mut trace) {
        Some(x) => x,
        None => {
            return None;
        },
    };
    let (anga, off) = form_anga(
        d3.as_str(),
        rules.vik.as_str(),
        tin.as_str(),
        rules.tin_pit,
        infix,
        &mut trace,
    );
    let (a5, t5) = match pre_tin_exec(&rules, off, anga, tin, &mut trace) {
        Some(x) => x,
        None => {
            return None;
        },
    };
    let word = concat2(a5.as_str(), t5.as_str());
    let form = apply_tripadi(tripadi_rules, word, &mut trace, false);
    Some((form, trace))
}


/// The conjugation as a result, or none where a byte slice would fall inside a character.
fn run_conjugation(
    tin_rules: &[CachedRule],
    vikarana_rules: &[CachedRule],
    verb_anga_rules: &[CachedRule],
    tripadi_rules: &[CachedRule],
    input: ConjugationInput,
) -> (r: Option<Result<DeriveResult, PaniniError>>)
    ensures
        conjugation_result_is(
            r,
            conjugate(
                tin_rules@,
                vikarana_rules@,
                verb_anga_rules@,
                tripadi_rules@,
                input.dhatu@,
                input.gana@,
                input.lakara@,
                input.pada@,
                input.purusha@,
                input.vacana@,
            ),
            input,
        ),
{
    let st = match start_conjugation(
        tin_rules,
        vikarana_rules,
        verb_anga_rules,
        input.dhatu.as_str(),
        input.gana.as_str(),
        input.lakara.as_str(),
        input.pada.as_str(),
        input.purusha.as_str(),
        input.vacana.as_str(),
    ) {
        Ok(st) => st,
        Err(e) => {
            return Some(Err(e));
        },
    };
    let (form, trace) = match finish_conjugation(tripadi_rules, st) {
        Some(x) => x,
        None => {
            return None;
        },
    };
    let steps = trace.len();
    Some(
        Ok(
            DeriveResult {
                output: Derived::Conjugation {
                    dhatu: input.dhatu,
                    gana: input.gana,
                    lakara: input.lakara,
                    pada: input.pada,
                    purusha: input.purusha,
                    vacana: input.vacana,
                    form,
                    steps,
                },
                trace,
            },
        ),
    )
}

/// What a conjugation returns for each outcome: the error for a missing tiṅ
/// or vikaraṇa entry, the form and its numbered trace, and nothing for a fault.
pub open spec fn conjugation_result_is(
    r: Option<Result<DeriveResult, PaniniError>>,
    c: Conjugated,
    input: ConjugationInput,
) -> bool {
    match c {
        Conjugated::NoTin => r matches Some(Err(PaniniError::RuleParse(m))) && m@ == no_tin_message(
            input.lakara@,
            input.purusha@,
            input.vacana@,
            input.pada@,
        ),
        Conjugated::NoVikarana => r matches Some(Err(PaniniError::RuleParse(m))) && m@
            == no_vik_message(input.gana@, lakara_type_of(input.lakara@)),
        Conjugated::Fault => r is None,
        Conjugated::Form(f, st) => r matches Some(Ok(d)) && numbered(d.trace@) && step_views(d.trace@)
            == st && conjugation_output_is(d, input, f),
    }
}

/// Derives a conjugated form through five layers: tiṅ selection (the first
/// matching entry), vikaraṇa insertion (the first entry of the class whose
/// lakāra type matches or is unset), reduplication for class 3, the root
/// operations, forming the aṅga, the junction operations, and the word-final
/// tripādī rules in rank order. Fails exactly when no tiṅ or no vikaraṇa entry
/// matches. Inputs on which a rule would cut the stem inside a character are
/// left out.
pub fn derive_conjugation(
    tin_rules: &[CachedRule],
    vikarana_rules: &[CachedRule],
    verb_anga_rules: &[CachedRule],
    tripadi_rules: &[CachedRule],
    input: ConjugationInput,
) -> (r: Result<DeriveResult, PaniniError>)
    requires
        !(conjugate(
            tin_rules@,
            vikarana_rules@,
            verb_anga_rules@,
            tripadi_rules@,
            input.dhatu@,
            input.gana@,
            input.lakara@,
            input.pada@,
            input.purusha@,
            input.vacana@,
        ) is Fault),
    ensures
        conjugation_result_is(
            Some(r),
            conjugate(
                tin_rules@,
                vikarana_rules@,
                verb_anga_rules@,
                tripadi_rules@,
                input.dhatu@,
                input.gana@,
                input.lakara@,
                input.pada@,
                input.purusha@,
                input.vacana@,
            ),
            input,
        ),
{
    match run_conjugation(tin_rules, vikarana_rules, verb_anga_rules, tripadi_rules, input) {
        Some(r) => r,
        None => {
            proof {
                assert(false);
            }
            Err(PaniniError::NoRulesLoaded(String::new()))
        },
    }
}

/// Derives a conjugated form as `derive_conjugation` does, for every input:
/// none exactly where a rule would cut the stem inside a character.
pub fn try_derive_conjugation(
    tin_rules: &[CachedRule],
    vikarana_rules: &[CachedRule],
    verb_anga_rules: &[CachedRule],
    tripadi_rules: &[CachedRule],
    input: ConjugationInput,
) -> (r: Option<Result<DeriveResult, PaniniError>>)
    ensures
        conjugation_result_is(
            r,
            conjugate(
                tin_rules@,
                vikarana_rules@,
                verb_anga_rules@,
                tripadi_rules@,
                input.dhatu@,
                input.gana@,
                input.lakara@,
                input.pada@,
                input.purusha@,
                input.vacana@,
            ),
            input,
        ),
{
    run_conjugation(tin_rules, vikarana_rules, verb_anga_rules, tripadi_rules, input)
}

/// A ṅit vikaraṇa blocks the root operations (kṅiti ca, 1.1.5): whenever the
/// vikaraṇa chosen is ṅit, the root leaves the pre-vikaraṇa layer unchanged
/// and no step is added there.
pub proof fn law_nit_vikarana_blocks_root_guna(
    tin: Seq<CachedRule>,
    vik: Seq<CachedRule>,
    an: Seq<CachedRule>,
    d: Seq<char>,
    g: Seq<char>,
    l: Seq<char>,
    p: Seq<char>,
    pu: Seq<char>,
    va: Seq<char>,
)
    requires
        conj_start(tin, vik, an, d, g, l, p, pu, va) matches Started::Ready(st) && st.c.nit,
    ensures
        conj_start(tin, vik, an, d, g, l, p, pu, va) matches Started::Ready(st) && pre_vikarana_layer(
            st.c,
            st.s,
            st.skip,
            st.vrddhi,
        ) == Some(st.s),
{
}

} // verus!

