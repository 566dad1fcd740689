//! Transliteration from IAST to Devanāgarī.
use vstd::prelude::*;
use crate::phoneme::{phonemes, tokenize, views};
use crate::text::{text_eq, owned};

verus! {

/// The Devanāgarī letter (akṣara) of an IAST phoneme, if it has one.
pub open spec fn akshara_of(t: Seq<char>) -> Option<Seq<char>> {
    if t == "ai"@ {
        Some("ऐ"@)
    } else if t == "au"@ {
        Some("औ"@)
    } else if t == "kh"@ {
        Some("ख"@)
    } else if t == "gh"@ {
        Some("घ"@)
    } else if t == "ch"@ {
        Some("छ"@)
    } else if t == "jh"@ {
        Some("झ"@)
    } else if t == "ṭh"@ {
        Some("ठ"@)
    } else if t == "ḍh"@ {
        Some("ढ"@)
    } else if t == "th"@ {
        Some("थ"@)
    } else if t == "dh"@ {
        Some("ध"@)
    } else if t == "ph"@ {
        Some("फ"@)
    } else if t == "bh"@ {
        Some("भ"@)
    } else if t == "ṅ"@ {
        Some("ङ"@)
    } else if t == "ñ"@ {
        Some("ञ"@)
    } else if t == "ṇ"@ {
        Some("ण"@)
    } else if t == "ṃ"@ {
        Some("ं"@)
    } else if t == "ḥ"@ {
        Some("ः"@)
    } else if t == "ā"@ {
        Some("आ"@)
    } else if t == "ī"@ {
        Some("ई"@)
    } else if t == "ū"@ {
        Some("ऊ"@)
    } else if t == "ṝ"@ {
        Some("ॠ"@)
    } else if t == "ṛ"@ {
        Some("ऋ"@)
    } else if t == "ḷ"@ {
        Some("ऌ"@)
    } else if t == "a"@ {
        Some("अ"@)
    } else if t == "i"@ {
        Some("इ"@)
    } else if t == "u"@ {
        Some("उ"@)
    } else if t == "e"@ {
        Some("ए"@)
    } else if t == "o"@ {
        Some("ओ"@)
    } else if t == "k"@ {
        Some("क"@)
    } else if t == "g"@ {
        Some("ग"@)
    } else if t == "c"@ {
        Some("च"@)
    } else if t == "j"@ {
        Some("ज"@)
    } else if t == "ṭ"@ {
        Some("ट"@)
    } else if t == "ḍ"@ {
        Some("ड"@)
    } else if t == "t"@ {
        Some("त"@)
    } else if t == "d"@ {
        Some("द"@)
    } else if t == "n"@ {
        Some("न"@)
    } else if t == "p"@ {
        Some("प"@)
    } else if t == "b"@ {
        Some("ब"@)
    } else if t == "m"@ {
        Some("म"@)
    } else if t == "y"@ {
        Some("य"@)
    } else if t == "r"@ {
        Some("र"@)
    } else if t == "l"@ {
        Some("ल"@)
    } else if t == "v"@ {
        Some("व"@)
    } else if t == "ś"@ {
        Some("श"@)
    } else if t == "ṣ"@ {
        Some("ष"@)
    } else if t == "s"@ {
        Some("स"@)
    } else if t == "h"@ {
        Some("ह"@)
    } else {
        None
    }
}

/// The IAST vowels.
pub open spec fn iast_vowel(t: Seq<char>) -> bool {
    t == "a"@ || t == "ā"@ || t == "i"@ || t == "ī"@ || t == "u"@ || t == "ū"@ || t == "ṛ"@ || t == "ṝ"@ || t == "ḷ"@ || t == "e"@ || t == "ai"@ || t == "o"@ || t == "au"@
}

/// The independent vowel letters (those of the IAST vowels).
pub open spec fn vowel_akshara(ak: Seq<char>) -> bool {
    ak == "ऐ"@ || ak == "औ"@ || ak == "आ"@ || ak == "ई"@ || ak == "ऊ"@ || ak == "ॠ"@ || ak == "ऋ"@ || ak == "ऌ"@ || ak == "अ"@ || ak == "इ"@ || ak == "उ"@ || ak == "ए"@ || ak == "ओ"@
}

/// The dependent sign (mātrā) of an independent vowel letter other than a.
pub open spec fn vowel_sign_of(ak: Seq<char>) -> Option<Seq<char>> {
    if ak == "आ"@ {
        Some("ा"@)
    } else if ak == "इ"@ {
        Some("ि"@)
    } else if ak == "ई"@ {
        Some("ी"@)
    } else if ak == "उ"@ {
        Some("ु"@)
    } else if ak == "ऊ"@ {
        Some("ू"@)
    } else if ak == "ऋ"@ {
        Some("ृ"@)
    } else if ak == "ॠ"@ {
        Some("ॄ"@)
    } else if ak == "ऌ"@ {
        Some("ॢ"@)
    } else if ak == "ए"@ {
        Some("े"@)
    } else if ak == "ऐ"@ {
        Some("ै"@)
    } else if ak == "ओ"@ {
        Some("ो"@)
    } else if ak == "औ"@ {
        Some("ौ"@)
    } else {
        None
    }
}

/// The consonant letters.
pub open spec fn consonant_akshara(ak: Seq<char>) -> bool {
    ak == "क"@ || ak == "ख"@ || ak == "ग"@ || ak == "घ"@ || ak == "ङ"@ || ak == "च"@ || ak == "छ"@ || ak == "ज"@ || ak == "झ"@ || ak == "ञ"@ || ak == "ट"@ || ak == "ठ"@ || ak == "ड"@ || ak == "ढ"@ || ak == "ण"@ || ak == "त"@ || ak == "थ"@ || ak == "द"@ || ak == "ध"@ || ak == "न"@ || ak == "प"@ || ak == "फ"@ || ak == "ब"@ || ak == "भ"@ || ak == "म"@ || ak == "य"@ || ak == "र"@ || ak == "ल"@ || ak == "व"@ || ak == "श"@ || ak == "ष"@ || ak == "स"@ || ak == "ह"@
}

/// A phoneme's letter, or the phoneme itself when it has none.
pub open spec fn mapped(t: Seq<char>) -> Seq<char> {
    match akshara_of(t) {
        Some(ak) => ak,
        None => t,
    }
}

/// Writes letters out: a consonant takes the sign of a following vowel (none
/// for a), or the virāma when no vowel follows; other letters stand as they are.
pub open spec fn render(a: Seq<Seq<char>>) -> Seq<char>
    decreases a.len(),
{
    if a.len() == 0 {
        Seq::empty()
    } else if consonant_akshara(a[0]) && a.len() >= 2 && vowel_akshara(a[1]) {
        let syllable = if a[1] == "अ"@ {
            a[0]
        } else {
            match vowel_sign_of(a[1]) {
                Some(sign) => a[0] + sign,
                None => a[0] + a[1],
            }
        };
        syllable + render(a.skip(2))
    } else if consonant_akshara(a[0]) {
        a[0] + "्"@ + render(a.skip(1))
    } else {
        a[0] + render(a.skip(1))
    }
}

/// The Devanāgarī spelling of a (lowercase) IAST text: its phonemes as
/// letters, written out.
pub open spec fn devanagari_of(s: Seq<char>) -> Seq<char> {
    render(phonemes(s).map_values(|t: Seq<char>| mapped(t)))
}

/// What `str::to_lowercase` returns for a text.
pub uninterp spec fn lowercase(s: Seq<char>) -> Seq<char>;

/// Calls `str::to_lowercase`: the text lowercased by the Unicode rules (each
/// character by its lowercase mapping, a capital sigma by its place in the
/// word). The contract names the result and claims only that it depends on
/// the text alone.
#[verifier::external_body]
pub(crate) fn to_lowercase(s: &str) -> (r: String)
    ensures
        r@ == lowercase(s@),
{
    s.to_lowercase()
}

/// Whether an IAST phoneme is a vowel.
pub fn is_iast_vowel(token: &str) -> (r: bool)
    ensures
        r == iast_vowel(token@),
{
    text_eq(token, "a") || text_eq(token, "ā") || text_eq(token, "i") || text_eq(token, "ī") || text_eq(token, "u") || text_eq(token, "ū") || text_eq(token, "ṛ") || text_eq(token, "ṝ") || text_eq(token, "ḷ") || text_eq(token, "e") || text_eq(token, "ai") || text_eq(token, "o") || text_eq(token, "au")
}

/// Whether a letter is an independent vowel.
pub fn is_vowel(akshara: &str) -> (r: bool)
    ensures
        r == vowel_akshara(akshara@),
{
    text_eq(akshara, "ऐ") || text_eq(akshara, "औ") || text_eq(akshara, "आ") || text_eq(akshara, "ई") || text_eq(akshara, "ऊ") || text_eq(akshara, "ॠ") || text_eq(akshara, "ऋ") || text_eq(akshara, "ऌ") || text_eq(akshara, "अ") || text_eq(akshara, "इ") || text_eq(akshara, "उ") || text_eq(akshara, "ए") || text_eq(akshara, "ओ")
}

/// The dependent sign of an independent vowel letter.
pub fn vowel_sign(akshara: &str) -> (r: Option<&'static str>)
    ensures
        match vowel_sign_of(akshara@) {
            Some(s) => r matches Some(x) && x@ == s,
            None => r is None,
        },
{
    if text_eq(akshara, "आ") {
        Some("ा")
    } else if text_eq(akshara, "इ") {
        Some("ि")
    } else if text_eq(akshara, "ई") {
        Some("ी")
    } else if text_eq(akshara, "उ") {
        Some("ु")
    } else if text_eq(akshara, "ऊ") {
        Some("ू")
    } else if text_eq(akshara, "ऋ") {
        Some("ृ")
    } else if text_eq(akshara, "ॠ") {
        Some("ॄ")
    } else if text_eq(akshara, "ऌ") {
        Some("ॢ")
    } else if text_eq(akshara, "ए") {
        Some("े")
    } else if text_eq(akshara, "ऐ") {
        Some("ै")
    } else if text_eq(akshara, "ओ") {
        Some("ो")
    } else if text_eq(akshara, "औ") {
        Some("ौ")
    } else {
        None
    }
}

/// Whether a letter is a consonant.
pub fn is_consonant(akshara: &str) -> (r: bool)
    ensures
        r == consonant_akshara(akshara@),
{
    text_eq(akshara, "क") || text_eq(akshara, "ख") || text_eq(akshara, "ग") || text_eq(akshara, "घ") || text_eq(akshara, "ङ") || text_eq(akshara, "च") || text_eq(akshara, "छ") || text_eq(akshara, "ज") || text_eq(akshara, "झ") || text_eq(akshara, "ञ") || text_eq(akshara, "ट") || text_eq(akshara, "ठ") || text_eq(akshara, "ड") || text_eq(akshara, "ढ") || text_eq(akshara, "ण") || text_eq(akshara, "त") || text_eq(akshara, "थ") || text_eq(akshara, "द") || text_eq(akshara, "ध") || text_eq(akshara, "न") || text_eq(akshara, "प") || text_eq(akshara, "फ") || text_eq(akshara, "ब") || text_eq(akshara, "भ") || text_eq(akshara, "म") || text_eq(akshara, "य") || text_eq(akshara, "र") || text_eq(akshara, "ल") || text_eq(akshara, "व") || text_eq(akshara, "श") || text_eq(akshara, "ष") || text_eq(akshara, "स") || text_eq(akshara, "ह")
}

/// The Devanāgarī letter of an IAST phoneme.
pub fn iast_to_akshara(token: &str) -> (r: Option<&'static str>)
    ensures
        match akshara_of(token@) {
            Some(s) => r matches Some(x) && x@ == s,
            None => r is None,
        },
{
    if text_eq(token, "ai") {
        Some("ऐ")
    } else if text_eq(token, "au") {
        Some("औ")
    } else if text_eq(token, "kh") {
        Some("ख")
    } else if text_eq(token, "gh") {
        Some("घ")
    } else if text_eq(token, "ch") {
        Some("छ")
    } else if text_eq(token, "jh") {
        Some("झ")
    } else if text_eq(token, "ṭh") {
        Some("ठ")
    } else if text_eq(token, "ḍh") {
        Some("ढ")
    } else if text_eq(token, "th") {
        Some("थ")
    } else if text_eq(token, "dh") {
        Some("ध")
    } else if text_eq(token, "ph") {
        Some("फ")
    } else if text_eq(token, "bh") {
        Some("भ")
    } else if text_eq(token, "ṅ") {
        Some("ङ")
    } else if text_eq(token, "ñ") {
        Some("ञ")
    } else if text_eq(token, "ṇ") {
        Some("ण")
    } else if text_eq(token, "ṃ") {
        Some("ं")
    } else if text_eq(token, "ḥ") {
        Some("ः")
    } else if text_eq(token, "ā") {
        Some("आ")
    } else if text_eq(token, "ī") {
        Some("ई")
    } else if text_eq(token, "ū") {
        Some("ऊ")
    } else if text_eq(token, "ṝ") {
        Some("ॠ")
    } else if text_eq(token, "ṛ") {
        Some("ऋ")
    } else if text_eq(token, "ḷ") {
        Some("ऌ")
    } else if text_eq(token, "a") {
        Some("अ")
    } else if text_eq(token, "i") {
        Some("इ")
    } else if text_eq(token, "u") {
        Some("उ")
    } else if text_eq(token, "e") {
        Some("ए")
    } else if text_eq(token, "o") {
        Some("ओ")
    } else if text_eq(token, "k") {
        Some("क")
    } else if text_eq(token, "g") {
        Some("ग")
    } else if text_eq(token, "c") {
        Some("च")
    } else if text_eq(token, "j") {
        Some("ज")
    } else if text_eq(token, "ṭ") {
        Some("ट")
    } else if text_eq(token, "ḍ") {
        Some("ड")
    } else if text_eq(token, "t") {
        Some("त")
    } else if text_eq(token, "d") {
        Some("द")
    } else if text_eq(token, "n") {
        Some("न")
    } else if text_eq(token, "p") {
        Some("प")
    } else if text_eq(token, "b") {
        Some("ब")
    } else if text_eq(token, "m") {
        Some("म")
    } else if text_eq(token, "y") {
        Some("य")
    } else if text_eq(token, "r") {
        Some("र")
    } else if text_eq(token, "l") {
        Some("ल")
    } else if text_eq(token, "v") {
        Some("व")
    } else if text_eq(token, "ś") {
        Some("श")
    } else if text_eq(token, "ṣ") {
        Some("ष")
    } else if text_eq(token, "s") {
        Some("स")
    } else if text_eq(token, "h") {
        Some("ह")
    } else {
        None
    }
}


/// The letters of the phonemes.
fn to_aksharas(tokens: &Vec<String>) -> (r: Vec<String>)
    ensures
        views(r@) == views(tokens@).map_values(|t: Seq<char>| mapped(t)),
{
    let n = tokens.len();
    let mut out: Vec<String> = Vec::new();
    let mut i: usize = 0;
    while i < n
        invariant
            n == tokens@.len(),
            i <= n,
            views(out@) == views(tokens@).take(i as int).map_values(|t: Seq<char>| mapped(t)),
        decreases n - i,
    {
        let t = tokens[i].as_str();
        let ak = match iast_to_akshara(t) {
            Some(a) => owned(a),
            None => owned(t),
        };
        let ghost before = out@;
        assert(views(tokens@)[i as int] == t@);
        assert(ak@ == mapped(t@));
        out.push(ak);
        assert(views(out@) =~= views(before).push(mapped(t@)));
        assert(views(tokens@).take(i + 1) =~= views(tokens@).take(i as int).push(t@));
        assert(views(out@) =~= views(tokens@).take(i + 1).map_values(|t: Seq<char>| mapped(t)));
        i += 1;
    }
    assert(views(tokens@).take(n as int) =~= views(tokens@));
    out
}

/// Writes out a lowercase IAST text in Devanāgarī, phoneme by phoneme.
pub fn transliterate_lowercase(lowered: &str) -> (r: String)
    ensures
        r@ == devanagari_of(lowered@),
{
    let tokens = tokenize(lowered);
    let aks = to_aksharas(&tokens);
    let ghost a = views(aks@);
    let n = aks.len();
    let mut result = String::new();
    let mut i: usize = 0;
    assert(a.skip(0) =~= a);
    while i < n
        invariant
            n == aks@.len(),
            a == views(aks@),
            i <= n,
            result@ + render(a.skip(i as int)) == render(a),
        decreases n - i,
    {
        let ak = aks[i].as_str();
        let ghost rest = a.skip(i as int);
        assert(rest[0] == ak@);
        if is_consonant(ak) && i + 1 < n && is_vowel(aks[i + 1].as_str()) {
            let next = aks[i + 1].as_str();
            assert(rest[1] == next@);
            assert(rest.skip(2) =~= a.skip(i + 2));
            if text_eq(next, "अ") {
                result.append(ak);
            } else {
                match vowel_sign(next) {
                    Some(sign) => {
                        result.append(ak);
                        result.append(sign);
                    },
                    None => {
                        result.append(ak);
                        result.append(next);
                    },
                }
            }
            i += 2;
        } else {
            assert(rest.skip(1) =~= a.skip(i + 1));
            if is_consonant(ak) {
                proof {
                    if rest.len() >= 2 {
                        assert(rest[1] == aks@[i + 1]@);
                    }
                }
                result.append(ak);
                result.append("्");
            } else {
                result.append(ak);
            }
            i += 1;
        }
    }
    assert(a.skip(n as int) =~= Seq::<Seq<char>>::empty());
    proof {
        assert(views(tokens@) == phonemes(lowered@));
    }
    result
}

/// Writes out an IAST text in Devanāgarī, after lowercasing it.
pub fn transliterate(iast: &str) -> (r: String)
    ensures
        r@ == devanagari_of(lowercase(iast@)),
{
    let lowered = to_lowercase(iast);
    transliterate_lowercase(lowered.as_str())
}

/// The Devanāgarī spelling of an IAST text: empty for an empty text, else the
/// lowercased text written out letter by letter. Consonants carry the sign of
/// the vowel that follows (none for a) or a virāma; characters that are not
/// IAST pass through unchanged.
pub fn to_devanagari(iast: &str) -> (r: String)
    ensures
        r@ == if iast@.len() == 0 {
            Seq::empty()
        } else {
            devanagari_of(lowercase(iast@))
        },
{
    if iast.unicode_len() == 0 {
        return String::new();
    }
    transliterate(iast)
}

/// Spells out the vowel letters and their signs.
proof fn lemma_vowel_letters()
    ensures
        "आ"@ == seq!['आ'],
        "ा"@ == seq!['ा'],
        "इ"@ == seq!['इ'],
        "ि"@ == seq!['ि'],
        "ई"@ == seq!['ई'],
        "ी"@ == seq!['ी'],
        "उ"@ == seq!['उ'],
        "ु"@ == seq!['ु'],
        "ऊ"@ == seq!['ऊ'],
        "ू"@ == seq!['ू'],
        "ऋ"@ == seq!['ऋ'],
        "ृ"@ == seq!['ृ'],
        "ॠ"@ == seq!['ॠ'],
        "ॄ"@ == seq!['ॄ'],
        "ऌ"@ == seq!['ऌ'],
        "ॢ"@ == seq!['ॢ'],
        "ए"@ == seq!['ए'],
        "े"@ == seq!['े'],
        "ऐ"@ == seq!['ऐ'],
        "ै"@ == seq!['ै'],
        "ओ"@ == seq!['ओ'],
        "ो"@ == seq!['ो'],
        "औ"@ == seq!['औ'],
        "ौ"@ == seq!['ौ'],
{
    reveal_strlit("आ");
    reveal_strlit("ा");
    reveal_strlit("इ");
    reveal_strlit("ि");
    reveal_strlit("ई");
    reveal_strlit("ी");
    reveal_strlit("उ");
    reveal_strlit("ु");
    reveal_strlit("ऊ");
    reveal_strlit("ू");
    reveal_strlit("ऋ");
    reveal_strlit("ृ");
    reveal_strlit("ॠ");
    reveal_strlit("ॄ");
    reveal_strlit("ऌ");
    reveal_strlit("ॢ");
    reveal_strlit("ए");
    reveal_strlit("े");
    reveal_strlit("ऐ");
    reveal_strlit("ै");
    reveal_strlit("ओ");
    reveal_strlit("ो");
    reveal_strlit("औ");
    reveal_strlit("ौ");
}

/// Each vowel sign is one character, the letter's own code point moved by
/// 0x38 in the Devanāgarī block (आ U+0906 to ा U+093E, through औ U+0914 to
/// ौ U+094C); only vocalic l (ऌ, sign U+0962) and long vocalic r (ॠ, sign
/// U+0944) lie elsewhere.
pub proof fn law_vowel_sign_code_points(ak: Seq<char>, sign: Seq<char>)
    requires
        vowel_sign_of(ak) == Some(sign),
    ensures
        ak.len() == 1,
        sign.len() == 1,
        0x906 <= ak[0] as int <= 0x914 && ak[0] as int != 0x90C ==> sign[0] as int == ak[0] as int + 0x38,
        ak[0] as int == 0x90C ==> sign[0] as int == 0x962,
        ak[0] as int == 0x960 ==> sign[0] as int == 0x944,
{
    lemma_vowel_letters();
}

/// Different vowel letters take different signs: ई (ī) takes ी, never the ि
/// of इ (i).
pub proof fn law_vowel_signs_distinct(a: Seq<char>, b: Seq<char>)
    requires
        vowel_sign_of(a) is Some,
        vowel_sign_of(a) == vowel_sign_of(b),
    ensures
        a == b,
{
    law_vowel_sign_code_points(a, vowel_sign_of(a)->0);
    law_vowel_sign_code_points(b, vowel_sign_of(b)->0);
    lemma_vowel_letters();
}

/// A consonant followed by ī is written as the consonant's letter carrying the
/// sign ी (U+0940), never the ि of a short i: so nadī is written नदी and devī
/// देवी.
pub proof fn law_consonant_before_long_i(c: Seq<char>)
    requires
        phonemes(c) == seq![c],
        consonant_akshara(mapped(c)),
    ensures
        devanagari_of(c + "ī"@) == mapped(c) + "ी"@,
{
    reveal_strlit("ī");
    reveal_strlit("ई");
    reveal_strlit("ी");
    reveal_strlit("अ");
    reveal_strlit("आ");
    reveal_strlit("इ");
    reveal_strlit("ṅ");
    reveal_strlit("ñ");
    reveal_strlit("ṇ");
    reveal_strlit("ṃ");
    reveal_strlit("ḥ");
    reveal_strlit("ā");
    reveal_strlit("ai");
    reveal_strlit("au");
    reveal_strlit("kh");
    reveal_strlit("gh");
    reveal_strlit("ch");
    reveal_strlit("jh");
    reveal_strlit("ṭh");
    reveal_strlit("ḍh");
    reveal_strlit("th");
    reveal_strlit("dh");
    reveal_strlit("ph");
    reveal_strlit("bh");
    let ii = "ī"@;
    assert(ii[0] != "ṅ"@[0] && ii[0] != "ñ"@[0] && ii[0] != "ṇ"@[0] && ii[0] != "ṃ"@[0] && ii[0] != "ḥ"@[0]
        && ii[0] != "ā"@[0]);
    assert(mapped(ii) == "ई"@);
    assert("ई"@[0] != "अ"@[0] && "ई"@[0] != "आ"@[0] && "ई"@[0] != "इ"@[0]);
    assert(vowel_sign_of("ई"@) == Some("ी"@));
    crate::phoneme::lemma_phonemes_concat(c, ii);
    assert(phonemes(ii) =~= seq![ii]) by {
        assert(crate::phoneme::head_len(ii) == 1);
        assert(ii.skip(1) =~= Seq::<char>::empty());
        assert(phonemes(ii.skip(1)) =~= Seq::<Seq<char>>::empty());
        assert(ii.subrange(0, 1) =~= ii);
    }
    let a = phonemes(c + ii).map_values(|t: Seq<char>| mapped(t));
    assert(a =~= seq![mapped(c), "ई"@]);
    assert(a.skip(2) =~= Seq::<Seq<char>>::empty());
    assert(render(a) == mapped(c) + "ी"@ + render(a.skip(2)));
    assert(render(a) =~= mapped(c) + "ी"@);
}

/// A space stands for itself between words.
proof fn lemma_space_letter()
    ensures
        mapped(" "@) == " "@,
        !consonant_akshara(" "@),
        !vowel_akshara(" "@),
{
    reveal_strlit(" ");
    reveal_strlit("ai");
    reveal_strlit("ऐ");
    reveal_strlit("au");
    reveal_strlit("औ");
    reveal_strlit("kh");
    reveal_strlit("ख");
    reveal_strlit("gh");
    reveal_strlit("घ");
    reveal_strlit("ch");
    reveal_strlit("छ");
    reveal_strlit("jh");
    reveal_strlit("झ");
    reveal_strlit("ṭh");
    reveal_strlit("ठ");
    reveal_strlit("ḍh");
    reveal_strlit("ढ");
    reveal_strlit("th");
    reveal_strlit("थ");
    reveal_strlit("dh");
    reveal_strlit("ध");
    reveal_strlit("ph");
    reveal_strlit("फ");
    reveal_strlit("bh");
    reveal_strlit("भ");
    reveal_strlit("ṅ");
    reveal_strlit("ङ");
    reveal_strlit("ñ");
    reveal_strlit("ञ");
    reveal_strlit("ṇ");
    reveal_strlit("ण");
    reveal_strlit("ṃ");
    reveal_strlit("ं");
    reveal_strlit("ḥ");
    reveal_strlit("ः");
    reveal_strlit("ā");
    reveal_strlit("आ");
    reveal_strlit("ī");
    reveal_strlit("ई");
    reveal_strlit("ū");
    reveal_strlit("ऊ");
    reveal_strlit("ṝ");
    reveal_strlit("ॠ");
    reveal_strlit("ṛ");
    reveal_strlit("ऋ");
    reveal_strlit("ḷ");
    reveal_strlit("ऌ");
    reveal_strlit("a");
    reveal_strlit("अ");
    reveal_strlit("i");
    reveal_strlit("इ");
    reveal_strlit("u");
    reveal_strlit("उ");
    reveal_strlit("e");
    reveal_strlit("ए");
    reveal_strlit("o");
    reveal_strlit("ओ");
    reveal_strlit("k");
    reveal_strlit("क");
    reveal_strlit("g");
    reveal_strlit("ग");
    reveal_strlit("c");
    reveal_strlit("च");
    reveal_strlit("j");
    reveal_strlit("ज");
    reveal_strlit("ṭ");
    reveal_strlit("ट");
    reveal_strlit("ḍ");
    reveal_strlit("ड");
    reveal_strlit("t");
    reveal_strlit("त");
    reveal_strlit("d");
    reveal_strlit("द");
    reveal_strlit("n");
    reveal_strlit("न");
    reveal_strlit("p");
    reveal_strlit("प");
    reveal_strlit("b");
    reveal_strlit("ब");
    reveal_strlit("m");
    reveal_strlit("म");
    reveal_strlit("y");
    reveal_strlit("य");
    reveal_strlit("r");
    reveal_strlit("र");
    reveal_strlit("l");
    reveal_strlit("ल");
    reveal_strlit("v");
    reveal_strlit("व");
    reveal_strlit("ś");
    reveal_strlit("श");
    reveal_strlit("ṣ");
    reveal_strlit("ष");
    reveal_strlit("s");
    reveal_strlit("स");
    reveal_strlit("h");
    reveal_strlit("ह");
    assert(" "@[0] != "क"@[0]);
    assert(" "@[0] != "ख"@[0]);
    assert(" "@[0] != "ग"@[0]);
    assert(" "@[0] != "घ"@[0]);
    assert(" "@[0] != "ङ"@[0]);
    assert(" "@[0] != "च"@[0]);
    assert(" "@[0] != "छ"@[0]);
    assert(" "@[0] != "ज"@[0]);
    assert(" "@[0] != "झ"@[0]);
    assert(" "@[0] != "ञ"@[0]);
    assert(" "@[0] != "ट"@[0]);
    assert(" "@[0] != "ठ"@[0]);
    assert(" "@[0] != "ड"@[0]);
    assert(" "@[0] != "ढ"@[0]);
    assert(" "@[0] != "ण"@[0]);
    assert(" "@[0] != "त"@[0]);
    assert(" "@[0] != "थ"@[0]);
    assert(" "@[0] != "द"@[0]);
    assert(" "@[0] != "ध"@[0]);
    assert(" "@[0] != "न"@[0]);
    assert(" "@[0] != "प"@[0]);
    assert(" "@[0] != "फ"@[0]);
    assert(" "@[0] != "ब"@[0]);
    assert(" "@[0] != "भ"@[0]);
    assert(" "@[0] != "म"@[0]);
    assert(" "@[0] != "य"@[0]);
    assert(" "@[0] != "र"@[0]);
    assert(" "@[0] != "ल"@[0]);
    assert(" "@[0] != "व"@[0]);
    assert(" "@[0] != "श"@[0]);
    assert(" "@[0] != "ष"@[0]);
    assert(" "@[0] != "स"@[0]);
    assert(" "@[0] != "ह"@[0]);
    assert(" "@[0] != "ऐ"@[0]);
    assert(" "@[0] != "औ"@[0]);
    assert(" "@[0] != "आ"@[0]);
    assert(" "@[0] != "ई"@[0]);
    assert(" "@[0] != "ऊ"@[0]);
    assert(" "@[0] != "ॠ"@[0]);
    assert(" "@[0] != "ऋ"@[0]);
    assert(" "@[0] != "ऌ"@[0]);
    assert(" "@[0] != "अ"@[0]);
    assert(" "@[0] != "इ"@[0]);
    assert(" "@[0] != "उ"@[0]);
    assert(" "@[0] != "ए"@[0]);
    assert(" "@[0] != "ओ"@[0]);
}

/// Writing out letters that are followed by a non-vowel letter writes the
/// two parts apart.
proof fn lemma_render_concat(a: Seq<Seq<char>>, c: Seq<Seq<char>>)
    requires
        c.len() > 0,
        !vowel_akshara(c[0]),
    ensures
        render(a + c) == render(a) + render(c),
    decreases a.len(),
{
    let ac = a + c;
    if a.len() == 0 {
        assert(ac =~= c);
    } else if consonant_akshara(a[0]) && a.len() >= 2 && vowel_akshara(a[1]) {
        assert(ac[0] == a[0] && ac[1] == a[1]);
        assert(ac.skip(2) =~= a.skip(2) + c);
        lemma_render_concat(a.skip(2), c);
    } else {
        assert(ac[0] == a[0]);
        if consonant_akshara(a[0]) && a.len() == 1 {
            assert(ac[1] == c[0]);
            assert(a.skip(1) =~= Seq::<Seq<char>>::empty());
        } else if consonant_akshara(a[0]) {
            assert(ac[1] == a[1]);
        }
        assert(ac.skip(1) =~= a.skip(1) + c);
        lemma_render_concat(a.skip(1), c);
    }
}

/// Words separated by a space are spelt one by one: the spelling of
/// `a b` is the spelling of `a`, a space, then the spelling of `b` (so a
/// consonant that ends `a` takes the virāma).
pub proof fn law_spelling_splits_at_space(a: Seq<char>, b: Seq<char>)
    ensures
        devanagari_of(a + " "@ + b) == devanagari_of(a) + " "@ + devanagari_of(b),
{
    reveal_strlit(" ");
    let sp = " "@;
    crate::phoneme::lemma_phonemes_concat(sp, b);
    crate::phoneme::lemma_phonemes_concat(a, sp + b);
    assert(a + sp + b =~= a + (sp + b));
    assert(phonemes(sp) =~= seq![sp]) by {
        assert(crate::phoneme::head_len(sp) == 1);
        assert(sp.skip(1) =~= Seq::<char>::empty());
        assert(phonemes(sp.skip(1)) =~= Seq::<Seq<char>>::empty());
        assert(sp.subrange(0, 1) =~= sp);
    }
    let f = |t: Seq<char>| mapped(t);
    let pa = phonemes(a).map_values(f);
    let pb = phonemes(b).map_values(f);
    lemma_space_letter();
    let c = seq![sp] + pb;
    assert(phonemes(a + sp + b).map_values(f) =~= pa + c);
    lemma_render_concat(pa, c);
    assert(c[0] == sp);
    assert(c.skip(1) =~= pb);
    assert(render(c) == sp + render(pb));
}

} // verus!

