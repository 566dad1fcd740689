//! Phoneme-aware segmentation of IAST text.
//!
//! A phoneme is one character, except the diphthongs `ai`, `au` and the
//! aspirated stops `kh gh ch jh ṭh ḍh th dh ph bh`, which are two characters.
//! Segmentation is greedy from the left.
use vstd::prelude::*;
use crate::text::{is_prefix_of, is_suffix_of, text_slice};

verus! {

broadcast use vstd::seq::Seq::group_seq_flatten;

/// Stops that form an aspirate with a following `h`.
pub open spec fn is_aspirable(c: char) -> bool {
    c == 'k' || c == 'g' || c == 'c' || c == 'j' || c == 'ṭ' || c == 'ḍ' || c == 't' || c == 'd'
        || c == 'p' || c == 'b'
}

/// Two characters that together spell one phoneme.
pub open spec fn joins_as_one(c1: char, c2: char) -> bool {
    (c2 == 'h' && is_aspirable(c1)) || (c1 == 'a' && (c2 == 'i' || c2 == 'u'))
}

/// Length in characters of the first phoneme of a non-empty text.
pub open spec fn head_len(s: Seq<char>) -> int {
    if s.len() >= 2 && joins_as_one(s[0], s[1]) {
        2
    } else {
        1
    }
}

/// The phonemes of a text, left to right.
pub open spec fn phonemes(s: Seq<char>) -> Seq<Seq<char>>
    decreases s.len(),
{
    if s.len() == 0 {
        Seq::empty()
    } else {
        seq![s.subrange(0, head_len(s))] + phonemes(s.skip(head_len(s)))
    }
}

/// The texts held by a vector of strings.
pub open spec fn views(v: Seq<String>) -> Seq<Seq<char>> {
    v.map_values(|t: String| t@)
}

/// The vowel phonemes: a ā i ī u ū ṛ ṝ ḷ e ai o au.
pub open spec fn is_vowel_phoneme(t: Seq<char>) -> bool {
    (t.len() == 1 && is_vowel_char(t[0])) || t == seq!['a', 'i'] || t == seq!['a', 'u']
}

/// Single-character vowels.
pub open spec fn is_vowel_char(c: char) -> bool {
    c == 'a' || c == 'ā' || c == 'i' || c == 'ī' || c == 'u' || c == 'ū' || c == 'ṛ' || c == 'ṝ'
        || c == 'ḷ' || c == 'e' || c == 'o'
}

/// The first phoneme of a text, if any.
pub open spec fn first_phoneme_of(s: Seq<char>) -> Option<Seq<char>> {
    if s.len() == 0 {
        None
    } else {
        Some(phonemes(s)[0])
    }
}

/// The last phoneme of a text, if any.
pub open spec fn last_phoneme_of(s: Seq<char>) -> Option<Seq<char>> {
    if s.len() == 0 {
        None
    } else {
        Some(phonemes(s).last())
    }
}

/// The phonemes of `pat` end the phonemes of `s`.
pub open spec fn phoneme_suffix(s: Seq<char>, pat: Seq<char>) -> bool {
    is_suffix_of(phonemes(pat), phonemes(s))
}

/// The phonemes of `pat` begin the phonemes of `s`.
pub open spec fn phoneme_prefix(s: Seq<char>, pat: Seq<char>) -> bool {
    is_prefix_of(phonemes(pat), phonemes(s))
}

/// `s` with the phonemes of `pat` removed from its end.
pub open spec fn strip_phoneme_suffix(s: Seq<char>, pat: Seq<char>) -> Seq<char> {
    phonemes(s).take(phonemes(s).len() - phonemes(pat).len()).flatten()
}

/// `s` with the phonemes of `pat` removed from its start.
pub open spec fn strip_phoneme_prefix(s: Seq<char>, pat: Seq<char>) -> Seq<char> {
    phonemes(s).skip(phonemes(pat).len() as int).flatten()
}

/// Gluing the phonemes of a text back together gives the text.
pub proof fn lemma_phonemes_flatten(s: Seq<char>)
    ensures
        phonemes(s).flatten() == s,
    decreases s.len(),
{
    if s.len() > 0 {
        let k = head_len(s);
        lemma_phonemes_flatten(s.skip(k));
        vstd::seq_lib::lemma_flatten_concat(seq![s.subrange(0, k)], phonemes(s.skip(k)));
        assert(seq![s.subrange(0, k)].flatten() == s.subrange(0, k));
        assert(s.subrange(0, k) + s.skip(k) =~= s);
    }
}

/// Two texts whose meeting characters do not spell one phoneme tokenize apart:
/// the phonemes of the joined text are those of the first, then those of the
/// second.
pub proof fn lemma_phonemes_concat(x: Seq<char>, y: Seq<char>)
    requires
        x.len() > 0 && y.len() > 0 ==> !joins_as_one(x.last(), y[0]),
    ensures
        phonemes(x + y) == phonemes(x) + phonemes(y),
    decreases x.len(),
{
    if x.len() == 0 {
        assert(x + y =~= y);
        assert(phonemes(x) =~= Seq::<Seq<char>>::empty());
        assert(phonemes(x) + phonemes(y) =~= phonemes(y));
    } else {
        let xy = x + y;
        let h = head_len(x);
        assert(head_len(xy) == h);
        assert(xy.subrange(0, h) =~= x.subrange(0, h));
        assert(xy.skip(h) =~= x.skip(h) + y);
        if x.skip(h).len() > 0 {
            assert(x.skip(h).last() == x.last());
        }
        lemma_phonemes_concat(x.skip(h), y);
        assert(phonemes(xy) =~= phonemes(x) + phonemes(y));
    }
}

/// Every phoneme is one or two characters long.
pub proof fn lemma_phonemes_sizes(s: Seq<char>)
    ensures
        forall|i: int|
            0 <= i < phonemes(s).len() ==> 1 <= #[trigger] phonemes(s)[i].len() <= 2,
    decreases s.len(),
{
    if s.len() > 0 {
        let k = head_len(s);
        lemma_phonemes_sizes(s.skip(k));
        let p = phonemes(s);
        assert forall|i: int| 0 <= i < p.len() implies 1 <= #[trigger] p[i].len() <= 2 by {
            if i > 0 {
                assert(p[i] == phonemes(s.skip(k))[i - 1]);
            }
        }
    }
}

/// A text is empty exactly when it has no phonemes.
pub proof fn lemma_phonemes_empty(s: Seq<char>)
    ensures
        (phonemes(s).len() == 0) == (s.len() == 0),
{
}

/// The phonemes of `s` from position `i` are the next phoneme followed by the rest.
proof fn lemma_phonemes_step(s: Seq<char>, i: int)
    requires
        0 <= i < s.len(),
    ensures
        phonemes(s.skip(i)) == seq![s.subrange(i, i + head_len(s.skip(i)))] + phonemes(
            s.skip(i + head_len(s.skip(i))),
        ),
{
    let t = s.skip(i);
    let k = head_len(t);
    assert(t.subrange(0, k) =~= s.subrange(i, i + k));
    assert(t.skip(k) =~= s.skip(i + k));
}

/// Whether a character spells half of a two-character phoneme with the next.
fn joins(c1: char, c2: char) -> (r: bool)
    ensures
        r == joins_as_one(c1, c2),
{
    (c2 == 'h' && (c1 == 'k' || c1 == 'g' || c1 == 'c' || c1 == 'j' || c1 == 'ṭ' || c1 == 'ḍ'
        || c1 == 't' || c1 == 'd' || c1 == 'p' || c1 == 'b')) || (c1 == 'a' && (c2 == 'i' || c2
        == 'u'))
}

/// Length of the phoneme starting at position `i`.
fn phoneme_len_at(s: &str, n: usize, i: usize) -> (k: usize)
    requires
        n == s@.len(),
        i < n,
    ensures
        k == head_len(s@.skip(i as int)),
        i + k <= n,
{
    let t = Ghost(s@.skip(i as int));
    if i + 1 < n && joins(s.get_char(i), s.get_char(i + 1)) {
        assert(t@[0] == s@[i as int] && t@[1] == s@[i + 1]);
        2
    } else {
        proof {
            if t@.len() >= 2 {
                assert(t@[0] == s@[i as int] && t@[1] == s@[i + 1]);
            }
        }
        1
    }
}

/// Splits a text into its phonemes.
pub fn tokenize(s: &str) -> (r: Vec<String>)
    ensures
        views(r@) == phonemes(s@),
{
    let n = s.unicode_len();
    let mut out: Vec<String> = Vec::new();
    let mut i: usize = 0;
    assert(s@.skip(0) =~= s@);
    while i < n
        invariant
            n == s@.len(),
            i <= n,
            views(out@) + phonemes(s@.skip(i as int)) == phonemes(s@),
        decreases n - i,
    {
        let k = phoneme_len_at(s, n, i);
        let tok = text_slice(s, i, i + k);
        proof {
            lemma_phonemes_step(s@, i as int);
        }
        let ghost before = views(out@);
        out.push(tok);
        assert(views(out@) =~= before.push(tok@));
        assert(views(out@) + phonemes(s@.skip(i + k)) =~= before + phonemes(s@.skip(i as int)));
        i = i + k;
    }
    assert(s@.skip(n as int).len() == 0);
    assert(views(out@) =~= views(out@) + phonemes(s@.skip(n as int)));
    out
}

/// Concatenation of the tokens between positions `from` and `to`.
pub fn join_tokens(tokens: &Vec<String>, from: usize, to: usize) -> (r: String)
    requires
        from <= to <= tokens@.len(),
    ensures
        r@ == views(tokens@).subrange(from as int, to as int).flatten(),
{
    let mut r = String::new();
    let mut i = from;
    assert(views(tokens@).subrange(from as int, from as int) =~= Seq::<Seq<char>>::empty());
    while i < to
        invariant
            from <= i <= to <= tokens@.len(),
            r@ == views(tokens@).subrange(from as int, i as int).flatten(),
        decreases to - i,
    {
        r.append(tokens[i].as_str());
        assert(views(tokens@).subrange(from as int, i + 1) =~= views(tokens@).subrange(
            from as int,
            i as int,
        ).push(tokens@[i as int]@));
        i += 1;
    }
    r
}

/// The first phoneme of a text.
pub fn first_phoneme(s: &str) -> (r: Option<String>)
    ensures
        r matches Some(t) ==> first_phoneme_of(s@) == Some(t@),
        r is None ==> first_phoneme_of(s@) is None,
{
    let n = s.unicode_len();
    if n == 0 {
        None
    } else {
        let k = phoneme_len_at(s, n, 0);
        assert(s@.skip(0) =~= s@);
        Some(text_slice(s, 0, k))
    }
}

/// The last phoneme of a text.
pub fn last_phoneme(s: &str) -> (r: Option<String>)
    ensures
        r matches Some(t) ==> last_phoneme_of(s@) == Some(t@),
        r is None ==> last_phoneme_of(s@) is None,
{
    let toks = tokenize(s);
    let n = toks.len();
    if n == 0 {
        proof {
            lemma_phonemes_empty(s@);
        }
        None
    } else {
        proof {
            lemma_phonemes_empty(s@);
            assert(views(toks@)[n - 1] == toks@[n - 1]@);
        }
        Some(toks[n - 1].clone())
    }
}

/// Whether the phonemes of `pat` end the phonemes of `s`.
pub fn phoneme_ends_with(s: &str, pat: &str) -> (r: bool)
    ensures
        r == phoneme_suffix(s@, pat@),
{
    let a = tokenize(s);
    let b = tokenize(pat);
    tokens_end_with(&a, &b)
}

/// Whether the tokens `b` end the tokens `a`.
fn tokens_end_with(a: &Vec<String>, b: &Vec<String>) -> (r: bool)
    ensures
        r == is_suffix_of(views(b@), views(a@)),
{
    let n = a.len();
    let m = b.len();
    if m > n {
        return false;
    }
    let off = n - m;
    let mut i: usize = 0;
    while i < m
        invariant
            n == a@.len(),
            m == b@.len(),
            off == n - m,
            i <= m,
            forall|j: int| 0 <= j < i ==> views(a@)[off + j] == views(b@)[j],
        decreases m - i,
    {
        if a[off + i] != b[i] {
            proof {
                if is_suffix_of(views(b@), views(a@)) {
                    assert(views(a@).subrange(off as int, n as int)[i as int] == views(a@)[off
                        + i]);
                }
            }
            return false;
        }
        i += 1;
    }
    assert(views(a@).subrange(off as int, n as int) =~= views(b@));
    true
}

/// Whether the tokens `b` begin the tokens `a`.
fn tokens_start_with(a: &Vec<String>, b: &Vec<String>) -> (r: bool)
    ensures
        r == is_prefix_of(views(b@), views(a@)),
{
    let n = a.len();
    let m = b.len();
    if m > n {
        return false;
    }
    let mut i: usize = 0;
    while i < m
        invariant
            n == a@.len(),
            m == b@.len(),
            m <= n,
            i <= m,
            forall|j: int| 0 <= j < i ==> views(a@)[j] == views(b@)[j],
        decreases m - i,
    {
        if a[i] != b[i] {
            proof {
                if is_prefix_of(views(b@), views(a@)) {
                    assert(views(a@).subrange(0, m as int)[i as int] == views(a@)[i as int]);
                }
            }
            return false;
        }
        i += 1;
    }
    assert(views(a@).subrange(0, m as int) =~= views(b@));
    true
}

/// Whether the phonemes of `pat` begin the phonemes of `s`.
pub fn phoneme_starts_with(s: &str, pat: &str) -> (r: bool)
    ensures
        r == phoneme_prefix(s@, pat@),
{
    let a = tokenize(s);
    let b = tokenize(pat);
    tokens_start_with(&a, &b)
}

/// `s` without the phonemes of `pat` at its end, when they are there.
pub fn phoneme_strip_suffix(s: &str, pat: &str) -> (r: Option<String>)
    ensures
        r is Some == phoneme_suffix(s@, pat@),
        r matches Some(t) ==> t@ == strip_phoneme_suffix(s@, pat@),
{
    let a = tokenize(s);
    let b = tokenize(pat);
    if tokens_end_with(&a, &b) {
        let r = join_tokens(&a, 0, a.len() - b.len());
        assert(views(a@).subrange(0, a@.len() - b@.len()) =~= views(a@).take(
            a@.len() - b@.len(),
        ));
        Some(r)
    } else {
        None
    }
}

/// `s` without the phonemes of `pat` at its start, when they are there.
pub fn phoneme_strip_prefix(s: &str, pat: &str) -> (r: Option<String>)
    ensures
        r is Some == phoneme_prefix(s@, pat@),
        r matches Some(t) ==> t@ == strip_phoneme_prefix(s@, pat@),
{
    let a = tokenize(s);
    let b = tokenize(pat);
    if tokens_start_with(&a, &b) {
        let r = join_tokens(&a, b.len(), a.len());
        assert(views(a@).subrange(b@.len() as int, a@.len() as int) =~= views(a@).skip(
            b@.len() as int,
        ));
        Some(r)
    } else {
        None
    }
}

/// Whether a phoneme is a vowel.
pub fn is_vowel(t: &str) -> (r: bool)
    ensures
        r == is_vowel_phoneme(t@),
{
    let n = t.unicode_len();
    if n == 1 {
        let c = t.get_char(0);
        proof {
            if t@ == seq!['a', 'i'] || t@ == seq!['a', 'u'] {
                assert(t@.len() == 2);
            }
        }
        c == 'a' || c == 'ā' || c == 'i' || c == 'ī' || c == 'u' || c == 'ū' || c == 'ṛ' || c
            == 'ṝ' || c == 'ḷ' || c == 'e' || c == 'o'
    } else if n == 2 {
        let c0 = t.get_char(0);
        let c1 = t.get_char(1);
        let r = c0 == 'a' && (c1 == 'i' || c1 == 'u');
        proof {
            if r {
                if c1 == 'i' {
                    assert(t@ =~= seq!['a', 'i']);
                } else {
                    assert(t@ =~= seq!['a', 'u']);
                }
            } else {
                if t@ == seq!['a', 'i'] {
                    assert(t@[0] == 'a' && t@[1] == 'i');
                }
                if t@ == seq!['a', 'u'] {
                    assert(t@[0] == 'a' && t@[1] == 'u');
                }
            }
        }
        r
    } else {
        proof {
            if t@ == seq!['a', 'i'] || t@ == seq!['a', 'u'] {
                assert(t@.len() == 2);
            }
        }
        false
    }
}

} // verus!
