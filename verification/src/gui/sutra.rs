//! The sūtra tab: the index of cited sūtras and a search over it.
use vstd::prelude::*;
use crate::engine::somes;
use crate::rule_cache::RuleCache;
use crate::script::{lowercase, to_lowercase};
use crate::service::{SutraEntry, sutra_index};

verus! {

/// The index shown, whether it is loaded, and the search text.
pub struct State {
    pub loaded: bool,
    pub all_sutras: Vec<SutraEntry>,
    pub filter: String,
}

/// The events of the tab: the index is ready, or the search text changed.
pub enum Message {
    Loaded(Vec<SutraEntry>),
    FilterChanged(String),
}

impl State {
    /// Nothing loaded, no search.
    pub fn new() -> (r: State)
        ensures
            !r.loaded,
            r.all_sutras@.len() == 0,
            r.filter@.len() == 0,
    {
        State { loaded: false, all_sutras: Vec::new(), filter: String::new() }
    }
}

/// Takes the index in, or the new search text.
pub fn update(state: &mut State, msg: Message)
    ensures
        match msg {
            Message::Loaded(entries) => final(state).all_sutras == entries && final(state).loaded
                && final(state).filter == old(state).filter,
            Message::FilterChanged(v) => final(state).filter == v && final(state).loaded == old(
                state,
            ).loaded && final(state).all_sutras == old(state).all_sutras,
        },
{
    match msg {
        Message::Loaded(entries) => {
            state.all_sutras = entries;
            state.loaded = true;
        },
        Message::FilterChanged(v) => {
            state.filter = v;
        },
    }
}

/// The sūtra index of the cached rules.
pub fn collect_sutras(cache: &RuleCache) -> (r: Vec<SutraEntry>)
    ensures
        r@.map_values(|s: SutraEntry| crate::service::sutra_view(s)) == Seq::new(
            crate::service::sutra_keys(cache.entries()).len(),
            |j: int|
                (
                    crate::service::sutra_keys(cache.entries())[j],
                    crate::service::first_statement(cache.entries(), crate::service::sutra_keys(cache.entries())[j]),
                    crate::service::citing_templates(cache.entries(), crate::service::sutra_keys(cache.entries())[j]),
                ),
        ),
{
    sutra_index(cache)
}

/// `needle` occurs in `hay`.
pub open spec fn contains_text(hay: Seq<char>, needle: Seq<char>) -> bool {
    exists|i: int| 0 <= i && i + needle.len() <= hay.len() && #[trigger] hay.subrange(i, i + needle.len()) == needle
}

/// An index entry matches a (lowercased) search: an empty search, or the search
/// found in its sūtra, in its lowercased statement, or in a lowercased template.
pub open spec fn entry_matches(e: SutraEntry, q: Seq<char>) -> bool {
    ||| q.len() == 0
    ||| contains_text(e.sutra@, q)
    ||| contains_text(lowercase(e.statement@), q)
    ||| exists|t: int| 0 <= t < e.templates@.len() && contains_text(lowercase(#[trigger] e.templates@[t]@), q)
}

/// Whether `needle` occurs in `hay`.
pub fn text_contains(hay: &str, needle: &str) -> (r: bool)
    ensures
        r == contains_text(hay@, needle@),
{
    let n = hay.unicode_len();
    let m = needle.unicode_len();
    if m > n {
        return false;
    }
    let mut i: usize = 0;
    while i <= n - m
        invariant
            n == hay@.len(),
            m == needle@.len(),
            m <= n,
            i <= n - m + 1,
            forall|j: int| 0 <= j < i ==> #[trigger] hay@.subrange(j, j + needle@.len()) != needle@,
        decreases n - m + 1 - i,
    {
        let mut k: usize = 0;
        let mut same = true;
        while k < m
            invariant
                n == hay@.len(),
                m == needle@.len(),
                i + m <= n,
                k <= m,
                same == forall|q: int| 0 <= q < k ==> hay@[i + q] == needle@[q],
            decreases m - k,
        {
            if hay.get_char(i + k) != needle.get_char(k) {
                same = false;
            }
            k += 1;
        }
        if same {
            assert(hay@.subrange(i as int, i + m) =~= needle@);
            return true;
        } else {
            proof {
                let q = choose|q: int| 0 <= q < m && hay@[i + q] != needle@[q];
                assert(hay@.subrange(i as int, i + needle@.len())[q] == hay@[i + q]);
            }
        }
        i += 1;
    }
    proof {
        if contains_text(hay@, needle@) {
            let j = choose|j: int| 0 <= j && j + needle@.len() <= hay@.len() && #[trigger] hay@.subrange(j, j + needle@.len()) == needle@;
            assert(j < i);
        }
    }
    false
}

/// Whether an index entry matches a lowercased search.
fn matches_query(e: &SutraEntry, q: &str) -> (r: bool)
    ensures
        r == entry_matches(*e, q@),
{
    if q.unicode_len() == 0 || text_contains(e.sutra.as_str(), q) || text_contains(
        to_lowercase(e.statement.as_str()).as_str(),
        q,
    ) {
        return true;
    }
    let n = e.templates.len();
    let mut t: usize = 0;
    while t < n
        invariant
            n == e.templates@.len(),
            t <= n,
            forall|j: int| 0 <= j < t ==> !contains_text(lowercase(#[trigger] e.templates@[j]@), q@),
        decreases n - t,
    {
        if text_contains(to_lowercase(e.templates[t].as_str()).as_str(), q) {
            return true;
        }
        t += 1;
    }
    false
}

/// The positions of the index entries that match the search (lowercased), in order.
pub fn visible_sutras(state: &State) -> (r: Vec<usize>)
    ensures
        crate::engine::as_ints(r@) == somes(
            Seq::new(
                state.all_sutras@.len(),
                |i: int|
                    if entry_matches(state.all_sutras@[i], lowercase(state.filter@)) {
                        Some(i)
                    } else {
                        None
                    },
            ),
        ),
{
    let q = to_lowercase(state.filter.as_str());
    let n = state.all_sutras.len();
    let ghost f = |i: int|
        if entry_matches(state.all_sutras@[i], lowercase(state.filter@)) {
            Some(i)
        } else {
            None
        };
    let mut out: Vec<usize> = Vec::new();
    let mut i: usize = 0;
    while i < n
        invariant
            n == state.all_sutras@.len(),
            q@ == lowercase(state.filter@),
            i <= n,
            f == (|i: int|
                if entry_matches(state.all_sutras@[i], lowercase(state.filter@)) {
                    Some(i)
                } else {
                    None
                }),
            crate::engine::as_ints(out@) == somes(Seq::new(i as nat, f)),
        decreases n - i,
    {
        assert(Seq::new((i + 1) as nat, f).drop_last() =~= Seq::new(i as nat, f));
        if matches_query(&state.all_sutras[i], q.as_str()) {
            let ghost before = crate::engine::as_ints(out@);
            out.push(i);
            assert(crate::engine::as_ints(out@) =~= before.push(i as int));
        }
        i += 1;
    }
    assert(Seq::new(n as nat, f) =~= Seq::new(
        state.all_sutras@.len(),
        |i: int|
            if entry_matches(state.all_sutras@[i], lowercase(state.filter@)) {
                Some(i)
            } else {
                None
            },
    ));
    out
}

} // verus!
