//! The rule cache: the rules of each template, by template slug.
use vstd::prelude::*;
use crate::params::CachedRule;
use crate::text::text_eq;

verus! {

/// A template slug and its rules.
pub type Entry = (Seq<char>, Seq<CachedRule>);

/// The position of a slug among the entries, if it is there.
pub open spec fn slot(entries: Seq<Entry>, slug: Seq<char>) -> Option<int> {
    if exists|i: int| 0 <= i < entries.len() && #[trigger] entries[i].0 == slug {
        Some(choose|i: int| 0 <= i < entries.len() && #[trigger] entries[i].0 == slug)
    } else {
        None
    }
}

/// The rules of a slug, if it has been loaded.
pub open spec fn lookup(entries: Seq<Entry>, slug: Seq<char>) -> Option<Seq<CachedRule>> {
    match slot(entries, slug) {
        Some(i) => Some(entries[i].1),
        None => None,
    }
}

/// The entries after loading `rules` under `slug`: a loaded slug keeps its
/// place and takes the new rules; a new slug comes last.
pub open spec fn upsert(entries: Seq<Entry>, slug: Seq<char>, rules: Seq<CachedRule>) -> Seq<Entry> {
    match slot(entries, slug) {
        Some(i) => entries.update(i, (slug, rules)),
        None => entries.push((slug, rules)),
    }
}

/// No slug occurs twice.
pub open spec fn distinct_slugs(entries: Seq<Entry>) -> bool {
    forall|i: int, j: int|
        0 <= i < entries.len() && 0 <= j < entries.len() && i != j ==> #[trigger] entries[i].0
            != #[trigger] entries[j].0
}

/// The number of rules over all entries.
pub open spec fn total(entries: Seq<Entry>) -> nat
    decreases entries.len(),
{
    if entries.len() == 0 {
        0
    } else {
        total(entries.drop_last()) + entries.last().1.len()
    }
}

/// The contents of stored entries.
pub open spec fn entries_view(v: Seq<(String, Vec<CachedRule>)>) -> Seq<Entry> {
    v.map_values(|e: (String, Vec<CachedRule>)| (e.0@, e.1@))
}

/// The rules of each template, by slug, in the order the slugs were first loaded.
pub struct RuleCache {
    templates: Vec<(String, Vec<CachedRule>)>,
}

impl RuleCache {
    /// The loaded slugs and their rules, in the order the slugs were first loaded.
    pub closed spec fn entries(&self) -> Seq<Entry> {
        entries_view(self.templates@)
    }

    /// No slug is stored twice, and the rules can be counted.
    #[verifier::type_invariant]
    closed spec fn well_formed(self) -> bool {
        &&& distinct_slugs(entries_view(self.templates@))
        &&& total(entries_view(self.templates@)) <= usize::MAX
    }

    /// An empty cache.
    pub fn new() -> (r: Self)
        ensures
            r.entries() == Seq::<Entry>::empty(),
            distinct_slugs(r.entries()),
    {
        let r = RuleCache { templates: Vec::new() };
        assert(entries_view(r.templates@) =~= Seq::<Entry>::empty());
        r
    }

    /// The position of a slug.
    fn find(&self, slug: &str) -> (r: Option<usize>)
        ensures
            r matches Some(i) ==> slot(self.entries(), slug@) == Some(i as int),
            r is None ==> slot(self.entries(), slug@) is None,
    {
        proof {
            use_type_invariant(self);
        }
        let ghost e = self.entries();
        let n = self.templates.len();
        let mut i: usize = 0;
        while i < n
            invariant
                n == self.templates@.len(),
                e == entries_view(self.templates@),
                distinct_slugs(e),
                i <= n,
                forall|j: int| 0 <= j < i ==> e[j].0 != slug@,
            decreases n - i,
        {
            if text_eq(self.templates[i].0.as_str(), slug) {
                assert(e[i as int].0 == slug@);
                proof {
                    let k = choose|k: int| 0 <= k < e.len() && #[trigger] e[k].0 == slug@;
                    if k != i {
                        assert(e[k].0 != e[i as int].0);
                    }
                }
                return Some(i);
            }
            i += 1;
        }
        None
    }

    /// Loads (or replaces) the rules of a template.
    pub fn load_template(&mut self, template_slug: String, rules: Vec<CachedRule>)
        requires
            total(old(self).entries()) + rules@.len() <= usize::MAX,
        ensures
            final(self).entries() == upsert(old(self).entries(), template_slug@, rules@),
            distinct_slugs(final(self).entries()),
    {
        proof {
            use_type_invariant(&*self);
        }
        let ghost e0 = self.entries();
        let pos = self.find(template_slug.as_str());
        let mut v: Vec<(String, Vec<CachedRule>)> = Vec::new();
        std::mem::swap(&mut v, &mut self.templates);
        assert(entries_view(v@) == e0);
        let ghost slug = template_slug@;
        let ghost rs = rules@;
        match pos {
            Some(i) => {
                v.set(i, (template_slug, rules));
                proof {
                    assert(entries_view(v@) =~= e0.update(i as int, (slug, rs)));
                    lemma_total_update(e0, i as int, (slug, rs));
                    lemma_total_bound(e0, i as int);
                }
            },
            None => {
                v.push((template_slug, rules));
                proof {
                    assert(entries_view(v@) =~= e0.push((slug, rs)));
                    assert(e0.push((slug, rs)).drop_last() =~= e0);
                }
            },
        }
        self.templates = v;
    }

    /// The rules of a template; none when it has not been loaded.
    pub fn get_rules(&self, template_slug: &str) -> (r: &[CachedRule])
        ensures
            r@ == match lookup(self.entries(), template_slug@) {
                Some(rs) => rs,
                None => Seq::empty(),
            },
    {
        match self.find(template_slug) {
            Some(i) => self.templates[i].1.as_slice(),
            None => {
                let r: &[CachedRule] = &[];
                assert(r@ =~= Seq::<CachedRule>::empty());
                r
            },
        }
    }

    /// The number of templates loaded.
    pub fn template_count(&self) -> (r: usize)
        ensures
            r == self.entries().len(),
    {
        self.templates.len()
    }

    /// The number of rules of a template.
    pub fn rule_count(&self, template_slug: &str) -> (r: usize)
        ensures
            r == match lookup(self.entries(), template_slug@) {
                Some(rs) => rs.len(),
                None => 0,
            },
    {
        self.get_rules(template_slug).len()
    }

    /// The number of rules over all templates.
    pub fn total_rules(&self) -> (r: usize)
        ensures
            r == total(self.entries()),
    {
        proof {
            use_type_invariant(self);
        }
        let ghost e = self.entries();
        let n = self.templates.len();
        let mut sum: usize = 0;
        let mut i: usize = 0;
        while i < n
            invariant
                n == self.templates@.len(),
                e == entries_view(self.templates@),
                total(e) <= usize::MAX,
                i <= n,
                sum == total(e.take(i as int)),
            decreases n - i,
        {
            proof {
                assert(e.take(i + 1).drop_last() =~= e.take(i as int));
                lemma_total_prefix(e, i + 1);
            }
            sum = sum + self.templates[i].1.len();
            i += 1;
        }
        assert(e.take(n as int) =~= e);
        sum
    }

    /// Every template's slug and rules, in the order the slugs were first loaded.
    pub fn all_templates(&self) -> (r: Vec<(&str, &[CachedRule])>)
        ensures
            r@.map_values(|p: (&str, &[CachedRule])| (p.0@, p.1@)) == self.entries(),
    {
        let n = self.templates.len();
        let mut out: Vec<(&str, &[CachedRule])> = Vec::new();
        let mut i: usize = 0;
        while i < n
            invariant
                n == self.templates@.len(),
                i <= n,
                out@.map_values(|p: (&str, &[CachedRule])| (p.0@, p.1@)) == self.entries().take(
                    i as int,
                ),
            decreases n - i,
        {
            let ghost before = out@.map_values(|p: (&str, &[CachedRule])| (p.0@, p.1@));
            out.push((self.templates[i].0.as_str(), self.templates[i].1.as_slice()));
            assert(out@.map_values(|p: (&str, &[CachedRule])| (p.0@, p.1@)) =~= before.push(
                self.entries()[i as int],
            ));
            assert(self.entries().take(i + 1) =~= self.entries().take(i as int).push(
                self.entries()[i as int],
            ));
            i += 1;
        }
        assert(self.entries().take(n as int) =~= self.entries());
        out
    }
}

/// The total of a prefix grows by the next entry's rules and stays below the whole.
proof fn lemma_total_prefix(e: Seq<Entry>, k: int)
    requires
        0 < k <= e.len(),
    ensures
        total(e.take(k)) == total(e.take(k - 1)) + e[k - 1].1.len(),
        total(e.take(k)) <= total(e),
    decreases e.len() - k,
{
    assert(e.take(k).drop_last() =~= e.take(k - 1));
    if k < e.len() {
        lemma_total_prefix(e, k + 1);
    } else {
        assert(e.take(k) =~= e);
    }
}

/// Replacing an entry changes the total by the difference in its rules.
proof fn lemma_total_update(e: Seq<Entry>, i: int, x: Entry)
    requires
        0 <= i < e.len(),
    ensures
        total(e.update(i, x)) + e[i].1.len() == total(e) + x.1.len(),
    decreases e.len(),
{
    if i == e.len() - 1 {
        assert(e.update(i, x).drop_last() =~= e.drop_last());
    } else {
        assert(e.update(i, x).drop_last() =~= e.drop_last().update(i, x));
        lemma_total_update(e.drop_last(), i, x);
    }
}

/// Each entry's rules count towards the total.
proof fn lemma_total_bound(e: Seq<Entry>, i: int)
    requires
        0 <= i < e.len(),
    ensures
        e[i].1.len() <= total(e),
    decreases e.len(),
{
    if i < e.len() - 1 {
        lemma_total_bound(e.drop_last(), i);
    }
}


/// The slot of a slug among distinct entries is the one entry that holds it.
proof fn lemma_slot_is(e: Seq<Entry>, slug: Seq<char>, i: int)
    requires
        distinct_slugs(e),
        0 <= i < e.len(),
        e[i].0 == slug,
    ensures
        slot(e, slug) == Some(i),
{
    let k = choose|k: int| 0 <= k < e.len() && #[trigger] e[k].0 == slug;
    if k != i {
        assert(e[k].0 != e[i].0);
    }
}

/// Loading keeps the slugs distinct.
pub proof fn lemma_load_distinct(e: Seq<Entry>, slug: Seq<char>, rules: Seq<CachedRule>)
    requires
        distinct_slugs(e),
    ensures
        distinct_slugs(upsert(e, slug, rules)),
{
    let u = upsert(e, slug, rules);
    match slot(e, slug) {
        Some(i) => {
            assert forall|a: int, b: int|
                0 <= a < u.len() && 0 <= b < u.len() && a != b implies #[trigger] u[a].0 != #[trigger] u[b].0 by {
                if a != i && b != i {
                    assert(e[a].0 != e[b].0);
                } else if a == i {
                    assert(e[b].0 != e[i].0);
                } else {
                    assert(e[a].0 != e[i].0);
                }
            }
        },
        None => {
            assert forall|a: int, b: int|
                0 <= a < u.len() && 0 <= b < u.len() && a != b implies #[trigger] u[a].0 != #[trigger] u[b].0 by {
                if a < e.len() && b < e.len() {
                    assert(e[a].0 != e[b].0);
                } else if a < e.len() {
                    assert(e[a].0 != slug);
                } else {
                    assert(e[b].0 != slug);
                }
            }
        },
    }
}

/// After rules are loaded under a slug, that slug gives exactly those rules.
pub proof fn law_load_then_get(e: Seq<Entry>, slug: Seq<char>, rules: Seq<CachedRule>)
    requires
        distinct_slugs(e),
    ensures
        lookup(upsert(e, slug, rules), slug) == Some(rules),
{
    lemma_load_distinct(e, slug, rules);
    let u = upsert(e, slug, rules);
    match slot(e, slug) {
        Some(i) => {
            lemma_slot_is(u, slug, i);
        },
        None => {
            lemma_slot_is(u, slug, e.len() as int);
        },
    }
}

/// Loading rules under one slug leaves every other slug as it was.
pub proof fn law_load_leaves_others(e: Seq<Entry>, slug: Seq<char>, rules: Seq<CachedRule>, other: Seq<char>)
    requires
        distinct_slugs(e),
        other != slug,
    ensures
        lookup(upsert(e, slug, rules), other) == lookup(e, other),
{
    lemma_load_distinct(e, slug, rules);
    let u = upsert(e, slug, rules);
    match slot(e, other) {
        Some(j) => {
            assert(u[j].0 == other);
            lemma_slot_is(u, other, j);
        },
        None => {
            if exists|k: int| 0 <= k < u.len() && #[trigger] u[k].0 == other {
                let k = choose|k: int| 0 <= k < u.len() && #[trigger] u[k].0 == other;
                if k < e.len() {
                    assert(e[k].0 == other);
                }
            }
        },
    }
}

/// Loading adds a template exactly when its slug is new, and changes the
/// number of rules by the difference between the new rules and the old.
pub proof fn law_load_counts(e: Seq<Entry>, slug: Seq<char>, rules: Seq<CachedRule>)
    requires
        distinct_slugs(e),
    ensures
        upsert(e, slug, rules).len() == e.len() + if lookup(e, slug) is Some {
            0int
        } else {
            1int
        },
        total(upsert(e, slug, rules)) + match lookup(e, slug) {
            Some(old) => old.len(),
            None => 0,
        } == total(e) + rules.len(),
{
    match slot(e, slug) {
        Some(i) => {
            lemma_total_update(e, i, (slug, rules));
        },
        None => {
            assert(e.push((slug, rules)).drop_last() =~= e);
        },
    }
}

/// Loading the same rules twice leaves the cache as one load does.
pub proof fn law_load_twice(e: Seq<Entry>, slug: Seq<char>, rules: Seq<CachedRule>)
    requires
        distinct_slugs(e),
    ensures
        upsert(upsert(e, slug, rules), slug, rules) == upsert(e, slug, rules),
{
    lemma_load_distinct(e, slug, rules);
    let u = upsert(e, slug, rules);
    match slot(e, slug) {
        Some(i) => {
            lemma_slot_is(u, slug, i);
            assert(u.update(i, (slug, rules)) =~= u);
        },
        None => {
            lemma_slot_is(u, slug, e.len() as int);
            assert(u.update(e.len() as int, (slug, rules)) =~= u);
        },
    }
}

} // verus!
