//! The variants of one key's value, one for each locale that tags it, and the
//! choice among them for the locale that a caller asks for.

use crate::locale::{
    default_locale, lemma_own_level_is_best, level_rank, own_level, spec_match_level, Locale,
    LocaleView,
};
use crate::table::{distinct_keys, key_index, lemma_key_index, lemma_put, lookup, put, Table};
use vstd::prelude::*;

verus! {

/// The mathematical value of a `LocalisedValue`: the variants in order, each a
/// locale with its text.
pub type Variants = Seq<(LocaleView, Seq<char>)>;

/// The raw texts of one key, each with the locale that tags it.
#[derive(Debug, PartialEq, Eq, Clone)]
pub struct LocalisedValue {
    pub localised_value: Vec<(Locale, String)>,
}

impl DeepView for LocalisedValue {
    type V = Variants;

    open spec fn deep_view(&self) -> Variants {
        self.localised_value.deep_view()
    }
}

impl View for LocalisedValue {
    type V = Variants;

    open spec fn view(&self) -> Variants {
        self.localised_value.deep_view()
    }
}

/// How well the variant at `i` matches `query`: 0 for no match.
pub open spec fn rank_at(variants: Variants, query: LocaleView, i: int) -> int {
    level_rank(spec_match_level(query, variants[i].0))
}

/// The index of the variant that matches `query` best, or -1 if none matches.
/// Among variants that match equally well it is the last.
pub open spec fn best_index(variants: Variants, query: LocaleView) -> int
    decreases variants.len(),
{
    if variants.len() == 0 {
        -1
    } else {
        let before = best_index(variants.drop_last(), query);
        let here = rank_at(variants, query, variants.len() - 1);
        if here > 0 && (before < 0 || rank_at(variants, query, before) <= here) {
            variants.len() - 1
        } else {
            before
        }
    }
}

/// The variants with the text `val` for `locale`: in the place of the variant
/// that matches `locale` best, or at the end where none matches.
pub open spec fn spec_insert(variants: Variants, locale: LocaleView, val: Seq<char>) -> Variants {
    let i = best_index(variants, locale);
    if i < 0 {
        variants.push((locale, val))
    } else {
        variants.update(i, (locale, val))
    }
}

/// The text of the variant that matches `locale` best.
pub open spec fn pick(variants: Variants, locale: LocaleView) -> Option<Seq<char>> {
    let i = best_index(variants, locale);
    if i < 0 {
        None
    } else {
        Some(variants[i].1)
    }
}

/// The text for `locale`: that of the variant which matches it best, else
/// that of the variant which matches the default locale best, else none.
pub open spec fn resolve_value(variants: Variants, locale: LocaleView) -> Option<Seq<char>> {
    match pick(variants, locale) {
        Some(text) => Some(text),
        None => pick(variants, default_locale()),
    }
}

/// Whether two locales agree in all that matching looks at: language,
/// country and modifier.
pub open spec fn same_tag(a: LocaleView, b: LocaleView) -> bool {
    a.lang == b.lang && a.country == b.country && a.modifier == b.modifier
}

/// Whether no two variants carry the same tag. Inserting keeps this, so it
/// holds of every value that was built by inserting.
pub open spec fn distinct_tags(variants: Variants) -> bool {
    forall|i: int, j: int|
        0 <= i < j < variants.len() ==> !same_tag(
            (#[trigger] variants[i]).0,
            (#[trigger] variants[j]).0,
        )
}

/// What `best_index` finds: a variant that matches, that none matches better
/// and none after it matches as well; and nothing exactly when no variant
/// matches.
pub proof fn lemma_best_index(variants: Variants, query: LocaleView)
    ensures
        -1 <= best_index(variants, query) < variants.len(),
        best_index(variants, query) >= 0 ==> rank_at(variants, query, best_index(variants, query))
            > 0,
        forall|j: int|
            0 <= j < variants.len() && best_index(variants, query) >= 0 ==> #[trigger] rank_at(
                variants,
                query,
                j,
            ) <= rank_at(variants, query, best_index(variants, query)),
        forall|j: int|
            best_index(variants, query) < j < variants.len() && best_index(variants, query) >= 0
                ==> #[trigger] rank_at(variants, query, j) < rank_at(
                variants,
                query,
                best_index(variants, query),
            ),
        forall|j: int|
            0 <= j < variants.len() && best_index(variants, query) < 0 ==> #[trigger] rank_at(
                variants,
                query,
                j,
            ) == 0,
    decreases variants.len(),
{
    if variants.len() > 0 {
        let front = variants.drop_last();
        lemma_best_index(front, query);
        assert forall|j: int| 0 <= j < front.len() implies #[trigger] rank_at(variants, query, j)
            == rank_at(front, query, j) by {
            assert(front[j] == variants[j]);
        }
    }
}

/// A variant that matches, that none matches better and none after it matches
/// as well, is the one that `best_index` finds.
pub proof fn lemma_best_index_is(variants: Variants, query: LocaleView, i: int)
    requires
        0 <= i < variants.len(),
        rank_at(variants, query, i) > 0,
        forall|j: int|
            0 <= j < variants.len() ==> #[trigger] rank_at(variants, query, j) <= rank_at(
                variants,
                query,
                i,
            ),
        forall|j: int|
            i < j < variants.len() ==> #[trigger] rank_at(variants, query, j) < rank_at(
                variants,
                query,
                i,
            ),
    ensures
        best_index(variants, query) == i,
{
    lemma_best_index(variants, query);
    let b = best_index(variants, query);
    if b < 0 {
        assert(rank_at(variants, query, i) == 0);
    } else if b < i {
        assert(rank_at(variants, query, i) < rank_at(variants, query, b));
        assert(rank_at(variants, query, b) <= rank_at(variants, query, i));
    } else if b > i {
        assert(rank_at(variants, query, b) < rank_at(variants, query, i));
        assert(rank_at(variants, query, i) <= rank_at(variants, query, b));
    }
}

/// Matching looks at the tag only: locales with the same tag match every
/// query alike, and are matched alike by every candidate.
pub proof fn lemma_match_by_tag(a: LocaleView, b: LocaleView, other: LocaleView)
    requires
        same_tag(a, b),
    ensures
        spec_match_level(other, a) == spec_match_level(other, b),
        spec_match_level(a, other) == spec_match_level(b, other),
{
}

/// Inserting keeps the tags distinct: at most one variant is kept for each
/// locale.
pub proof fn lemma_insert_keeps_distinct_tags(
    variants: Variants,
    locale: LocaleView,
    val: Seq<char>,
)
    requires
        distinct_tags(variants),
    ensures
        distinct_tags(spec_insert(variants, locale, val)),
{
    let after = spec_insert(variants, locale, val);
    let b = best_index(variants, locale);
    lemma_best_index(variants, locale);
    assert forall|j: int| 0 <= j < variants.len() && j != b implies !same_tag(
        (#[trigger] variants[j]).0,
        locale,
    ) by {
        if same_tag(variants[j].0, locale) {
            lemma_match_by_tag(variants[j].0, locale, locale);
            assert(rank_at(variants, locale, j) == own_level(locale).spec_rank());
            if b >= 0 {
                lemma_own_level_is_best(locale, variants[b].0);
                assert(rank_at(variants, locale, j) <= rank_at(variants, locale, b));
                assert(same_tag(variants[b].0, locale));
                if j < b {
                    assert(!same_tag(variants[j].0, variants[b].0));
                } else {
                    assert(!same_tag(variants[b].0, variants[j].0));
                }
            }
        }
    }
    assert forall|i: int, j: int| 0 <= i < j < after.len() implies !same_tag(
        (#[trigger] after[i]).0,
        (#[trigger] after[j]).0,
    ) by {
        if b < 0 {
            if j == variants.len() {
                assert(after[i] == variants[i]);
            } else {
                assert(after[i] == variants[i]);
                assert(after[j] == variants[j]);
            }
        } else {
            if i == b {
                assert(after[j] == variants[j]);
            } else if j == b {
                assert(after[i] == variants[i]);
            } else {
                assert(after[i] == variants[i]);
                assert(after[j] == variants[j]);
            }
        }
    }
}

/// The last text that was inserted for a locale is the one that is picked
/// for it, as long as no two variants carry the same tag.
pub proof fn lemma_insert_then_pick(variants: Variants, locale: LocaleView, val: Seq<char>)
    requires
        distinct_tags(variants),
    ensures
        pick(spec_insert(variants, locale, val), locale) == Some(val),
{
    let after = spec_insert(variants, locale, val);
    let b = best_index(variants, locale);
    lemma_best_index(variants, locale);
    lemma_insert_keeps_distinct_tags(variants, locale, val);
    let at = if b < 0 {
        variants.len() as int
    } else {
        b
    };
    assert(after[at] == (locale, val));
    assert(rank_at(after, locale, at) == own_level(locale).spec_rank());
    assert forall|j: int| 0 <= j < after.len() implies #[trigger] rank_at(after, locale, j)
        <= rank_at(after, locale, at) by {
        lemma_own_level_is_best(locale, after[j].0);
    }
    assert forall|j: int| at < j < after.len() implies #[trigger] rank_at(after, locale, j)
        < rank_at(after, locale, at) by {
        lemma_own_level_is_best(locale, after[j].0);
        if rank_at(after, locale, j) == rank_at(after, locale, at) {
            assert(spec_match_level(locale, after[j].0) == Some(own_level(locale)));
            assert(same_tag(after[at].0, after[j].0));
        }
    }
    lemma_best_index_is(after, locale, at);
}

impl Default for LocalisedValue {
    /// The value without variants.
    fn default() -> (r: Self)
        ensures
            r.deep_view() == Variants::empty(),
    {
        let r = LocalisedValue { localised_value: Vec::new() };
        assert(r.deep_view() =~= Variants::empty());
        r
    }
}

impl LocalisedValue {
    /// The place of the variant that matches `locale` best: the last among
    /// those that match equally well, and none where no variant matches.
    pub fn get_idx(&self, locale: &Locale) -> (r: Option<usize>)
        ensures
            match r {
                Some(i) => i == best_index(self.deep_view(), locale@) && i
                    < self.localised_value.len(),
                None => best_index(self.deep_view(), locale@) == -1,
            },
    {
        let mut best: Option<usize> = None;
        let mut best_rank: u8 = 0;
        let mut i: usize = 0;
        assert(self.deep_view().take(0) =~= Variants::empty());
        while i < self.localised_value.len()
            invariant
                i <= self.localised_value.len(),
                match best {
                    Some(b) => b == best_index(self.deep_view().take(i as int), locale@) && b < i
                        && best_rank == rank_at(self.deep_view(), locale@, b as int),
                    None => best_index(self.deep_view().take(i as int), locale@) == -1,
                },
            decreases self.localised_value.len() - i,
        {
            let ghost upto = self.deep_view().take(i + 1);
            assert(upto.drop_last() =~= self.deep_view().take(i as int));
            assert(upto[i as int] == self.deep_view()[i as int]);
            assert(self.deep_view()[i as int].0 == self.localised_value@[i as int].0@);
            proof {
                if let Some(b) = best {
                    assert(upto[b as int] == self.deep_view()[b as int]);
                }
            }
            let here: u8 = match locale.match_level(&self.localised_value[i].0) {
                Some(level) => level.rank(),
                None => 0,
            };
            if here > 0 && (best.is_none() || best_rank <= here) {
                best = Some(i);
                best_rank = here;
            }
            i += 1;
        }
        assert(self.deep_view().take(self.localised_value.len() as int) =~= self.deep_view());
        best
    }

    /// Stores `val` as the text for `locale`: in the place of the variant that
    /// matches `locale` best, or as a new variant at the end where none matches.
    ///
    /// A value that held at most one variant for each tag still does so.
    pub fn insert(&mut self, locale: Locale, val: String)
        ensures
            final(self).deep_view() == spec_insert(old(self).deep_view(), locale@, val@),
            distinct_tags(old(self).deep_view()) ==> distinct_tags(final(self).deep_view()),
    {
        let ghost before = self.deep_view();
        proof {
            if distinct_tags(before) {
                lemma_insert_keeps_distinct_tags(before, locale@, val@);
            }
        }
        if let Some(idx) = self.get_idx(&locale) {
            self.localised_value.push((locale, val));
            self.localised_value.swap_remove(idx);
            assert(self.deep_view() =~= before.update(idx as int, (locale@, val@)));
        } else {
            self.localised_value.push((locale, val));
            assert(self.deep_view() =~= before.push((locale@, val@)));
        }
    }

    /// Takes out the variant that matches `locale` best and hands its text
    /// back; nothing changes where no variant matches.
    pub fn remove(&mut self, locale: &Locale) -> (r: Option<String>)
        ensures
            r.deep_view() == pick(old(self).deep_view(), locale@),
            best_index(old(self).deep_view(), locale@) >= 0 ==> final(self).deep_view() == old(
                self,
            ).deep_view().remove(best_index(old(self).deep_view(), locale@)),
            best_index(old(self).deep_view(), locale@) < 0 ==> final(self).deep_view() == old(
                self,
            ).deep_view(),
    {
        let ghost before = self.deep_view();
        match self.get_idx(locale) {
            Some(idx) => {
                assert(before[idx as int].1 == self.localised_value@[idx as int].1@);
                let (_, value) = self.localised_value.remove(idx);
                assert(self.deep_view() =~= before.remove(idx as int));
                Some(value)
            },
            None => None,
        }
    }

    /// The text for `locale`: that of the variant which matches it best, else
    /// that of the variant which matches the default locale best.
    pub fn resolve(&self, locale: &Locale) -> (r: Option<String>)
        ensures
            r.deep_view() == resolve_value(self.deep_view(), locale@),
    {
        match self.get_idx(locale) {
            Some(idx) => {
                assert(self.deep_view()[idx as int].1 == self.localised_value@[idx as int].1@);
                Some(self.localised_value[idx].1.clone())
            },
            None => {
                let fallback = Locale::default();
                match self.get_idx(&fallback) {
                    Some(idx) => {
                        assert(self.deep_view()[idx as int].1
                            == self.localised_value@[idx as int].1@);
                        Some(self.localised_value[idx].1.clone())
                    },
                    None => None,
                }
            },
        }
    }
}

/// The mathematical value of a `LocalisedGroup`: its keys in order, each with
/// its variants.
pub type LocalisedEntries = Seq<(Seq<char>, Variants)>;

/// The mathematical value of a `Section`: its keys in order, each with its text.
pub type Entries = Seq<(Seq<char>, Seq<char>)>;

/// One section before a locale is chosen: each key with the variants of its
/// value.
#[derive(Debug, PartialEq, Eq, Clone)]
pub struct LocalisedGroup {
    pub group: Table<LocalisedValue>,
}

/// One section after a locale is chosen: each key with its one value.
pub type Section = Table<String>;

/// The sections of a file, each under its header.
pub type Sections = Table<Section>;

impl DeepView for LocalisedGroup {
    type V = LocalisedEntries;

    open spec fn deep_view(&self) -> LocalisedEntries {
        self.group.deep_view()
    }
}

impl View for LocalisedGroup {
    type V = LocalisedEntries;

    open spec fn view(&self) -> LocalisedEntries {
        self.group.deep_view()
    }
}

/// The keys of `group` in order, each with the text that `resolve_value` gives
/// for `locale`; a key for which it gives none is left out.
pub open spec fn spec_resolve(group: LocalisedEntries, locale: LocaleView) -> Entries
    decreases group.len(),
{
    if group.len() == 0 {
        Seq::empty()
    } else {
        let front = spec_resolve(group.drop_last(), locale);
        match resolve_value(group.last().1, locale) {
            Some(text) => front.push((group.last().0, text)),
            None => front,
        }
    }
}

/// The variants that `group` holds under `key`: none where it lacks the key.
pub open spec fn variants_of(group: LocalisedEntries, key: Seq<char>) -> Variants {
    match lookup(group, key) {
        Some(variants) => variants,
        None => Seq::empty(),
    }
}

/// The section with the text `val` stored for `locale` under `key`, the key
/// keeping its place, or coming last where it is new.
pub open spec fn spec_add(
    group: LocalisedEntries,
    key: Seq<char>,
    locale: LocaleView,
    val: Seq<char>,
) -> LocalisedEntries {
    put(group, key, spec_insert(variants_of(group, key), locale, val))
}

/// Whether the section holds no key twice and, under each key, no tag twice.
/// Adding keeps this, so it holds of every section that was built by adding.
pub open spec fn well_formed(group: LocalisedEntries) -> bool {
    &&& distinct_keys(group)
    &&& forall|i: int| 0 <= i < group.len() ==> distinct_tags((#[trigger] group[i]).1)
}

/// Adding a text keeps a section well formed.
pub proof fn lemma_add_keeps_well_formed(
    group: LocalisedEntries,
    key: Seq<char>,
    locale: LocaleView,
    val: Seq<char>,
)
    requires
        well_formed(group),
    ensures
        well_formed(spec_add(group, key, locale, val)),
{
    let variants = variants_of(group, key);
    let after = spec_add(group, key, locale, val);
    let i = key_index(group, key);
    lemma_key_index(group, key);
    lemma_put(group, key, spec_insert(variants, locale, val), key);
    if i >= 0 {
        assert(distinct_tags(group[i].1));
    }
    lemma_insert_keeps_distinct_tags(variants, locale, val);
    assert forall|k: int| 0 <= k < after.len() implies distinct_tags((#[trigger] after[k]).1) by {
        if i >= 0 && k != i {
            assert(after[k] == group[k]);
        } else if i < 0 && k < group.len() {
            assert(after[k] == group[k]);
        }
    }
}

/// Choosing a locale brings no key to occur twice, and every key that is
/// left was there before.
pub proof fn lemma_resolve_keeps_keys_distinct(group: LocalisedEntries, locale: LocaleView)
    requires
        distinct_keys(group),
    ensures
        distinct_keys(spec_resolve(group, locale)),
        forall|k: int|
            0 <= k < spec_resolve(group, locale).len() ==> key_index(
                group,
                (#[trigger] spec_resolve(group, locale)[k]).0,
            ) >= 0,
    decreases group.len(),
{
    if group.len() > 0 {
        let front = group.drop_last();
        assert forall|a: int, b: int| 0 <= a < b < front.len() implies (#[trigger] front[a]).0
            != (#[trigger] front[b]).0 by {
            assert(front[a] == group[a] && front[b] == group[b]);
        }
        lemma_resolve_keeps_keys_distinct(front, locale);
        let resolved_front = spec_resolve(front, locale);
        let resolved = spec_resolve(group, locale);
        assert forall|k: int| 0 <= k < resolved.len() implies key_index(
            group,
            (#[trigger] resolved[k]).0,
        ) >= 0 by {
            lemma_key_index(group, resolved[k].0);
            if k < resolved_front.len() {
                assert(resolved[k] == resolved_front[k]);
                let at = key_index(front, resolved_front[k].0);
                lemma_key_index(front, resolved_front[k].0);
                assert(group[at] == front[at]);
            } else {
                assert(group[group.len() - 1].0 == resolved[k].0);
            }
        }
        assert forall|a: int, b: int| 0 <= a < b < resolved.len() implies (#[trigger] resolved[a]).0
            != (#[trigger] resolved[b]).0 by {
            if b < resolved_front.len() {
                assert(resolved[a] == resolved_front[a] && resolved[b] == resolved_front[b]);
            } else {
                assert(resolved[a] == resolved_front[a]);
                let at = key_index(front, resolved_front[a].0);
                lemma_key_index(front, resolved_front[a].0);
                assert(group[at] == front[at]);
                assert(group[at].0 != group[group.len() - 1].0);
            }
        }
    }
}

impl LocalisedGroup {
    /// Stores `val` as the text for `locale` under `key`.
    pub fn add(&mut self, key: String, locale: Locale, val: String)
        ensures
            final(self).deep_view() == spec_add(old(self).deep_view(), key@, locale@, val@),
            well_formed(old(self).deep_view()) ==> well_formed(final(self).deep_view()),
    {
        let ghost before = self.deep_view();
        proof {
            if well_formed(before) {
                lemma_add_keeps_well_formed(before, key@, locale@, val@);
            }
        }
        match self.group.index_of(key.as_str()) {
            Some(i) => {
                assert(before[i as int] == (
                    self.group.entries@[i as int].0@,
                    self.group.entries@[i as int].1.deep_view(),
                ));
                proof {
                    lemma_key_index(before, key@);
                }
                let (same_key, mut variants) = self.group.entries.remove(i);
                variants.insert(locale, val);
                self.group.entries.insert(i, (same_key, variants));
                assert(self.deep_view() =~= before.update(
                    i as int,
                    (key@, spec_insert(before[i as int].1, locale@, val@)),
                ));
            },
            None => {
                let mut variants = LocalisedValue::default();
                variants.insert(locale, val);
                self.group.entries.push((key, variants));
                assert(self.deep_view() =~= before.push(
                    (key@, spec_insert(Variants::empty(), locale@, val@)),
                ));
            },
        }
    }

    /// The section with one value for each key: the one for `locale`. A key
    /// that has no value for `locale` nor for the default locale is left out.
    pub fn resolve_to_locale(self, locale: &Locale) -> (r: Section)
        ensures
            r.deep_view() == spec_resolve(self.deep_view(), locale@),
            distinct_keys(self.deep_view()) ==> distinct_keys(r.deep_view()),
    {
        proof {
            if distinct_keys(self.deep_view()) {
                lemma_resolve_keeps_keys_distinct(self.deep_view(), locale@);
            }
        }
        let mut out: Vec<(String, String)> = Vec::new();
        let mut i: usize = 0;
        assert(self.deep_view().take(0) =~= LocalisedEntries::empty());
        assert(out.deep_view() =~= Entries::empty());
        while i < self.group.entries.len()
            invariant
                i <= self.group.entries.len(),
                out.deep_view() == spec_resolve(self.deep_view().take(i as int), locale@),
            decreases self.group.entries.len() - i,
        {
            let ghost upto = self.deep_view().take(i + 1);
            assert(upto.drop_last() =~= self.deep_view().take(i as int));
            assert(upto.last() == self.deep_view()[i as int]);
            assert(self.deep_view()[i as int] == (
                self.group.entries@[i as int].0@,
                self.group.entries@[i as int].1.deep_view(),
            ));
            let ghost before = out.deep_view();
            match self.group.entries[i].1.resolve(locale) {
                Some(text) => {
                    let key = self.group.entries[i].0.clone();
                    out.push((key, text));
                    assert(out.deep_view() =~= before.push((key@, text@)));
                },
                None => {},
            }
            i += 1;
        }
        assert(self.deep_view().take(self.group.entries.len() as int) =~= self.deep_view());
        Table { entries: out }
    }
}

impl Default for LocalisedGroup {
    /// The section without keys.
    fn default() -> (r: Self)
        ensures
            r.deep_view() == LocalisedEntries::empty(),
    {
        LocalisedGroup { group: Table::new() }
    }
}

} // verus!
