//! From an identity to a stable author id.
//!
//! An [`AuthorStore`] lives for one run. It resolves a raw identity through
//! its alias table and remembers, for each canonical identity it has seen,
//! the author id that stands for it.

use crate::alias::{canonical_identity, AliasResolver, AliasRuleView};
use crate::model::{Identity, IdentityView};
use crate::laws::law_resolution_agrees;
use crate::store::{Store, StoreView};
use vstd::prelude::*;

verus! {

/// One remembered pair: a canonical identity and the id of its author.
#[derive(Clone, Debug, PartialEq, Eq)]
pub struct CacheEntry {
    pub identity: Identity,
    pub id: i32,
}

impl View for CacheEntry {
    type V = (IdentityView, i32);

    open spec fn view(&self) -> (IdentityView, i32) {
        (self.identity@, self.id)
    }
}

impl DeepView for CacheEntry {
    type V = (IdentityView, i32);

    open spec fn deep_view(&self) -> (IdentityView, i32) {
        self@
    }
}

/// The mapping that a list of remembered pairs stands for: a later pair
/// overrides an earlier one with the same identity.
pub open spec fn cache_map(entries: Seq<(IdentityView, i32)>) -> Map<IdentityView, i32>
    decreases entries.len(),
{
    if entries.len() == 0 {
        Map::empty()
    } else {
        cache_map(entries.drop_last()).insert(entries.last().0, entries.last().1)
    }
}

/// An identity that no pair of the list names is outside the mapping.
pub proof fn lemma_cache_map_absent(entries: Seq<(IdentityView, i32)>, key: IdentityView)
    requires
        forall|k: int| 0 <= k < entries.len() ==> (#[trigger] entries[k]).0 != key,
    ensures
        !cache_map(entries).contains_key(key),
    decreases entries.len(),
{
    if entries.len() > 0 {
        let before = entries.drop_last();
        assert forall|k: int| 0 <= k < before.len() implies (#[trigger] before[k]).0 != key by {
            assert(before[k] == entries[k]);
        }
        lemma_cache_map_absent(before, key);
    }
}

/// The last pair of the list that names an identity decides what the
/// mapping gives for it.
pub proof fn lemma_cache_map_present(entries: Seq<(IdentityView, i32)>, key: IdentityView, at: int)
    requires
        0 <= at < entries.len(),
        entries[at].0 == key,
        forall|k: int| at < k < entries.len() ==> (#[trigger] entries[k]).0 != key,
    ensures
        cache_map(entries).contains_key(key),
        cache_map(entries)[key] == entries[at].1,
    decreases entries.len(),
{
    if at < entries.len() - 1 {
        let before = entries.drop_last();
        assert forall|k: int| at < k < before.len() implies (#[trigger] before[k]).0 != key by {
            assert(before[k] == entries[k]);
        }
        assert(before[at] == entries[at]);
        lemma_cache_map_present(before, key, at);
    }
}

/// The mathematical value of an [`AuthorStore`]: its alias table and the
/// mapping from canonical identities to author ids that it remembers.
pub struct AuthorStoreView {
    pub rules: Seq<AliasRuleView>,
    pub cache: Map<IdentityView, i32>,
}

/// What resolving one identity leaves behind and gives.
pub struct Resolution {
    pub store: StoreView,
    pub cache: Map<IdentityView, i32>,
    /// The author id, or `None` where the store had no id left to hand out.
    pub id: Option<i32>,
}

/// The author of `raw`, found or created.
///
/// The canonical identity is looked up in `cache` first; the store is read
/// only where the cache has no answer, and an author is created only where
/// the store holds none under the canonical identity. What was found or
/// created is remembered.
pub open spec fn author_for(
    rules: Seq<AliasRuleView>,
    cache: Map<IdentityView, i32>,
    store: StoreView,
    raw: IdentityView,
) -> Resolution {
    let canonical = canonical_identity(rules, raw);
    if cache.contains_key(canonical) {
        Resolution { store, cache, id: Some(cache[canonical]) }
    } else {
        match store.find_author(canonical) {
            Some(id) => Resolution { store, cache: cache.insert(canonical, id), id: Some(id) },
            None => if store.can_create_author() {
                Resolution {
                    store: store.with_new_author(canonical),
                    cache: cache.insert(canonical, store.next_author_id()),
                    id: Some(store.next_author_id()),
                }
            } else {
                Resolution { store, cache, id: None }
            },
        }
    }
}

/// Every remembered id is the id under which the store finds the identity.
pub open spec fn cache_agrees(cache: Map<IdentityView, i32>, store: StoreView) -> bool {
    forall|identity: IdentityView| #[trigger]
        cache.contains_key(identity) ==> store.find_author(identity) == Some(cache[identity])
}

/// The alias table and the author ids remembered during one run.
#[derive(Clone, Debug, PartialEq, Eq)]
pub struct AuthorStore {
    pub resolver: AliasResolver,
    pub cache: Vec<CacheEntry>,
}

impl View for AuthorStore {
    type V = AuthorStoreView;

    open spec fn view(&self) -> AuthorStoreView {
        AuthorStoreView { rules: self.resolver@, cache: cache_map(self.cache.deep_view()) }
    }
}

impl AuthorStore {
    /// A store for a new run: the given alias table and nothing remembered.
    pub fn new(resolver: AliasResolver) -> (r: AuthorStore)
        ensures
            r@.rules == resolver@,
            r@.cache == Map::<IdentityView, i32>::empty(),
    {
        let r = AuthorStore { resolver, cache: Vec::new() };
        assert(r.cache.deep_view() =~= Seq::empty());
        r
    }

    /// The canonical identity of the raw pair `(name, email)`.
    pub fn canonical(&self, name: &str, email: &str) -> (r: Identity)
        ensures
            r@ == canonical_identity(self@.rules, IdentityView { name: name@, email: email@ }),
    {
        self.resolver.resolve(name, email)
    }

    /// The author id remembered for the canonical identity `identity`.
    pub fn cached(&self, identity: &Identity) -> (r: Option<i32>)
        ensures
            r == if self@.cache.contains_key(identity@) {
                Some(self@.cache[identity@])
            } else {
                None
            },
    {
        let ghost entries = self.cache.deep_view();
        let mut i: usize = self.cache.len();
        while i > 0
            invariant
                0 <= i <= self.cache.len(),
                entries == self.cache.deep_view(),
                forall|k: int| i <= k < entries.len() ==> (#[trigger] entries[k]).0 != identity@,
            decreases i,
        {
            i -= 1;
            let entry = &self.cache[i];
            assert(entries[i as int] == entry@);
            if entry.identity.same_as(identity) {
                proof {
                    lemma_cache_map_present(entries, identity@, i as int);
                }
                return Some(entry.id);
            }
        }
        proof {
            lemma_cache_map_absent(entries, identity@);
        }
        None
    }

    /// Remembers `id` for the canonical identity `identity`.
    pub fn remember(&mut self, identity: Identity, id: i32)
        ensures
            final(self)@.rules == old(self)@.rules,
            final(self)@.cache == old(self)@.cache.insert(identity@, id),
    {
        let ghost before = self.cache.deep_view();
        self.cache.push(CacheEntry { identity, id });
        proof {
            let after = self.cache.deep_view();
            assert(after =~= before.push((identity@, id)));
            assert(after.drop_last() =~= before);
        }
    }

    /// The id of the author that stands for the raw pair `(name, email)`.
    ///
    /// Two raw pairs with one canonical identity get one id. The store is
    /// not touched where the canonical identity is remembered, and at most
    /// one author is created for it during a run. The result is `None`
    /// exactly where an author had to be created and the store had no id
    /// left; nothing has changed then. Where every remembered id is the id
    /// under which the store finds its identity, this stays so, and the id
    /// given is the one under which the store finds the canonical identity.
    pub fn get_or_create(&mut self, store: &mut Store, name: &str, email: &str) -> (r: Option<i32>)
        ensures
            final(self)@.rules == old(self)@.rules,
            ({
                let expected = author_for(
                    old(self)@.rules,
                    old(self)@.cache,
                    old(store)@,
                    IdentityView { name: name@, email: email@ },
                );
                &&& r == expected.id
                &&& final(store)@ == expected.store
                &&& final(self)@.cache == expected.cache
            }),
            old(store)@.wf() ==> final(store)@.wf(),
            cache_agrees(old(self)@.cache, old(store)@) ==> cache_agrees(
                final(self)@.cache,
                final(store)@,
            ) && (r is Some ==> final(store)@.find_author(
                canonical_identity(old(self)@.rules, IdentityView { name: name@, email: email@ }),
            ) == r),
    {
        proof {
            if cache_agrees(self@.cache, store@) {
                law_resolution_agrees(
                    self@.rules,
                    self@.cache,
                    store@,
                    IdentityView { name: name@, email: email@ },
                );
            }
        }
        let canonical = self.canonical(name, email);
        match self.cached(&canonical) {
            Some(id) => Some(id),
            None => {
                match store.find_author(&canonical) {
                    Some(id) => {
                        self.remember(canonical, id);
                        Some(id)
                    },
                    None => {
                        match store.create_author(&canonical) {
                            Some(id) => {
                                self.remember(canonical, id);
                                Some(id)
                            },
                            None => None,
                        }
                    },
                }
            },
        }
    }
}

} // verus!
