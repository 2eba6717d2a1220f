//! Provider registry.
//!
//! Providers are looked up by id; registering an id again replaces the
//! provider registered under it.

use std::sync::Arc;

use vstd::prelude::*;

use crate::gateway_core::config::ProviderKind;

verus! {

/// An LLM provider. Each provider implementation supplies its id and the
/// models it serves, and describes them to the verifier with `spec_id` and
/// `spec_supports`.
pub trait Provider {
    /// The provider's id.
    spec fn spec_id(&self) -> Seq<char>;

    /// Whether the provider serves `model`.
    spec fn spec_supports(&self, model: Seq<char>) -> bool;

    /// The provider's unique id.
    fn id(&self) -> (r: &str)
        ensures
            r@ == self.spec_id(),
    ;

    /// The provider kind.
    fn kind(&self) -> ProviderKind;

    /// The API base URL.
    fn base_url(&self) -> &str;

    /// The API key.
    fn api_key(&self) -> &str;

    /// Whether the provider serves `model`.
    fn supports_model(&self, model: &str) -> (b: bool)
        ensures
            b == self.spec_supports(model@),
    ;

    /// Every model the provider serves.
    fn supported_models(&self) -> &[String];
}

/// No two providers share an id.
pub open spec fn distinct_ids<P: Provider + ?Sized>(s: Seq<Arc<P>>) -> bool {
    forall|i: int, j: int| 0 <= i < j < s.len() ==> s[i].spec_id() != s[j].spec_id()
}

/// The provider with id `id` in `s`, if any.
pub open spec fn lookup_in<P: Provider + ?Sized>(s: Seq<Arc<P>>, id: Seq<char>) -> Option<Arc<P>> {
    if exists|i: int| 0 <= i < s.len() && s[i].spec_id() == id {
        let i = choose|i: int| 0 <= i < s.len() && s[i].spec_id() == id;
        Some(s[i])
    } else {
        None
    }
}

proof fn lemma_lookup_at<P: Provider + ?Sized>(s: Seq<Arc<P>>, i: int)
    requires
        distinct_ids(s),
        0 <= i < s.len(),
    ensures
        lookup_in(s, s[i].spec_id()) == Some(s[i]),
{
    let id = s[i].spec_id();
    let j = choose|j: int| 0 <= j < s.len() && s[j].spec_id() == id;
    assert(i == j);
}

proof fn lemma_lookup_absent<P: Provider + ?Sized>(s: Seq<Arc<P>>, id: Seq<char>)
    requires
        forall|j: int| 0 <= j < s.len() ==> s[j].spec_id() != id,
    ensures
        lookup_in(s, id) is None,
{
}

/// Looking up an id in `t` gives what it gives in `s`, when `t` holds, for
/// every id but `id`, the same providers as `s`.
proof fn lemma_lookup_same_elsewhere<P: Provider + ?Sized>(
    s: Seq<Arc<P>>,
    t: Seq<Arc<P>>,
    id: Seq<char>,
    k: Seq<char>,
)
    requires
        distinct_ids(s),
        distinct_ids(t),
        k != id,
        forall|i: int| 0 <= i < s.len() && s[i].spec_id() != id ==> exists|j: int|
            0 <= j < t.len() && t[j] == s[i],
        forall|j: int| 0 <= j < t.len() && t[j].spec_id() != id ==> exists|i: int|
            0 <= i < s.len() && s[i] == t[j],
    ensures
        lookup_in(t, k) == lookup_in(s, k),
{
    if exists|i: int| 0 <= i < s.len() && s[i].spec_id() == k {
        let i = choose|i: int| 0 <= i < s.len() && s[i].spec_id() == k;
        lemma_lookup_at(s, i);
        let j = choose|j: int| 0 <= j < t.len() && t[j] == s[i];
        lemma_lookup_at(t, j);
    } else if exists|j: int| 0 <= j < t.len() && t[j].spec_id() == k {
        let j = choose|j: int| 0 <= j < t.len() && t[j].spec_id() == k;
        let i = choose|i: int| 0 <= i < s.len() && s[i] == t[j];
        assert(s[i].spec_id() == k);
    }
}

fn position_in<P: Provider + ?Sized>(v: &Vec<Arc<P>>, id: &str) -> (r: Option<usize>)
    ensures
        r matches Some(i) ==> i < v@.len() && v@[i as int].spec_id() == id@,
        r is None ==> forall|j: int| 0 <= j < v@.len() ==> v@[j].spec_id() != id@,
{
    let wanted = id.to_owned();
    let n = v.len();
    for i in 0..n
        invariant
            n == v@.len(),
            wanted@ == id@,
            forall|j: int| 0 <= j < i ==> v@[j].spec_id() != id@,
    {
        let pid = v[i].id().to_owned();
        if pid == wanted {
            return Some(i);
        }
    }
    None
}

/// A registry of providers keyed by id (by default, of `dyn Provider`).
pub struct ProviderRegistry<P: Provider + ?Sized = dyn Provider> {
    providers: Vec<Arc<P>>,
}

impl<P: Provider + ?Sized> ProviderRegistry<P> {
    /// The registered providers.
    pub closed spec fn entries(&self) -> Seq<Arc<P>> {
        self.providers@
    }

    /// The provider registered under `id`, if any.
    pub open spec fn lookup(&self, id: Seq<char>) -> Option<Arc<P>> {
        lookup_in(self.entries(), id)
    }

    /// Ids are distinct.
    #[verifier::type_invariant]
    closed spec fn inv(&self) -> bool {
        distinct_ids(self.providers@)
    }

    /// An empty registry.
    pub fn new() -> (r: Self)
        ensures
            r.entries().len() == 0,
            forall|k: Seq<char>| r.lookup(k) is None,
    {
        ProviderRegistry { providers: Vec::new() }
    }

    /// Registers a provider under its id, replacing any provider with that id.
    pub fn register(&mut self, provider: Arc<P>)
        ensures
            final(self).lookup(provider.spec_id()) == Some(provider),
            forall|k: Seq<char>| k != provider.spec_id() ==> final(self).lookup(k) == old(self).lookup(k),
            final(self).entries().len() == old(self).entries().len() + (if old(self).lookup(
                provider.spec_id(),
            ) is None {
                1int
            } else {
                0int
            }),
    {
        proof {
            use_type_invariant(&*self);
        }
        let ghost s = self.providers@;
        let ghost id = provider.spec_id();
        let mut providers: Vec<Arc<P>> = Vec::new();
        std::mem::swap(&mut providers, &mut self.providers);
        let pos = position_in(&providers, provider.id());
        match pos {
            Some(i) => {
                providers.set(i, provider);
                proof {
                    let t = providers@;
                    assert(distinct_ids(t)) by {
                        assert forall|a: int, b: int| 0 <= a < b < t.len() implies t[a].spec_id()
                            != t[b].spec_id() by {
                            if a != i && b != i {
                                assert(t[a] == s[a] && t[b] == s[b]);
                            }
                        }
                    }
                    lemma_lookup_at(s, i as int);
                    lemma_lookup_at(t, i as int);
                    assert forall|k: Seq<char>| k != id implies lookup_in(t, k) == lookup_in(s, k) by {
                        assert forall|a: int| 0 <= a < s.len() && s[a].spec_id() != id implies exists|
                            b: int,
                        | 0 <= b < t.len() && t[b] == s[a] by {
                            assert(t[a] == s[a]);
                        }
                        assert forall|b: int| 0 <= b < t.len() && t[b].spec_id() != id implies exists|
                            a: int,
                        | 0 <= a < s.len() && s[a] == t[b] by {
                            assert(t[b] == s[b]);
                        }
                        lemma_lookup_same_elsewhere(s, t, id, k);
                    }
                }
            },
            None => {
                providers.push(provider);
                proof {
                    let t = providers@;
                    lemma_lookup_absent(s, id);
                    assert(distinct_ids(t)) by {
                        assert forall|a: int, b: int| 0 <= a < b < t.len() implies t[a].spec_id()
                            != t[b].spec_id() by {
                            assert(t[a] == s[a]);
                            if b < s.len() {
                                assert(t[b] == s[b]);
                            }
                        }
                    }
                    lemma_lookup_at(t, s.len() as int);
                    assert forall|k: Seq<char>| k != id implies lookup_in(t, k) == lookup_in(s, k) by {
                        assert forall|a: int| 0 <= a < s.len() && s[a].spec_id() != id implies exists|
                            b: int,
                        | 0 <= b < t.len() && t[b] == s[a] by {
                            assert(t[a] == s[a]);
                        }
                        assert forall|b: int| 0 <= b < t.len() && t[b].spec_id() != id implies exists|
                            a: int,
                        | 0 <= a < s.len() && s[a] == t[b] by {
                            assert(t[b] == s[b]);
                        }
                        lemma_lookup_same_elsewhere(s, t, id, k);
                    }
                }
            },
        }
        self.providers = providers;
    }

    /// Removes the provider registered under `provider_id` and returns it.
    pub fn unregister(&mut self, provider_id: &str) -> (r: Option<Arc<P>>)
        ensures
            r == old(self).lookup(provider_id@),
            final(self).lookup(provider_id@) is None,
            forall|k: Seq<char>| k != provider_id@ ==> final(self).lookup(k) == old(self).lookup(k),
            final(self).entries().len() == old(self).entries().len() - (if r is Some {
                1int
            } else {
                0int
            }),
    {
        proof {
            use_type_invariant(&*self);
        }
        let ghost s = self.providers@;
        let ghost id = provider_id@;
        match position_in(&self.providers, provider_id) {
            Some(i) => {
                let mut providers: Vec<Arc<P>> = Vec::new();
                std::mem::swap(&mut providers, &mut self.providers);
                let removed = providers.remove(i);
                proof {
                    let t = providers@;
                    lemma_lookup_at(s, i as int);
                    assert(distinct_ids(t)) by {
                        assert forall|a: int, b: int| 0 <= a < b < t.len() implies t[a].spec_id()
                            != t[b].spec_id() by {
                            if a < i {
                                assert(t[a] == s[a]);
                            } else {
                                assert(t[a] == s[a + 1]);
                            }
                            if b < i {
                                assert(t[b] == s[b]);
                            } else {
                                assert(t[b] == s[b + 1]);
                            }
                        }
                    }
                    assert forall|j: int| 0 <= j < t.len() implies t[j].spec_id() != id by {
                        if j < i {
                            assert(t[j] == s[j]);
                        } else {
                            assert(t[j] == s[j + 1]);
                        }
                    }
                    lemma_lookup_absent(t, id);
                    assert forall|k: Seq<char>| k != id implies lookup_in(t, k) == lookup_in(s, k) by {
                        assert forall|a: int| 0 <= a < s.len() && s[a].spec_id() != id implies exists|
                            b: int,
                        | 0 <= b < t.len() && t[b] == s[a] by {
                            if a < i {
                                assert(t[a] == s[a]);
                            } else {
                                assert(a != i);
                                assert(t[a - 1] == s[a]);
                            }
                        }
                        assert forall|b: int| 0 <= b < t.len() && t[b].spec_id() != id implies exists|
                            a: int,
                        | 0 <= a < s.len() && s[a] == t[b] by {
                            if b < i {
                                assert(t[b] == s[b]);
                            } else {
                                assert(t[b] == s[b + 1]);
                            }
                        }
                        lemma_lookup_same_elsewhere(s, t, id, k);
                    }
                }
                self.providers = providers;
                Some(removed)
            },
            None => {
                proof {
                    lemma_lookup_absent(s, id);
                }
                None
            },
        }
    }

    /// The provider registered under `provider_id`, if any.
    pub fn get(&self, provider_id: &str) -> (r: Option<&Arc<P>>)
        ensures
            r is Some <==> self.lookup(provider_id@) is Some,
            r matches Some(p) ==> Some(*p) == self.lookup(provider_id@),
    {
        proof {
            use_type_invariant(self);
        }
        match position_in(&self.providers, provider_id) {
            Some(i) => {
                proof {
                    lemma_lookup_at(self.providers@, i as int);
                }
                Some(&self.providers[i])
            },
            None => None,
        }
    }

    /// Every registered provider.
    pub fn list(&self) -> (r: &[Arc<P>])
        ensures
            r@ == self.entries(),
    {
        self.providers.as_slice()
    }

    /// The number of registered providers.
    pub fn len(&self) -> (n: usize)
        ensures
            n == self.entries().len(),
    {
        self.providers.len()
    }

    /// Whether no provider is registered.
    pub fn is_empty(&self) -> (b: bool)
        ensures
            b == (self.entries().len() == 0),
    {
        self.providers.len() == 0
    }

    /// Every registered provider that serves `model`.
    pub fn find_by_model(&self, model: &str) -> (r: Vec<&Arc<P>>)
        ensures
            r@.map_values(|p: &Arc<P>| *p) == self.entries().filter(
                |p: Arc<P>| p.spec_supports(model@),
            ),
    {
        let mut out: Vec<&Arc<P>> = Vec::new();
        let n = self.providers.len();
        let ghost pred = |p: Arc<P>| p.spec_supports(model@);
        for i in 0..n
            invariant
                n == self.providers@.len(),
                pred == (|p: Arc<P>| p.spec_supports(model@)),
                out@.map_values(|p: &Arc<P>| *p) == self.providers@.take(i as int).filter(pred),
        {
            let p = &self.providers[i];
            proof {
                reveal_with_fuel(Seq::<_>::filter, 1);
                assert(self.providers@.take(i + 1).drop_last() =~= self.providers@.take(i as int));
            }
            if p.supports_model(model) {
                out.push(p);
                assert(out@.map_values(|p: &Arc<P>| *p) =~= self.providers@.take(
                    i as int,
                ).filter(pred).push(*p));
            } else {
                assert(out@.map_values(|p: &Arc<P>| *p) =~= self.providers@.take(
                    i as int,
                ).filter(pred));
            }
        }
        assert(self.providers@.take(n as int) =~= self.providers@);
        out
    }
}

impl<P: Provider + ?Sized> Default for ProviderRegistry<P> {
    fn default() -> (r: Self)
        ensures
            r.entries().len() == 0,
    {
        Self::new()
    }
}

} // verus!
