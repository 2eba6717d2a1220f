//! The plugin registry: loaded plugins by name.
//!
//! A name is registered at most once; registering a taken name, or
//! unregistering a name that is not there, is an error and changes nothing.

use std::sync::Arc;

use vstd::prelude::*;

use crate::gateway_core::plugins::types::PluginError;

verus! {

/// No two entries share a name.
pub open spec fn distinct_names<P: ?Sized>(s: Seq<(String, Arc<P>)>) -> bool {
    forall|i: int, j: int| 0 <= i < j < s.len() ==> s[i].0@ != s[j].0@
}

/// The plugin registered under `name` in `s`, if any.
pub open spec fn plugin_in<P: ?Sized>(s: Seq<(String, Arc<P>)>, name: Seq<char>) -> Option<Arc<P>> {
    if exists|i: int| 0 <= i < s.len() && s[i].0@ == name {
        let i = choose|i: int| 0 <= i < s.len() && s[i].0@ == name;
        Some(s[i].1)
    } else {
        None
    }
}

proof fn lemma_plugin_at<P: ?Sized>(s: Seq<(String, Arc<P>)>, i: int)
    requires
        distinct_names(s),
        0 <= i < s.len(),
    ensures
        plugin_in(s, s[i].0@) == Some(s[i].1),
{
    let name = s[i].0@;
    let j = choose|j: int| 0 <= j < s.len() && s[j].0@ == name;
    assert(i == j);
}

/// Looking a name up in `t` gives what it gives in `s` when the two hold the
/// same entries under every name but `name`.
proof fn lemma_plugin_same_elsewhere<P: ?Sized>(
    s: Seq<(String, Arc<P>)>,
    t: Seq<(String, Arc<P>)>,
    name: Seq<char>,
    k: Seq<char>,
)
    requires
        distinct_names(s),
        distinct_names(t),
        k != name,
        forall|i: int| 0 <= i < s.len() && s[i].0@ != name ==> exists|j: int|
            0 <= j < t.len() && t[j] == s[i],
        forall|j: int| 0 <= j < t.len() && t[j].0@ != name ==> exists|i: int|
            0 <= i < s.len() && s[i] == t[j],
    ensures
        plugin_in(t, k) == plugin_in(s, k),
{
    if exists|i: int| 0 <= i < s.len() && s[i].0@ == k {
        let i = choose|i: int| 0 <= i < s.len() && s[i].0@ == k;
        lemma_plugin_at(s, i);
        let j = choose|j: int| 0 <= j < t.len() && t[j] == s[i];
        lemma_plugin_at(t, j);
    } else if exists|j: int| 0 <= j < t.len() && t[j].0@ == k {
        let j = choose|j: int| 0 <= j < t.len() && t[j].0@ == k;
        let i = choose|i: int| 0 <= i < s.len() && s[i] == t[j];
        assert(s[i].0@ == k);
    }
}

fn position_of<P: ?Sized>(v: &Vec<(String, Arc<P>)>, name: &str) -> (r: Option<usize>)
    ensures
        r matches Some(i) ==> i < v@.len() && v@[i as int].0@ == name@,
        r is None ==> forall|j: int| 0 <= j < v@.len() ==> v@[j].0@ != name@,
{
    let wanted = name.to_owned();
    let n = v.len();
    for i in 0..n
        invariant
            n == v@.len(),
            wanted@ == name@,
            forall|j: int| 0 <= j < i ==> v@[j].0@ != name@,
    {
        if v[i].0 == wanted {
            return Some(i);
        }
    }
    None
}

fn quoted(before: &str, name: &str, after: &str) -> (s: String)
    ensures
        s@ == before@ + name@ + after@,
{
    let mut s = String::from_str(before);
    s.append(name);
    s.append(after);
    s
}

/// Loaded plugins, each under its own name.
pub struct PluginRegistry<P: ?Sized> {
    plugins: Vec<(String, Arc<P>)>,
}

impl<P: ?Sized> PluginRegistry<P> {
    /// The registered plugins with their names, in registration order.
    pub closed spec fn entries(&self) -> Seq<(String, Arc<P>)> {
        self.plugins@
    }

    /// The plugin registered under `name`, if any.
    pub open spec fn lookup(&self, name: Seq<char>) -> Option<Arc<P>> {
        plugin_in(self.entries(), name)
    }

    #[verifier::type_invariant]
    closed spec fn inv(&self) -> bool {
        distinct_names(self.plugins@)
    }

    /// An empty registry.
    pub fn new() -> (r: Self)
        ensures
            r.entries().len() == 0,
            forall|k: Seq<char>| r.lookup(k) is None,
    {
        PluginRegistry { plugins: Vec::new() }
    }

    /// Registers `plugin` under `name`. A name already taken is refused with
    /// `InitFailed("plugin '<name>' already registered")`, and nothing changes.
    pub fn register(&mut self, name: String, plugin: Arc<P>) -> (r: Result<(), PluginError>)
        ensures
            old(self).lookup(name@) is Some <==> r is Err,
            r matches Err(e) ==> (e matches PluginError::InitFailed(m) && m@ == "plugin '"@
                + name@ + "' already registered"@),
            r is Err ==> final(self).entries() == old(self).entries(),
            r is Ok ==> final(self).lookup(name@) == Some(plugin) && final(self).entries().len()
                == old(self).entries().len() + 1,
            forall|k: Seq<char>| k != name@ ==> final(self).lookup(k) == old(self).lookup(k),
    {
        proof {
            use_type_invariant(&*self);
        }
        let ghost s = self.plugins@;
        match position_of(&self.plugins, name.as_str()) {
            Some(i) => {
                proof {
                    lemma_plugin_at(s, i as int);
                }
                Err(PluginError::InitFailed(quoted("plugin '", name.as_str(), "' already registered")))
            },
            None => {
                let ghost id = name@;
                let mut plugins: Vec<(String, Arc<P>)> = Vec::new();
                std::mem::swap(&mut plugins, &mut self.plugins);
                plugins.push((name, plugin));
                proof {
                    let t = plugins@;
                    assert(distinct_names(t)) by {
                        assert forall|a: int, b: int| 0 <= a < b < t.len() implies t[a].0@
                            != t[b].0@ by {
                            assert(t[a] == s[a]);
                            if b < s.len() {
                                assert(t[b] == s[b]);
                            }
                        }
                    }
                    lemma_plugin_at(t, s.len() as int);
                    assert forall|k: Seq<char>| k != id implies plugin_in(t, k) == plugin_in(s, k) by {
                        assert forall|a: int| 0 <= a < s.len() && s[a].0@ != id implies exists|
                            b: int,
                        | 0 <= b < t.len() && t[b] == s[a] by {
                            assert(t[a] == s[a]);
                        }
                        assert forall|b: int| 0 <= b < t.len() && t[b].0@ != id implies exists|
                            a: int,
                        | 0 <= a < s.len() && s[a] == t[b] by {
                            assert(t[b] == s[b]);
                        }
                        lemma_plugin_same_elsewhere(s, t, id, k);
                    }
                }
                self.plugins = plugins;
                Ok(())
            },
        }
    }

    /// Removes the plugin registered under `name`. A name that is not
    /// registered is refused with `NotFound("plugin '<name>' not found")`.
    pub fn unregister(&mut self, name: &str) -> (r: Result<(), PluginError>)
        ensures
            old(self).lookup(name@) is None <==> r is Err,
            r matches Err(e) ==> (e matches PluginError::NotFound(m) && m@ == "plugin '"@ + name@
                + "' not found"@),
            r is Err ==> final(self).entries() == old(self).entries(),
            r is Ok ==> final(self).entries().len() == old(self).entries().len() - 1,
            final(self).lookup(name@) is None,
            forall|k: Seq<char>| k != name@ ==> final(self).lookup(k) == old(self).lookup(k),
    {
        proof {
            use_type_invariant(&*self);
        }
        let ghost s = self.plugins@;
        let ghost id = name@;
        match position_of(&self.plugins, name) {
            Some(i) => {
                let mut plugins: Vec<(String, Arc<P>)> = Vec::new();
                std::mem::swap(&mut plugins, &mut self.plugins);
                let _removed = plugins.remove(i);
                proof {
                    let t = plugins@;
                    lemma_plugin_at(s, i as int);
                    assert(distinct_names(t)) by {
                        assert forall|a: int, b: int| 0 <= a < b < t.len() implies t[a].0@
                            != t[b].0@ by {
                            if a < i {
                                assert(t[a] == s[a]);
                            } else {
                                assert(t[a] == s[a + 1]);
                            }
                            if b < i {
                                assert(t[b] == s[b]);
                            } else {
                                assert(t[b] == s[b + 1]);
                            }
                        }
                    }
                    assert forall|j: int| 0 <= j < t.len() implies t[j].0@ != id by {
                        if j < i {
                            assert(t[j] == s[j]);
                        } else {
                            assert(t[j] == s[j + 1]);
                        }
                    }
                    assert forall|k: Seq<char>| k != id implies plugin_in(t, k) == plugin_in(s, k) by {
                        assert forall|a: int| 0 <= a < s.len() && s[a].0@ != id implies exists|
                            b: int,
                        | 0 <= b < t.len() && t[b] == s[a] by {
                            if a < i {
                                assert(t[a] == s[a]);
                            } else {
                                assert(a != i);
                                assert(t[a - 1] == s[a]);
                            }
                        }
                        assert forall|b: int| 0 <= b < t.len() && t[b].0@ != id implies exists|
                            a: int,
                        | 0 <= a < s.len() && s[a] == t[b] by {
                            if b < i {
                                assert(t[b] == s[b]);
                            } else {
                                assert(t[b] == s[b + 1]);
                            }
                        }
                        lemma_plugin_same_elsewhere(s, t, id, k);
                    }
                }
                self.plugins = plugins;
                Ok(())
            },
            None => Err(PluginError::NotFound(quoted("plugin '", name, "' not found"))),
        }
    }

    /// The plugin registered under `name`, if any.
    pub fn get(&self, name: &str) -> (r: Option<&Arc<P>>)
        ensures
            r is Some <==> self.lookup(name@) is Some,
            r matches Some(p) ==> Some(*p) == self.lookup(name@),
    {
        proof {
            use_type_invariant(self);
        }
        match position_of(&self.plugins, name) {
            Some(i) => {
                proof {
                    lemma_plugin_at(self.plugins@, i as int);
                }
                Some(&self.plugins[i].1)
            },
            None => None,
        }
    }

    /// Every registered plugin, in registration order.
    pub fn list(&self) -> (r: Vec<&Arc<P>>)
        ensures
            r@.map_values(|p: &Arc<P>| *p) == self.entries().map_values(
                |e: (String, Arc<P>)| e.1,
            ),
    {
        let mut out: Vec<&Arc<P>> = Vec::new();
        let n = self.plugins.len();
        for i in 0..n
            invariant
                n == self.plugins@.len(),
                out@.map_values(|p: &Arc<P>| *p) == self.plugins@.take(i as int).map_values(
                    |e: (String, Arc<P>)| e.1,
                ),
        {
            let ghost before = out@;
            out.push(&self.plugins[i].1);
            proof {
                let lhs = out@.map_values(|p: &Arc<P>| *p);
                let rhs = self.plugins@.take(i + 1).map_values(|e: (String, Arc<P>)| e.1);
                assert(before.map_values(|p: &Arc<P>| *p).len() == i);
                assert forall|j: int| 0 <= j < lhs.len() implies lhs[j] == rhs[j] by {
                    if j < i {
                        assert(out@[j] == before[j]);
                        assert(before.map_values(|p: &Arc<P>| *p)[j] == *before[j]);
                        assert(self.plugins@.take(i as int).map_values(|e: (String, Arc<P>)| e.1)[j]
                            == self.plugins@[j].1);
                    } else {
                        assert(*out@[j] == self.plugins@[j].1);
                    }
                }
                assert(lhs =~= rhs);
            }
        }
        assert(self.plugins@.take(n as int) =~= self.plugins@);
        out
    }

    /// The number of registered plugins.
    pub fn count(&self) -> (n: usize)
        ensures
            n == self.entries().len(),
    {
        self.plugins.len()
    }
}

impl<P: ?Sized> Default for PluginRegistry<P> {
    fn default() -> (r: Self)
        ensures
            r.entries().len() == 0,
            forall|k: Seq<char>| r.lookup(k) is None,
    {
        Self::new()
    }
}

} // verus!
