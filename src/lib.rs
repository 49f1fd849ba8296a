use vstd::prelude::*;
use vstd::string::*;

pub mod download;
pub mod error;
pub mod progress;
pub mod query;
pub mod text;

use crate::error::PluginError;

verus! {

/// Whether `register_plugin` accepts `name`.
pub open spec fn register_ok<P>(plugins: Map<Seq<char>, P>, name: Seq<char>) -> bool {
    !plugins.contains_key(name)
}

/// The plugins after `register_plugin(plugin, name)`.
pub open spec fn registered<P>(plugins: Map<Seq<char>, P>, name: Seq<char>, plugin: P) -> Map<
    Seq<char>,
    P,
> {
    if register_ok(plugins, name) {
        plugins.insert(name, plugin)
    } else {
        plugins
    }
}

/// Whether `unregister_plugin` and `set_default` accept `name`.
pub open spec fn known<P>(plugins: Map<Seq<char>, P>, name: Seq<char>) -> bool {
    plugins.contains_key(name)
}

/// The plugins after `unregister_plugin(name)`.
pub open spec fn unregistered<P>(plugins: Map<Seq<char>, P>, name: Seq<char>) -> Map<
    Seq<char>,
    P,
> {
    if known(plugins, name) {
        plugins.remove(name)
    } else {
        plugins
    }
}

/// The default after `unregister_plugin(name)`: removing the default plugin
/// clears the default, so that it always names a registered plugin.
pub open spec fn default_after_unregister(default: Option<Seq<char>>, name: Seq<char>) -> Option<
    Seq<char>,
> {
    if default == Some(name) {
        None
    } else {
        default
    }
}

/// The default after `set_default(name)`.
pub open spec fn default_after_set<P>(
    plugins: Map<Seq<char>, P>,
    default: Option<Seq<char>>,
    name: Seq<char>,
) -> Option<Seq<char>> {
    if known(plugins, name) {
        Some(name)
    } else {
        default
    }
}

/// The plugin that `default` hands out, if a default is set.
pub open spec fn default_plugin<P>(plugins: Map<Seq<char>, P>, default: Option<Seq<char>>) -> Option<P> {
    match default {
        Some(d) => Some(plugins[d]),
        None => None,
    }
}

pub open spec fn is_duplicated(e: PluginError, name: Seq<char>) -> bool {
    match e {
        PluginError::DuplicatedPlugin(n) => n@ == name,
        _ => false,
    }
}

pub open spec fn is_unregistered(e: PluginError, name: Seq<char>) -> bool {
    match e {
        PluginError::UnregisteredPlugin(n) => n@ == name,
        _ => false,
    }
}

/// Registering a name a second time is refused, and leaves the plugins, and
/// so their number, as the first registration left them.
pub proof fn lemma_register_twice<P>(plugins: Map<Seq<char>, P>, name: Seq<char>, first: P, second: P)
    requires
        plugins.dom().finite(),
    ensures
        !register_ok(registered(plugins, name, first), name),
        registered(registered(plugins, name, first), name, second) == registered(plugins, name, first),
        registered(registered(plugins, name, first), name, second).len() == registered(
            plugins,
            name,
            first,
        ).len(),
{
}

/// Unregistering a name that is not registered is refused and leaves the
/// plugins and the default as they were.
pub proof fn lemma_unregister_unknown<P>(
    plugins: Map<Seq<char>, P>,
    default: Option<Seq<char>>,
    name: Seq<char>,
)
    requires
        !plugins.contains_key(name),
        default matches Some(d) ==> plugins.contains_key(d),
    ensures
        !known(plugins, name),
        unregistered(plugins, name) == plugins,
        default_after_unregister(default, name) == default,
{
}

/// Setting an unregistered name as the default is refused and keeps the
/// default; setting a registered one makes the default lookup hand out that
/// very plugin.
pub proof fn lemma_set_default_lookup<P>(
    plugins: Map<Seq<char>, P>,
    default: Option<Seq<char>>,
    name: Seq<char>,
)
    ensures
        !known(plugins, name) ==> default_after_set(plugins, default, name) == default,
        known(plugins, name) ==> default_plugin(plugins, default_after_set(plugins, default, name))
            == Some(plugins[name]),
{
}

/// Manages the registered plugins and gives one way to reach them. It holds
/// the registered plugins by name and allows one of them to be designated as
/// the default plugin for queries, downloads and streams.
pub struct PluginManager<P> {
    names: Vec<String>,
    plugins: Vec<P>,
    default: Option<String>,
    model: Ghost<Map<Seq<char>, P>>,
}

impl<P> PluginManager<P> {
    /// The registered plugins by name.
    pub closed spec fn spec_plugins(&self) -> Map<Seq<char>, P> {
        self.model@
    }

    /// The name of the default plugin, if one is set.
    pub closed spec fn spec_default(&self) -> Option<Seq<char>> {
        match self.default {
            Some(d) => Some(d@),
            None => None,
        }
    }

    /// Names are unique, each stands beside its plugin, and the default
    /// names a registered plugin.
    pub closed spec fn wf(&self) -> bool {
        &&& self.names@.len() == self.plugins@.len()
        &&& self.model@.dom().finite()
        &&& forall|i: int, j: int|
            0 <= i < j < self.names@.len() ==> self.names@[i]@ != self.names@[j]@
        &&& forall|i: int|
            0 <= i < self.names@.len() ==> #[trigger] self.model@.contains_key(self.names@[i]@)
                && self.model@[self.names@[i]@] == self.plugins@[i]
        &&& forall|k: Seq<char>|
            #[trigger] self.model@.contains_key(k) ==> exists|i: int|
                0 <= i < self.names@.len() && self.names@[i]@ == k
        &&& self.default matches Some(d) ==> self.model@.contains_key(d@)
    }

    /// Creates a manager with no plugin registered and no default.
    pub fn new() -> (r: Self)
        ensures
            r.wf(),
            r.spec_plugins() == Map::<Seq<char>, P>::empty(),
            r.spec_plugins().dom().finite(),
            r.spec_default() is None,
    {
        PluginManager {
            names: Vec::new(),
            plugins: Vec::new(),
            default: None,
            model: Ghost(Map::empty()),
        }
    }

    fn find(&self, key: &String) -> (r: Option<usize>)
        requires
            self.wf(),
        ensures
            match r {
                Some(i) => i < self.names@.len() && self.names@[i as int]@ == key@,
                None => !self.spec_plugins().contains_key(key@),
            },
    {
        let mut i: usize = 0;
        while i < self.names.len()
            invariant
                self.wf(),
                i <= self.names@.len(),
                forall|j: int| 0 <= j < i ==> self.names@[j]@ != key@,
            decreases self.names@.len() - i,
        {
            if self.names[i] == *key {
                return Some(i);
            }
            i = i + 1;
        }
        None
    }

    /// Whether a plugin is registered under `name`.
    pub fn contains(&self, name: &str) -> (r: bool)
        requires
            self.wf(),
        ensures
            r == self.spec_plugins().contains_key(name@),
    {
        let key = String::from_str(name);
        self.find(&key).is_some()
    }

    /// The number of registered plugins.
    pub fn len(&self) -> (r: usize)
        requires
            self.wf(),
        ensures
            r == self.spec_plugins().len(),
            self.spec_plugins().dom().finite(),
    {
        proof {
            self.lemma_len();
        }
        self.names.len()
    }

    /// Registers `plugin` under `name`. A name that is already registered
    /// is refused and the manager is left as it was.
    pub fn register_plugin(&mut self, plugin: P, name: &str) -> (r: Result<(), PluginError>)
        requires
            old(self).wf(),
        ensures
            final(self).wf(),
            final(self).spec_plugins().dom().finite(),
            r.is_ok() == register_ok(old(self).spec_plugins(), name@),
            r matches Err(e) ==> is_duplicated(e, name@),
            final(self).spec_plugins() == registered(old(self).spec_plugins(), name@, plugin),
            final(self).spec_default() == old(self).spec_default(),
    {
        let key = String::from_str(name);
        if self.find(&key).is_some() {
            return Err(PluginError::DuplicatedPlugin(key));
        }
        let ghost before = *self;
        self.names.push(key);
        self.plugins.push(plugin);
        self.model = Ghost(self.model@.insert(name@, plugin));
        proof {
            assert forall|i: int|
                0 <= i < self.names@.len() implies #[trigger] self.model@.contains_key(
                self.names@[i]@,
            ) && self.model@[self.names@[i]@] == self.plugins@[i] by {
                if i < before.names@.len() {
                    assert(self.names@[i] == before.names@[i]);
                }
            }
            assert forall|k: Seq<char>| #[trigger]
                self.model@.contains_key(k) implies exists|i: int|
                0 <= i < self.names@.len() && self.names@[i]@ == k by {
                if k == name@ {
                    assert(self.names@[before.names@.len() as int]@ == k);
                } else {
                    let i = choose|i: int| 0 <= i < before.names@.len() && before.names@[i]@ == k;
                    assert(self.names@[i] == before.names@[i]);
                }
            }
        }
        Ok(())
    }

    /// Removes the plugin registered under `name`. An unknown name is
    /// refused and the manager is left as it was. Removing the default
    /// plugin clears the default.
    pub fn unregister_plugin(&mut self, name: &str) -> (r: Result<(), PluginError>)
        requires
            old(self).wf(),
        ensures
            final(self).wf(),
            final(self).spec_plugins().dom().finite(),
            r.is_ok() == known(old(self).spec_plugins(), name@),
            r matches Err(e) ==> is_unregistered(e, name@),
            final(self).spec_plugins() == unregistered(old(self).spec_plugins(), name@),
            final(self).spec_default() == (if r.is_ok() {
                default_after_unregister(old(self).spec_default(), name@)
            } else {
                old(self).spec_default()
            }),
    {
        let key = String::from_str(name);
        let found = self.find(&key);
        let i = match found {
            None => {
                return Err(PluginError::UnregisteredPlugin(key));
            },
            Some(i) => i,
        };
        let ghost before = *self;
        self.names.remove(i);
        self.plugins.remove(i);
        self.model = Ghost(self.model@.remove(name@));
        let clear = match &self.default {
            Some(d) => *d == key,
            None => false,
        };
        if clear {
            self.default = None;
        }
        proof {
            assert forall|a: int, b: int|
                0 <= a < b < self.names@.len() implies self.names@[a]@ != self.names@[b]@ by {
                let a0 = if a < i { a } else { a + 1 };
                let b0 = if b < i { b } else { b + 1 };
                assert(self.names@[a] == before.names@[a0]);
                assert(self.names@[b] == before.names@[b0]);
            }
            assert forall|j: int|
                0 <= j < self.names@.len() implies #[trigger] self.model@.contains_key(
                self.names@[j]@,
            ) && self.model@[self.names@[j]@] == self.plugins@[j] by {
                let j0 = if j < i { j } else { j + 1 };
                assert(self.names@[j] == before.names@[j0]);
                assert(self.plugins@[j] == before.plugins@[j0]);
                assert(before.model@.contains_key(before.names@[j0]@));
                assert(before.names@[i as int]@ == name@);
                if j0 < i {
                    assert(before.names@[j0]@ != before.names@[i as int]@);
                } else {
                    assert(before.names@[i as int]@ != before.names@[j0]@);
                }
            }
            assert forall|k: Seq<char>| #[trigger]
                self.model@.contains_key(k) implies exists|j: int|
                0 <= j < self.names@.len() && self.names@[j]@ == k by {
                let j0 = choose|j: int| 0 <= j < before.names@.len() && before.names@[j]@ == k;
                assert(j0 != i);
                let j = if j0 < i { j0 } else { j0 - 1 };
                assert(self.names@[j] == before.names@[j0]);
            }
        }
        Ok(())
    }

    /// Designates the plugin registered under `name` as the default. An
    /// unknown name is refused and the manager is left as it was.
    pub fn set_default(&mut self, name: &str) -> (r: Result<(), PluginError>)
        requires
            old(self).wf(),
        ensures
            final(self).wf(),
            final(self).spec_plugins().dom().finite(),
            r.is_ok() == known(old(self).spec_plugins(), name@),
            r matches Err(e) ==> is_unregistered(e, name@),
            final(self).spec_plugins() == old(self).spec_plugins(),
            final(self).spec_default() == default_after_set(
                old(self).spec_plugins(),
                old(self).spec_default(),
                name@,
            ),
    {
        let key = String::from_str(name);
        let found = self.find(&key);
        let i = match found {
            None => {
                return Err(PluginError::UnregisteredPlugin(key));
            },
            Some(i) => i,
        };
        proof {
            assert(self.model@.contains_key(self.names@[i as int]@));
        }
        self.default = Some(key);
        Ok(())
    }

    /// The default plugin. With no default set this fails with
    /// `NoDefaultPlugin`, which is how a query, a download or a stream
    /// fails without one.
    pub fn default(&self) -> (r: Result<&P, PluginError>)
        requires
            self.wf(),
        ensures
            r.is_ok() == self.spec_default().is_some(),
            r matches Err(e) ==> e is NoDefaultPlugin,
            r matches Ok(p) ==> Some(*p) == default_plugin(self.spec_plugins(), self.spec_default()),
    {
        match &self.default {
            None => Err(PluginError::NoDefaultPlugin),
            Some(d) => match self.find(d) {
                Some(i) => Ok(&self.plugins[i]),
                None => Err(PluginError::NoDefaultPlugin),
            },
        }
    }

    /// A well-formed manager holds finitely many plugins.
    pub proof fn lemma_plugins_finite(&self)
        requires
            self.wf(),
        ensures
            self.spec_plugins().dom().finite(),
    {
    }

    proof fn lemma_len(&self)
        requires
            self.wf(),
        ensures
            self.spec_plugins().dom().finite(),
            self.spec_plugins().len() == self.names@.len(),
    {
        let keys = self.names@.map_values(|s: String| s@);
        assert forall|k: Seq<char>| #[trigger]
            self.spec_plugins().dom().contains(k) <==> keys.to_set().contains(k) by {
            if self.spec_plugins().dom().contains(k) {
                let i = choose|i: int| 0 <= i < self.names@.len() && self.names@[i]@ == k;
                assert(keys[i] == k);
            }
            if keys.contains(k) {
                let i = choose|i: int| 0 <= i < keys.len() && keys[i] == k;
                assert(self.names@[i]@ == k);
            }
        }
        assert(self.spec_plugins().dom() =~= keys.to_set());
        assert forall|i: int, j: int| 0 <= i < keys.len() && 0 <= j < keys.len() && i != j implies keys[i]
            != keys[j] by {
            if i < j {
                assert(self.names@[i]@ != self.names@[j]@);
            } else {
                assert(self.names@[j]@ != self.names@[i]@);
            }
        }
        assert(keys.no_duplicates());
        keys.unique_seq_to_set();
    }
}

} // verus!
