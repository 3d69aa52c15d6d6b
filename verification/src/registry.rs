//! The registry of handlers: which factory serves the locations of a
//! scheme. One registry serves requests for storage backends, a second one
//! requests for log stores.

use vstd::prelude::*;
use crate::error::StorageError;
use crate::factory::{handled_scheme, HdfsFactory};
use crate::location::Location;

verus! {

/// The map that a list of entries stands for: each scheme with the factory
/// entered for it, a later entry before an earlier one.
pub open spec fn entries_map<F>(entries: Seq<(String, F)>) -> Map<Seq<char>, F>
    decreases entries.len(),
{
    if entries.len() == 0 {
        Map::empty()
    } else {
        entries_map(entries.drop_last()).insert(entries.last().0@, entries.last().1)
    }
}

/// Whether the entry at `at` is the last one of its scheme.
pub open spec fn last_of_scheme<F>(entries: Seq<(String, F)>, at: int) -> bool {
    &&& 0 <= at < entries.len()
    &&& forall|j: int| at < j < entries.len() ==> (#[trigger] entries[j]).0@ != entries[at].0@
}

/// What the map of a list of entries holds: the schemes of the entries,
/// each with the factory of its last entry.
pub proof fn lemma_entries_map<F>(entries: Seq<(String, F)>)
    ensures
        forall|scheme: Seq<char>| #[trigger]
            entries_map(entries).contains_key(scheme) <==> exists|i: int|
                0 <= i < entries.len() && (#[trigger] entries[i]).0@ == scheme,
        forall|i: int| #[trigger]
            last_of_scheme(entries, i) ==> entries_map(entries)[entries[i].0@] == entries[i].1,
    decreases entries.len(),
{
    if entries.len() > 0 {
        let before = entries.drop_last();
        let last = entries.len() - 1;
        lemma_entries_map(before);
        assert forall|scheme: Seq<char>| #[trigger]
            entries_map(entries).contains_key(scheme) <==> exists|i: int|
                0 <= i < entries.len() && (#[trigger] entries[i]).0@ == scheme by {
            if entries_map(entries).contains_key(scheme) {
                if scheme == entries.last().0@ {
                    assert(entries[last].0@ == scheme);
                } else {
                    assert(entries_map(before).contains_key(scheme));
                    let i = choose|i: int| 0 <= i < before.len() && (#[trigger] before[i]).0@ == scheme;
                    assert(entries[i].0@ == scheme);
                }
            }
            if exists|i: int| 0 <= i < entries.len() && (#[trigger] entries[i]).0@ == scheme {
                let i = choose|i: int| 0 <= i < entries.len() && (#[trigger] entries[i]).0@ == scheme;
                if i < before.len() {
                    assert(before[i].0@ == scheme);
                    assert(entries_map(before).contains_key(scheme));
                }
            }
        }
        assert forall|i: int| #[trigger] last_of_scheme(entries, i) implies entries_map(
            entries,
        )[entries[i].0@] == entries[i].1 by {
            if i < last {
                assert(entries[last].0@ != entries[i].0@);
                assert(before[i] == entries[i]);
                assert(last_of_scheme(before, i)) by {
                    assert forall|j: int| i < j < before.len() implies (#[trigger] before[j]).0@
                        != before[i].0@ by {
                        assert(entries[j].0@ != entries[i].0@);
                    }
                }
            }
        }
    }
}

/// Replacing the last entry of a scheme by another entry of that scheme
/// changes the map as entering the new factory for the scheme does.
pub proof fn lemma_replace_entry<F>(entries: Seq<(String, F)>, at: int, entry: (String, F))
    requires
        last_of_scheme(entries, at),
        entry.0@ == entries[at].0@,
    ensures
        entries_map(entries.update(at, entry)) == entries_map(entries).insert(entry.0@, entry.1),
{
    let after = entries.update(at, entry);
    let expected = entries_map(entries).insert(entry.0@, entry.1);
    lemma_entries_map(entries);
    lemma_entries_map(after);
    assert(last_of_scheme(after, at)) by {
        assert forall|j: int| at < j < after.len() implies (#[trigger] after[j]).0@ != after[at].0@ by {
            assert(entries[j].0@ != entries[at].0@);
        }
    }
    assert forall|scheme: Seq<char>| #[trigger] expected.contains_key(scheme) implies entries_map(
        after,
    ).contains_key(scheme) by {
        if scheme == entry.0@ {
            assert(after[at].0@ == scheme);
        } else {
            let j = choose|j: int| 0 <= j < entries.len() && (#[trigger] entries[j]).0@ == scheme;
            assert(after[j].0@ == scheme);
        }
    }
    assert forall|scheme: Seq<char>| #[trigger]
        entries_map(after).contains_key(scheme) implies expected.contains_key(scheme)
        && entries_map(after)[scheme] == expected[scheme] by {
        if scheme != entry.0@ {
            let j = choose|j: int| 0 <= j < after.len() && (#[trigger] after[j]).0@ == scheme;
            assert(entries[j].0@ == scheme);
            lemma_same_elsewhere(entries, at, entry, scheme);
        }
    }
    assert(entries_map(after) =~= expected);
}

/// Replacing an entry by another of the same scheme leaves what the map
/// holds for every other scheme.
proof fn lemma_same_elsewhere<F>(
    entries: Seq<(String, F)>,
    at: int,
    entry: (String, F),
    scheme: Seq<char>,
)
    requires
        0 <= at < entries.len(),
        entry.0@ == entries[at].0@,
        scheme != entry.0@,
        entries_map(entries).contains_key(scheme),
    ensures
        entries_map(entries.update(at, entry))[scheme] == entries_map(entries)[scheme],
    decreases entries.len(),
{
    let after = entries.update(at, entry);
    let last = entries.len() - 1;
    if at == last {
        assert(after.drop_last() =~= entries.drop_last());
    } else {
        assert(after.drop_last() =~= entries.drop_last().update(at, entry));
        assert(after.last() == entries.last());
        if entries.last().0@ != scheme {
            lemma_same_elsewhere(entries.drop_last(), at, entry, scheme);
        }
    }
}

/// The factory that a registry gives for a scheme, or an invalid location
/// where the scheme has no entry.
pub open spec fn resolved<F>(registry: Map<Seq<char>, F>, scheme: Seq<char>) -> Result<
    F,
    StorageError,
> {
    if registry.contains_key(scheme) {
        Ok(registry[scheme])
    } else {
        Err(StorageError::InvalidLocation)
    }
}

/// A registry of factories by scheme. A scheme has at most one factory:
/// entering a second one replaces the first.
pub struct SchemeRegistry<F> {
    entries: Vec<(String, F)>,
}

impl<F> View for SchemeRegistry<F> {
    type V = Map<Seq<char>, F>;

    closed spec fn view(&self) -> Map<Seq<char>, F> {
        entries_map(self.entries@)
    }
}

impl<F> SchemeRegistry<F> {
    /// The registry with no entry.
    pub fn new() -> (registry: Self)
        ensures
            registry@ == Map::<Seq<char>, F>::empty(),
    {
        SchemeRegistry { entries: Vec::new() }
    }

    /// Where the last entry of `scheme` stands, if it has one.
    fn position(&self, scheme: &String) -> (found: Option<usize>)
        ensures
            match found {
                Some(at) => last_of_scheme(self.entries@, at as int) && self.entries@[at as int].0@
                    == scheme@,
                None => forall|i: int|
                    0 <= i < self.entries@.len() ==> (#[trigger] self.entries@[i]).0@ != scheme@,
            },
    {
        let mut found: Option<usize> = None;
        let mut i: usize = 0;
        while i < self.entries.len()
            invariant
                i <= self.entries@.len(),
                match found {
                    Some(at) => at < i && self.entries@[at as int].0@ == scheme@ && forall|j: int|
                        at < j < i ==> (#[trigger] self.entries@[j]).0@ != scheme@,
                    None => forall|j: int|
                        0 <= j < i ==> (#[trigger] self.entries@[j]).0@ != scheme@,
                },
            decreases self.entries@.len() - i,
        {
            if self.entries[i].0 == *scheme {
                found = Some(i);
            }
            i = i + 1;
        }
        found
    }

    /// Enters `factory` for `scheme`, in place of the factory that the
    /// scheme had, if any. Says whether there was one.
    pub fn register(&mut self, scheme: &str, factory: F) -> (replaced: bool)
        ensures
            final(self)@ == old(self)@.insert(scheme@, factory),
            replaced == old(self)@.contains_key(scheme@),
    {
        let key = scheme.to_owned();
        let ghost before = self.entries@;
        proof {
            lemma_entries_map(before);
        }
        match self.position(&key) {
            Some(at) => {
                self.entries.remove(at);
                self.entries.insert(at, (key, factory));
                proof {
                    assert(self.entries@ =~= before.update(at as int, (key, factory)));
                    lemma_replace_entry(before, at as int, (key, factory));
                }
                true
            },
            None => {
                self.entries.push((key, factory));
                proof {
                    assert(self.entries@.drop_last() =~= before);
                    assert(self.entries@.last() == (key, factory));
                }
                false
            },
        }
    }

    /// The factory entered for `scheme`, if there is one.
    pub fn lookup(&self, scheme: &str) -> (found: Option<&F>)
        ensures
            match found {
                Some(factory) => self@.contains_key(scheme@) && *factory == self@[scheme@],
                None => !self@.contains_key(scheme@),
            },
    {
        proof {
            lemma_entries_map(self.entries@);
        }
        let key = scheme.to_owned();
        match self.position(&key) {
            Some(at) => Some(&self.entries[at].1),
            None => None,
        }
    }

    /// The factory that serves `location`: the one entered for its scheme,
    /// whatever its host and path. A location whose scheme has no entry is
    /// invalid; there is no factory to fall back on.
    pub fn resolve(&self, location: &Location) -> (found: Result<&F, StorageError>)
        ensures
            match found {
                Ok(factory) => resolved(self@, location@.scheme) == Ok::<F, StorageError>(*factory),
                Err(error) => resolved(self@, location@.scheme) == Err::<F, StorageError>(error),
            },
    {
        match self.lookup(location.scheme()) {
            Some(factory) => Ok(factory),
            None => Err(StorageError::InvalidLocation),
        }
    }
}

/// Of two factories entered for one scheme, the second is the one that a
/// lookup then gives, and the registry is as if the first had never been
/// entered. A scheme that was never entered is an invalid location.
pub proof fn lemma_last_registration_wins<F>(
    registry: Map<Seq<char>, F>,
    scheme: Seq<char>,
    first: F,
    second: F,
    other_scheme: Seq<char>,
)
    ensures
        resolved(registry.insert(scheme, first).insert(scheme, second), scheme) == Ok::<
            F,
            StorageError,
        >(second),
        registry.insert(scheme, first).insert(scheme, second) == registry.insert(scheme, second),
        other_scheme != scheme && !registry.contains_key(other_scheme) ==> resolved(
            registry.insert(scheme, first).insert(scheme, second),
            other_scheme,
        ) == Err::<F, StorageError>(StorageError::InvalidLocation),
{
    assert(registry.insert(scheme, first).insert(scheme, second) =~= registry.insert(
        scheme,
        second,
    ));
}

/// Entering a factory for a scheme a second time changes nothing.
pub proof fn lemma_registration_idempotent<F>(
    registry: Map<Seq<char>, F>,
    scheme: Seq<char>,
    factory: F,
)
    ensures
        registry.insert(scheme, factory).insert(scheme, factory) == registry.insert(
            scheme,
            factory,
        ),
{
    lemma_last_registration_wins(registry, scheme, factory, factory, scheme);
}

/// Entries for different schemes can be made in either order.
pub proof fn lemma_registration_order<F>(
    registry: Map<Seq<char>, F>,
    scheme: Seq<char>,
    factory: F,
    other_scheme: Seq<char>,
    other_factory: F,
)
    requires
        scheme != other_scheme,
    ensures
        registry.insert(scheme, factory).insert(other_scheme, other_factory) == registry.insert(
            other_scheme,
            other_factory,
        ).insert(scheme, factory),
{
    assert(registry.insert(scheme, factory).insert(other_scheme, other_factory)
        =~= registry.insert(other_scheme, other_factory).insert(scheme, factory));
}

/// Entering a factory for a scheme leaves every other scheme as it was.
pub proof fn lemma_registration_local<F>(
    registry: Map<Seq<char>, F>,
    scheme: Seq<char>,
    factory: F,
    other_scheme: Seq<char>,
)
    requires
        scheme != other_scheme,
    ensures
        resolved(registry.insert(scheme, factory), other_scheme) == resolved(
            registry,
            other_scheme,
        ),
{
}

/// The two registries of the process: the factories of storage backends
/// and the factories of log stores, each by scheme.
pub struct Handlers<F> {
    pub factories: SchemeRegistry<F>,
    pub logstores: SchemeRegistry<F>,
}

impl<F> Handlers<F> {
    /// The registries with no entry.
    pub fn new() -> (handlers: Self)
        ensures
            handlers.factories@ == Map::<Seq<char>, F>::empty(),
            handlers.logstores@ == Map::<Seq<char>, F>::empty(),
    {
        Handlers { factories: SchemeRegistry::new(), logstores: SchemeRegistry::new() }
    }
}

/// A registry after the factory of the Hadoop file system has been entered
/// for the schemes `hdfs` and `viewfs`.
pub open spec fn with_hdfs_handlers(registry: Map<Seq<char>, HdfsFactory>) -> Map<
    Seq<char>,
    HdfsFactory,
> {
    registry.insert("hdfs"@, HdfsFactory {  }).insert("viewfs"@, HdfsFactory {  })
}

/// Once the handlers are entered, every location of a scheme that the
/// factory serves resolves to the factory, and every other scheme resolves
/// as it did before.
pub proof fn lemma_handlers_resolve(registry: Map<Seq<char>, HdfsFactory>, scheme: Seq<char>)
    ensures
        handled_scheme(scheme) ==> resolved(with_hdfs_handlers(registry), scheme) == Ok::<
            HdfsFactory,
            StorageError,
        >(HdfsFactory {  }),
        !handled_scheme(scheme) ==> resolved(with_hdfs_handlers(registry), scheme) == resolved(
            registry,
            scheme,
        ),
{
}

/// Entering the handlers a second time changes nothing, so they may be
/// entered from every place that needs them.
pub proof fn lemma_handlers_idempotent(registry: Map<Seq<char>, HdfsFactory>)
    ensures
        with_hdfs_handlers(with_hdfs_handlers(registry)) == with_hdfs_handlers(registry),
{
    assert(with_hdfs_handlers(with_hdfs_handlers(registry)) =~= with_hdfs_handlers(registry));
}

/// Enters the factory of the Hadoop file system for the schemes `hdfs` and
/// `viewfs`, in the registry of storage backends and in that of log
/// stores. Other schemes keep what they had. The prefixes given in
/// addition have no part in it.
pub fn register_handlers(handlers: &mut Handlers<HdfsFactory>, _additional_prefixes: Option<&Location>)
    ensures
        final(handlers).factories@ == with_hdfs_handlers(old(handlers).factories@),
        final(handlers).logstores@ == with_hdfs_handlers(old(handlers).logstores@),
{
    let factory = HdfsFactory {  };
    handlers.factories.register("hdfs", factory);
    handlers.logstores.register("hdfs", factory);
    handlers.factories.register("viewfs", factory);
    handlers.logstores.register("viewfs", factory);
}

} // verus!
