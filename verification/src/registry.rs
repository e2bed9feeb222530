//! Registries of Rust factories for custom layer and custom model classes, keyed by the
//! Objective-C class name, and how a callback's outcome is reported back to the bridge.

use vstd::prelude::*;

use crate::error::{error_code, error_message, CoreMLError};
use crate::status;

verus! {

/// Which kind of custom class a registry holds factories for.
#[derive(Debug, Clone, Copy, PartialEq, Eq, Structural)]
pub enum RegistryKind {
    /// `MLCustomLayer` classes.
    Layer,
    /// `MLCustomModel` classes.
    Model,
}

/// Message of the error reported when a class name is registered twice.
pub open spec fn duplicate_message(kind: RegistryKind, name: Seq<char>) -> Seq<char> {
    match kind {
        RegistryKind::Layer => "custom layer class '"@ + name + "' is already registered"@,
        RegistryKind::Model => "custom model class '"@ + name + "' is already registered"@,
    }
}

/// Message of the error reported when no factory is registered for a class name.
pub open spec fn missing_message(kind: RegistryKind, name: Seq<char>) -> Seq<char> {
    match kind {
        RegistryKind::Layer => "no Rust MLCustomLayer factory is registered for class '"@ + name
            + "'"@,
        RegistryKind::Model => "no Rust MLCustomModel factory is registered for class '"@ + name
            + "'"@,
    }
}

/// The class names and factories of a list of entries, as a map; a later entry wins.
pub open spec fn entries_map<F>(entries: Seq<(String, F)>) -> Map<Seq<char>, F>
    decreases entries.len(),
{
    if entries.len() == 0 {
        Map::empty()
    } else {
        entries_map(entries.drop_last()).insert(entries.last().0@, entries.last().1)
    }
}

/// Whether no class name occurs twice in a list of entries.
pub open spec fn distinct_names<F>(entries: Seq<(String, F)>) -> bool {
    forall|i: int, j: int|
        0 <= i < entries.len() && 0 <= j < entries.len() && i != j ==> #[trigger] entries[i].0@
            != #[trigger] entries[j].0@
}

proof fn lemma_entries_map_has<F>(entries: Seq<(String, F)>, i: int)
    requires
        distinct_names(entries),
        0 <= i < entries.len(),
    ensures
        entries_map(entries).dom().contains(entries[i].0@),
        entries_map(entries)[entries[i].0@] == entries[i].1,
    decreases entries.len(),
{
    if i < entries.len() - 1 {
        let rest = entries.drop_last();
        assert(rest[i] == entries[i]);
        assert(distinct_names(rest)) by {
            assert forall|a: int, b: int|
                0 <= a < rest.len() && 0 <= b < rest.len() && a != b implies #[trigger] rest[a].0@
                != #[trigger] rest[b].0@ by {
                assert(entries[a].0@ != entries[b].0@);
            }
        }
        lemma_entries_map_has(rest, i);
        assert(entries[i].0@ != entries[entries.len() - 1].0@);
    }
}

proof fn lemma_entries_map_lacks<F>(entries: Seq<(String, F)>, name: Seq<char>)
    requires
        forall|i: int| 0 <= i < entries.len() ==> #[trigger] entries[i].0@ != name,
    ensures
        !entries_map(entries).dom().contains(name),
    decreases entries.len(),
{
    if entries.len() > 0 {
        let rest = entries.drop_last();
        assert forall|i: int| 0 <= i < rest.len() implies #[trigger] rest[i].0@ != name by {
            assert(entries[i].0@ != name);
        }
        lemma_entries_map_lacks(rest, name);
        assert(entries[entries.len() - 1].0@ != name);
    }
}

proof fn lemma_distinct_drop_last<F>(entries: Seq<(String, F)>)
    requires
        distinct_names(entries),
        entries.len() > 0,
    ensures
        distinct_names(entries.drop_last()),
        forall|i: int|
            0 <= i < entries.len() - 1 ==> #[trigger] entries.drop_last()[i].0@ != entries.last().0@,
{
    let rest = entries.drop_last();
    assert forall|a: int, b: int|
        0 <= a < rest.len() && 0 <= b < rest.len() && a != b implies #[trigger] rest[a].0@
        != #[trigger] rest[b].0@ by {
        assert(entries[a].0@ != entries[b].0@);
    }
    assert forall|i: int| 0 <= i < entries.len() - 1 implies #[trigger] rest[i].0@
        != entries.last().0@ by {
        assert(entries[i].0@ != entries[entries.len() - 1].0@);
    }
}

proof fn lemma_entries_map_remove<F>(entries: Seq<(String, F)>, i: int)
    requires
        distinct_names(entries),
        0 <= i < entries.len(),
    ensures
        entries_map(entries.remove(i)) == entries_map(entries).remove(entries[i].0@),
    decreases entries.len(),
{
    let k = entries[i].0@;
    let rest = entries.drop_last();
    lemma_distinct_drop_last(entries);
    if i == entries.len() - 1 {
        assert(entries.remove(i) =~= rest);
        assert forall|j: int| 0 <= j < rest.len() implies #[trigger] rest[j].0@ != k by {
            assert(rest[j].0@ != entries.last().0@);
        }
        lemma_entries_map_lacks(rest, k);
        assert(entries_map(entries).remove(k) =~= entries_map(rest));
    } else {
        let removed = entries.remove(i);
        assert(removed.drop_last() =~= rest.remove(i));
        assert(removed.last() == entries.last());
        assert(rest[i] == entries[i]);
        lemma_entries_map_remove(rest, i);
        assert(entries.last().0@ != k) by {
            assert(entries[entries.len() - 1].0@ != entries[i].0@);
        }
        assert(entries_map(removed) =~= entries_map(entries).remove(k));
    }
}

/// Factories of one kind of custom class, by class name; a name is registered at most once.
pub struct ClassRegistry<F> {
    kind: RegistryKind,
    entries: Vec<(String, F)>,
}

impl<F> ClassRegistry<F> {
    /// The registered factories, by class name.
    pub closed spec fn factories(&self) -> Map<Seq<char>, F> {
        entries_map(self.entries@)
    }

    /// The kind of custom class this registry is for.
    pub closed spec fn registry_kind(&self) -> RegistryKind {
        self.kind
    }

    #[verifier::type_invariant]
    closed spec fn names_distinct(&self) -> bool {
        distinct_names(self.entries@)
    }

    /// An empty registry.
    pub fn new(kind: RegistryKind) -> (r: Self)
        ensures
            r.factories() == Map::<Seq<char>, F>::empty(),
            r.registry_kind() == kind,
    {
        ClassRegistry { kind, entries: Vec::new() }
    }

    fn position(&self, name: &str) -> (r: Option<usize>)
        ensures
            r matches Some(i) ==> i < self.entries@.len() && self.entries@[i as int].0@ == name@,
            r is None ==> forall|i: int|
                0 <= i < self.entries@.len() ==> #[trigger] self.entries@[i].0@ != name@,
    {
        let key = String::from_str(name);
        let mut i: usize = 0;
        while i < self.entries.len()
            invariant
                i <= self.entries@.len(),
                key@ == name@,
                forall|j: int| 0 <= j < i ==> #[trigger] self.entries@[j].0@ != name@,
            decreases self.entries.len() - i,
        {
            if self.entries[i].0 == key {
                return Some(i);
            }
            i = i + 1;
        }
        None
    }

    /// Whether a factory is registered for the class name.
    pub fn contains(&self, name: &str) -> (b: bool)
        ensures
            b == self.factories().dom().contains(name@),
    {
        proof {
            use_type_invariant(self);
        }
        match self.position(name) {
            Some(i) => {
                proof {
                    lemma_entries_map_has(self.entries@, i as int);
                }
                true
            },
            None => {
                proof {
                    lemma_entries_map_lacks(self.entries@, name@);
                }
                false
            },
        }
    }

    /// Register a factory under a class name that has none yet; a name already registered is
    /// an error and leaves the registry as it was.
    pub fn register(&mut self, name: String, factory: F) -> (r: Result<(), CoreMLError>)
        ensures
            final(self).registry_kind() == old(self).registry_kind(),
            old(self).factories().dom().contains(name@) ==> final(self).factories() == old(
                self,
            ).factories() && (r matches Err(CoreMLError::InvalidArgument(m)) && m@
                == duplicate_message(old(self).registry_kind(), name@)),
            !old(self).factories().dom().contains(name@) ==> r is Ok && final(self).factories()
                == old(self).factories().insert(name@, factory),
    {
        proof {
            use_type_invariant(&*self);
        }
        if self.contains(name.as_str()) {
            let mut m = match self.kind {
                RegistryKind::Layer => String::from_str("custom layer class '"),
                RegistryKind::Model => String::from_str("custom model class '"),
            };
            m.append(name.as_str());
            m.append("' is already registered");
            return Err(CoreMLError::InvalidArgument(m));
        }
        let ghost before = self.entries@;
        proof {
            assert forall|i: int| 0 <= i < before.len() implies #[trigger] before[i].0@
                != name@ by {
                if before[i].0@ == name@ {
                    lemma_entries_map_has(before, i);
                }
            }
        }
        let ghost key = name@;
        let mut entries: Vec<(String, F)> = Vec::new();
        std::mem::swap(&mut entries, &mut self.entries);
        entries.push((name, factory));
        proof {
            let after = entries@;
            assert(after.drop_last() =~= before);
            assert forall|a: int, b: int|
                0 <= a < after.len() && 0 <= b < after.len() && a != b implies #[trigger] after[a].0@
                != #[trigger] after[b].0@ by {
                if a < before.len() && b < before.len() {
                    assert(before[a].0@ != before[b].0@);
                } else if a < before.len() {
                    assert(before[a].0@ != key);
                } else {
                    assert(before[b].0@ != key);
                }
            }
        }
        self.entries = entries;
        Ok(())
    }

    /// The factory registered for a class name, with an error when there is none.
    pub fn lookup(&self, name: &str) -> (r: Result<&F, CoreMLError>)
        ensures
            self.factories().dom().contains(name@) ==> (r matches Ok(f) && *f
                == self.factories()[name@]),
            !self.factories().dom().contains(name@) ==> (r matches Err(
                CoreMLError::InvalidArgument(m),
            ) && m@ == missing_message(self.registry_kind(), name@)),
    {
        proof {
            use_type_invariant(self);
        }
        match self.position(name) {
            Some(i) => {
                proof {
                    lemma_entries_map_has(self.entries@, i as int);
                }
                Ok(&self.entries[i].1)
            },
            None => {
                proof {
                    lemma_entries_map_lacks(self.entries@, name@);
                }
                let mut m = match self.kind {
                    RegistryKind::Layer => String::from_str(
                        "no Rust MLCustomLayer factory is registered for class '",
                    ),
                    RegistryKind::Model => String::from_str(
                        "no Rust MLCustomModel factory is registered for class '",
                    ),
                };
                m.append(name);
                m.append("'");
                Err(CoreMLError::InvalidArgument(m))
            },
        }
    }

    /// Remove the factory registered for a class name, giving it back if there was one.
    pub fn remove(&mut self, name: &str) -> (r: Option<F>)
        ensures
            final(self).registry_kind() == old(self).registry_kind(),
            final(self).factories() == old(self).factories().remove(name@),
            old(self).factories().dom().contains(name@) ==> r == Some(
                old(self).factories()[name@],
            ),
            !old(self).factories().dom().contains(name@) ==> r is None,
    {
        proof {
            use_type_invariant(&*self);
        }
        match self.position(name) {
            Some(i) => {
                let ghost before = self.entries@;
                proof {
                    lemma_entries_map_has(before, i as int);
                    lemma_entries_map_remove(before, i as int);
                }
                let mut entries: Vec<(String, F)> = Vec::new();
                std::mem::swap(&mut entries, &mut self.entries);
                let (_, factory) = entries.remove(i);
                proof {
                    let after = entries@;
                    assert(after == before.remove(i as int));
                    assert forall|a: int, b: int|
                        0 <= a < after.len() && 0 <= b < after.len() && a != b implies #[trigger] after[a].0@
                        != #[trigger] after[b].0@ by {
                        let a2 = if a < i { a } else { a + 1 };
                        let b2 = if b < i { b } else { b + 1 };
                        assert(after[a] == before[a2]);
                        assert(after[b] == before[b2]);
                        assert(before[a2].0@ != before[b2].0@);
                    }
                }
                self.entries = entries;
                Some(factory)
            },
            None => {
                proof {
                    lemma_entries_map_lacks(self.entries@, name@);
                    assert(self.factories().remove(name@) =~= self.factories());
                }
                None
            },
        }
    }
}

/// What a registry promises across calls: a registered factory is found under its name, other
/// names answer as before, a removed name is no longer found, and registering a fresh name and
/// then removing it gives the registry back as it was.
pub proof fn lemma_registry_round_trip<F>(
    factories: Map<Seq<char>, F>,
    name: Seq<char>,
    other: Seq<char>,
    factory: F,
)
    requires
        other != name,
    ensures
        factories.insert(name, factory).dom().contains(name),
        factories.insert(name, factory)[name] == factory,
        factories.insert(name, factory).dom().contains(other) == factories.dom().contains(other),
        factories.dom().contains(other) ==> factories.insert(name, factory)[other]
            == factories[other],
        !factories.remove(name).dom().contains(name),
        !factories.dom().contains(name) ==> factories.insert(name, factory).remove(name)
            == factories,
{
    if !factories.dom().contains(name) {
        assert(factories.insert(name, factory).remove(name) =~= factories);
    }
}

/// Lifetime guard for one registered Objective-C custom-layer class.
pub struct MLCustomLayerRegistration {
    class_name: String,
}

impl MLCustomLayerRegistration {
    /// The guard for a class that was just registered.
    pub fn new(class_name: String) -> (r: Self)
        ensures
            r.class_name_view() == class_name@,
    {
        MLCustomLayerRegistration { class_name }
    }

    /// The registered class name.
    pub closed spec fn class_name_view(&self) -> Seq<char> {
        self.class_name@
    }

    /// Objective-C runtime class name passed to CoreML.
    pub fn class_name(&self) -> (name: &str)
        ensures
            name@ == self.class_name_view(),
    {
        self.class_name.as_str()
    }
}

/// Lifetime guard for one registered Objective-C custom-model class.
pub struct MLCustomModelRegistration {
    class_name: String,
}

impl MLCustomModelRegistration {
    /// The guard for a class that was just registered.
    pub fn new(class_name: String) -> (r: Self)
        ensures
            r.class_name_view() == class_name@,
    {
        MLCustomModelRegistration { class_name }
    }

    /// The registered class name.
    pub closed spec fn class_name_view(&self) -> Seq<char> {
        self.class_name@
    }

    /// Objective-C runtime class name passed to CoreML.
    pub fn class_name(&self) -> (name: &str)
        ensures
            name@ == self.class_name_view(),
    {
        self.class_name.as_str()
    }
}

/// How a Rust callback invoked by the bridge ended.
pub enum CallbackEnd {
    /// It returned this result.
    Returned(Result<(), CoreMLError>),
    /// It panicked.
    Panicked,
}

/// The status code and error text reported to the bridge for a callback's end: success
/// reports `OK` and no text, an error its own code and message, and a panic the kind's failure
/// code with a fixed message.
pub fn callback_report(end: CallbackEnd, kind: RegistryKind) -> (report: (i32, Option<String>))
    ensures
        end matches CallbackEnd::Returned(Ok(_)) ==> report.0 == status::OK && report.1 is None,
        end matches CallbackEnd::Returned(Err(e)) ==> report.0 == error_code(e) && (report.1 matches Some(m)
            && m@ == error_message(e)),
        end is Panicked ==> (kind == RegistryKind::Layer ==> report.0 == status::CUSTOM_LAYER_FAILED
            && (report.1 matches Some(m) && m@ == "panic in Rust MLCustomLayer callback"@)),
        end is Panicked ==> (kind == RegistryKind::Model ==> report.0 == status::CUSTOM_MODEL_FAILED
            && (report.1 matches Some(m) && m@ == "panic in Rust MLCustomModel callback"@)),
{
    match end {
        CallbackEnd::Returned(Ok(())) => (status::OK, None),
        CallbackEnd::Returned(Err(e)) => {
            let code = e.code();
            let message = String::from_str(e.message());
            (code, Some(message))
        },
        CallbackEnd::Panicked => match kind {
            RegistryKind::Layer => (
                status::CUSTOM_LAYER_FAILED,
                Some(String::from_str("panic in Rust MLCustomLayer callback")),
            ),
            RegistryKind::Model => (
                status::CUSTOM_MODEL_FAILED,
                Some(String::from_str("panic in Rust MLCustomModel callback")),
            ),
        },
    }
}

} // verus!
