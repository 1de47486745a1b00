//! The table of handlers, keyed by service type and operation name, and its records.

use vstd::prelude::*;
use crate::extract::ParameterSpec;
use vstd::string::{StrSliceExecFns, StringExecFns};

verus! {

/// A registered handler: the operation it serves, the service type that owns it, and the
/// parameters it declares.
#[derive(Debug)]
pub struct ActionItem {
    /// Name of the operation, as callers address it.
    pub name: String,
    /// Identity of the service type that owns the handler.
    pub service_type_id: u64,
    /// The declared parameters, in order.
    pub parameters: Vec<ParameterSpec>,
}

/// Why a registration was refused.
#[derive(Debug, PartialEq)]
pub enum RegistryError {
    /// A handler for the same service type and operation name is already registered.
    DuplicateKey { service_type_id: u64, operation_name: String },
    /// The registry is sealed: no handler can be added any more.
    Sealed { operation_name: String },
}

/// The entry at `i` serves operation `name` of service type `id`.
pub open spec fn key_at(items: Seq<ActionItem>, i: int, id: u64, name: Seq<char>) -> bool {
    items[i].service_type_id == id && items[i].name@ == name
}

pub open spec fn has_key(items: Seq<ActionItem>, id: u64, name: Seq<char>) -> bool {
    exists|i: int| 0 <= i < items.len() && #[trigger] key_at(items, i, id, name)
}

/// No two entries share a service type and an operation name.
pub open spec fn keys_unique(items: Seq<ActionItem>) -> bool {
    forall|i: int, j: int|
        0 <= i < items.len() && 0 <= j < items.len() && i != j ==> !#[trigger] key_at(
            items,
            i,
            items[j].service_type_id,
            items[j].name@,
        )
}

/// What a registration does: the entries afterwards, and the outcome.
pub open spec fn register_model(items: Seq<ActionItem>, sealed: bool, item: ActionItem) -> (
    Seq<ActionItem>,
    Result<(), RegistryError>,
) {
    if sealed {
        (items, Err(RegistryError::Sealed { operation_name: item.name }))
    } else if has_key(items, item.service_type_id, item.name@) {
        (
            items,
            Err(
                RegistryError::DuplicateKey {
                    service_type_id: item.service_type_id,
                    operation_name: item.name,
                },
            ),
        )
    } else {
        (items.push(item), Ok(()))
    }
}

/// The first entry that serves operation `name` of service type `id`.
pub open spec fn find_model(items: Seq<ActionItem>, id: u64, name: Seq<char>) -> Option<ActionItem>
    decreases items.len(),
{
    if items.len() == 0 {
        None
    } else if items[0].service_type_id == id && items[0].name@ == name {
        Some(items[0])
    } else {
        find_model(items.drop_first(), id, name)
    }
}

/// The operation names registered for service type `id`, in order of registration.
pub open spec fn operations_model(items: Seq<ActionItem>, id: u64) -> Seq<Seq<char>>
    decreases items.len(),
{
    if items.len() == 0 {
        Seq::empty()
    } else if items.last().service_type_id == id {
        operations_model(items.drop_last(), id).push(items.last().name@)
    } else {
        operations_model(items.drop_last(), id)
    }
}

/// The table of handlers, keyed by service type and operation name.
///
/// It is open while the surrounding runtime starts up, and sealed once: after that its
/// entries never change.
pub struct ActionRegistry {
    items: Vec<ActionItem>,
    sealed: bool,
}

impl ActionRegistry {
    /// The registered entries, in order of registration.
    pub closed spec fn handlers(&self) -> Seq<ActionItem> {
        self.items@
    }

    pub closed spec fn is_sealed(&self) -> bool {
        self.sealed
    }

    /// Keys are unique.
    pub open spec fn wf(&self) -> bool {
        keys_unique(self.handlers())
    }

    /// An open registry without entries.
    pub fn new() -> (r: Self)
        ensures
            r.wf(),
            r.handlers() == Seq::<ActionItem>::empty(),
            !r.is_sealed(),
    {
        ActionRegistry { items: Vec::new(), sealed: false }
    }

    pub fn sealed(&self) -> (r: bool)
        ensures
            r == self.is_sealed(),
    {
        self.sealed
    }

    pub fn len(&self) -> (r: usize)
        ensures
            r == self.handlers().len(),
    {
        self.items.len()
    }

    /// Ends the registration phase.
    pub fn seal(&mut self)
        ensures
            final(self).is_sealed(),
            final(self).handlers() == old(self).handlers(),
    {
        self.sealed = true;
    }

    /// Whether a handler serves operation `name` of service type `id`.
    pub fn contains(&self, id: u64, name: &String) -> (r: bool)
        ensures
            r == has_key(self.handlers(), id, name@),
    {
        let mut i: usize = 0;
        while i < self.items.len()
            invariant
                i <= self.items.len(),
                forall|j: int| 0 <= j < i ==> !#[trigger] key_at(self.items@, j, id, name@),
            decreases self.items.len() - i,
        {
            if self.items[i].service_type_id == id && self.items[i].name == *name {
                assert(key_at(self.items@, i as int, id, name@));
                return true;
            }
            i = i + 1;
        }
        false
    }

    /// Adds a handler. Fails on a sealed registry, and on a key that is already registered;
    /// the registry is then left as it was.
    pub fn register(&mut self, item: ActionItem) -> (r: Result<(), RegistryError>)
        requires
            old(self).wf(),
        ensures
            final(self).wf(),
            final(self).is_sealed() == old(self).is_sealed(),
            (final(self).handlers(), r) == register_model(old(self).handlers(), old(self).is_sealed(), item),
    {
        if self.sealed {
            return Err(RegistryError::Sealed { operation_name: item.name });
        }
        if self.contains(item.service_type_id, &item.name) {
            return Err(
                RegistryError::DuplicateKey {
                    service_type_id: item.service_type_id,
                    operation_name: item.name,
                },
            );
        }
        let ghost before = self.items@;
        self.items.push(item);
        proof {
            assert forall|i: int, j: int|
                0 <= i < self.items@.len() && 0 <= j < self.items@.len() && i != j implies !#[trigger] key_at(
                    self.items@,
                    i,
                    self.items@[j].service_type_id,
                    self.items@[j].name@,
                ) by {
                if i < before.len() && j < before.len() {
                    assert(!key_at(before, i, before[j].service_type_id, before[j].name@));
                } else if j == before.len() {
                    assert(!key_at(before, i, item.service_type_id, item.name@));
                } else {
                    assert(!key_at(before, j, item.service_type_id, item.name@));
                }
            }
        }
        Ok(())
    }

    /// The handler that serves operation `name` of service type `id`, if any.
    pub fn find_action_handler(&self, id: u64, name: &String) -> (r: Option<&ActionItem>)
        ensures
            match r {
                Some(item) => find_model(self.handlers(), id, name@) == Some(*item),
                None => find_model(self.handlers(), id, name@) is None,
            },
    {
        let ghost s = self.items@;
        proof {
            assert(s.subrange(0, s.len() as int) =~= s);
        }
        let mut i: usize = 0;
        while i < self.items.len()
            invariant
                i <= self.items.len(),
                s == self.items@,
                find_model(s, id, name@) == find_model(s.subrange(i as int, s.len() as int), id, name@),
            decreases self.items.len() - i,
        {
            let ghost rest = s.subrange(i as int, s.len() as int);
            if self.items[i].service_type_id == id && self.items[i].name == *name {
                return Some(&self.items[i]);
            }
            proof {
                assert(rest.drop_first() =~= s.subrange(i as int + 1, s.len() as int));
            }
            i = i + 1;
        }
        None
    }

    /// The operation names registered for service type `id`, in order of registration.
    pub fn get_action_handlers(&self, id: u64) -> (r: Vec<String>)
        ensures
            r@.map_values(|n: String| n@) == operations_model(self.handlers(), id),
    {
        let mut out: Vec<String> = Vec::new();
        let mut i: usize = 0;
        while i < self.items.len()
            invariant
                i <= self.items.len(),
                out@.map_values(|n: String| n@) == operations_model(self.items@.take(i as int), id),
            decreases self.items.len() - i,
        {
            proof {
                assert(self.items@.take(i as int + 1).drop_last() =~= self.items@.take(i as int));
            }
            if self.items[i].service_type_id == id {
                let n = self.items[i].name.clone();
                proof {
                    assert(out@.push(n).map_values(|n: String| n@) =~= out@.map_values(
                        |n: String| n@,
                    ).push(n@));
                }
                out.push(n);
            }
            i = i + 1;
        }
        proof {
            assert(self.items@.take(self.items.len() as int) =~= self.items@);
        }
        out
    }
}

/// A second registration under the key of an earlier one fails, and the entries stay as
/// they were after the first: the earlier handler is neither replaced nor dropped.
pub proof fn lemma_duplicate_registration_fails(
    items: Seq<ActionItem>,
    sealed: bool,
    first: ActionItem,
    second: ActionItem,
)
    requires
        first.service_type_id == second.service_type_id,
        first.name@ == second.name@,
    ensures
        register_model(register_model(items, sealed, first).0, sealed, second).1 is Err,
        register_model(register_model(items, sealed, first).0, sealed, second).0 == register_model(
            items,
            sealed,
            first,
        ).0,
        !sealed ==> has_key(register_model(items, sealed, first).0, first.service_type_id, first.name@),
{
    let after = register_model(items, sealed, first).0;
    if !sealed {
        if !has_key(items, first.service_type_id, first.name@) {
            assert(key_at(after, items.len() as int, first.service_type_id, first.name@));
        }
    }
}

/// `find_model` misses exactly when no entry has the key.
pub proof fn lemma_find_model_none(items: Seq<ActionItem>, id: u64, name: Seq<char>)
    ensures
        find_model(items, id, name) is None <==> !has_key(items, id, name),
    decreases items.len(),
{
    if items.len() > 0 {
        lemma_find_model_none(items.drop_first(), id, name);
        if has_key(items.drop_first(), id, name) {
            let i = choose|i: int| 0 <= i < items.len() - 1 && #[trigger] key_at(items.drop_first(), i, id, name);
            assert(key_at(items, i + 1, id, name));
        }
        if has_key(items, id, name) && !(items[0].service_type_id == id && items[0].name@ == name) {
            let i = choose|i: int| 0 <= i < items.len() && #[trigger] key_at(items, i, id, name);
            assert(i != 0);
            assert(key_at(items.drop_first(), i - 1, id, name));
        }
        if items[0].service_type_id == id && items[0].name@ == name {
            assert(key_at(items, 0, id, name));
        }
    }
}

/// The name of the method that handles `action_name`.
pub open spec fn handler_name_spec(action_name: Seq<char>) -> Seq<char> {
    "handle_"@ + action_name
}

/// The name of the method that handles an action.
pub fn generate_handler_name(action_name: &str) -> (r: String)
    ensures
        r@ == handler_name_spec(action_name@),
{
    let mut r = String::from_str("handle_");
    r.append(action_name);
    r
}

/// Registry record of an operation and the handler method that serves it.
#[derive(Debug)]
pub struct OperationRegistry {
    /// Identity of the service type that owns the operation.
    pub type_id: u64,
    pub operation_name: String,
    pub handler_name: String,
}

impl OperationRegistry {
    /// The record for `operation_name`, served by the handler method named after it.
    pub fn new(type_id: u64, operation_name: &str) -> (r: Self)
        ensures
            r.type_id == type_id,
            r.operation_name@ == operation_name@,
            r.handler_name@ == handler_name_spec(operation_name@),
    {
        OperationRegistry {
            type_id,
            operation_name: operation_name.to_owned(),
            handler_name: generate_handler_name(operation_name),
        }
    }
}

/// Registry record of an operation offered by a service type.
#[derive(Debug)]
pub struct ServiceOperations {
    pub type_id: u64,
    pub operation: String,
}

/// Registry record of an event subscription of a service type.
#[derive(Debug)]
pub struct SubscriptionRegistry {
    pub type_id: u64,
    /// The event topic.
    pub topic: String,
    /// Whether the topic is a full path (it contains `/`) rather than one relative to the service.
    pub is_full_path: bool,
    /// Name of the method that registers the subscription.
    pub registration_method: String,
}

impl SubscriptionRegistry {
    pub fn new(type_id: u64, topic: &str, registration_method: &str) -> (r: Self)
        ensures
            r.type_id == type_id,
            r.topic@ == topic@,
            r.is_full_path == topic@.contains('/'),
            r.registration_method@ == registration_method@,
    {
        let n = topic.unicode_len();
        let mut full = false;
        let mut i: usize = 0;
        while i < n
            invariant
                i <= n,
                n == topic@.len(),
                full == exists|k: int| 0 <= k < i && topic@[k] == '/',
            decreases n - i,
        {
            if topic.get_char(i) == '/' {
                full = true;
            }
            i = i + 1;
        }
        SubscriptionRegistry {
            type_id,
            topic: topic.to_owned(),
            is_full_path: full,
            registration_method: registration_method.to_owned(),
        }
    }
}

/// Marker for types whose identity serves as a registry key.
pub trait TypeRegistration {

}

} // verus!
