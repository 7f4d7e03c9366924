//! The service registry: at most one service of each concrete type.

use crate::filing::Table;
use crate::services::erasure;
use crate::services::erasure::ServiceObject;
use crate::services::erasure::Untyped;
use crate::services::AIService;
use std::any::TypeId;
use vstd::prelude::*;

verus! {

/// What a registry holds.
pub struct RegistryView {
    /// The registered services, each under the identity of its concrete
    /// type.
    pub contents: Map<TypeId, Untyped>,
    /// The identities of the registered types, in the order in which they
    /// were first registered.
    pub order: Seq<TypeId>,
}

impl RegistryView {
    /// What a new registry holds: nothing.
    pub open spec fn empty() -> RegistryView {
        RegistryView { contents: Map::empty(), order: Seq::empty() }
    }

    /// What the registry holds once `service` is registered under `key`:
    /// the service stands in place of what was held under `key`, and a key
    /// that is new comes last in the order.
    pub open spec fn with(self, key: TypeId, service: Untyped) -> RegistryView {
        RegistryView {
            contents: self.contents.insert(key, service),
            order: if self.contents.contains_key(key) {
                self.order
            } else {
                self.order.push(key)
            },
        }
    }

    /// What the registry holds once `service` is registered.
    pub open spec fn registering<S: AIService + 'static>(self, service: S) -> RegistryView {
        self.with(erasure::key_of::<S>(), erasure::untyped(service))
    }

    /// A service of type `S` is registered.
    pub open spec fn has<S: AIService + 'static>(self) -> bool {
        self.contents.contains_key(erasure::key_of::<S>())
    }

    /// `service` is the registered service of type `S`.
    pub open spec fn holds<S: AIService + 'static>(self, service: S) -> bool {
        self.has::<S>() && erasure::is_untyped(self.contents[erasure::key_of::<S>()], service)
    }

    /// The order lists each registered type once, and nothing else.
    pub open spec fn well_ordered(self) -> bool {
        &&& self.order.no_duplicates()
        &&& forall|key: TypeId| self.contents.contains_key(key) <==> self.order.contains(key)
    }

    /// Each service is held under the identity of its own concrete type.
    pub open spec fn well_typed(self) -> bool {
        forall|key: TypeId|
            self.contents.contains_key(key) ==> erasure::type_of(#[trigger] self.contents[key])
                == key
    }

    /// What holds of every registry: it is well ordered and well typed.
    pub open spec fn well_formed(self) -> bool {
        self.well_ordered() && self.well_typed()
    }
}

/// A registered service, as the registry hands it out: the identity of its
/// concrete type, and the service itself.
pub struct RegisteredService<'a> {
    pub key: TypeId,
    pub service: &'a ServiceObject,
}

/// A collection of AI services, keyed by their concrete type. A later
/// registration of a type replaces the earlier one and keeps its place.
///
/// The services are kept in registration order, and a type is found by
/// going through them.
pub struct AIServiceCollection {
    slots: Table<TypeId, ServiceObject>,
}

impl View for AIServiceCollection {
    type V = RegistryView;

    closed spec fn view(&self) -> RegistryView {
        RegistryView {
            contents: self.slots.contents().map_values(|object: ServiceObject| object@),
            order: self.slots.order(),
        }
    }
}

impl AIServiceCollection {
    /// Each service is stored under the identity of its own concrete type.
    #[verifier::type_invariant]
    spec fn inv(self) -> bool {
        forall|key: TypeId|
            self.slots.contents().contains_key(key) ==> erasure::type_of(
                (#[trigger] self.slots.contents()[key])@,
            ) == key
    }

    /// Under the invariant, what a well ordered table of slots holds is
    /// well formed.
    proof fn lemma_well_formed(self)
        requires
            self.inv(),
            self.slots.well_ordered(),
        ensures
            self@.well_formed(),
    {
        assert forall|key: TypeId| self@.contents.contains_key(key) implies erasure::type_of(
            #[trigger] self@.contents[key],
        ) == key by {
            assert(self.slots.contents().contains_key(key));
        }
    }

    /// Creates a new, empty `AIServiceCollection`.
    pub fn new() -> (services: Self)
        ensures
            services@ == RegistryView::empty(),
            services@.well_formed(),
    {
        let services = Self { slots: Table::new() };
        proof {
            services.lemma_well_formed();
            assert(services@.contents =~= Map::<TypeId, Untyped>::empty());
        }
        services
    }

    /// The number of registered services.
    pub fn len(&self) -> (count: usize)
        ensures
            count == self@.order.len(),
            self@.well_formed(),
    {
        let count = self.slots.len();
        proof {
            use_type_invariant(self);
            self.lemma_well_formed();
        }
        count
    }

    /// Where in the registration order the type with identity `key` stands,
    /// if it is registered.
    pub fn position(&self, key: &TypeId) -> (found: Option<usize>)
        ensures
            self@.well_formed(),
            match found {
                Some(index) => index < self@.order.len() && self@.order[index as int] == *key
                    && self@.contents.contains_key(*key),
                None => !self@.contents.contains_key(*key),
            },
    {
        let found = self.slots.position(key);
        proof {
            use_type_invariant(self);
            self.lemma_well_formed();
        }
        found
    }

    /// The service at place `index` of the registration order.
    pub fn entry_at(&self, index: usize) -> (entry: Option<RegisteredService<'_>>)
        ensures
            self@.well_formed(),
            match entry {
                Some(registered) => index < self@.order.len() && registered.key
                    == self@.order[index as int] && self@.contents.contains_key(registered.key)
                    && registered.service@ == self@.contents[registered.key] && erasure::type_of(
                    registered.service@,
                ) == registered.key,
                None => index >= self@.order.len(),
            },
    {
        let entry = self.slots.entry_at(index);
        proof {
            use_type_invariant(self);
            self.lemma_well_formed();
        }
        match entry {
            Some((key, object)) => Some(RegisteredService { key: *key, service: object }),
            None => None,
        }
    }

    /// Adds a service to the collection. A service of the same concrete type
    /// that was registered before is replaced.
    pub fn insert<S: AIService + 'static + Clone>(&mut self, service: S)
        ensures
            final(self)@ == old(self)@.registering(service),
            final(self)@.well_formed(),
    {
        proof {
            use_type_invariant(&*self);
        }
        let ghost before = *self;
        let key = erasure::type_key_of::<S>();
        let object = ServiceObject::erase(service);
        let mut slots: Table<TypeId, ServiceObject> = Table::new();
        std::mem::swap(&mut self.slots, &mut slots);
        slots.put(key, object);
        let ghost after = AIServiceCollection { slots };
        proof {
            assert forall|other: TypeId|
                after.slots.contents().contains_key(other) implies erasure::type_of(
                (#[trigger] after.slots.contents()[other])@,
            ) == other by {
                if other != key {
                    assert(before.slots.contents().contains_key(other));
                }
            }
            after.lemma_well_formed();
            assert(after@.contents =~= before@.registering(service).contents);
        }
        std::mem::swap(&mut self.slots, &mut slots);
    }

    /// Retrieves a service by type, if it exists.
    pub fn get<S: AIService + 'static + Clone>(&self) -> (found: Option<&S>)
        ensures
            match found {
                Some(service) => self@.holds(*service),
                None => !self@.has::<S>(),
            },
    {
        let key = erasure::type_key_of::<S>();
        match self.slots.get(&key) {
            Some(object) => {
                proof {
                    use_type_invariant(self);
                }
                object.downcast_ref::<S>()
            },
            None => None,
        }
    }

    /// Retrieves the model ID for a service of a specific type, if it exists.
    pub fn get_model_id<S: AIService + 'static + Clone>(&self) -> (id: Option<String>)
        ensures
            crate::services::text_of(id) == if self@.has::<S>() {
                erasure::reported_model_id(self@.contents[erasure::key_of::<S>()])
            } else {
                None
            },
    {
        match self.get::<S>() {
            Some(service) => erasure::report_model_id(service),
            None => None,
        }
    }

    /// Retrieves the service ID for a service of a specific type, if it exists.
    pub fn get_service_id<S: AIService + 'static + Clone>(&self) -> (id: Option<String>)
        ensures
            crate::services::text_of(id) == if self@.has::<S>() {
                erasure::reported_service_id(self@.contents[erasure::key_of::<S>()])
            } else {
                None
            },
    {
        match self.get::<S>() {
            Some(service) => erasure::report_service_id(service),
            None => None,
        }
    }
}

/// What a registry holds after the given registrations, from empty. A
/// registration is the identity of a type with the service registered for
/// it.
pub open spec fn registered(registrations: Seq<(TypeId, Untyped)>) -> RegistryView
    decreases registrations.len(),
{
    if registrations.len() == 0 {
        RegistryView::empty()
    } else {
        registered(registrations.drop_last()).with(
            registrations.last().0,
            registrations.last().1,
        )
    }
}

/// Type uniqueness: after any registrations, a type is registered exactly
/// when one of them was of that type, and the service held for it is the
/// one that was registered last.
pub proof fn lemma_type_uniqueness(registrations: Seq<(TypeId, Untyped)>)
    ensures
        registered(registrations).contents == crate::filing::filed(registrations),
        forall|key: TypeId| #[trigger]
            registered(registrations).contents.contains_key(key) <==> crate::filing::has_key(
                registrations,
                key,
            ),
        forall|index: int| #[trigger]
            crate::filing::is_last_of_key(registrations, index) ==> registered(
                registrations,
            ).contents[registrations[index].0] == registrations[index].1,
    decreases registrations.len(),
{
    if registrations.len() > 0 {
        lemma_type_uniqueness(registrations.drop_last());
    }
    crate::filing::lemma_last_entry_stands(registrations);
}

/// After any registrations, the order lists each registered type once.
/// Where each service was registered under the identity of its own type,
/// each is held under it.
pub proof fn lemma_registered_well_formed(registrations: Seq<(TypeId, Untyped)>)
    ensures
        registered(registrations).well_ordered(),
        (forall|index: int|
            0 <= index < registrations.len() ==> (#[trigger] registrations[index]).0
                == erasure::type_of(registrations[index].1)) ==> registered(
            registrations,
        ).well_typed(),
    decreases registrations.len(),
{
    if registrations.len() > 0 {
        let front = registered(registrations.drop_last());
        lemma_registered_well_formed(registrations.drop_last());
        if forall|index: int|
            0 <= index < registrations.len() ==> (#[trigger] registrations[index]).0
                == erasure::type_of(registrations[index].1) {
            assert forall|index: int| 0 <= index < registrations.drop_last().len() implies (
            #[trigger] registrations.drop_last()[index]).0 == erasure::type_of(
                registrations.drop_last()[index].1,
            ) by {
                assert(registrations.drop_last()[index] == registrations[index]);
            }
            assert(registrations[registrations.len() - 1].0 == erasure::type_of(
                registrations[registrations.len() - 1].1,
            ));
        }
        let key = registrations.last().0;
        let after = front.with(key, registrations.last().1);
        assert forall|other: TypeId| after.contents.contains_key(other) <==> after.order.contains(
            other,
        ) by {
            if front.order.contains(other) {
                let i = choose|i: int| 0 <= i < front.order.len() && front.order[i] == other;
                assert(after.order[i] == other);
            }
            if !front.contents.contains_key(key) {
                assert(after.order[front.order.len() as int] == key);
            }
            if after.order.contains(other) && other != key {
                let i = choose|i: int| 0 <= i < after.order.len() && after.order[i] == other;
                assert(front.order[i] == other);
            }
        }
        assert forall|i: int, j: int|
            0 <= i < after.order.len() && 0 <= j < after.order.len() && i != j implies after.order[i]
            != after.order[j] by {
            if i < front.order.len() {
                assert(front.order.contains(front.order[i]));
            }
            if j < front.order.len() {
                assert(front.order.contains(front.order[j]));
            }
        }
    }
}

/// Last registration wins, for a type: once `service` is registered, the
/// registered service of its type is `service` and no other.
pub proof fn lemma_found_is_registered<S: AIService + 'static>(
    before: RegistryView,
    service: S,
    found: S,
)
    requires
        before.registering(service).holds(found),
    ensures
        found == service,
{
}

/// Cross-type isolation: registering a service of type `A` leaves what is
/// held for every other type `B` as it was.
pub proof fn lemma_cross_type_isolation<A: AIService + 'static, B: AIService + 'static>(
    before: RegistryView,
    service: A,
)
    requires
        erasure::key_of::<A>() != erasure::key_of::<B>(),
    ensures
        before.registering(service).has::<B>() == before.has::<B>(),
        before.registering(service).contents[erasure::key_of::<B>()] == before.contents[erasure::key_of::<
            B,
        >()],
        forall|other: B| before.registering(service).holds(other) == before.holds(other),
{
}

/// A registry that was never given a service of type `S` holds none.
pub proof fn lemma_never_registered<S: AIService + 'static>(
    registrations: Seq<(TypeId, Untyped)>,
)
    requires
        !crate::filing::has_key(registrations, erasure::key_of::<S>()),
    ensures
        !registered(registrations).has::<S>(),
{
    lemma_type_uniqueness(registrations);
}

} // verus!
