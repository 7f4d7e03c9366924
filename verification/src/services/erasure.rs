//! Type erasure for services, and the way back to the concrete type.
//!
//! A registry holds services of unrelated types side by side. Each is stored
//! as a [`ServiceObject`], which forgets the concrete type but still answers
//! the capability interface. In contracts a stored service is an
//! [`Untyped`] value: the service itself, seen without its type.
//!
//! Two things lie outside what Verus can see, and are assumed here: the
//! identity of a type (`std::any::TypeId`) and the recovery of the concrete
//! type (`std::any::Any`). The functions marked `external_body` and the
//! `spec` functions without a body hold all that is assumed of them.

use crate::services::AIService;
use std::any::Any;
use std::any::TypeId;
use vstd::prelude::*;

verus! {

/// `std::any::TypeId`, the run-time identity of a type. Its values are
/// opaque: all that is used of them is whether two are equal.
#[verifier::external_type_specification]
#[verifier::external_body]
pub struct ExTypeId(TypeId);

/// A borrowed value seen as `dyn Any`. Verus does not accept `dyn Any` in a
/// signature, so the borrow travels inside this opaque struct.
#[verifier::external_body]
pub struct AnyRef<'a> {
    target: &'a dyn Any,
}

/// What every service is, whatever its type: something that reports two
/// identifiers.
trait Anything {
    spec fn model(&self) -> Option<Seq<char>>;

    spec fn service(&self) -> Option<Seq<char>>;
}

impl<T: AIService + 'static> Anything for T {
    spec fn model(&self) -> Option<Seq<char>> {
        self.model_id()
    }

    spec fn service(&self) -> Option<Seq<char>> {
        self.service_id()
    }
}

/// A service seen without its type. It exists in contracts and proofs only,
/// where it lets services of different types be compared and told apart.
pub struct Untyped {
    value: Box<dyn Anything>,
}

/// `value`, seen without its type.
pub closed spec fn untyped<T: AIService + 'static>(value: T) -> Untyped {
    Untyped { value: Box::new(value) }
}

/// The identity of the concrete type of `value`.
pub uninterp spec fn type_of(value: Untyped) -> TypeId;

/// The value that `any` borrows.
pub uninterp spec fn borrowed(any: AnyRef<'_>) -> Untyped;

/// The model identifier of the service `service`.
pub closed spec fn reported_model_id(service: Untyped) -> Option<Seq<char>> {
    service.value.model()
}

/// The service identifier of the service `service`.
pub closed spec fn reported_service_id(service: Untyped) -> Option<Seq<char>> {
    service.value.service()
}

/// Every value of `S` has a concrete type of identity `key`.
pub open spec fn identifies<S: AIService + 'static>(key: TypeId) -> bool {
    forall|value: S| type_of(#[trigger] untyped(value)) == key
}

/// The identity of the type `S`: the one that the concrete type of every
/// value of `S` has.
pub open spec fn key_of<S: AIService + 'static>() -> TypeId {
    choose|key: TypeId| identifies::<S>(key)
}

/// `value` is `service` without its type, and no other value of `S` is.
pub open spec fn is_untyped<S: AIService + 'static>(value: Untyped, service: S) -> bool {
    &&& untyped(service) == value
    &&& forall|other: S| #[trigger] untyped(other) == value ==> other == service
}

/// Calls `TypeId::of::<S>()`. Assumed: the result is the identity of the
/// concrete type of every value of `S`.
#[verifier::external_body]
fn type_id_of<S: AIService + 'static>() -> (key: TypeId)
    ensures
        identifies::<S>(key),
{
    TypeId::of::<S>()
}

/// Compares two identities with the `==` of `TypeId`. Assumed: it holds
/// of equal identities and of no others.
#[verifier::external_body]
fn same_key(left: &TypeId, right: &TypeId) -> (same: bool)
    ensures
        same == (*left == *right),
{
    left == right
}

impl crate::filing::TableKey for TypeId {
    type Id = TypeId;

    open spec fn id(&self) -> TypeId {
        *self
    }

    fn same(&self, other: &Self) -> (same: bool) {
        same_key(self, other)
    }
}

/// Unsizes `&T` to `&dyn Any`; no function is called. Assumed: the result
/// borrows `value`.
#[verifier::external_body]
fn any_ref<T: AIService + 'static>(value: &T) -> (any: AnyRef<'_>)
    ensures
        borrowed(any) == untyped(*value),
{
    AnyRef { target: value }
}

/// Calls `<dyn Any>::downcast_ref::<S>()` on the borrowed value. Assumed:
/// the call succeeds where the concrete type of the value is `S` and
/// nowhere else, and what it then returns is that value itself.
#[verifier::external_body]
fn narrow<'a, S: AIService + 'static>(any: AnyRef<'a>) -> (found: Option<&'a S>)
    ensures
        found is Some <==> type_of(borrowed(any)) == key_of::<S>(),
        found matches Some(value) ==> is_untyped(borrowed(any), *value),
{
    any.target.downcast_ref::<S>()
}

/// What `service` reports as its model identifier.
pub(crate) fn report_model_id<S: AIService + 'static>(service: &S) -> (id: Option<String>)
    ensures
        crate::services::text_of(id) == reported_model_id(untyped(*service)),
{
    service.get_model_id()
}

/// What `service` reports as its service identifier.
pub(crate) fn report_service_id<S: AIService + 'static>(service: &S) -> (id: Option<String>)
    ensures
        crate::services::text_of(id) == reported_service_id(untyped(*service)),
{
    service.get_service_id()
}

/// What a stored service can do once its type is forgotten: answer the
/// capability interface, and lend itself as `dyn Any`. The impl below
/// covers every service type, so there is no other.
trait Stored {
    /// This service, seen without its type.
    spec fn bare(&self) -> Untyped;

    fn read_model_id(&self) -> (id: Option<String>)
        ensures
            crate::services::text_of(id) == reported_model_id(self.bare()),
    ;

    fn read_service_id(&self) -> (id: Option<String>)
        ensures
            crate::services::text_of(id) == reported_service_id(self.bare()),
    ;

    fn as_any(&self) -> (any: AnyRef<'_>)
        ensures
            borrowed(any) == self.bare(),
    ;
}

impl<S: AIService + 'static> Stored for S {
    spec fn bare(&self) -> Untyped {
        untyped(*self)
    }

    fn read_model_id(&self) -> (id: Option<String>) {
        report_model_id(self)
    }

    fn read_service_id(&self) -> (id: Option<String>) {
        report_service_id(self)
    }

    fn as_any(&self) -> (any: AnyRef<'_>) {
        any_ref(self)
    }
}

/// A service whose concrete type has been forgotten. As a value it is the
/// service itself, seen without its type.
pub struct ServiceObject {
    inner: Box<dyn Stored>,
}

impl View for ServiceObject {
    type V = Untyped;

    closed spec fn view(&self) -> Untyped {
        self.inner.bare()
    }
}

impl ServiceObject {
    /// Stores `service`, forgetting its concrete type.
    pub fn erase<S: AIService + 'static>(service: S) -> (object: ServiceObject)
        ensures
            object@ == untyped(service),
    {
        ServiceObject { inner: Box::new(service) }
    }

    /// The stored service, if its concrete type is `S`.
    pub fn downcast_ref<S: AIService + 'static>(&self) -> (found: Option<&S>)
        ensures
            found is Some <==> type_of(self@) == key_of::<S>(),
            found matches Some(service) ==> is_untyped(self@, *service),
    {
        narrow::<S>(self.inner.as_any())
    }
}

impl AIService for ServiceObject {
    open spec fn model_id(&self) -> Option<Seq<char>> {
        reported_model_id(self@)
    }

    open spec fn service_id(&self) -> Option<Seq<char>> {
        reported_service_id(self@)
    }

    fn get_model_id(&self) -> (id: Option<String>) {
        self.inner.read_model_id()
    }

    fn get_service_id(&self) -> (id: Option<String>) {
        self.inner.read_service_id()
    }
}

/// The identity of `S`, as a value.
pub fn type_key_of<S: AIService + 'static>() -> (key: TypeId)
    ensures
        key == key_of::<S>(),
        identifies::<S>(key),
{
    let key = type_id_of::<S>();
    proof {
        lemma_key_of::<S>(key);
    }
    key
}

/// Whether `A` and `B` are the same type.
pub fn same_type<A: AIService + 'static, B: AIService + 'static>() -> (same: bool)
    ensures
        same == (key_of::<A>() == key_of::<B>()),
{
    let left = type_key_of::<A>();
    let right = type_key_of::<B>();
    same_key(&left, &right)
}

/// A service without its type reports what the service reports.
pub proof fn lemma_untyped_reports<S: AIService + 'static>(service: S)
    ensures
        reported_model_id(untyped(service)) == service.model_id(),
        reported_service_id(untyped(service)) == service.service_id(),
{
}

/// An identity that the concrete type of every value of `S` has is the
/// identity of `S`.
proof fn lemma_key_of<S: AIService + 'static>(key: TypeId)
    requires
        identifies::<S>(key),
    ensures
        key == key_of::<S>(),
{
    let witness: S = arbitrary();
    assert(identifies::<S>(key_of::<S>()));
    assert(type_of(untyped(witness)) == key);
    assert(type_of(untyped(witness)) == key_of::<S>());
}

} // verus!
