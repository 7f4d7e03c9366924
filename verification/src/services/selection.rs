//! Selection: which registered service answers a request.
//!
//! A request names the identifiers that the service must report, and may
//! rank implementation types by preference. A strategy is a function from
//! what a registry holds and a request to the identity of one registered
//! type, or to none. Two strategies ship: the first viable service in
//! registration order, and the highest-ranked viable service.

use crate::services::erasure;
use crate::services::erasure::ServiceObject;
use crate::services::erasure::Untyped;
use crate::services::registry::AIServiceCollection;
use crate::services::registry::RegisteredService;
use crate::services::registry::RegistryView;
use crate::services::AIService;
use std::any::TypeId;
use std::sync::Arc;
use vstd::prelude::*;

verus! {

/// What a caller asks of a service.
pub struct ServiceRequest {
    /// The model identifier that the service must report, if any is asked.
    pub model_id: Option<String>,
    /// The service identifier that the service must report, if any is asked.
    pub service_id: Option<String>,
    /// Implementation types in order of preference, most preferred first.
    /// Types that are not listed rank below all that are.
    pub priority: Vec<TypeId>,
}

/// A request as a value.
pub struct RequestView {
    pub model_id: Option<Seq<char>>,
    pub service_id: Option<Seq<char>>,
    pub priority: Seq<TypeId>,
}

impl View for ServiceRequest {
    type V = RequestView;

    open spec fn view(&self) -> RequestView {
        RequestView {
            model_id: crate::services::text_of(self.model_id),
            service_id: crate::services::text_of(self.service_id),
            priority: self.priority@,
        }
    }
}

impl RequestView {
    /// A service that reports `model_id` and `service_id` meets the
    /// request: each identifier that the request asks for is the one
    /// reported.
    pub open spec fn met_by(self, model_id: Option<Seq<char>>, service_id: Option<Seq<char>>) -> bool {
        &&& self.model_id is Some ==> model_id == self.model_id
        &&& self.service_id is Some ==> service_id == self.service_id
    }
}

/// The service reports every identifier that the request asks for.
pub open spec fn satisfies(service: Untyped, request: RequestView) -> bool {
    request.met_by(erasure::reported_model_id(service), erasure::reported_service_id(service))
}

/// The type with identity `key` is registered, and its service satisfies
/// the request.
pub open spec fn viable(registry: RegistryView, request: RequestView, key: TypeId) -> bool {
    registry.contents.contains_key(key) && satisfies(registry.contents[key], request)
}

/// Place `index` of the registration order holds a viable type, and no
/// earlier place does.
pub open spec fn first_viable_at(registry: RegistryView, request: RequestView, index: int) -> bool {
    &&& 0 <= index < registry.order.len()
    &&& viable(registry, request, registry.order[index])
    &&& forall|earlier: int|
        0 <= earlier < index ==> !viable(registry, request, #[trigger] registry.order[earlier])
}

/// The first viable type in registration order.
pub open spec fn first_viable(registry: RegistryView, request: RequestView) -> Option<TypeId> {
    if exists|index: int| first_viable_at(registry, request, index) {
        Some(registry.order[choose|index: int| first_viable_at(registry, request, index)])
    } else {
        None
    }
}

/// Rank `rank` of the request's priority list names a viable type, and no
/// higher rank does.
pub open spec fn top_ranked_at(registry: RegistryView, request: RequestView, rank: int) -> bool {
    &&& 0 <= rank < request.priority.len()
    &&& viable(registry, request, request.priority[rank])
    &&& forall|higher: int|
        0 <= higher < rank ==> !viable(registry, request, #[trigger] request.priority[higher])
}

/// The highest-ranked viable type; where no ranked type is viable, the
/// first viable type in registration order.
pub open spec fn ordered_choice(registry: RegistryView, request: RequestView) -> Option<TypeId> {
    if exists|rank: int| top_ranked_at(registry, request, rank) {
        Some(request.priority[choose|rank: int| top_ranked_at(registry, request, rank)])
    } else {
        first_viable(registry, request)
    }
}

/// Why a selection returned no service.
#[non_exhaustive]
#[derive(Debug, Clone, Copy, PartialEq, Eq)]
pub enum SelectionError {
    /// No registered service satisfies the request.
    NoSuitableService,
}

/// What every strategy owes: `outcome` answers `request` over a registry
/// with the given contents, where the strategy's choice is `choice`.
///
/// A selected service is the chosen one: it is registered under its own
/// type and satisfies the request. A failure is reported as
/// `NoSuitableService`, and only where no registered service satisfies the
/// request.
pub open spec fn answers(
    registry: RegistryView,
    request: RequestView,
    choice: Option<TypeId>,
    outcome: Result<RegisteredService<'_>, SelectionError>,
) -> bool {
    match outcome {
        Ok(selected) => {
            &&& choice == Some(selected.key)
            &&& viable(registry, request, selected.key)
            &&& selected.service@ == registry.contents[selected.key]
            &&& erasure::type_of(selected.service@) == selected.key
        },
        Err(error) => {
            &&& error == SelectionError::NoSuitableService
            &&& choice is None
            &&& forall|key: TypeId| !viable(registry, request, key)
        },
    }
}

/// Whether `wanted` is absent or equal to `reported`.
fn agrees(wanted: &Option<String>, reported: &Option<String>) -> (ok: bool)
    ensures
        ok == (crate::services::text_of(*wanted) is Some ==> crate::services::text_of(*reported)
            == crate::services::text_of(*wanted)),
{
    match wanted {
        None => true,
        Some(text) => match reported {
            Some(other) => *text == *other,
            None => false,
        },
    }
}

impl ServiceRequest {
    /// The request that every service satisfies, with no preference.
    pub fn any() -> (request: Self)
        ensures
            request@ == (RequestView { model_id: None, service_id: None, priority: Seq::empty() }),
    {
        ServiceRequest { model_id: None, service_id: None, priority: Vec::new() }
    }

    /// Ranks the type `S` below the types that are ranked already.
    pub fn prefer<S: AIService + 'static>(&mut self)
        ensures
            final(self)@ == (RequestView {
                priority: old(self)@.priority.push(erasure::key_of::<S>()),
                ..old(self)@
            }),
    {
        self.priority.push(erasure::type_key_of::<S>());
    }

    /// Whether a service that reports `model_id` and `service_id` meets this
    /// request.
    pub fn met_by(&self, model_id: &Option<String>, service_id: &Option<String>) -> (ok: bool)
        ensures
            ok == self@.met_by(
                crate::services::text_of(*model_id),
                crate::services::text_of(*service_id),
            ),
    {
        agrees(&self.model_id, model_id) && agrees(&self.service_id, service_id)
    }

    /// Whether `service` satisfies this request.
    pub fn accepts(&self, service: &ServiceObject) -> (ok: bool)
        ensures
            ok == satisfies(service@, self@),
    {
        let model_id = service.get_model_id();
        let service_id = service.get_service_id();
        self.met_by(&model_id, &service_id)
    }
}

/// A strategy for choosing one of the registered services.
///
/// The two `spec` functions say what the strategy does; code that is not
/// verified gives them any body, for nothing ever calls them.
pub trait AIServiceSelector {
    /// The registry that the strategy chooses from.
    spec fn services(&self) -> AIServiceCollection;

    /// The identity of the type that the strategy chooses for `request`.
    spec fn choice(&self, request: RequestView) -> Option<TypeId>;

    /// Selects a service for `request`.
    fn try_select_service(&self, request: &ServiceRequest) -> (outcome: Result<
        RegisteredService<'_>,
        SelectionError,
    >)
        ensures
            answers(self.services()@, request@, self.choice(request@), outcome),
    ;
}

/// Scans the registry in registration order for the first viable service.
pub fn select_first_viable<'a>(services: &'a AIServiceCollection, request: &ServiceRequest) -> (outcome:
    Result<RegisteredService<'a>, SelectionError>)
    ensures
        answers(services@, request@, first_viable(services@, request@), outcome),
{
    let count = services.len();
    let mut index: usize = 0;
    while index < count
        invariant
            count == services@.order.len(),
            services@.well_formed(),
            index <= count,
            forall|earlier: int|
                0 <= earlier < index ==> !viable(
                    services@,
                    request@,
                    #[trigger] services@.order[earlier],
                ),
        decreases count - index,
    {
        match services.entry_at(index) {
            Some(registered) => {
                if request.accepts(registered.service) {
                    proof {
                        lemma_first_viable(services@, request@, index as int);
                    }
                    return Ok(registered);
                }
            },
            None => {},
        }
        index += 1;
    }
    proof {
        lemma_none_viable(services@, request@);
    }
    Err(SelectionError::NoSuitableService)
}

/// Tries the ranked types from the most preferred down, then falls back to
/// registration order.
pub fn select_ordered<'a>(services: &'a AIServiceCollection, request: &ServiceRequest) -> (outcome:
    Result<RegisteredService<'a>, SelectionError>)
    ensures
        answers(services@, request@, ordered_choice(services@, request@), outcome),
{
    let mut rank: usize = 0;
    while rank < request.priority.len()
        invariant
            rank <= request.priority@.len(),
            forall|higher: int|
                0 <= higher < rank ==> !viable(
                    services@,
                    request@,
                    #[trigger] request@.priority[higher],
                ),
        decreases request.priority@.len() - rank,
    {
        match services.position(&request.priority[rank]) {
            Some(index) => match services.entry_at(index) {
                Some(registered) => {
                    if request.accepts(registered.service) {
                        proof {
                            lemma_top_ranked(services@, request@, rank as int);
                        }
                        return Ok(registered);
                    }
                },
                None => {},
            },
            None => {},
        }
        rank += 1;
    }
    assert(!exists|rank: int| top_ranked_at(services@, request@, rank));
    select_first_viable(services, request)
}

/// The place that `first_viable_at` holds of is the one that `first_viable`
/// names.
pub proof fn lemma_first_viable(registry: RegistryView, request: RequestView, index: int)
    requires
        first_viable_at(registry, request, index),
    ensures
        first_viable(registry, request) == Some(registry.order[index]),
{
    let chosen = choose|index: int| first_viable_at(registry, request, index);
    assert(first_viable_at(registry, request, chosen));
    if chosen < index {
        assert(!viable(registry, request, registry.order[chosen]));
    }
    if index < chosen {
        assert(!viable(registry, request, registry.order[index]));
    }
}

/// Where the registration order lists every registered type and no place
/// of it holds a viable type, no type is viable.
proof fn lemma_none_viable(registry: RegistryView, request: RequestView)
    requires
        registry.well_ordered(),
        forall|index: int|
            0 <= index < registry.order.len() ==> !viable(
                registry,
                request,
                #[trigger] registry.order[index],
            ),
    ensures
        first_viable(registry, request) is None,
        forall|key: TypeId| !viable(registry, request, key),
{
    assert forall|key: TypeId| !viable(registry, request, key) by {
        if viable(registry, request, key) {
            assert(registry.order.contains(key));
            let index = choose|index: int|
                0 <= index < registry.order.len() && registry.order[index] == key;
            assert(!viable(registry, request, registry.order[index]));
        }
    }
}

/// Ranked preference: the highest rank that names a viable type decides.
/// Ranks that name a type which is absent, or whose service does not
/// satisfy the request, are passed over.
pub proof fn lemma_top_ranked(registry: RegistryView, request: RequestView, rank: int)
    requires
        top_ranked_at(registry, request, rank),
    ensures
        ordered_choice(registry, request) == Some(request.priority[rank]),
{
    let chosen = choose|rank: int| top_ranked_at(registry, request, rank);
    assert(top_ranked_at(registry, request, chosen));
    if chosen < rank {
        assert(!viable(registry, request, request.priority[chosen]));
    }
    if rank < chosen {
        assert(!viable(registry, request, request.priority[rank]));
    }
}

/// Tie-break by priority: where two types are both viable, the one that
/// the request ranks first is chosen, whichever was registered first.
pub proof fn lemma_priority_decides(
    registry: RegistryView,
    request: RequestView,
    preferred: TypeId,
    other: TypeId,
)
    requires
        request.priority == seq![preferred, other],
        viable(registry, request, preferred),
        viable(registry, request, other),
    ensures
        ordered_choice(registry, request) == Some(preferred),
{
    assert(request.priority[0] == preferred);
    lemma_top_ranked(registry, request, 0);
}

/// Without a priority list, the ordered strategy chooses as the first-viable
/// strategy does.
pub proof fn lemma_unranked_is_first_viable(registry: RegistryView, request: RequestView)
    requires
        request.priority.len() == 0,
    ensures
        ordered_choice(registry, request) == first_viable(registry, request),
{
}

/// Selection failure is explicit: over an empty registry, whatever the
/// strategy, the outcome is `NoSuitableService`.
pub proof fn lemma_empty_registry_fails(
    request: RequestView,
    choice: Option<TypeId>,
    outcome: Result<RegisteredService<'_>, SelectionError>,
)
    requires
        answers(RegistryView::empty(), request, choice, outcome),
    ensures
        outcome == Err::<RegisteredService<'_>, SelectionError>(SelectionError::NoSuitableService),
        choice is None,
{
}

/// Selection never fails while a registered service satisfies the request,
/// and never selects a service that does not.
pub proof fn lemma_fails_only_without_viable(
    registry: RegistryView,
    request: RequestView,
    choice: Option<TypeId>,
    outcome: Result<RegisteredService<'_>, SelectionError>,
)
    requires
        answers(registry, request, choice, outcome),
    ensures
        outcome is Err <==> forall|key: TypeId| !viable(registry, request, key),
        outcome is Ok ==> viable(registry, request, choice->0),
{
}

/// The strategy that takes the first viable service in registration order.
pub struct BaseAIServiceSelector {
    services: Arc<AIServiceCollection>,
}

impl BaseAIServiceSelector {
    /// The first-viable strategy over `services`.
    pub fn new(services: Arc<AIServiceCollection>) -> (selector: Self)
        ensures
            selector.services() == *services,
    {
        Self { services }
    }
}

impl AIServiceSelector for BaseAIServiceSelector {
    closed spec fn services(&self) -> AIServiceCollection {
        *self.services
    }

    open spec fn choice(&self, request: RequestView) -> Option<TypeId> {
        first_viable(self.services()@, request)
    }

    fn try_select_service(&self, request: &ServiceRequest) -> (outcome: Result<
        RegisteredService<'_>,
        SelectionError,
    >) {
        select_first_viable(&self.services, request)
    }
}

/// The strategy that takes the highest-ranked viable service.
pub struct OrderedAIServiceSelector {
    services: Arc<AIServiceCollection>,
}

impl OrderedAIServiceSelector {
    /// The ordered strategy over `services`.
    pub fn new(services: Arc<AIServiceCollection>) -> (selector: Self)
        ensures
            selector.services() == *services,
    {
        Self { services }
    }
}

impl AIServiceSelector for OrderedAIServiceSelector {
    closed spec fn services(&self) -> AIServiceCollection {
        *self.services
    }

    open spec fn choice(&self, request: RequestView) -> Option<TypeId> {
        ordered_choice(self.services()@, request)
    }

    fn try_select_service(&self, request: &ServiceRequest) -> (outcome: Result<
        RegisteredService<'_>,
        SelectionError,
    >) {
        select_ordered(&self.services, request)
    }
}

/// An owned strategy of any kind.
pub struct BoxedSelector {
    pub selector: Box<dyn AIServiceSelector>,
}

/// A maker of strategies: given a registry, it builds the strategy that
/// will choose from it.
///
/// The `spec` function says what its strategies do; code that is not
/// verified gives it any body, for nothing ever calls it.
pub trait AIServiceSelectorProvider {
    /// What the strategies of this provider choose, over a registry that
    /// holds `registry`.
    spec fn strategy(&self, registry: RegistryView, request: RequestView) -> Option<TypeId>;

    /// Builds a strategy over `services`.
    fn provide(&self, services: Arc<AIServiceCollection>) -> (made: BoxedSelector)
        ensures
            made.selector.services() == *services,
            forall|request: RequestView| #[trigger]
                made.selector.choice(request) == self.strategy(services@, request),
    ;
}

/// An owned provider of any kind.
pub struct BoxedProvider {
    pub provider: Box<dyn AIServiceSelectorProvider>,
}

/// The provider of the first-viable strategy, boxed.
pub open spec fn base_provider() -> BoxedProvider {
    BoxedProvider { provider: Box::new(BaseSelectorProvider) }
}

/// The provider of the ordered strategy, boxed.
pub open spec fn ordered_provider() -> BoxedProvider {
    BoxedProvider { provider: Box::new(OrderedSelectorProvider) }
}

impl BoxedProvider {
    /// The provider of the first-viable strategy.
    pub fn base() -> (provider: Self)
        ensures
            provider == base_provider(),
    {
        BoxedProvider { provider: Box::new(BaseSelectorProvider) }
    }

    /// The provider of the ordered strategy.
    pub fn ordered() -> (provider: Self)
        ensures
            provider == ordered_provider(),
    {
        BoxedProvider { provider: Box::new(OrderedSelectorProvider) }
    }
}

/// Makes strategies that take the first viable service.
pub struct BaseSelectorProvider;

impl AIServiceSelectorProvider for BaseSelectorProvider {
    open spec fn strategy(&self, registry: RegistryView, request: RequestView) -> Option<TypeId> {
        first_viable(registry, request)
    }

    fn provide(&self, services: Arc<AIServiceCollection>) -> (made: BoxedSelector) {
        BoxedSelector { selector: Box::new(BaseAIServiceSelector::new(services)) }
    }
}

/// Makes strategies that take the highest-ranked viable service.
pub struct OrderedSelectorProvider;

impl AIServiceSelectorProvider for OrderedSelectorProvider {
    open spec fn strategy(&self, registry: RegistryView, request: RequestView) -> Option<TypeId> {
        ordered_choice(registry, request)
    }

    fn provide(&self, services: Arc<AIServiceCollection>) -> (made: BoxedSelector) {
        BoxedSelector { selector: Box::new(OrderedAIServiceSelector::new(services)) }
    }
}

} // verus!
