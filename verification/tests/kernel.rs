use kernel::hooks::KernelHook;
use kernel::hooks::KernelHooks;
use kernel::plugins::KernelFunction;
use kernel::plugins::KernelPlugin;
use kernel::services::registry::AIServiceCollection;
use kernel::services::registry::RegisteredService;
use kernel::services::registry::RegistryView;
use kernel::services::selection::AIServiceSelector;
use kernel::services::selection::AIServiceSelectorProvider;
use kernel::services::selection::BaseAIServiceSelector;
use kernel::services::selection::BaseSelectorProvider;
use kernel::services::selection::BoxedProvider;
use kernel::services::selection::BoxedSelector;
use kernel::services::selection::OrderedSelectorProvider;
use kernel::services::selection::RequestView;
use kernel::services::selection::SelectionError;
use kernel::services::selection::ServiceRequest;
use kernel::services::AIService;
use kernel::services::Text;
use kernel::Kernel;
use kernel::KernelBuilder;
use std::any::TypeId;
use std::collections::HashMap;
use std::sync::Arc;

#[derive(Clone, Debug, PartialEq)]
struct Chat {
    model: String,
}

impl AIService for Chat {
    fn model_id(&self) -> Option<Text> {
        None
    }

    fn service_id(&self) -> Option<Text> {
        None
    }

    fn get_model_id(&self) -> Option<String> {
        Some(self.model.clone())
    }

    fn get_service_id(&self) -> Option<String> {
        Some(String::from("chat"))
    }
}

#[derive(Clone, Debug, PartialEq)]
struct Embedding {
    model: String,
}

impl AIService for Embedding {
    fn model_id(&self) -> Option<Text> {
        None
    }

    fn service_id(&self) -> Option<Text> {
        None
    }

    fn get_model_id(&self) -> Option<String> {
        Some(self.model.clone())
    }

    fn get_service_id(&self) -> Option<String> {
        Some(String::from("embedding"))
    }
}

fn chat(model: &str) -> Chat {
    Chat { model: String::from(model) }
}

fn embedding(model: &str) -> Embedding {
    Embedding { model: String::from(model) }
}

fn two_services() -> AIServiceCollection {
    let mut services = AIServiceCollection::new();
    services.insert(chat("gpt"));
    services.insert(embedding("gpt"));
    services
}

fn plugin(name: &str, description: &str) -> KernelPlugin {
    KernelPlugin::new(String::from(name), String::from(description), Vec::new())
}

fn requests() -> Vec<ServiceRequest> {
    let mut ranked = ServiceRequest::any();
    ranked.prefer::<Embedding>();
    ranked.prefer::<Chat>();
    let mut by_model = ServiceRequest::any();
    by_model.model_id = Some(String::from("gpt"));
    by_model.prefer::<Embedding>();
    let mut by_service = ServiceRequest::any();
    by_service.service_id = Some(String::from("embedding"));
    let mut unmet = ServiceRequest::any();
    unmet.model_id = Some(String::from("none"));
    vec![ServiceRequest::any(), ranked, by_model, by_service, unmet]
}

fn selected_key(kernel: &Kernel, request: &ServiceRequest) -> Result<TypeId, SelectionError> {
    match kernel.try_select_service(request) {
        Ok(selected) => Ok(selected.key),
        Err(error) => Err(error),
    }
}

#[test]
fn kernel_without_options_has_no_plugins_and_no_hooks() {
    let kernel = Kernel::new(two_services(), None, None, None);
    assert!(kernel.plugins().get(&String::from("search")).is_none());
    assert!(kernel.global_kernel_hooks().is_empty());
    assert_eq!(kernel.services().len(), 2);
    assert_eq!(kernel.services().get::<Chat>(), Some(&chat("gpt")));
    assert_eq!(kernel.services().get_model_id::<Embedding>(), Some(String::from("gpt")));
    assert_eq!(kernel.services().get_service_id::<Embedding>(), Some(String::from("embedding")));
}

#[test]
fn kernel_keeps_the_plugins_and_hooks_it_was_given() {
    let mut map = HashMap::new();
    map.insert(String::from("before"), KernelHook);
    let hooks = KernelHooks::from_map(&map);
    let plugins = vec![plugin("search", "web search"), plugin("math", "arithmetic")];
    let kernel = Kernel::new(AIServiceCollection::new(), None, Some(plugins), Some(hooks));
    assert_eq!(
        kernel.plugins().get(&String::from("search")).unwrap().description(),
        &String::from("web search")
    );
    assert_eq!(kernel.plugins().get(&String::from("math")).unwrap().name(), &String::from("math"));
    assert!(kernel.plugins().get(&String::from("draw")).is_none());
    assert_eq!(kernel.global_kernel_hooks().as_map().len(), 1);
    assert!(kernel.global_kernel_hooks().as_map().contains_key("before"));
}

#[test]
fn kernel_without_a_provider_selects_as_the_ordered_strategy_does() {
    let default = Kernel::new(two_services(), None, None, None);
    let explicit = Kernel::new(two_services(), Some(BoxedProvider::ordered()), None, None);
    let boxed = BoxedProvider { provider: Box::new(OrderedSelectorProvider) };
    let by_hand = Kernel::new(two_services(), Some(boxed), None, None);
    for request in requests() {
        assert_eq!(selected_key(&default, &request), selected_key(&explicit, &request));
        assert_eq!(selected_key(&default, &request), selected_key(&by_hand, &request));
    }
    let mut ranked = ServiceRequest::any();
    ranked.prefer::<Embedding>();
    assert_eq!(selected_key(&default, &ranked), Ok(TypeId::of::<Embedding>()));
    assert_eq!(selected_key(&explicit, &ranked), Ok(TypeId::of::<Embedding>()));
    let mut unmet = ServiceRequest::any();
    unmet.model_id = Some(String::from("none"));
    assert_eq!(selected_key(&default, &unmet), Err(SelectionError::NoSuitableService));
    assert_eq!(selected_key(&explicit, &unmet), Err(SelectionError::NoSuitableService));
}

#[test]
fn kernel_with_the_base_provider_ignores_the_priority_list() {
    let base = BoxedProvider { provider: Box::new(BaseSelectorProvider) };
    let kernel = Kernel::new(two_services(), Some(base), None, None);
    let mut ranked = ServiceRequest::any();
    ranked.prefer::<Embedding>();
    assert_eq!(selected_key(&kernel, &ranked), Ok(TypeId::of::<Chat>()));
    let made = Kernel::new(two_services(), Some(BoxedProvider::base()), None, None);
    assert_eq!(selected_key(&made, &ranked), Ok(TypeId::of::<Chat>()));
}

#[test]
fn kernel_over_an_empty_registry_has_no_suitable_service() {
    let default = Kernel::new(AIServiceCollection::new(), None, None, None);
    let with_base = Kernel::new(AIServiceCollection::new(), Some(BoxedProvider::base()), None, None);
    for request in requests() {
        assert_eq!(selected_key(&default, &request), Err(SelectionError::NoSuitableService));
        assert_eq!(selected_key(&with_base, &request), Err(SelectionError::NoSuitableService));
    }
}

struct FirstViableFactory;

impl AIServiceSelectorProvider for FirstViableFactory {
    fn strategy(&self, _registry: RegistryView, _request: RequestView) -> Option<TypeId> {
        None
    }

    fn provide(&self, services: Arc<AIServiceCollection>) -> BoxedSelector {
        BoxedSelector { selector: Box::new(BaseAIServiceSelector::new(services)) }
    }
}

#[test]
fn kernel_uses_the_strategy_of_a_provider_of_the_caller() {
    let provider = BoxedProvider { provider: Box::new(FirstViableFactory) };
    let kernel = Kernel::new(two_services(), Some(provider), None, None);
    let mut ranked = ServiceRequest::any();
    ranked.prefer::<Embedding>();
    assert_eq!(selected_key(&kernel, &ranked), Ok(TypeId::of::<Chat>()));
    let mut unmet = ServiceRequest::any();
    unmet.service_id = Some(String::from("audio"));
    assert_eq!(selected_key(&kernel, &unmet), Err(SelectionError::NoSuitableService));
}

struct LastViable {
    services: Arc<AIServiceCollection>,
}

impl AIServiceSelector for LastViable {
    fn services(&self) -> AIServiceCollection {
        AIServiceCollection::new()
    }

    fn choice(&self, _request: RequestView) -> Option<TypeId> {
        None
    }

    fn try_select_service(
        &self,
        request: &ServiceRequest,
    ) -> Result<RegisteredService<'_>, SelectionError> {
        let mut index = self.services.len();
        while index > 0 {
            index -= 1;
            if let Some(entry) = self.services.entry_at(index) {
                if request.accepts(entry.service) {
                    return Ok(entry);
                }
            }
        }
        Err(SelectionError::NoSuitableService)
    }
}

struct LastViableFactory;

impl AIServiceSelectorProvider for LastViableFactory {
    fn strategy(&self, _registry: RegistryView, _request: RequestView) -> Option<TypeId> {
        None
    }

    fn provide(&self, services: Arc<AIServiceCollection>) -> BoxedSelector {
        BoxedSelector { selector: Box::new(LastViable { services }) }
    }
}

#[test]
fn kernel_uses_a_strategy_of_the_caller() {
    let provider = BoxedProvider { provider: Box::new(LastViableFactory) };
    let kernel = Kernel::new(two_services(), Some(provider), None, None);
    assert_eq!(selected_key(&kernel, &ServiceRequest::any()), Ok(TypeId::of::<Embedding>()));
    let mut by_service = ServiceRequest::any();
    by_service.service_id = Some(String::from("chat"));
    assert_eq!(selected_key(&kernel, &by_service), Ok(TypeId::of::<Chat>()));
    let mut unmet = ServiceRequest::any();
    unmet.model_id = Some(String::from("none"));
    assert_eq!(selected_key(&kernel, &unmet), Err(SelectionError::NoSuitableService));
}

#[test]
fn new_builder_builds_an_empty_kernel() {
    let kernel = KernelBuilder::new().build();
    assert_eq!(kernel.services().len(), 0);
    assert!(kernel.global_kernel_hooks().is_empty());
    assert!(kernel.plugins().get(&String::from("search")).is_none());
    assert_eq!(
        selected_key(&kernel, &ServiceRequest::any()),
        Err(SelectionError::NoSuitableService)
    );
}

#[test]
fn builder_accumulates_services_plugins_and_the_provider() {
    let mut builder = KernelBuilder::new();
    builder
        .with_ai_service(chat("gpt"))
        .with_plugin(plugin("search", "web search"))
        .with_ai_service(embedding("ada"))
        .withServiceSelector(BoxedProvider::base())
        .with_ai_service(chat("llama"));
    let kernel = builder.build();
    assert_eq!(kernel.services().len(), 2);
    assert_eq!(kernel.services().get::<Chat>(), Some(&chat("llama")));
    assert_eq!(kernel.services().get::<Embedding>(), Some(&embedding("ada")));
    assert_eq!(
        kernel.plugins().get(&String::from("search")).unwrap().description(),
        &String::from("web search")
    );
    assert!(kernel.global_kernel_hooks().is_empty());
    let mut ranked = ServiceRequest::any();
    ranked.prefer::<Embedding>();
    assert_eq!(selected_key(&kernel, &ranked), Ok(TypeId::of::<Chat>()));
}

#[test]
fn builder_without_a_provider_builds_a_kernel_with_the_ordered_strategy() {
    let mut builder = KernelBuilder::new();
    builder.with_ai_service(chat("gpt")).with_ai_service(embedding("ada"));
    let kernel = builder.build();
    let mut ranked = ServiceRequest::any();
    ranked.prefer::<Embedding>();
    assert_eq!(selected_key(&kernel, &ranked), Ok(TypeId::of::<Embedding>()));
    assert_eq!(selected_key(&kernel, &ServiceRequest::any()), Ok(TypeId::of::<Chat>()));
}

fn built_alike() -> Kernel {
    let mut builder = KernelBuilder::new();
    builder
        .with_ai_service(chat("gpt"))
        .with_plugin(
            KernelPlugin::new(
                String::from("search"),
                String::from("first"),
                vec![KernelFunction::new(String::from("find"), String::from("finds pages"))],
            ),
        )
        .with_ai_service(embedding("ada"))
        .with_plugin(plugin("search", "second"))
        .with_plugin(plugin("math", "arithmetic"))
        .with_ai_service(chat("llama"));
    builder.build()
}

#[test]
fn builders_fed_the_same_calls_build_kernels_that_answer_alike() {
    let first = built_alike();
    let second = built_alike();
    assert_eq!(first.services().len(), second.services().len());
    assert_eq!(first.services().get::<Chat>(), second.services().get::<Chat>());
    assert_eq!(first.services().get::<Chat>(), Some(&chat("llama")));
    assert_eq!(first.services().get::<Embedding>(), second.services().get::<Embedding>());
    assert_eq!(
        first.services().get_model_id::<Embedding>(),
        second.services().get_model_id::<Embedding>()
    );
    for name in ["search", "math", "draw"] {
        let name = String::from(name);
        let left = first.plugins().get(&name).map(|found| found.description().clone());
        let right = second.plugins().get(&name).map(|found| found.description().clone());
        assert_eq!(left, right);
    }
    assert_eq!(
        first.plugins().get(&String::from("search")).unwrap().description(),
        &String::from("second")
    );
    for request in requests() {
        assert_eq!(selected_key(&first, &request), selected_key(&second, &request));
    }
}
