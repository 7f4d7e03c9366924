//! The kernel: the context that a workload passes to every function and
//! service call, and the builder that assembles it.

use crate::hooks::KernelHook;
use crate::hooks::KernelHooks;
use crate::plugins::KernelPlugin;
use crate::plugins::KernelPluginCollection;
use crate::services::erasure::Untyped;
use crate::services::registry::AIServiceCollection;
use crate::services::registry::RegisteredService;
use crate::services::registry::RegistryView;
use crate::services::selection::AIServiceSelector;
use crate::services::selection::AIServiceSelectorProvider;
use crate::services::selection::BoxedProvider;
use crate::services::selection::BoxedSelector;
use crate::services::selection::OrderedSelectorProvider;
use crate::services::selection::RequestView;
use crate::services::selection::SelectionError;
use crate::services::selection::ServiceRequest;
use crate::services::AIService;
use std::any::TypeId;
use std::sync::Arc;
use vstd::prelude::*;

verus! {

/// What a kernel chooses for `request` when it was given `provider`: the
/// choice of the provider's strategy, and of the ordered strategy where
/// no provider was given.
pub open spec fn strategy_of(
    provider: Option<BoxedProvider>,
    registry: RegistryView,
    request: RequestView,
) -> Option<TypeId> {
    match provider {
        Some(given) => given.provider.strategy(registry, request),
        None => crate::services::selection::ordered_choice(registry, request),
    }
}

/// Default strategy: a kernel that was given no provider chooses as one
/// that was given the provider of the ordered strategy, whatever the
/// registry holds and whatever is asked.
pub proof fn lemma_default_strategy_is_ordered(default: Kernel, explicit: Kernel)
    requires
        default.provider() is None,
        explicit.provider() == Some(crate::services::selection::ordered_provider()),
        default.registry()@ == explicit.registry()@,
    ensures
        forall|request: RequestView| default.choice(request) == explicit.choice(request),
        forall|request: RequestView|
            default.choice(request) == crate::services::selection::ordered_choice(
                default.registry()@,
                request,
            ),
{
}

/// Provides state for use throughout a workload. A `Kernel` is passed to
/// every function invocation and service call, and gives each access to
/// the shared services, plugins and hooks. It does not change once made.
pub struct Kernel {
    service_selector: BoxedSelector,
    services: Arc<AIServiceCollection>,
    service_selector_provider: Option<BoxedProvider>,
    plugins: Arc<KernelPluginCollection>,
    global_kernel_hooks: Arc<KernelHooks>,
}

impl Kernel {
    /// The strategy chooses from the kernel's own registry, as the
    /// kernel's provider prescribes.
    #[verifier::type_invariant]
    spec fn inv(self) -> bool {
        &&& self.service_selector.selector.services() == *self.services
        &&& forall|request: RequestView| #[trigger]
            self.service_selector.selector.choice(request) == strategy_of(
                self.service_selector_provider,
                self.services@,
                request,
            )
    }

    /// The registry of the kernel.
    pub closed spec fn registry(self) -> AIServiceCollection {
        *self.services
    }

    /// The provider that the kernel was given.
    pub closed spec fn provider(self) -> Option<BoxedProvider> {
        self.service_selector_provider
    }

    /// The plugins of the kernel.
    pub closed spec fn plugin_collection(self) -> KernelPluginCollection {
        *self.plugins
    }

    /// The hooks of the kernel.
    pub closed spec fn hooks(self) -> KernelHooks {
        *self.global_kernel_hooks
    }

    /// What the kernel's strategy chooses for `request`.
    pub open spec fn choice(self, request: RequestView) -> Option<TypeId> {
        strategy_of(self.provider(), self.registry()@, request)
    }

    /// The kernel holds what the builder had accumulated: its services in
    /// their order, its provider, its plugins by name, and no hook.
    pub open spec fn built_from(self, builder: BuilderView) -> bool {
        &&& self.registry()@ == builder.services
        &&& self.provider() == builder.provider
        &&& self.plugin_collection()@ == crate::plugins::plugins_by_name(builder.plugins)
        &&& self.hooks()@ == Map::<String, KernelHook>::empty()
    }

    /// Creates a new instance of `Kernel`.
    ///
    /// * `services` - the AI services available to the kernel.
    /// * `service_selector_provider` - makes the strategy that selects among
    ///   the services. If `None`, the ordered strategy is used.
    /// * `plugins` - the plugins to register with the kernel. If `None`,
    ///   the kernel starts with no plugin.
    /// * `global_kernel_hooks` - hooks that apply to the kernel's
    ///   operations. If `None`, the kernel has no hook.
    pub fn new(
        services: AIServiceCollection,
        service_selector_provider: Option<BoxedProvider>,
        plugins: Option<Vec<KernelPlugin>>,
        global_kernel_hooks: Option<KernelHooks>,
    ) -> (kernel: Self)
        ensures
            kernel.registry() == services,
            kernel.provider() == service_selector_provider,
            kernel.plugin_collection()@ == match plugins {
                Some(list) => crate::plugins::plugins_by_name(list@),
                None => Map::<Seq<char>, KernelPlugin>::empty(),
            },
            kernel.hooks()@ == match global_kernel_hooks {
                Some(given) => given@,
                None => Map::<String, KernelHook>::empty(),
            },
    {
        let services = Arc::new(services);
        let service_selector = match &service_selector_provider {
            Some(given) => given.provider.provide(Arc::clone(&services)),
            None => OrderedSelectorProvider.provide(Arc::clone(&services)),
        };
        let plugins = Arc::new(KernelPluginCollection::new(plugins));
        let global_kernel_hooks = Arc::new(KernelHooks::from_optional(global_kernel_hooks));
        Self { services, service_selector, service_selector_provider, plugins, global_kernel_hooks }
    }

    /// The services of the kernel.
    pub fn services(&self) -> (services: &AIServiceCollection)
        ensures
            *services == self.registry(),
    {
        &self.services
    }

    /// The plugins of the kernel.
    pub fn plugins(&self) -> (plugins: &KernelPluginCollection)
        ensures
            *plugins == self.plugin_collection(),
    {
        &self.plugins
    }

    /// The hooks of the kernel.
    pub fn global_kernel_hooks(&self) -> (hooks: &KernelHooks)
        ensures
            *hooks == self.hooks(),
    {
        &self.global_kernel_hooks
    }

    /// Selects a service for `request` with the kernel's strategy.
    pub fn try_select_service(&self, request: &ServiceRequest) -> (outcome: Result<
        RegisteredService<'_>,
        SelectionError,
    >)
        ensures
            crate::services::selection::answers(
                self.registry()@,
                request@,
                self.choice(request@),
                outcome,
            ),
    {
        proof {
            use_type_invariant(self);
        }
        self.service_selector.selector.try_select_service(request)
    }
}

/// What a builder has accumulated.
pub struct BuilderView {
    /// The registered services.
    pub services: RegistryView,
    /// The plugins, in the order in which they were added.
    pub plugins: Seq<KernelPlugin>,
    /// The provider, if one was set.
    pub provider: Option<BoxedProvider>,
}

/// One call on a builder.
pub enum BuilderStep {
    /// `with_ai_service`, with the service `service`, whose type has the
    /// identity `key`.
    Service { key: TypeId, service: Untyped },
    /// `with_plugin`.
    Plugin { plugin: KernelPlugin },
    /// `withServiceSelector`.
    Selector { provider: BoxedProvider },
}

impl BuilderView {
    /// What a new builder has accumulated: nothing.
    pub open spec fn empty() -> BuilderView {
        BuilderView { services: RegistryView::empty(), plugins: Seq::empty(), provider: None }
    }

    /// What the builder has accumulated after one more call.
    pub open spec fn after(self, step: BuilderStep) -> BuilderView {
        match step {
            BuilderStep::Service { key, service } => BuilderView {
                services: self.services.with(key, service),
                ..self
            },
            BuilderStep::Plugin { plugin } => BuilderView {
                plugins: self.plugins.push(plugin),
                ..self
            },
            BuilderStep::Selector { provider } => BuilderView { provider: Some(provider), ..self },
        }
    }
}

/// What a builder has accumulated after the given calls, from new.
pub open spec fn accumulated(steps: Seq<BuilderStep>) -> BuilderView
    decreases steps.len(),
{
    if steps.len() == 0 {
        BuilderView::empty()
    } else {
        accumulated(steps.drop_last()).after(steps.last())
    }
}

/// Builders compose alike: two kernels built after the same calls hold the
/// same services under the same types and in the same order, hold the same
/// plugins under the same names, and choose the same service for every
/// request.
pub proof fn lemma_same_steps_same_kernel(steps: Seq<BuilderStep>, first: Kernel, second: Kernel)
    requires
        first.built_from(accumulated(steps)),
        second.built_from(accumulated(steps)),
    ensures
        first.registry()@ == second.registry()@,
        first.plugin_collection()@ == second.plugin_collection()@,
        first.hooks()@ == second.hooks()@,
        forall|request: RequestView| first.choice(request) == second.choice(request),
{
}

/// A fluent builder for creating a new instance of [`Kernel`].
pub struct KernelBuilder {
    services: AIServiceCollection,
    service_selector_provider: Option<BoxedProvider>,
    plugins: Vec<KernelPlugin>,
}

impl View for KernelBuilder {
    type V = BuilderView;

    closed spec fn view(&self) -> BuilderView {
        BuilderView {
            services: self.services@,
            plugins: self.plugins@,
            provider: self.service_selector_provider,
        }
    }
}

impl KernelBuilder {
    /// Constructs a builder that has accumulated nothing.
    pub fn new() -> (builder: Self)
        ensures
            builder@ == BuilderView::empty(),
    {
        Self {
            services: AIServiceCollection::new(),
            service_selector_provider: None,
            plugins: Vec::new(),
        }
    }

    /// Adds a service to the kernel.
    pub fn with_ai_service<S: AIService + 'static + Clone>(&mut self, service: S) -> (builder:
        &mut Self)
        ensures
            builder@ == old(self)@.after(
                BuilderStep::Service {
                    key: crate::services::erasure::key_of::<S>(),
                    service: crate::services::erasure::untyped(service),
                },
            ),
            *final(self) == *final(builder),
    {
        self.services.insert(service);
        self
    }

    /// Adds a plugin to the kernel.
    pub fn with_plugin(&mut self, plugin: KernelPlugin) -> (builder: &mut Self)
        ensures
            builder@ == old(self)@.after(BuilderStep::Plugin { plugin }),
            *final(self) == *final(builder),
    {
        self.plugins.push(plugin);
        self
    }

    /// Sets the provider of the kernel's selection strategy.
    #[allow(non_snake_case)]
    pub fn withServiceSelector(&mut self, service_selector: BoxedProvider) -> (builder: &mut Self)
        ensures
            builder@ == old(self)@.after(BuilderStep::Selector { provider: service_selector }),
            *final(self) == *final(builder),
    {
        self.service_selector_provider = Some(service_selector);
        self
    }

    /// Builds a new instance of `Kernel` with the services and plugins
    /// provided, and without hooks.
    pub fn build(self) -> (kernel: Kernel)
        ensures
            kernel.built_from(self@),
    {
        Kernel::new(self.services, self.service_selector_provider, Some(self.plugins), None)
    }
}

} // verus!
