//! Hooks: named interception points. They carry no behaviour yet; the
//! kernel only keeps the set that it was given.

use std::collections::HashMap;
use vstd::prelude::*;

verus! {

/// A marker for one interception point.
#[derive(Debug, Clone)]
pub struct KernelHook;

/// A set of hooks, keyed by name. As a value it is the map from names to
/// hooks.
#[derive(Debug, Clone)]
pub struct KernelHooks {
    hooks: HashMap<String, KernelHook>,
}

impl View for KernelHooks {
    type V = Map<String, KernelHook>;

    closed spec fn view(&self) -> Map<String, KernelHook> {
        self.hooks@
    }
}

impl KernelHooks {
    /// The empty set of hooks.
    pub fn new() -> (hooks: Self)
        ensures
            hooks@ == Map::<String, KernelHook>::empty(),
    {
        Self { hooks: HashMap::new() }
    }

    /// The set that holds what `hooks` holds.
    pub fn from_map(hooks: &HashMap<String, KernelHook>) -> (copy: Self)
        ensures
            copy@ == hooks@,
    {
        Self { hooks: hooks.clone() }
    }

    /// The given set, or the empty one where none is given.
    pub fn from_optional(hooks: Option<KernelHooks>) -> (chosen: Self)
        ensures
            chosen@ == match hooks {
                Some(given) => given@,
                None => Map::<String, KernelHook>::empty(),
            },
    {
        let hooks = match hooks {
            Some(given) => given.hooks,
            None => HashMap::new(),
        };
        Self { hooks }
    }

    /// The hooks by name.
    pub fn as_map(&self) -> (hooks: &HashMap<String, KernelHook>)
        ensures
            hooks@ == self@,
    {
        &self.hooks
    }

    /// Whether the set holds no hook.
    pub fn is_empty(&self) -> (empty: bool)
        ensures
            empty == self@.is_empty(),
    {
        self.hooks.is_empty()
    }
}

} // verus!
