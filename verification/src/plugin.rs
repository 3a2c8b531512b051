//! The capability interface that every instrumentation plugin implements.

use crate::descriptor::Descriptor;
use vstd::prelude::*;

verus! {

/// The two operations that a plugin supplies for one intercepted call.
///
/// `before` runs immediately before the call and `after` immediately after
/// it; what `before` returns is handed to `after` by the caller. The pair
/// belongs to the one call it was made for.
pub struct HookPair<B, A> {
    /// Runs before the intercepted call.
    pub before: B,
    /// Runs after the intercepted call.
    pub after: A,
}

/// An instrumentation plugin for one monitored library.
///
/// `B` and `A` are the types of the before and after operations that the
/// interception harness runs.
pub trait Plugin<B, A>: Send + Sync {
    /// The class names whose methods this plugin instruments, or `None`
    /// where the plugin is not class-scoped.
    fn class_names(&self) -> Option<&'static [&'static str]>;

    /// The prefix of the free functions this plugin instruments, or `None`
    /// where it matches no function by prefix.
    fn function_name_prefix(&self) -> Option<&'static str>;

    /// The hooks for one call, or `None` where this exact call cannot be
    /// instrumented, which may be so also for a call that the plugin was
    /// selected for.
    fn hook(&self, class_name: Option<&str>, function_name: &str) -> Option<HookPair<B, A>>;
}

/// A plugin of any concrete type.
pub type DynPlugin<B, A> = dyn Plugin<B, A>;

/// `descriptor` holds values that `plugin` gave for its class names and for
/// its prefix.
pub open spec fn declares<B, A, P: Plugin<B, A> + ?Sized>(plugin: &P, descriptor: Descriptor) -> bool {
    &&& call_ensures(P::class_names, (plugin,), descriptor.class_names)
    &&& call_ensures(P::function_name_prefix, (plugin,), descriptor.function_name_prefix)
}

/// Reads from `plugin` what it declares.
pub fn describe<B, A, P: Plugin<B, A> + ?Sized>(plugin: &P) -> (descriptor: Descriptor)
    ensures
        declares(plugin, descriptor),
{
    let class_names = plugin.class_names();
    let function_name_prefix = plugin.function_name_prefix();
    Descriptor { class_names, function_name_prefix }
}

} // verus!
