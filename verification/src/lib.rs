//! Selection of the one instrumentation plugin that governs an intercepted call.

pub mod descriptor;
pub mod dispatch;
pub mod laws;
pub mod plugin;
pub mod registry;
pub mod text;

pub use crate::descriptor::Descriptor;
pub use crate::dispatch::select_plugin;
pub use crate::plugin::{DynPlugin, HookPair, Plugin};
pub use crate::registry::Registry;
