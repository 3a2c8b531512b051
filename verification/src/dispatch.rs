//! Selection of the plugin that governs one intercepted call.

use crate::descriptor::{text_of, views, Descriptor};
use crate::plugin::{declares, DynPlugin};
use crate::registry::Registry;
use vstd::prelude::*;

verus! {

/// The plugin that governs the call: the first plugin of `registry`, in
/// registration order, whose declaration covers it, or `None` where no
/// declaration does and the call runs uninstrumented.
///
/// For each plugin in turn the class rule is tried first, and only for a
/// call that has a class name; where it does not hold, the prefix rule is
/// tried for the same plugin before the next plugin is looked at. The
/// recorded declarations of the registry are those its plugins gave when it
/// was built.
pub fn select_plugin<'a, B, A>(
    registry: &'a Registry<B, A>,
    class_name: Option<&str>,
    function_name: &str,
) -> (found: Option<&'a DynPlugin<B, A>>)
    ensures
        registry.selects(text_of(class_name), function_name@, found),
        found matches Some(plugin) ==> exists|descriptor: Descriptor|
            declares(plugin, descriptor) && (#[trigger] descriptor@).matches(
                text_of(class_name),
                function_name@,
            ),
        registry@ == views(registry.descriptors()),
        registry.descriptors().len() == registry.plugins().len(),
        forall|i: int|
            0 <= i < registry.plugins().len() ==> declares(
                &*#[trigger] registry.plugins()[i],
                registry.descriptors()[i],
            ),
{
    registry.select(class_name, function_name)
}

} // verus!
