//! What holds of selection for every table of descriptors and every call.

use crate::descriptor::{
    first_match, is_first_match, lemma_first_match_is_first, lemma_no_match_selects_nothing,
    no_match, DescriptorView,
};
use crate::plugin::DynPlugin;
use crate::registry::Registry;
use vstd::prelude::*;

verus! {

/// A call that no plugin covers, by class name or by prefix, selects nothing.
pub proof fn lemma_uncovered_call_selects_nothing(
    table: Seq<DescriptorView>,
    class_name: Option<Seq<char>>,
    function_name: Seq<char>,
)
    requires
        forall|i: int|
            0 <= i < table.len() ==> !(#[trigger] table[i]).matches_class(class_name)
                && !table[i].matches_prefix(function_name),
    ensures
        first_match(table, class_name, function_name) is None,
{
    assert(no_match(table, class_name, function_name));
    lemma_no_match_selects_nothing(table, class_name, function_name);
}

/// At most one plugin governs a call: two positions that both are the first
/// to cover it are one position.
pub proof fn lemma_at_most_one_selected(
    table: Seq<DescriptorView>,
    class_name: Option<Seq<char>>,
    function_name: Seq<char>,
    i: int,
    j: int,
)
    requires
        is_first_match(table, class_name, function_name, i),
        is_first_match(table, class_name, function_name, j),
    ensures
        i == j,
{
    if i < j {
        assert(!table[i].matches(class_name, function_name));
    } else if j < i {
        assert(!table[j].matches(class_name, function_name));
    }
}

/// Selection is a function of the registry and the call: whatever it yields
/// for one call on one registry, it yields every time.
pub proof fn lemma_selection_is_determined<B, A>(
    registry: Registry<B, A>,
    class_name: Option<Seq<char>>,
    function_name: Seq<char>,
    once: Option<&DynPlugin<B, A>>,
    again: Option<&DynPlugin<B, A>>,
)
    requires
        registry.selects(class_name, function_name, once),
        registry.selects(class_name, function_name, again),
    ensures
        once == again,
{
}

/// Where a plugin covers a call, the call selects that plugin or an earlier
/// one, never a later one.
pub proof fn lemma_earlier_plugin_wins(
    table: Seq<DescriptorView>,
    class_name: Option<Seq<char>>,
    function_name: Seq<char>,
    i: int,
)
    requires
        0 <= i < table.len(),
        table[i].matches(class_name, function_name),
    ensures
        first_match(table, class_name, function_name) matches Some(k) && 0 <= k <= i,
        forall|j: int| i < j ==> first_match(table, class_name, function_name) != Some(j),
{
    lemma_no_match_selects_nothing(table, class_name, function_name);
    let k = first_match(table, class_name, function_name)->0;
    lemma_first_match_is_first(table, class_name, function_name, k);
    if i < k {
        assert(!table[i].matches(class_name, function_name));
    }
}

/// A plugin that declares no class names covers exactly the calls whose
/// function name starts with its prefix.
pub proof fn lemma_prefix_only_plugin(
    descriptor: DescriptorView,
    class_name: Option<Seq<char>>,
    function_name: Seq<char>,
)
    requires
        descriptor.class_names is None,
    ensures
        descriptor.matches(class_name, function_name) <==> descriptor.prefix is Some
            && descriptor.prefix->0.is_prefix_of(function_name),
{
}

/// The prefix rule is tried whatever became of the class rule: a plugin
/// whose prefix starts the function name covers the call for every class
/// name, also one that is not among its class names.
pub proof fn lemma_prefix_rule_after_class_rule(
    descriptor: DescriptorView,
    class_name: Option<Seq<char>>,
    function_name: Seq<char>,
)
    requires
        descriptor.matches_prefix(function_name),
    ensures
        descriptor.matches(class_name, function_name),
{
}

/// A call without a class name is covered by the prefix rule or not at all.
pub proof fn lemma_call_without_class(descriptor: DescriptorView, function_name: Seq<char>)
    ensures
        descriptor.matches(None, function_name) <==> descriptor.matches_prefix(function_name),
{
}

} // verus!
