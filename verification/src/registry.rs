//! The ordered collection of plugins, fixed when it is built.

use crate::descriptor::{
    first_match, lemma_first_match_is_first, select_index, text_of, views, Descriptor,
    DescriptorView,
};
use crate::plugin::{declares, describe, DynPlugin};
use vstd::prelude::*;

verus! {

/// The plugins in registration order, each with what it declared when it was
/// registered.
///
/// A registry is built once and never changed. Selection reads the recorded
/// declarations only, so it is a function of the registry and the call.
#[verifier::reject_recursive_types(B)]
#[verifier::reject_recursive_types(A)]
pub struct Registry<B, A> {
    plugins: Vec<Box<DynPlugin<B, A>>>,
    table: Vec<Descriptor>,
}

impl<B, A> View for Registry<B, A> {
    type V = Seq<DescriptorView>;

    /// The declarations of the plugins, in registration order.
    closed spec fn view(&self) -> Seq<DescriptorView> {
        views(self.table@)
    }
}

impl<B, A> Registry<B, A> {
    /// The plugins, in registration order.
    pub closed spec fn plugins(&self) -> Seq<Box<DynPlugin<B, A>>> {
        self.plugins@
    }

    /// What was read from each plugin when the registry was built.
    pub closed spec fn descriptors(&self) -> Seq<Descriptor> {
        self.table@
    }

    #[verifier::type_invariant]
    spec fn well_formed(&self) -> bool {
        &&& self.table@.len() == self.plugins@.len()
        &&& forall|i: int|
            0 <= i < self.plugins@.len() ==> declares(
                &*#[trigger] self.plugins@[i],
                self.table@[i],
            )
    }

    /// `found` is what selection yields for the call: the first plugin, in
    /// registration order, whose declaration covers it, or nothing where no
    /// declaration does.
    pub open spec fn selects(
        &self,
        class_name: Option<Seq<char>>,
        function_name: Seq<char>,
        found: Option<&DynPlugin<B, A>>,
    ) -> bool {
        match found {
            Some(plugin) => first_match(self@, class_name, function_name) matches Some(i) && plugin
                == &*self.plugins()[i],
            None => first_match(self@, class_name, function_name) is None,
        }
    }

    /// Builds the registry of `plugins`, keeping their order, and reads from
    /// each plugin what it declares.
    pub fn new(plugins: Vec<Box<DynPlugin<B, A>>>) -> (registry: Self)
        ensures
            registry.plugins() == plugins@,
            registry.descriptors().len() == plugins@.len(),
            registry@ == views(registry.descriptors()),
            forall|i: int|
                0 <= i < plugins@.len() ==> declares(
                    &*#[trigger] plugins@[i],
                    registry.descriptors()[i],
                ),
    {
        let mut table: Vec<Descriptor> = Vec::new();
        let mut i: usize = 0;
        while i < plugins.len()
            invariant
                i <= plugins.len(),
                table@.len() == i,
                forall|j: int|
                    0 <= j < i ==> declares(&*#[trigger] plugins@[j], table@[j]),
            decreases plugins.len() - i,
        {
            let descriptor = describe(&*plugins[i]);
            table.push(descriptor);
            i += 1;
        }
        Registry { plugins, table }
    }

    /// The number of registered plugins.
    pub fn len(&self) -> (n: usize)
        ensures
            n == self.plugins().len(),
            n == self@.len(),
    {
        proof {
            use_type_invariant(self);
        }
        self.plugins.len()
    }

    /// The plugin at position `index` of the registration order, or `None`
    /// where `index` is past the last plugin.
    pub fn get(&self, index: usize) -> (plugin: Option<&DynPlugin<B, A>>)
        ensures
            plugin == if index < self.plugins().len() {
                Some(&*self.plugins()[index as int])
            } else {
                None
            },
    {
        if index < self.plugins.len() {
            let plugin = &*self.plugins[index];
            let found = Some(plugin);
            found
        } else {
            None
        }
    }

    /// The position, in registration order, of the plugin that governs the
    /// call, or `None` where no plugin covers it.
    pub fn select_index(&self, class_name: Option<&str>, function_name: &str) -> (selected: Option<
        usize,
    >)
        ensures
            match selected {
                Some(i) => first_match(self@, text_of(class_name), function_name@) == Some(i as int),
                None => first_match(self@, text_of(class_name), function_name@) is None,
            },
            self@ == views(self.descriptors()),
            self.descriptors().len() == self.plugins().len(),
    {
        proof {
            use_type_invariant(self);
        }
        select_index(self.table.as_slice(), class_name, function_name)
    }

    /// The plugin that governs the call: the first, in registration order,
    /// whose declaration covers it, or `None` where none does.
    ///
    /// Whether the selected plugin has hooks for this exact call is a second
    /// question, put to the plugin itself.
    pub fn select(&self, class_name: Option<&str>, function_name: &str) -> (found: Option<
        &DynPlugin<B, A>,
    >)
        ensures
            self.selects(text_of(class_name), function_name@, found),
            found matches Some(plugin) ==> exists|descriptor: Descriptor|
                declares(plugin, descriptor) && (#[trigger] descriptor@).matches(
                    text_of(class_name),
                    function_name@,
                ),
            self@ == views(self.descriptors()),
            self.descriptors().len() == self.plugins().len(),
            forall|i: int|
                0 <= i < self.plugins().len() ==> declares(
                    &*#[trigger] self.plugins()[i],
                    self.descriptors()[i],
                ),
    {
        proof {
            use_type_invariant(self);
        }
        match self.select_index(class_name, function_name) {
            Some(i) => {
                proof {
                    lemma_first_match_is_first(self@, text_of(class_name), function_name@, i as int);
                    assert(self@[i as int] == self.table@[i as int]@);
                }
                let plugin = &*self.plugins[i];
                let found = Some(plugin);
                found
            },
            None => None,
        }
    }
}

} // verus!
