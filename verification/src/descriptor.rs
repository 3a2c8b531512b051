//! What a plugin declares of the calls it targets, and the rule that picks the
//! first plugin, in registration order, whose declaration covers a call.

use crate::text::{same_text, starts_with};
use vstd::prelude::*;

verus! {

/// The mathematical content of a [`Descriptor`].
pub struct DescriptorView {
    /// The class names that the plugin targets; `None` where it is not class-scoped.
    pub class_names: Option<Set<Seq<char>>>,
    /// The prefix of the function names that the plugin targets; `None` where
    /// it matches no function by prefix.
    pub prefix: Option<Seq<char>>,
}

impl DescriptorView {
    /// The class rule: the call has a class name, the plugin declares class
    /// names, and the call's class name is one of them.
    pub open spec fn matches_class(self, class_name: Option<Seq<char>>) -> bool {
        &&& class_name is Some
        &&& self.class_names is Some
        &&& self.class_names->0.contains(class_name->0)
    }

    /// The prefix rule: the plugin declares a prefix and the function name
    /// starts with it.
    pub open spec fn matches_prefix(self, function_name: Seq<char>) -> bool {
        &&& self.prefix is Some
        &&& self.prefix->0.is_prefix_of(function_name)
    }

    /// A plugin covers a call by the class rule or, failing that, by the
    /// prefix rule.
    pub open spec fn matches(self, class_name: Option<Seq<char>>, function_name: Seq<char>) -> bool {
        self.matches_class(class_name) || self.matches_prefix(function_name)
    }
}

/// The characters of an optional string.
pub open spec fn text_of(text: Option<&str>) -> Option<Seq<char>> {
    match text {
        Some(t) => Some(t@),
        None => None,
    }
}

/// The set of the strings that occur in `names`.
pub open spec fn name_set(names: Seq<&'static str>) -> Set<Seq<char>> {
    Set::new(|name: Seq<char>| exists|i: int| 0 <= i < names.len() && (#[trigger] names[i])@ == name)
}

/// The position of the first descriptor of `table` that covers the call, if
/// any does.
pub open spec fn first_match(
    table: Seq<DescriptorView>,
    class_name: Option<Seq<char>>,
    function_name: Seq<char>,
) -> Option<int>
    decreases table.len(),
{
    if table.len() == 0 {
        None
    } else if table[0].matches(class_name, function_name) {
        Some(0)
    } else {
        match first_match(table.drop_first(), class_name, function_name) {
            Some(i) => Some(i + 1),
            None => None,
        }
    }
}

/// `i` is a position of `table` whose descriptor covers the call, and no
/// earlier descriptor does.
pub open spec fn is_first_match(
    table: Seq<DescriptorView>,
    class_name: Option<Seq<char>>,
    function_name: Seq<char>,
    i: int,
) -> bool {
    &&& 0 <= i < table.len()
    &&& table[i].matches(class_name, function_name)
    &&& forall|j: int| 0 <= j < i ==> !(#[trigger] table[j]).matches(class_name, function_name)
}

/// No descriptor of `table` covers the call.
pub open spec fn no_match(
    table: Seq<DescriptorView>,
    class_name: Option<Seq<char>>,
    function_name: Seq<char>,
) -> bool {
    forall|j: int| 0 <= j < table.len() ==> !(#[trigger] table[j]).matches(class_name, function_name)
}

/// The views of the descriptors of a table, in order.
pub open spec fn views(table: Seq<Descriptor>) -> Seq<DescriptorView> {
    Seq::new(table.len(), |i: int| table[i]@)
}

/// What one plugin declares: plain values, read once from the plugin.
#[derive(Clone, Copy, Debug)]
pub struct Descriptor {
    /// The class names that the plugin targets, if it is class-scoped.
    pub class_names: Option<&'static [&'static str]>,
    /// The literal prefix of the function names that the plugin targets, if any.
    pub function_name_prefix: Option<&'static str>,
}

impl View for Descriptor {
    type V = DescriptorView;

    open spec fn view(&self) -> DescriptorView {
        DescriptorView {
            class_names: match self.class_names {
                Some(names) => Some(name_set(names@)),
                None => None,
            },
            prefix: text_of(self.function_name_prefix),
        }
    }
}

/// Whether `name` occurs in `names`.
pub fn contains_name(names: &[&'static str], name: &str) -> (found: bool)
    ensures
        found == name_set(names@).contains(name@),
{
    let mut i: usize = 0;
    while i < names.len()
        invariant
            i <= names.len(),
            forall|j: int| 0 <= j < i ==> (#[trigger] names@[j])@ != name@,
        decreases names.len() - i,
    {
        if same_text(names[i], name) {
            assert(names@[i as int]@ == name@);
            return true;
        }
        i += 1;
    }
    false
}

impl Descriptor {
    /// Whether the plugin that declared `self` covers the call.
    ///
    /// The class rule is tried first, and only for a call that has a class
    /// name; where it does not hold, the prefix rule is still tried.
    pub fn matches(&self, class_name: Option<&str>, function_name: &str) -> (covered: bool)
        ensures
            covered == self@.matches(text_of(class_name), function_name@),
    {
        if let Some(class_name) = class_name {
            if let Some(names) = self.class_names {
                if contains_name(names, class_name) {
                    return true;
                }
            }
        }
        if let Some(prefix) = self.function_name_prefix {
            if starts_with(function_name, prefix) {
                return true;
            }
        }
        false
    }
}

/// The position of the first descriptor of `table` that covers the call.
///
/// The descriptors are tried in order and the scan stops at the first that
/// covers the call; `None` where none does.
pub fn select_index(table: &[Descriptor], class_name: Option<&str>, function_name: &str) -> (selected:
    Option<usize>)
    ensures
        match selected {
            Some(i) => first_match(views(table@), text_of(class_name), function_name@) == Some(
                i as int,
            ),
            None => first_match(views(table@), text_of(class_name), function_name@) is None,
        },
{
    let mut i: usize = 0;
    while i < table.len()
        invariant
            i <= table.len(),
            forall|j: int|
                0 <= j < i ==> !(#[trigger] views(table@)[j]).matches(
                    text_of(class_name),
                    function_name@,
                ),
        decreases table.len() - i,
    {
        if table[i].matches(class_name, function_name) {
            proof {
                assert(views(table@)[i as int] == table@[i as int]@);
                lemma_first_match_is_first(
                    views(table@),
                    text_of(class_name),
                    function_name@,
                    i as int,
                );
            }
            return Some(i);
        }
        assert(views(table@)[i as int] == table@[i as int]@);
        i += 1;
    }
    proof {
        lemma_no_match_selects_nothing(views(table@), text_of(class_name), function_name@);
    }
    None
}

/// The selected position is exactly the first position that covers the call.
pub proof fn lemma_first_match_is_first(
    table: Seq<DescriptorView>,
    class_name: Option<Seq<char>>,
    function_name: Seq<char>,
    i: int,
)
    ensures
        first_match(table, class_name, function_name) == Some(i) <==> is_first_match(
            table,
            class_name,
            function_name,
            i,
        ),
    decreases table.len(),
{
    if table.len() == 0 {
    } else if table[0].matches(class_name, function_name) {
    } else {
        let rest = table.drop_first();
        lemma_first_match_is_first(rest, class_name, function_name, i - 1);
        if is_first_match(rest, class_name, function_name, i - 1) {
            assert(table[i] == rest[i - 1]);
            assert forall|j: int| 0 <= j < i implies !(#[trigger] table[j]).matches(
                class_name,
                function_name,
            ) by {
                if j > 0 {
                    assert(table[j] == rest[j - 1]);
                }
            }
        }
        if is_first_match(table, class_name, function_name, i) {
            assert(i > 0);
            assert(rest[i - 1] == table[i]);
            assert forall|j: int| 0 <= j < i - 1 implies !(#[trigger] rest[j]).matches(
                class_name,
                function_name,
            ) by {
                assert(rest[j] == table[j + 1]);
            }
        }
    }
}

/// Nothing is selected exactly where no descriptor covers the call.
pub proof fn lemma_no_match_selects_nothing(
    table: Seq<DescriptorView>,
    class_name: Option<Seq<char>>,
    function_name: Seq<char>,
)
    ensures
        first_match(table, class_name, function_name) is None <==> no_match(
            table,
            class_name,
            function_name,
        ),
    decreases table.len(),
{
    if table.len() == 0 {
    } else if table[0].matches(class_name, function_name) {
    } else {
        let rest = table.drop_first();
        lemma_no_match_selects_nothing(rest, class_name, function_name);
        if no_match(rest, class_name, function_name) {
            assert forall|j: int| 0 <= j < table.len() implies !(#[trigger] table[j]).matches(
                class_name,
                function_name,
            ) by {
                if j > 0 {
                    assert(table[j] == rest[j - 1]);
                }
            }
        }
        if no_match(table, class_name, function_name) {
            assert forall|j: int| 0 <= j < rest.len() implies !(#[trigger] rest[j]).matches(
                class_name,
                function_name,
            ) by {
                assert(rest[j] == table[j + 1]);
            }
        }
    }
}

} // verus!
