use once_cell::sync::Lazy;
use plugin_dispatch::{select_plugin, DynPlugin, HookPair, Plugin, Registry};
use std::sync::atomic::{AtomicUsize, Ordering};

type Hooks = HookPair<u32, u32>;

struct Fixed {
    tag: u32,
    classes: Option<&'static [&'static str]>,
    prefix: Option<&'static str>,
}

impl Plugin<u32, u32> for Fixed {
    fn class_names(&self) -> Option<&'static [&'static str]> {
        self.classes
    }

    fn function_name_prefix(&self) -> Option<&'static str> {
        self.prefix
    }

    fn hook(&self, _class_name: Option<&str>, function_name: &str) -> Option<Hooks> {
        if function_name == "unsupportedMethod" {
            None
        } else {
            Some(HookPair { before: self.tag, after: self.tag + 1 })
        }
    }
}

fn plugin(
    tag: u32,
    classes: Option<&'static [&'static str]>,
    prefix: Option<&'static str>,
) -> Box<DynPlugin<u32, u32>> {
    Box::new(Fixed { tag, classes, prefix })
}

fn tag_of(found: Option<&DynPlugin<u32, u32>>) -> Option<u32> {
    found.map(|p| p.hook(None, "probe").unwrap().before)
}

fn sample() -> Registry<u32, u32> {
    Registry::new(vec![
        plugin(10, None, Some("curl_")),
        plugin(20, Some(&["PDO", "PDOStatement"]), None),
        plugin(30, Some(&["mysqli"]), Some("mysqli_")),
    ])
}

#[test]
fn call_that_nothing_covers_selects_nothing() {
    let registry = sample();
    assert!(registry.select(None, "strlen").is_none());
    assert!(registry.select(Some("Redis"), "get").is_none());
    assert_eq!(registry.select_index(Some("Redis"), "get"), None);
    assert!(registry.select(Some("pdo"), "query").is_none());
}

#[test]
fn empty_registry_selects_nothing() {
    let registry: Registry<u32, u32> = Registry::new(Vec::new());
    assert_eq!(registry.len(), 0);
    assert!(registry.select(Some("PDO"), "query").is_none());
    assert_eq!(registry.select_index(None, "curl_init"), None);
    assert!(registry.get(0).is_none());
}

#[test]
fn same_call_selects_same_plugin_every_time() {
    let registry = sample();
    let first = registry.select_index(Some("PDO"), "query");
    assert_eq!(first, Some(1));
    for _ in 0..100 {
        assert_eq!(registry.select_index(Some("PDO"), "query"), first);
        assert_eq!(tag_of(registry.select(Some("PDO"), "query")), Some(20));
    }
}

#[test]
fn earlier_plugin_wins() {
    let registry = Registry::new(vec![
        plugin(1, Some(&["Foo"]), None),
        plugin(2, None, Some("Foo::")),
    ]);
    assert_eq!(registry.select_index(Some("Foo"), "Foo::bar"), Some(0));
    assert_eq!(tag_of(registry.select(Some("Foo"), "Foo::bar")), Some(1));
}

#[test]
fn earlier_plugin_wins_by_prefix_over_later_class() {
    let registry = Registry::new(vec![
        plugin(2, None, Some("Foo::")),
        plugin(1, Some(&["Foo"]), None),
    ]);
    assert_eq!(registry.select_index(Some("Foo"), "Foo::bar"), Some(0));
    assert_eq!(registry.select_index(Some("Foo"), "bar"), Some(1));
}

#[test]
fn prefix_only_plugin() {
    let registry = Registry::new(vec![plugin(7, None, Some("curl_"))]);
    assert_eq!(registry.select_index(None, "curl_init"), Some(0));
    assert_eq!(registry.select_index(None, "curl_exec"), Some(0));
    assert_eq!(registry.select_index(None, "wcurl_init"), None);
    assert_eq!(registry.select_index(None, "my_curl_init"), None);
    assert_eq!(registry.select_index(None, "curl"), None);
    assert_eq!(registry.select_index(None, "curl_"), Some(0));
    assert_eq!(registry.select_index(Some("Anything"), "curl_init"), Some(0));
}

#[test]
fn prefix_is_tried_after_class_rule_fails() {
    let registry = Registry::new(vec![plugin(5, Some(&["PDO"]), Some("PDO::"))]);
    assert_eq!(registry.select_index(Some("Other"), "PDO::query"), Some(0));
    assert_eq!(registry.select_index(Some("PDO"), "query"), Some(0));
    assert_eq!(registry.select_index(Some("Other"), "query"), None);
}

#[test]
fn call_without_class_matches_by_prefix_only() {
    let registry = Registry::new(vec![plugin(5, Some(&["PDO"]), Some("pdo_"))]);
    assert_eq!(registry.select_index(None, "PDO"), None);
    assert_eq!(registry.select_index(None, "query"), None);
    assert_eq!(registry.select_index(None, "pdo_connect"), Some(0));
}

#[test]
fn empty_class_list_covers_no_class() {
    let registry = Registry::new(vec![plugin(5, Some(&[]), None)]);
    assert_eq!(registry.select_index(Some(""), "f"), None);
    assert_eq!(registry.select_index(Some("PDO"), "f"), None);
}

#[test]
fn empty_prefix_covers_every_function() {
    let registry = Registry::new(vec![plugin(1, Some(&["PDO"]), None), plugin(2, None, Some(""))]);
    assert_eq!(registry.select_index(None, ""), Some(1));
    assert_eq!(registry.select_index(Some("Other"), "anything"), Some(1));
    assert_eq!(registry.select_index(Some("PDO"), "anything"), Some(0));
}

#[test]
fn selected_plugin_may_have_no_hook() {
    let registry = Registry::new(vec![plugin(9, Some(&["PDO"]), None)]);
    let found = registry.select(Some("PDO"), "unsupportedMethod");
    assert!(found.is_some());
    assert_eq!(registry.select_index(Some("PDO"), "unsupportedMethod"), Some(0));
    let selected = found.unwrap();
    assert!(selected.hook(Some("PDO"), "unsupportedMethod").is_none());
    let hooks = selected.hook(Some("PDO"), "query").unwrap();
    assert_eq!(hooks.before, 9);
    assert_eq!(hooks.after, 10);
}

#[test]
fn select_plugin_agrees_with_the_registry() {
    let registry = sample();
    assert_eq!(tag_of(select_plugin(&registry, None, "curl_exec")), Some(10));
    assert_eq!(tag_of(select_plugin(&registry, Some("PDOStatement"), "execute")), Some(20));
    assert_eq!(tag_of(select_plugin(&registry, Some("Other"), "mysqli_query")), Some(30));
    assert!(select_plugin(&registry, Some("Other"), "query").is_none());
    assert!(select_plugin(&registry, None, "PDO").is_none());
    let empty: Registry<u32, u32> = Registry::new(Vec::new());
    assert!(select_plugin(&empty, Some("PDO"), "curl_init").is_none());
}

#[test]
fn get_returns_plugins_in_registration_order() {
    let registry = sample();
    assert_eq!(registry.len(), 3);
    assert_eq!(tag_of(registry.get(0)), Some(10));
    assert_eq!(tag_of(registry.get(1)), Some(20));
    assert_eq!(tag_of(registry.get(2)), Some(30));
    assert!(registry.get(3).is_none());
    for i in 0..3 {
        let listed = registry.get(i).unwrap();
        assert_eq!(listed.function_name_prefix(), sample().get(i).unwrap().function_name_prefix());
    }
}

static CLASS_READS: AtomicUsize = AtomicUsize::new(0);

struct Counting;

impl Plugin<u32, u32> for Counting {
    fn class_names(&self) -> Option<&'static [&'static str]> {
        CLASS_READS.fetch_add(1, Ordering::SeqCst);
        Some(&["Counted"])
    }

    fn function_name_prefix(&self) -> Option<&'static str> {
        None
    }

    fn hook(&self, _class_name: Option<&str>, _function_name: &str) -> Option<Hooks> {
        None
    }
}

#[test]
fn declarations_are_read_once_when_the_registry_is_built() {
    let registry: Registry<u32, u32> = Registry::new(vec![Box::new(Counting)]);
    assert_eq!(CLASS_READS.load(Ordering::SeqCst), 1);
    for _ in 0..10 {
        assert_eq!(registry.select_index(Some("Counted"), "f"), Some(0));
        assert_eq!(registry.select_index(Some("Other"), "f"), None);
    }
    assert_eq!(CLASS_READS.load(Ordering::SeqCst), 1);
}

static BUILDS: AtomicUsize = AtomicUsize::new(0);

static SHARED: Lazy<Registry<u32, u32>> = Lazy::new(|| {
    BUILDS.fetch_add(1, Ordering::SeqCst);
    sample()
});

#[test]
fn lazy_registry_is_built_once_on_first_use() {
    let first: Option<&'static DynPlugin<u32, u32>> =
        select_plugin(Lazy::force(&SHARED), None, "curl_init");
    assert_eq!(tag_of(first), Some(10));
    assert_eq!(BUILDS.load(Ordering::SeqCst), 1);
    assert_eq!(tag_of(select_plugin(Lazy::force(&SHARED), Some("mysqli"), "query")), Some(30));
    assert_eq!(tag_of(select_plugin(Lazy::force(&SHARED), None, "mysqli_connect")), Some(30));
    assert!(select_plugin(Lazy::force(&SHARED), Some("Redis"), "get").is_none());
    assert_eq!(tag_of(select_plugin(Lazy::force(&SHARED), None, "curl_init")), Some(10));
    assert_eq!(BUILDS.load(Ordering::SeqCst), 1);
}

#[test]
fn lazy_registry_with_a_closure_initializer() {
    let local = Lazy::new(|| Registry::new(vec![plugin(4, Some(&["A"]), None)]));
    assert_eq!(tag_of(select_plugin(Lazy::force(&local), Some("A"), "m")), Some(4));
    assert!(select_plugin(Lazy::force(&local), Some("B"), "m").is_none());
}

fn shareable<T: Send + Sync>() {}

#[test]
fn registry_can_be_shared_between_threads() {
    shareable::<Registry<u32, u32>>();
    shareable::<Lazy<Registry<u32, u32>>>();
    shareable::<&'static DynPlugin<u32, u32>>();
}
