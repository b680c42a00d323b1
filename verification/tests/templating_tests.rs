use goodweb::templating::{Binding, Scope, ScopeValue, classify_value};
use goodweb::engine::{get_goodweb_component, is_first_char_uppercase, GoodWebComponent};
use goodweb::website_parser::{get_component_extension, ComponentExtension};

fn chars(s: &str) -> Vec<char> {
    s.chars().collect()
}

fn scope_of(pairs: &[(&str, &str)]) -> Scope {
    let mut bindings = Vec::new();
    for (name, value) in pairs {
        bindings.push(Binding {
            name: chars(name),
            value: ScopeValue::Text { text: chars(value) },
        });
    }
    Scope { bindings }
}

#[test]
fn resolve_substitutes_bound_variables() {
    let scope = scope_of(&[("name", "world")]);
    assert_eq!(scope.resolve("hello {{name}}!").unwrap(), "hello world!");
}

#[test]
fn resolve_renders_missing_variables_empty() {
    let scope = Scope::root();
    assert_eq!(scope.resolve("a{{gone}}b").unwrap(), "ab");
}

#[test]
fn resolve_rejects_unterminated_expression() {
    let scope = scope_of(&[("x", "1")]);
    assert!(scope.resolve("{{unterminated").is_none());
    assert!(scope.resolve("a {{x}} then {{oops").is_none());
}

#[test]
fn resolve_leaves_plain_braces_alone() {
    let scope = Scope::root();
    assert_eq!(scope.resolve("a{b}c}}d").unwrap(), "a{b}c}}d");
}

#[test]
fn later_binding_overrides_earlier() {
    let scope = scope_of(&[("v", "old"), ("v", "new")]);
    assert_eq!(scope.resolve("{{v}}").unwrap(), "new");
}

#[test]
fn derive_resolves_siblings_against_parent_only() {
    let parent = scope_of(&[("a", "1")]);
    let attrs = vec![
        goodweb::markup::Attr { name: chars("a"), value: chars("2") },
        goodweb::markup::Attr { name: chars("b"), value: chars("{{a}}") },
    ];
    let child = parent.derive(&attrs).unwrap();
    assert_eq!(child.resolve("{{a}}-{{b}}").unwrap(), "2-1");
}

#[test]
fn derive_propagates_resolution_failure() {
    let parent = Scope::root();
    let attrs = vec![goodweb::markup::Attr { name: chars("a"), value: chars("{{bad") }];
    assert!(parent.derive(&attrs).is_none());
}

#[test]
fn values_classify_as_number_or_text() {
    assert!(matches!(classify_value(chars("42")), ScopeValue::Number { .. }));
    assert!(matches!(classify_value(chars("-3.5")), ScopeValue::Number { .. }));
    assert!(matches!(classify_value(chars("+07.")), ScopeValue::Number { .. }));
    assert!(matches!(classify_value(chars("1.2.3")), ScopeValue::Text { .. }));
    assert!(matches!(classify_value(chars("abc")), ScopeValue::Text { .. }));
    assert!(matches!(classify_value(chars("")), ScopeValue::Text { .. }));
    assert!(matches!(classify_value(chars(".")), ScopeValue::Text { .. }));
}

#[test]
fn uppercase_check_matches_first_character() {
    assert_eq!(is_first_char_uppercase("Box"), Some(true));
    assert_eq!(is_first_char_uppercase("div"), Some(false));
    assert_eq!(is_first_char_uppercase("1x"), Some(false));
    assert_eq!(is_first_char_uppercase(""), None);
}

#[test]
fn control_vocabulary_is_recognized() {
    assert!(matches!(get_goodweb_component("Slot-Inner"), GoodWebComponent::Inner));
    assert!(matches!(get_goodweb_component("Slot-Styles"), GoodWebComponent::Styles));
    assert!(matches!(get_goodweb_component("Slot-Else"), GoodWebComponent::Unknown));
    assert!(matches!(get_goodweb_component("Box"), GoodWebComponent::Unknown));
}

#[test]
fn extensions_map_to_artifact_kinds() {
    assert!(matches!(get_component_extension("html"), ComponentExtension::Xml));
    assert!(matches!(get_component_extension("xml"), ComponentExtension::Xml));
    assert!(matches!(get_component_extension("css"), ComponentExtension::Css));
    assert!(matches!(get_component_extension("txt"), ComponentExtension::Invalid));
}
