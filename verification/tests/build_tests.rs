use goodweb::page_builder::{build_page, page_css, ComponentStore};
use goodweb::engine::Warning;

fn store_with(defs: &[(&str, &str)]) -> ComponentStore {
    let mut store = ComponentStore::new();
    for (name, markup) in defs {
        store.store_xml(name.to_string(), markup.to_string()).unwrap();
    }
    store
}

fn build(page_markup: &str, components: &ComponentStore) -> Option<goodweb::page_builder::BuildResult> {
    let mut pages = ComponentStore::new();
    pages.store_xml("index".to_string(), page_markup.to_string()).unwrap();
    let page = pages.find_component("index").unwrap();
    build_page(page, components)
}

#[test]
fn slot_forwarding_round_trip() {
    let store = store_with(&[("Box", "<div><Slot-Inner/></div>")]);
    let result = build("<Box>hello</Box>", &store).unwrap();
    assert_eq!(result.xml().as_str(), "<div>hello</div>");
}

#[test]
fn nested_forwarding_reaches_outermost_content() {
    let store = store_with(&[
        ("A", "<B><Slot-Inner/></B>"),
        ("B", "<span><Slot-Inner/></span>"),
    ]);
    let result = build("<A>world</A>", &store).unwrap();
    assert_eq!(result.xml().as_str(), "<span>world</span>");
}

#[test]
fn scope_isolation_between_invocations() {
    let store = store_with(&[("Greet", "<p>{{name}}</p>")]);
    let result = build(
        "<html><Greet name=\"alice\"/><Greet name=\"bob\"/></html>",
        &store,
    )
    .unwrap();
    assert_eq!(result.xml().as_str(), "<html><p>alice</p><p>bob</p></html>");
}

#[test]
fn unknown_component_warns_and_continues() {
    let store = ComponentStore::new();
    let result = build("<html><Missing/></html>", &store).unwrap();
    assert_eq!(result.xml().as_str(), "<html></html>");
    assert_eq!(result.warnings().len(), 1);
    match &result.warnings()[0] {
        Warning::MissingComponent { name } => {
            let expected: Vec<char> = "Missing".chars().collect();
            assert_eq!(name, &expected);
        }
        _ => panic!("expected a missing-component warning"),
    }
}

#[test]
fn malformed_expression_aborts_only_that_page() {
    let store = ComponentStore::new();
    assert!(build("<p>{{unterminated</p>", &store).is_none());
    let other = build("<p>fine</p>", &store).unwrap();
    assert_eq!(other.xml().as_str(), "<p>fine</p>");
}

#[test]
fn malformed_attribute_expression_aborts_page() {
    let store = ComponentStore::new();
    assert!(build("<p class=\"{{bad\">x</p>", &store).is_none());
}

#[test]
fn plain_page_is_trimmed_and_resolved() {
    let store = ComponentStore::new();
    let result = build("<div a=\"b\">  hi there  </div>", &store).unwrap();
    assert_eq!(result.xml().as_str(), "<div a=\"b\">hi there</div>");
}

#[test]
fn plain_page_ignores_registry_contents() {
    let empty = ComponentStore::new();
    let full = store_with(&[("Box", "<div><Slot-Inner/></div>")]);
    let a = build("<p>same</p>", &empty).unwrap();
    let b = build("<p>same</p>", &full).unwrap();
    assert_eq!(a.xml(), b.xml());
}

#[test]
fn element_without_children_self_closes() {
    let store = ComponentStore::new();
    let result = build("<html><br/><hr/></html>", &store).unwrap();
    assert_eq!(result.xml().as_str(), "<html><br/><hr/></html>");
}

#[test]
fn text_is_escaped_back_to_source_form() {
    let store = ComponentStore::new();
    let result = build("<p>a &amp; b</p>", &store).unwrap();
    assert_eq!(result.xml().as_str(), "<p>a &amp; b</p>");
}

#[test]
fn comments_and_instructions_vanish() {
    let store = ComponentStore::new();
    let result = build("<div><!-- note -->kept</div>", &store).unwrap();
    assert_eq!(result.xml().as_str(), "<div>kept</div>");
}

#[test]
fn style_marker_is_ignored_in_markup() {
    let store = store_with(&[("Box", "<div><Slot-Styles/>body</div>")]);
    let result = build("<Box/>", &store).unwrap();
    assert_eq!(result.xml().as_str(), "<div>body</div>");
    assert!(result.warnings().is_empty());
}

#[test]
fn empty_slot_warns_and_skips() {
    let store = ComponentStore::new();
    let result = build("<div><Slot-Inner/></div>", &store).unwrap();
    assert_eq!(result.xml().as_str(), "<div></div>");
    assert!(matches!(result.warnings()[0], Warning::EmptySlot));
}

#[test]
fn unknown_control_name_warns_and_skips() {
    let store = ComponentStore::new();
    let result = build("<div><Slot-Bogus/></div>", &store).unwrap();
    assert_eq!(result.xml().as_str(), "<div></div>");
    match &result.warnings()[0] {
        Warning::UnknownControl { name } => {
            let expected: Vec<char> = "Slot-Bogus".chars().collect();
            assert_eq!(name, &expected);
        }
        _ => panic!("expected an unknown-control warning"),
    }
}

#[test]
fn self_referential_component_fails_the_page() {
    let store = store_with(&[("Loop", "<p><Loop/></p>")]);
    assert!(build("<Loop/>", &store).is_none());
}

#[test]
fn used_components_recorded_in_first_use_order_without_duplicates() {
    let mut store = store_with(&[
        ("One", "<i>1</i>"),
        ("Two", "<b>2</b>"),
    ]);
    store.store_css("One".to_string(), ".one{}".to_string()).unwrap();
    store.store_css("Two".to_string(), ".two{}".to_string()).unwrap();
    let result = build("<html><Two/><One/><Two/></html>", &store).unwrap();
    let two = store.find_component("Two").unwrap().id();
    let one = store.find_component("One").unwrap().id();
    assert_eq!(result.components_used(), &vec![two, one]);
    let css = page_css(&store, result.components_used());
    assert_eq!(css.as_str(), ".two{}.one{}");
}

#[test]
fn unused_component_css_stays_out_of_output() {
    let mut store = store_with(&[("Used", "<i>u</i>"), ("Unused", "<i>n</i>")]);
    store.store_css("Used".to_string(), ".used{}".to_string()).unwrap();
    store
        .store_css("Unused".to_string(), ".unused{}".to_string())
        .unwrap();
    let result = build("<html><Used/></html>", &store).unwrap();
    let css = page_css(&store, result.components_used());
    assert_eq!(css.as_str(), ".used{}");
    assert!(!css.contains("unused"));
}

#[test]
fn rebuilding_unchanged_sources_is_byte_identical() {
    let mut outputs: Vec<(String, String)> = Vec::new();
    for _ in 0..2 {
        let mut store = store_with(&[("Card", "<div class=\"card\"><Slot-Inner/></div>")]);
        store.store_css("Card".to_string(), ".card{margin:0}".to_string()).unwrap();
        let result = build("<html><Card>text</Card></html>", &store).unwrap();
        let css = page_css(&store, result.components_used());
        outputs.push((result.xml().clone(), css));
    }
    assert_eq!(outputs[0], outputs[1]);
}

#[test]
fn component_attributes_resolve_against_invocation_scope() {
    let store = store_with(&[
        ("Outer", "<Inner label=\"{{title}}\"/>"),
        ("Inner", "<p>{{label}}</p>"),
    ]);
    let result = build("<Outer title=\"greetings\"/>", &store).unwrap();
    assert_eq!(result.xml().as_str(), "<p>greetings</p>");
}

#[test]
fn missing_variable_renders_empty() {
    let store = ComponentStore::new();
    let result = build("<p>[{{absent}}]</p>", &store).unwrap();
    assert_eq!(result.xml().as_str(), "<p>[]</p>");
}

#[test]
fn second_marker_without_pending_content_warns() {
    let store = store_with(&[("Box2", "<div><Slot-Inner/><Slot-Inner/></div>")]);
    let result = build("<Box2>x</Box2>", &store).unwrap();
    assert_eq!(result.xml().as_str(), "<div>x</div>");
    assert!(matches!(result.warnings()[0], Warning::EmptySlot));
}

#[test]
fn non_ascii_text_passes_through() {
    let store = ComponentStore::new();
    let result = build("<p>héllo wörld</p>", &store).unwrap();
    assert_eq!(result.xml().as_str(), "<p>héllo wörld</p>");
}

#[test]
fn page_without_markup_fails_to_build() {
    let mut pages = ComponentStore::new();
    pages.store_css("index".to_string(), "p{}".to_string()).unwrap();
    let page = pages.find_component("index").unwrap();
    assert!(build_page(page, &ComponentStore::new()).is_none());
}

#[test]
fn component_without_markup_warns_when_invoked() {
    let mut store = ComponentStore::new();
    store.store_css("Ghost".to_string(), ".g{}".to_string()).unwrap();
    let result = build("<p><Ghost/></p>", &store).unwrap();
    assert_eq!(result.xml().as_str(), "<p></p>");
    assert!(matches!(result.warnings()[0], Warning::MissingComponent { .. }));
    assert!(result.components_used().is_empty());
}

#[test]
fn attribute_values_are_escaped() {
    let store = ComponentStore::new();
    let result = build("<p title=\"a &quot;b&quot;\">x</p>", &store).unwrap();
    assert_eq!(result.xml().as_str(), "<p title=\"a &quot;b&quot;\">x</p>");
}
