use goodweb::page_builder::ComponentStore;

#[test]
fn one_id_for_markup_then_stylesheet() {
    let mut store = ComponentStore::new();
    store.store_xml("box".to_string(), "<div/>".to_string()).unwrap();
    store.store_css("box".to_string(), ".box{}".to_string()).unwrap();
    let c = store.find_component("box").unwrap();
    assert_eq!(c.id(), 0);
    assert_eq!(c.css_data().as_str(), ".box{}");
}

#[test]
fn one_id_for_stylesheet_then_markup() {
    let mut store = ComponentStore::new();
    store.store_css("box".to_string(), ".box{}".to_string()).unwrap();
    store.store_xml("box".to_string(), "<div/>".to_string()).unwrap();
    let c = store.find_component("box").unwrap();
    assert_eq!(c.id(), 0);
    assert_eq!(c.css_data().as_str(), ".box{}");
    assert!(store.find_component_by_id(1).is_none());
}

#[test]
fn distinct_names_get_distinct_ids_in_order() {
    let mut store = ComponentStore::new();
    store.store_xml("first".to_string(), "<a/>".to_string()).unwrap();
    store.store_xml("second".to_string(), "<b/>".to_string()).unwrap();
    assert_eq!(store.find_component("first").unwrap().id(), 0);
    assert_eq!(store.find_component("second").unwrap().id(), 1);
}

#[test]
fn malformed_markup_is_rejected_and_not_stored() {
    let mut store = ComponentStore::new();
    assert!(store.store_xml("bad".to_string(), "<unclosed".to_string()).is_err());
    assert!(store.find_component("bad").is_none());
    store.store_xml("good".to_string(), "<ok/>".to_string()).unwrap();
    assert_eq!(store.find_component("good").unwrap().id(), 0);
}

#[test]
fn lookup_by_id_finds_the_owner() {
    let mut store = ComponentStore::new();
    store.store_xml("alpha".to_string(), "<a/>".to_string()).unwrap();
    store.store_xml("beta".to_string(), "<b/>".to_string()).unwrap();
    let beta = store.find_component_by_id(1).unwrap();
    assert_eq!(beta.id(), 1);
    assert!(store.find_component_by_id(7).is_none());
    assert!(store.find_component_by_id(-1).is_none());
}

#[test]
fn lookup_is_case_sensitive_and_exact() {
    let mut store = ComponentStore::new();
    store.store_xml("Box".to_string(), "<div/>".to_string()).unwrap();
    assert!(store.find_component("box").is_none());
    assert!(store.find_component("Box").is_some());
}

#[test]
fn stylesheet_overwrites_keep_the_id() {
    let mut store = ComponentStore::new();
    store.store_css("nav".to_string(), "old".to_string()).unwrap();
    store.store_css("nav".to_string(), "new".to_string()).unwrap();
    let c = store.find_component("nav").unwrap();
    assert_eq!(c.id(), 0);
    assert_eq!(c.css_data().as_str(), "new");
}
