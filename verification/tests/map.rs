use eso_addons::addon_map::AddonMap;
use eso_addons::text::{chars_of, concatenate, contains, starts_with};

#[test]
fn addon_map_insert_get_remove() {
    let mut m = AddonMap::new();
    assert_eq!(m.get("A"), None);
    m.insert("A", "1");
    m.insert("B", "2");
    m.insert("A", "3");
    assert_eq!(m.get("A"), Some("3".to_owned()));
    assert_eq!(m.get("B"), Some("2".to_owned()));
    assert_eq!(m.pairs().len(), 2);
    assert!(m.remove("A"));
    assert!(!m.remove("A"));
    assert_eq!(m.get("A"), None);
    assert_eq!(m.get("B"), Some("2".to_owned()));
}

#[test]
fn text_helpers() {
    assert_eq!(chars_of("aé"), vec!['a', 'é']);
    assert!(starts_with("LibStub", "Lib"));
    assert!(!starts_with("Li", "Lib"));
    assert!(starts_with("x", ""));
    assert!(contains("abcabd", "abd"));
    assert!(!contains("abcab", "abd"));
    assert!(contains("", ""));
    assert_eq!(concatenate("ab", "cd"), "abcd");
}
