use std::collections::HashSet;
use std::iter::FromIterator;

use ruml::parser::{has_dependencies, make_dependencies as dependency_entity};
use ruml::types::{dependency_tokens, make_dependencies, remove_spaces};
use ruml::{EntityType, Visibility};

#[test]
fn test_make_dependencies() {
    let ty = "String";
    let expected: HashSet<String> = HashSet::from_iter(vec!["String".to_string()]);
    let got: HashSet<String> = HashSet::from_iter(make_dependencies(ty));
    assert_eq!(got, expected);

    let ty = "HashSet<String>";
    let expected: HashSet<String> =
        HashSet::from_iter(vec!["HashSet".to_string(), "String".to_string()]);
    let got: HashSet<String> = HashSet::from_iter(make_dependencies(ty));
    assert_eq!(got, expected);

    let ty = "HashMap<Id, String>";
    let expected: HashSet<String> = HashSet::from_iter(vec![
        "HashMap".to_string(),
        "Id".to_string(),
        "String".to_string(),
    ]);
    let got: HashSet<String> = HashSet::from_iter(make_dependencies(ty));
    assert_eq!(got, expected);
}

#[test]
fn tokens_in_order_of_occurrence() {
    assert_eq!(dependency_tokens("String"), vec!["String".to_string()]);
    assert_eq!(dependency_tokens("HashSet<String>"), vec!["HashSet".to_string(), "String".to_string()]);
    assert_eq!(
        dependency_tokens("HashMap<Id,String>"),
        vec!["HashMap".to_string(), "Id".to_string(), "String".to_string()]
    );
}

#[test]
fn nested_generics_decompose_flat() {
    assert_eq!(
        dependency_tokens("Outer<Inner<A,B>,C>"),
        vec!["Outer", "Inner", "A", "B", "C"].into_iter().map(|s| s.to_string()).collect::<Vec<_>>()
    );
}

#[test]
fn tokens_lose_their_spaces() {
    assert_eq!(dependency_tokens("HashMap<Id, String>"), vec!["HashMap".to_string(), "Id".to_string(), "String".to_string()]);
    assert_eq!(dependency_tokens(""), Vec::<String>::new());
    assert_eq!(dependency_tokens("<>,"), Vec::<String>::new());
}

#[test]
fn decomposing_twice_gives_the_same_tokens() {
    let s = "Map<Id,List<String>>";
    assert_eq!(dependency_tokens(s), dependency_tokens(s));
    assert_eq!(make_dependencies(s), make_dependencies(s));
}

#[test]
fn dependencies_are_distinct_in_first_occurrence_order() {
    assert_eq!(
        make_dependencies("Map<Id,Map<Id,String>>"),
        vec!["Map".to_string(), "Id".to_string(), "String".to_string()]
    );
    assert_eq!(make_dependencies(""), Vec::<String>::new());
    assert_eq!(
        make_dependencies("Outer<Inner<A,B>,C>"),
        vec!["Outer", "Inner", "A", "B", "C"].into_iter().map(|s| s.to_string()).collect::<Vec<_>>()
    );
    let got: HashSet<String> = HashSet::from_iter(make_dependencies("HashMap<Id,String>"));
    let expected: HashSet<String> =
        HashSet::from_iter(vec!["HashMap".to_string(), "Id".to_string(), "String".to_string()]);
    assert_eq!(got, expected);
}

#[test]
fn dependency_gate() {
    assert!(!has_dependencies("String"));
    assert!(!has_dependencies("my_type_2"));
    assert!(!has_dependencies(""));
    assert!(has_dependencies("Vec<u8>"));
    assert!(has_dependencies("a,b"));
    assert!(has_dependencies(">"));
}

#[test]
fn removes_every_space() {
    assert_eq!(remove_spaces("Vec < Option < u8 > >"), "Vec<Option<u8>>".to_string());
    assert_eq!(remove_spaces("& 'a str"), "&'astr".to_string());
}

#[test]
fn dependency_entity_lists_the_tokens() {
    let e = dependency_entity("HashMap<Id,String>");
    assert_eq!(e.entity_type, EntityType::Struct);
    assert_eq!(e.name, "HashMap<Id,String>");
    assert_eq!(e.visibility, Visibility::Private);
    let names: Vec<&str> = e.fields.iter().map(|f| f.name.as_str()).collect();
    assert_eq!(names, vec!["HashMap", "Id", "String"]);
    for f in &e.fields {
        assert_eq!(f.entity_type, EntityType::Field(String::new()));
        assert!(f.fields.is_empty());
    }
}
