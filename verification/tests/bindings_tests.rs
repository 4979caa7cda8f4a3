use std::collections::HashMap;

use openapi_schemer::bindings::key_finder::{KeyFinder, KeyFinderProvider, TreeSitterKeyFinder};
use openapi_schemer::bindings::{find_refs, get_children_by_key, ChildEntry, ChildrenOrRef};

fn entry<'a>(children: &'a [ChildEntry], key: &str) -> &'a ChildEntry {
    children.iter().find(|e| e.key == key).unwrap()
}

#[test]
fn test_find_refs() {
    let content = r#"
openapi: '3.0.0'
info:
  version: 1.0.0
  title: Swagger Petstore
  description: Multi-file boilerplate for OpenAPI Specification.
  license:
    name: MIT
  contact:
    name: API Support
    url: http://www.example.com/support
    email: support@example.com
servers:
  - url: http://petstore.swagger.io/v1
tags:
  - name: pets
paths:
  /pets:
    $ref: 'resources/pets.yaml'
  /pets/{petId}:
    $ref: 'resources/pet.yaml'
                "#;
    let refs = find_refs(content);
    assert_eq!(refs.len(), 2);
    assert!(refs.contains(&String::from("resources/pets.yaml")));
    assert!(refs.contains(&String::from("resources/pet.yaml")));
}

#[test]
fn get_children_by_key_no_ref() {
    let results = get_children_by_key(
        "test",
        r#"
test:
  test1:
    description: yes
  test2:
    description: no"#,
    )
    .unwrap();
    match results {
        ChildrenOrRef::Children(children) => {
            assert!(entry(&children, "test1").span == "test1:\n    description: yes");
            assert!(entry(&children, "test2").span == "test2:\n    description: no");
        }
        ChildrenOrRef::Ref(_) => panic!("Test should have returned Children enum"),
    }
}

#[test]
fn get_children_by_key_ref() {
    let results = get_children_by_key(
        "test",
        r#"
test:
  test1:
    description: yes
  test2:
    description: no
  $ref: '#/fake/ref'"#,
    )
    .unwrap();
    match results {
        ChildrenOrRef::Children(_) => {
            panic!("Test should have returned Ref enum")
        }
        ChildrenOrRef::Ref(r) => {
            assert!(r == "#/fake/ref");
        }
    }
}

#[test]
fn get_children_by_key_child_contains_ref() {
    let results = get_children_by_key(
        "test",
        r#"
test:
  test1:
    description: yes
  test2:
    description: no
  test3:
    $ref: '#/fake/ref'"#,
    )
    .unwrap();
    match results {
        ChildrenOrRef::Children(children) => {
            assert_eq!(entry(&children, "test1").span, "test1:\n    description: yes");
            assert_eq!(entry(&children, "test2").span, "test2:\n    description: no");
            assert_eq!(entry(&children, "test3").span, "test3:\n    $ref: '#/fake/ref'");
        }
        ChildrenOrRef::Ref(_) => panic!("Test should have returned Children enum"),
    }
}

struct MockKeyFinderProvider {
    responses: HashMap<String, &'static str>,
}

impl KeyFinderProvider for MockKeyFinderProvider {
    // Ghost member of the trait; erased at run time and never called.
    fn content_model(&self, _path: vstd::seq::Seq<char>) -> vstd::seq::Seq<char> {
        unreachable!()
    }

    fn get(&self, path: &str) -> String {
        if let Some(content) = self.responses.get(path) {
            content.to_string()
        } else {
            "".to_string()
        }
    }
}

#[test]
fn find_children_for_key() {
    let contents: HashMap<String, &'static str> = HashMap::from([(
        String::new(),
        r#"
components:
  schemas:
    Pets:
      type: array
      items:
        $ref: '#/components/schemas/Pet'
    Pats:
      type: array
      items:
        $ref: '#/components/schemas/Pat'
        "#,
    )]);

    let provider = MockKeyFinderProvider {
        responses: contents,
    };
    let finder = TreeSitterKeyFinder::new(String::new(), provider);
    let children = finder.find_children_for_key("components.schemas");
    assert!(children.is_ok());
}

#[test]
fn find_children_for_key_names_the_schemas() {
    let content = r#"
components:
  schemas:
    Pets:
      type: array
      items:
        $ref: '#/components/schemas/Pet'
    Pats:
      type: array
      items:
        $ref: '#/components/schemas/Pat'
        "#;
    let keys =
        TreeSitterKeyFinder::<MockKeyFinderProvider>::find_children_in(content, "components.schemas")
            .unwrap();
    assert_eq!(keys, vec!["Pets".to_string(), "Pats".to_string()]);
}

#[test]
fn extracted_spans_reparse_unchanged() {
    let results = get_children_by_key(
        "test",
        "test:\n  test1:\n    description: yes\n  test2:\n    description: no\n",
    )
    .unwrap();
    let children = match results {
        ChildrenOrRef::Children(children) => children,
        ChildrenOrRef::Ref(_) => panic!("Test should have returned Children enum"),
    };
    assert_eq!(children.len(), 2);
    for child in &children {
        let reparsed = openapi_schemer::bindings::get_top_level_keys(&child.span);
        assert_eq!(reparsed.len(), 1);
        assert_eq!(reparsed[0].key, child.key);
        assert_eq!(reparsed[0].span, child.span);
    }
}

#[test]
fn find_refs_keeps_document_order_and_strips_quotes() {
    let content = "a:\n  $ref: \"one.yaml\"\nb:\n  $ref: 'two.yaml'\nc:\n  $ref: three.yaml\n";
    let refs = find_refs(content);
    assert_eq!(
        refs,
        vec![
            "one.yaml".to_string(),
            "two.yaml".to_string(),
            "three.yaml".to_string()
        ]
    );
}
