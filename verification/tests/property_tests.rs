use openapi_schemer::bindings::operation::TreeSitterOperationParser;
use openapi_schemer::bindings::path::{PathParser, TreeSitterPathParser};
use openapi_schemer::bindings::schema::{SchemaParser, TreeSitterSchemaParser};
use openapi_schemer::bindings::OperationParser;
use openapi_schemer::content::ContentProviderMap;
use openapi_schemer::error::{OpenapiSchemerError, WalkError};
use openapi_schemer::operation;
use openapi_schemer::path;
use openapi_schemer::schema;

fn provider_of(docs: &[(&str, &str)]) -> ContentProviderMap {
    ContentProviderMap::from_map(
        docs.iter()
            .map(|(k, v)| (k.to_string(), v.to_string()))
            .collect(),
    )
}

#[test]
fn inline_paths_are_exactly_the_keys() {
    let root = "paths:\n  /pets:\n    get:\n      operationId: getPets\n  /stores:\n    get:\n      operationId: getStores\n";
    let parser = TreeSitterPathParser::new(provider_of(&[("#", root)]));
    let nodes = parser.get_path_nodes().unwrap();
    let paths: Vec<String> = nodes.into_iter().map(|n| n.text).collect();
    assert_eq!(paths, vec!["/pets".to_string(), "/stores".to_string()]);
}

#[test]
fn referenced_paths_match_the_inlined_form() {
    let root_ref = "paths:\n  $ref: 'Paths.yaml'\n";
    let paths_doc = "/pets:\n  get:\n    operationId: getPets\n/stores:\n  get:\n    operationId: getStores\n";
    let root_inline = "paths:\n  /pets:\n    get:\n      operationId: getPets\n  /stores:\n    get:\n      operationId: getStores\n";

    let with_ref = TreeSitterPathParser::new(provider_of(&[("#", root_ref), ("Paths.yaml", paths_doc)]));
    let inlined = TreeSitterPathParser::new(provider_of(&[("#", root_inline)]));

    let from_ref: Vec<String> = with_ref
        .get_path_nodes()
        .unwrap()
        .into_iter()
        .map(|n| n.text)
        .collect();
    let from_inline: Vec<String> = inlined
        .get_path_nodes()
        .unwrap()
        .into_iter()
        .map(|n| n.text)
        .collect();
    assert_eq!(from_ref, from_inline);
    assert_eq!(from_ref, vec!["/pets".to_string(), "/stores".to_string()]);
}

#[test]
fn operations_follow_declaration_order() {
    let root = "paths:\n  /pets:\n    get:\n      operationId: getPets\n    post:\n      operationId: postPets\n";
    let parser = TreeSitterOperationParser::new(provider_of(&[("#", root)]));
    let ops: Vec<String> = parser
        .get_operation_nodes()
        .unwrap()
        .into_iter()
        .map(|n| n.text)
        .collect();
    assert_eq!(ops, vec!["getPets".to_string(), "postPets".to_string()]);
}

#[test]
fn schema_bodies_with_internal_refs_are_inert() {
    let root = "components:\n  schemas:\n    Pet:\n      type: object\n    Pets:\n      items:\n        $ref: '#/components/schemas/Pet'\n";
    let parser = TreeSitterSchemaParser::new(provider_of(&[("#", root)]));
    let names: Vec<String> = parser
        .get_schema_nodes()
        .unwrap()
        .into_iter()
        .map(|n| n.text)
        .collect();
    assert_eq!(names, vec!["Pet".to_string(), "Pets".to_string()]);
}

#[test]
fn referenced_operations_match_the_inlined_form() {
    let root = "paths:\n  $ref: 'Paths.yaml'\n";
    let paths_doc = "/pets:\n  get:\n    operationId: listPets\n";
    let inline_root = "paths:\n  /pets:\n    get:\n      operationId: listPets\n";

    let with_ref = TreeSitterOperationParser::new(provider_of(&[("#", root), ("Paths.yaml", paths_doc)]));
    let ops: Vec<String> = with_ref
        .get_operation_nodes()
        .unwrap()
        .into_iter()
        .map(|n| n.text)
        .collect();
    assert_eq!(ops, vec!["listPets".to_string()]);

    let inlined = TreeSitterOperationParser::new(provider_of(&[("#", inline_root)]));
    let inline_ops: Vec<String> = inlined
        .get_operation_nodes()
        .unwrap()
        .into_iter()
        .map(|n| n.text)
        .collect();
    assert_eq!(ops, inline_ops);
}

#[test]
fn missing_components_is_an_error_not_an_empty_list() {
    let root = "paths:\n  /pets:\n    get:\n      operationId: getPets\n";
    let parser = TreeSitterSchemaParser::new(provider_of(&[("#", root)]));
    let err = parser.get_schema_nodes().unwrap_err();
    match err {
        OpenapiSchemerError::SchemaList(WalkError::StructuralKeyMissing(k)) => {
            assert_eq!(k, "components");
        }
        other => panic!("expected a missing structural key, got: {}", other.message()),
    }
}

#[test]
fn walkers_are_idempotent_over_one_snapshot() {
    let root = "paths:\n  /pets:\n    get:\n      operationId: getPets\ncomponents:\n  schemas:\n    Pet:\n      type: object\n";
    let docs = [("#", root)];

    let p1 = path::list(TreeSitterPathParser::new(provider_of(&docs))).unwrap();
    let p2 = path::list(TreeSitterPathParser::new(provider_of(&docs))).unwrap();
    assert_eq!(p1.render(), p2.render());

    let s1 = schema::list(TreeSitterSchemaParser::new(provider_of(&docs))).unwrap();
    let s2 = schema::list(TreeSitterSchemaParser::new(provider_of(&docs))).unwrap();
    assert_eq!(s1.render(), s2.render());

    let o1 = operation::list(root).unwrap();
    let o2 = operation::list(root).unwrap();
    assert_eq!(o1.render(), o2.render());
}

#[test]
fn empty_paths_is_a_valid_empty_list() {
    let parser = TreeSitterPathParser::new(provider_of(&[("#", "paths:\n")]));
    let nodes = parser.get_path_nodes().unwrap();
    assert!(nodes.is_empty());
    let rendered = path::list(TreeSitterPathParser::new(provider_of(&[("#", "paths:\n")])))
        .unwrap()
        .render();
    assert_eq!(rendered, "");
}

#[test]
fn missing_paths_is_an_error() {
    let parser = TreeSitterPathParser::new(provider_of(&[("#", "info:\n  title: x\n")]));
    match parser.get_path_nodes().unwrap_err() {
        OpenapiSchemerError::PathList(WalkError::StructuralKeyMissing(k)) => {
            assert_eq!(k, "paths");
        }
        other => panic!("expected a missing structural key, got: {}", other.message()),
    }
}

#[test]
fn unresolved_reference_is_an_error() {
    let parser = TreeSitterPathParser::new(provider_of(&[("#", "paths:\n  $ref: Missing.yaml\n")]));
    match parser.get_path_nodes().unwrap_err() {
        OpenapiSchemerError::PathList(WalkError::UnresolvedReference(r)) => {
            assert_eq!(r, "Missing.yaml");
        }
        other => panic!("expected an unresolved reference, got: {}", other.message()),
    }
}

#[test]
fn a_reference_to_a_reference_is_an_error() {
    let docs = [
        ("#", "paths:\n  $ref: A.yaml\n"),
        ("A.yaml", "$ref: B.yaml\n"),
        ("B.yaml", "/pets:\n  get:\n    operationId: x\n"),
    ];
    let parser = TreeSitterPathParser::new(provider_of(&docs));
    match parser.get_path_nodes().unwrap_err() {
        OpenapiSchemerError::PathList(WalkError::ReferenceChainViolation(r)) => {
            assert_eq!(r, "B.yaml");
        }
        other => panic!("expected a chain violation, got: {}", other.message()),
    }
}

#[test]
fn a_method_without_operation_id_is_an_error() {
    let root = "paths:\n  /pets:\n    get:\n      summary: nothing here\n";
    let parser = TreeSitterOperationParser::new(provider_of(&[("#", root)]));
    match parser.get_operation_nodes().unwrap_err() {
        OpenapiSchemerError::OperationList(WalkError::StructuralKeyMissing(k)) => {
            assert_eq!(k, "operationId");
        }
        other => panic!("expected a missing structural key, got: {}", other.message()),
    }
}

#[test]
fn a_reference_under_schemas_is_an_error() {
    let root = "components:\n  schemas:\n    $ref: 'Other.yaml'\n";
    let parser = TreeSitterSchemaParser::new(provider_of(&[("#", root)]));
    match parser.get_schema_nodes().unwrap_err() {
        OpenapiSchemerError::SchemaList(WalkError::ReferenceChainViolation(r)) => {
            assert_eq!(r, "Other.yaml");
        }
        other => panic!("expected a chain violation, got: {}", other.message()),
    }
}

#[test]
fn error_messages_name_the_trouble() {
    let e = OpenapiSchemerError::SchemaList(WalkError::StructuralKeyMissing("components".to_string()));
    assert_eq!(e.message(), "missing expected key `components`");
    let e = OpenapiSchemerError::PathList(WalkError::UnresolvedReference("X.yaml".to_string()));
    assert_eq!(e.message(), "document was not pre-loaded: `X.yaml`");
    let e = OpenapiSchemerError::OperationList(WalkError::ReferenceChainViolation("Y.yaml".to_string()));
    assert_eq!(e.message(), "$ref cannot link to another $ref: `Y.yaml`");
}

#[test]
fn render_joins_with_newlines() {
    let lr = path::ListResult::new(vec!["a".to_string(), "b".to_string(), "c".to_string()]);
    assert_eq!(lr.render(), "a\nb\nc");
    let empty = schema::ListResult::new(vec![]);
    assert_eq!(empty.render(), "");
}
