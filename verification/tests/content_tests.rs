use openapi_schemer::content::{external_ref_paths, ContentProviderMap};

#[test]
fn no_external_refs() {
    let content = r#"
components:
  schemas:
    Pet:
      type: object
      required:
        - id
        - name
      properties:
        id:
          type: integer
          format: int64
        name:
          type: string
        tag:
          type: string
    Pets:
      type: array
      items:
        $ref: '#/components/schemas/Pet'
    Error:
      type: object
      required:
        - code
        - message
      properties:
        code:
          type: integer
          format: int32
        message:
          type: string
                "#;
    let fully_qualified_path = "/test/test.yaml".to_string();
    let short_root_path = "#".to_string();
    assert!(external_ref_paths(&fully_qualified_path, content).is_empty());
    let provider =
        ContentProviderMap::from_open_api_yaml(fully_qualified_path.clone(), content.to_string(), vec![]);
    assert_eq!(provider.paths().len(), 2);
    assert!(provider.paths().contains(&fully_qualified_path));
    assert!(provider.paths().contains(&short_root_path));
    assert_eq!(
        provider.get_content(&fully_qualified_path),
        Some(content.to_string())
    );
    assert_eq!(
        provider.get_content(&short_root_path),
        Some(content.to_string())
    );
}

#[test]
fn external_refs() {
    let root_content = r#"
openapi: '3.0.0'
info:
  version: 1.0.0
  title: Swagger Petstore
  description: Multi-file boilerplate for OpenAPI Specification.
  license:
    name: MIT
  contact:
    name: API Support
    url: http://www.example.com/support
    email: support@example.com
servers:
  - url: http://petstore.swagger.io/v1
tags:
  - name: pets
paths:
  /pets:
    $ref: 'resources/pets.yaml'
  /pets/{petId}:
    $ref: 'resources/pet.yaml'
                "#
    .to_owned();
    let pets_content = r#"
# resources/pets.yaml
          "#
    .to_owned();
    let pet_content = r#"
# resources/pet.yaml
          "#
    .to_owned();
    let root_path = "/test/test.yaml".to_string();
    let short_root_path = "#".to_string();
    let pets_path = "/test/resources/pets.yaml".to_string();
    let pet_path = "/test/resources/pet.yaml".to_string();

    let discovered = external_ref_paths(&root_path, &root_content);
    assert_eq!(discovered, vec![pets_path.clone(), pet_path.clone()]);

    let ref_docs = vec![
        (pets_path.clone(), pets_content.clone()),
        (pet_path.clone(), pet_content.clone()),
    ];
    let provider = ContentProviderMap::from_open_api_yaml(root_path.clone(), root_content.clone(), ref_docs);
    assert_eq!(provider.paths().len(), 4);
    assert!(provider.paths().contains(&root_path));
    assert!(provider.paths().contains(&short_root_path));
    assert!(provider.paths().contains(&pets_path));
    assert!(provider.paths().contains(&pet_path));
    assert_eq!(provider.get_content(&root_path), Some(root_content));
    assert_eq!(provider.get_content(&pets_path), Some(pets_content));
    assert_eq!(provider.get_content(&pet_path), Some(pet_content));
}

#[test]
fn relative_references_normalize_against_the_root_directory() {
    let root_content = "paths:\n  /a:\n    $ref: '../shared/a.yaml'\n  /b:\n    $ref: './b.yaml'\n";
    let discovered = external_ref_paths("/spec/v1/root.yaml", root_content);
    assert_eq!(
        discovered,
        vec!["/spec/shared/a.yaml".to_string(), "/spec/v1/b.yaml".to_string()]
    );
}

#[test]
fn same_document_fragments_are_not_discovered() {
    let root_content = "components:\n  schemas:\n    Pets:\n      items:\n        $ref: '#/components/schemas/Pet'\n";
    assert!(external_ref_paths("/spec/root.yaml", root_content).is_empty());
}

#[test]
fn missing_documents_resolve_to_nothing() {
    let provider = ContentProviderMap::from_map(vec![("#".to_string(), "a: 1\n".to_string())]);
    assert_eq!(provider.get_content("Missing.yaml"), None);
    let empty = ContentProviderMap::new();
    assert_eq!(empty.get_content("#"), None);
}
