use openapi_schemer::bindings::operation::TreeSitterOperationParser;
use openapi_schemer::bindings::OperationParser;
use openapi_schemer::content::ContentProviderMap;
use openapi_schemer::operation::list;

#[test]
fn get_operation_nodes() {
    let root_path = "#".to_string();
    let root_content = r#"
paths:
  /pets:
    get:
      summary: List all pets
      operationId: listPets
    post:
      summary: Create a pet
      operationId: createPets
            "#;
    let contents = vec![(root_path, root_content.to_owned())];
    let provider = ContentProviderMap::from_map(contents);
    let parser = TreeSitterOperationParser::new(provider);
    let nodes = parser.get_operation_nodes().unwrap();
    let operation_ids: Vec<String> = nodes.into_iter().map(|node| node.text).collect();
    assert!(operation_ids.contains(&String::from("listPets")));
    assert!(operation_ids.contains(&String::from("createPets")));
}

#[test]
fn get_operation_nodes_with_ref() {
    let root_path = "#".to_string();
    let paths_path = "Paths.yaml".to_string();

    let root_content = r#"
paths:
  $ref: Paths.yaml
            "#;

    let paths_content = r#"
# Paths.yaml
/pets:
    get:
      summary: List all pets
      operationId: listPets
    post:
      summary: Create a pet
      operationId: createPets
            "#;
    let contents = vec![
        (root_path, root_content.to_owned()),
        (paths_path, paths_content.to_owned()),
    ];
    let provider = ContentProviderMap::from_map(contents);
    let parser = TreeSitterOperationParser::new(provider);
    let nodes = parser.get_operation_nodes().unwrap();
    let operation_ids: Vec<String> = nodes.into_iter().map(|node| node.text).collect();
    assert!(operation_ids.contains(&String::from("listPets")));
    assert!(operation_ids.contains(&String::from("createPets")));
}

#[test]
fn get_operation_nodes_with_ref_operations() {
    let root_path = "#".to_string();
    let paths_path = "Paths.yaml".to_string();
    let pets_get_path = "paths/pets/get.yaml".to_string();
    let pets_post_path = "paths/pets/post.yaml".to_string();

    let root_content = r#"
paths:
  $ref: Paths.yaml
            "#;

    let paths_content = r#"
# Paths.yaml
/pets:
    get:
      $ref: paths/pets/get.yaml
    post:
      $ref: paths/pets/post.yaml
            "#;
    let pets_get_content = r#"
# get.yaml
summary: List all pets
operationId: listPets
            "#;
    let pets_post_content = r#"
# post.yaml
summary: Create a pet
operationId: createPets
            "#;
    let contents = vec![
        (root_path, root_content.to_owned()),
        (paths_path, paths_content.to_owned()),
        (pets_get_path, pets_get_content.to_owned()),
        (pets_post_path, pets_post_content.to_owned()),
    ];

    let provider = ContentProviderMap::from_map(contents);
    let parser = TreeSitterOperationParser::new(provider);
    let nodes = parser.get_operation_nodes().unwrap();
    let operation_ids: Vec<String> = nodes.into_iter().map(|node| node.text).collect();
    assert!(operation_ids.contains(&String::from("listPets")));
    assert!(operation_ids.contains(&String::from("createPets")));
}

#[test]
fn test_list() {
    let contents = r#"
paths:
  /pets:
    delete:
      operationId: deletePets
    get:
      summary: List all pets
      operationId: getPets
    post:
      summary: Create a pet
      operationId: postPets
    trace:
      operationId: tracePets
    options:
      operationId: optionsPets
    put:
      operationId: putPets
    head:
      operationId: headPets
    connect:
      operationId: connectPets

  /pets/{petId}:
    get:
      summary: Info for a specific pet
      operationId: showPetById

            "#;
    let result = list(contents).unwrap();
    let expected: Vec<String> = vec![
        "deletePets",
        "getPets",
        "postPets",
        "tracePets",
        "optionsPets",
        "putPets",
        "headPets",
        "connectPets",
        "showPetById",
    ]
    .into_iter()
    .map(String::from)
    .collect();
    assert_eq!(
        expected,
        *result.entries(),
        "Returned operations did not match expected operations"
    );
}
