use openapi_schemer::bindings::path::{PathNode, PathParser, TreeSitterPathParser};
use openapi_schemer::content::ContentProviderMap;
use openapi_schemer::error::OpenapiSchemerError;
use openapi_schemer::path::{list, ListResult};

#[test]
fn get_path_nodes_no_ref() {
    let root_path = "#".to_string();
    let root_content = r#"
paths:
  /pets:
    get:
      summary: List all pets
      operationId: getPets
  /pets/{petId}:
    get:
      summary: Info for a specific pet
      operationId: showPetById
"#;
    let contents = vec![(root_path, root_content.to_owned())];
    let provider = ContentProviderMap::from_map(contents);
    let parser = TreeSitterPathParser::new(provider);
    let nodes = parser.get_path_nodes().unwrap();
    let paths: Vec<String> = nodes.into_iter().map(|node| node.text).collect();
    assert_eq!(paths.len(), 2);
    assert!(paths.contains(&String::from("/pets")));
    assert!(paths.contains(&String::from("/pets/{petId}")));
}

#[test]
fn get_path_nodes_ref() {
    let root_path = "#".to_string();
    let paths_path = "Paths.yaml".to_string();

    let root_content = r#"
paths:
  $ref: 'Paths.yaml'
"#;
    let paths_content = r#"
/pets:
  get:
    summary: List all pets
    operationId: getPets
/pets/{petId}:
  get:
    summary: Info for a specific pet
    operationId: showPetById
"#;
    let contents = vec![
        (root_path, root_content.to_owned()),
        (paths_path, paths_content.to_owned()),
    ];
    let provider = ContentProviderMap::from_map(contents);
    let parser = TreeSitterPathParser::new(provider);
    let nodes = parser.get_path_nodes().unwrap();
    let paths: Vec<String> = nodes.into_iter().map(|node| node.text).collect();
    assert_eq!(paths.len(), 2);
    assert!(paths.contains(&String::from("/pets")));
    assert!(paths.contains(&String::from("/pets/{petId}")));
}

struct MockParser {
    nodes: Vec<PathNode>,
}

impl MockParser {
    fn new(nodes: Vec<PathNode>) -> MockParser {
        MockParser { nodes }
    }
}

impl PathParser for MockParser {
    // Ghost member of the trait; erased at run time and never called.
    fn walk_model(
        &self,
    ) -> Result<vstd::seq::Seq<vstd::seq::Seq<char>>, openapi_schemer::error::ApiErrModel> {
        unreachable!()
    }

    fn get_path_nodes(&self) -> Result<Vec<PathNode>, OpenapiSchemerError> {
        Ok(self.nodes.to_vec())
    }
}

#[test]
fn path_mod_test_list() {
    let parser = MockParser::new(vec![PathNode {
        text: "test1".to_string(),
    }]);
    let result = list(parser).unwrap();
    assert_eq!(result, ListResult::new(vec!["test1".to_string()]));
}
