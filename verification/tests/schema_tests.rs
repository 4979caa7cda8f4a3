use openapi_schemer::bindings::schema::{SchemaNode, SchemaParser, TreeSitterSchemaParser};
use openapi_schemer::content::ContentProviderMap;
use openapi_schemer::error::OpenapiSchemerError;
use openapi_schemer::schema::{list, ListResult};

#[test]
fn get_schema_nodes_no_refs() {
    let root_path = "#".to_string();
    let root_content = r#"
components:
  schemas:
    Pet:
      type: object
      properties:
        id:
          type: integer
          format: int64
        name:
          type: string
        tag:
          type: string
    Pets:
      type: array
      items:
        $ref: '#/components/schemas/Pet'
    Error:
      type: object
      properties:
        code:
          type: integer
          format: int32
        message:
          type: string
            "#;
    let contents = vec![(root_path, root_content.to_owned())];
    let provider = ContentProviderMap::from_map(contents);
    let parser = TreeSitterSchemaParser::new(provider);
    let result = parser.get_schema_nodes().unwrap();
    let node_texts: Vec<String> = result.into_iter().map(|node| node.text).collect();
    assert!(
        node_texts.contains(&String::from("Error")),
        "Missing 'Error' from results"
    );
    assert!(
        node_texts.contains(&String::from("Pet")),
        "Missing 'Pet' from results"
    );
    assert!(
        node_texts.contains(&String::from("Pets")),
        "Missing 'Pets' from results"
    );
    assert_eq!(
        node_texts.len(),
        3,
        "Did not receieve expected number of results"
    );
}

#[test]
fn get_schema_nodes_ref_schemas() {
    let root_path = "#".to_string();
    let schemas_path = "Schemas.yaml".to_string();
    let root_content = r#"
components:
  $ref: 'Schemas.yaml'
            "#;
    let schemas_content = r#"
schemas:
  Pet:
    type: object
    properties:
      id:
        type: integer
        format: int64
      name:
        type: string
      tag:
        type: string
  Pets:
    type: array
    items:
      $ref: '#/components/schemas/Pet'
  Error:
    type: object
    properties:
      code:
        type: integer
        format: int32
      message:
        type: string
          "#;
    let contents = vec![
        (root_path, root_content.to_owned()),
        (schemas_path, schemas_content.to_owned()),
    ];
    let provider = ContentProviderMap::from_map(contents);
    let parser = TreeSitterSchemaParser::new(provider);
    let result = parser.get_schema_nodes().unwrap();
    let node_texts: Vec<String> = result.into_iter().map(|node| node.text).collect();
    assert!(
        node_texts.contains(&String::from("Error")),
        "Missing 'Error' from results"
    );
    assert!(
        node_texts.contains(&String::from("Pet")),
        "Missing 'Pet' from results"
    );
    assert!(
        node_texts.contains(&String::from("Pets")),
        "Missing 'Pets' from results"
    );
    assert_eq!(
        node_texts.len(),
        3,
        "Did not receieve expected number of results"
    );
}

struct MockParser {
    nodes: Vec<SchemaNode>,
}

impl MockParser {
    fn new(nodes: Vec<SchemaNode>) -> MockParser {
        MockParser { nodes }
    }
}

impl SchemaParser for MockParser {
    // Ghost member of the trait; erased at run time and never called.
    fn walk_model(
        &self,
    ) -> Result<vstd::seq::Seq<vstd::seq::Seq<char>>, openapi_schemer::error::ApiErrModel> {
        unreachable!()
    }

    fn get_schema_nodes(&self) -> Result<Vec<SchemaNode>, OpenapiSchemerError> {
        Ok(self.nodes.to_vec())
    }
}

#[test]
fn mod_test_list() {
    let parser = MockParser::new(vec![SchemaNode {
        text: "test1".to_string(),
    }]);
    let result = list(parser).unwrap();
    assert_eq!(result, ListResult::new(vec!["test1".to_string()]));
}
