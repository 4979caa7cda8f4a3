//! Listing the path strings of a specification.

use vstd::prelude::*;

use crate::bindings::path::{PathNode, PathParser};
use crate::content::join_strings;
use crate::error::{ApiErrModel, OpenapiSchemerError};
use crate::yaml::{join_with, views_of};

verus! {

/// A display-ready ordered list of extracted path strings.
#[derive(Debug, PartialEq, Eq)]
pub struct ListResult {
    entries: Vec<String>,
}

impl View for ListResult {
    type V = Seq<Seq<char>>;

    closed spec fn view(&self) -> Seq<Seq<char>> {
        views_of(self.entries@)
    }
}

impl ListResult {
    pub fn new(list: Vec<String>) -> (r: ListResult)
        ensures
            r@ == views_of(list@),
    {
        ListResult { entries: list }
    }

    /// The listed entries, in order.
    pub fn entries(&self) -> (r: &Vec<String>)
        ensures
            views_of(r@) == self@,
    {
        &self.entries
    }

    /// The newline-joined rendering of the list.
    pub fn render(&self) -> (r: String)
        ensures
            r@ == join_with(self@, '\n'),
    {
        proof {
            reveal_strlit("\n");
        }
        join_strings(&self.entries, "\n")
    }
}

/// The texts of the given nodes, in order.
pub fn node_texts(nodes: &Vec<PathNode>) -> (r: Vec<String>)
    ensures
        views_of(r@) == nodes@.map_values(|n: PathNode| n@),
{
    let mut r: Vec<String> = Vec::new();
    let mut i: usize = 0;
    while i < nodes.len()
        invariant
            0 <= i <= nodes@.len(),
            r@.len() == i,
            forall|p: int| 0 <= p < i ==> (#[trigger] r@[p])@ == nodes@[p]@,
        decreases nodes@.len() - i,
    {
        r.push(nodes[i].text.clone());
        i = i + 1;
    }
    proof {
        assert(views_of(r@) =~= nodes@.map_values(|n: PathNode| n@));
    }
    r
}

/// Lists the path strings the parser extracts: on success exactly the texts
/// of the parser's nodes, in the parser's order; on failure the parser's own
/// error, unchanged.
pub fn list<T: PathParser>(parser: T) -> (r: Result<ListResult, OpenapiSchemerError>)
    ensures
        match r {
            Ok(lr) => parser.walk_model() == Ok::<Seq<Seq<char>>, ApiErrModel>(lr@),
            Err(e) => parser.walk_model() == Err::<Seq<Seq<char>>, ApiErrModel>(e@),
        },
{
    match parser.get_path_nodes() {
        Ok(nodes) => Ok(ListResult::new(node_texts(&nodes))),
        Err(e) => Err(e),
    }
}

} // verus!
