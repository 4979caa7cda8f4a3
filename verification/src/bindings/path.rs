//! The path walker: the keys under `paths`, one reference hop followed.

use vstd::prelude::*;

use crate::bindings::{resolved_children, resolved_children_model};
use crate::content::{resolve_model, root_marker, ContentProviderMap, ProviderModel};
use crate::error::{ApiErrModel, ErrModel, OpenapiSchemerError, WalkError};
use crate::yaml::EntryModel;

verus! {

/// A path string extracted from a specification.
#[derive(Clone, Debug)]
pub struct PathNode {
    pub text: String,
}

impl View for PathNode {
    type V = Seq<char>;

    open spec fn view(&self) -> Seq<char> {
        self.text@
    }
}

/// A source of path nodes; the library's own parser is
/// `TreeSitterPathParser`, users may supply another.
pub trait PathParser {
    /// What this parser's walk returns, as a spec-level value: the path
    /// strings in order, or the typed error.
    spec fn walk_model(&self) -> Result<Seq<Seq<char>>, crate::error::ApiErrModel>;

    fn get_path_nodes(&self) -> (r: Result<Vec<PathNode>, OpenapiSchemerError>)
        ensures
            match r {
                Ok(ns) => self.walk_model() == Ok::<Seq<Seq<char>>, crate::error::ApiErrModel>(
                    ns@.map_values(|n: PathNode| n@),
                ),
                Err(e) => self.walk_model() == Err::<Seq<Seq<char>>, crate::error::ApiErrModel>(
                    e@,
                ),
            },
    ;
}

/// The path walker over a pre-loaded content provider.
pub struct TreeSitterPathParser {
    provider: ContentProviderMap,
}

/// The whole path walk: the root document's `paths` children — through one
/// reference hop if `paths` is a `$ref` — whose keys, verbatim and in
/// declaration order, are the path strings.
pub open spec fn path_walk_model(m: ProviderModel) -> Result<Seq<Seq<char>>, ErrModel> {
    match resolve_model(m, root_marker()) {
        None => Err(ErrModel::Unresolved(root_marker())),
        Some(root) => match resolved_children_model(m, root, "paths"@) {
            Err(e) => Err(e),
            Ok(es) => Ok(es.map_values(|e: EntryModel| e.key)),
        },
    }
}

impl TreeSitterPathParser {
    pub fn new(provider: ContentProviderMap) -> (r: Self)
        ensures
            r.provider_model() == provider@,
    {
        Self { provider }
    }

    pub closed spec fn provider_model(&self) -> ProviderModel {
        self.provider@
    }

    /// The path strings of the specification, in declaration order.
    pub fn path_nodes(&self) -> (r: Result<Vec<PathNode>, OpenapiSchemerError>)
        ensures
            match r {
                Ok(ns) => path_walk_model(self.provider_model()) == Ok::<Seq<Seq<char>>, ErrModel>(
                    ns@.map_values(|n: PathNode| n@),
                ),
                Err(e) => e@ matches ApiErrModel::PathList(w) && path_walk_model(
                    self.provider_model(),
                ) == Err::<Seq<Seq<char>>, ErrModel>(w),
            },
    {
        let root = match self.provider.get_content("#") {
            Some(c) => c,
            None => {
                return Err(
                    OpenapiSchemerError::PathList(WalkError::UnresolvedReference("#".to_owned())),
                );
            },
        };
        match resolved_children(&self.provider, root.as_str(), "paths") {
            Err(w) => Err(OpenapiSchemerError::PathList(w)),
            Ok(es) => {
                let mut ns: Vec<PathNode> = Vec::new();
                let mut i: usize = 0;
                while i < es.len()
                    invariant
                        0 <= i <= es@.len(),
                        ns@.len() == i,
                        forall|p: int|
                            0 <= p < i ==> (#[trigger] ns@[p])@ == es@[p]@.key,
                    decreases es@.len() - i,
                {
                    ns.push(PathNode { text: es[i].key.clone() });
                    i = i + 1;
                }
                proof {
                    assert(ns@.map_values(|n: PathNode| n@) =~= crate::bindings::entry_views(
                        es@,
                    ).map_values(|e: EntryModel| e.key));
                }
                Ok(ns)
            },
        }
    }
}

impl PathParser for TreeSitterPathParser {
    open spec fn walk_model(&self) -> Result<Seq<Seq<char>>, ApiErrModel> {
        match path_walk_model(self.provider_model()) {
            Ok(ps) => Ok(ps),
            Err(w) => Err(ApiErrModel::PathList(w)),
        }
    }

    fn get_path_nodes(&self) -> (r: Result<Vec<PathNode>, OpenapiSchemerError>) {
        self.path_nodes()
    }
}

} // verus!
