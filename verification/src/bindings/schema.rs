//! The schema walker: the keys under `components` → `schemas`, one reference
//! hop followed at `components`; at `schemas` only inline content is valid.

use vstd::prelude::*;

use crate::bindings::{
    entry_views, find_entry, get_children_by_key, resolved_children, resolved_children_model,
    ChildrenOrRef,
};
use crate::content::{resolve_model, root_marker, ContentProviderMap, ProviderModel};
use crate::error::{ApiErrModel, ErrModel, OpenapiSchemerError, WalkError};
use crate::yaml::{find_entry_pos, lookup_model, EntryModel, LookupModel};

verus! {

/// A schema name extracted from a specification.
#[derive(Clone, Debug)]
pub struct SchemaNode {
    pub text: String,
}

impl View for SchemaNode {
    type V = Seq<char>;

    open spec fn view(&self) -> Seq<char> {
        self.text@
    }
}

/// A source of schema nodes; the library's own parser is
/// `TreeSitterSchemaParser`, users may supply another.
pub trait SchemaParser {
    /// What this parser's walk returns, as a spec-level value: the schema
    /// names in order, or the typed error.
    spec fn walk_model(&self) -> Result<Seq<Seq<char>>, crate::error::ApiErrModel>;

    fn get_schema_nodes(&self) -> (r: Result<Vec<SchemaNode>, OpenapiSchemerError>)
        ensures
            match r {
                Ok(ns) => self.walk_model() == Ok::<Seq<Seq<char>>, crate::error::ApiErrModel>(
                    ns@.map_values(|n: SchemaNode| n@),
                ),
                Err(e) => self.walk_model() == Err::<Seq<Seq<char>>, crate::error::ApiErrModel>(
                    e@,
                ),
            },
    ;
}

/// The schema walker over a pre-loaded content provider.
pub struct TreeSitterSchemaParser {
    provider: ContentProviderMap,
}

/// The whole schema walk: the `schemas` entry among the root document's
/// `components` children carries the schema names as its child keys.
/// `components` may be a reference; `schemas` may not, and anything a schema
/// body itself holds — a same-document `$ref` as much as anything else — is
/// inert text.
pub open spec fn schema_walk_model(m: ProviderModel) -> Result<Seq<Seq<char>>, ErrModel> {
    match resolve_model(m, root_marker()) {
        None => Err(ErrModel::Unresolved(root_marker())),
        Some(root) => match resolved_children_model(m, root, "components"@) {
            Err(e) => Err(e),
            Ok(cs) => {
                let i = find_entry_pos(cs, "schemas"@);
                if i == cs.len() {
                    Err(ErrModel::KeyMissing("schemas"@))
                } else {
                    match lookup_model(cs[i].span, "schemas"@) {
                        LookupModel::Missing => Err(ErrModel::KeyMissing("schemas"@)),
                        LookupModel::Reference(r) => Err(ErrModel::ChainViolation(r)),
                        LookupModel::Children(es) => Ok(es.map_values(|e: EntryModel| e.key)),
                    }
                }
            },
        },
    }
}

impl TreeSitterSchemaParser {
    pub fn new(provider: ContentProviderMap) -> (r: Self)
        ensures
            r.provider_model() == provider@,
    {
        Self { provider }
    }

    pub closed spec fn provider_model(&self) -> ProviderModel {
        self.provider@
    }

    /// The schema names of the specification, in declaration order.
    pub fn schema_nodes(&self) -> (r: Result<Vec<SchemaNode>, OpenapiSchemerError>)
        ensures
            match r {
                Ok(ns) => schema_walk_model(self.provider_model()) == Ok::<Seq<Seq<char>>, ErrModel>(
                    ns@.map_values(|n: SchemaNode| n@),
                ),
                Err(e) => e@ matches ApiErrModel::SchemaList(w) && schema_walk_model(
                    self.provider_model(),
                ) == Err::<Seq<Seq<char>>, ErrModel>(w),
            },
    {
        let root = match self.provider.get_content("#") {
            Some(c) => c,
            None => {
                return Err(
                    OpenapiSchemerError::SchemaList(WalkError::UnresolvedReference("#".to_owned())),
                );
            },
        };
        let cs = match resolved_children(&self.provider, root.as_str(), "components") {
            Err(w) => {
                return Err(OpenapiSchemerError::SchemaList(w));
            },
            Ok(cs) => cs,
        };
        let i = find_entry(&cs, "schemas");
        if i == cs.len() {
            return Err(
                OpenapiSchemerError::SchemaList(
                    WalkError::StructuralKeyMissing("schemas".to_owned()),
                ),
            );
        }
        match get_children_by_key("schemas", cs[i].span.as_str()) {
            Err(w) => Err(OpenapiSchemerError::SchemaList(w)),
            Ok(ChildrenOrRef::Ref(r)) => Err(
                OpenapiSchemerError::SchemaList(WalkError::ReferenceChainViolation(r)),
            ),
            Ok(ChildrenOrRef::Children(es)) => {
                let mut ns: Vec<SchemaNode> = Vec::new();
                let mut j: usize = 0;
                while j < es.len()
                    invariant
                        0 <= j <= es@.len(),
                        ns@.len() == j,
                        forall|p: int| 0 <= p < j ==> (#[trigger] ns@[p])@ == es@[p]@.key,
                    decreases es@.len() - j,
                {
                    ns.push(SchemaNode { text: es[j].key.clone() });
                    j = j + 1;
                }
                proof {
                    assert(ns@.map_values(|n: SchemaNode| n@) =~= entry_views(es@).map_values(
                        |e: EntryModel| e.key,
                    ));
                }
                Ok(ns)
            },
        }
    }
}

impl SchemaParser for TreeSitterSchemaParser {
    open spec fn walk_model(&self) -> Result<Seq<Seq<char>>, ApiErrModel> {
        match schema_walk_model(self.provider_model()) {
            Ok(ns) => Ok(ns),
            Err(w) => Err(ApiErrModel::SchemaList(w)),
        }
    }

    fn get_schema_nodes(&self) -> (r: Result<Vec<SchemaNode>, OpenapiSchemerError>) {
        self.schema_nodes()
    }
}

} // verus!
