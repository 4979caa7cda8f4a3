//! The operation walker: for every path, for every method under it, the
//! value of the method's `operationId` entry, references followed one hop at
//! each level.

use vstd::prelude::*;

use crate::bindings::{
    entry_views, find_entry, resolved_children, resolved_children_model, ChildEntry,
    ChildrenOrRef, OperationNode, OperationParser,
};
use crate::content::{resolve_model, root_marker, ContentProviderMap, ProviderModel};
use crate::error::{ApiErrModel, ErrModel, OpenapiSchemerError, WalkError};
use crate::yaml::{find_entry_pos, EntryModel};

verus! {

/// The operation identifiers contributed by the methods of one path, from
/// method position `j` on: each method's children must carry
/// `operationId`, whose scalar value is the identifier.
pub open spec fn ops_for_methods(
    m: ProviderModel,
    methods: Seq<EntryModel>,
    j: int,
) -> Result<Seq<Seq<char>>, ErrModel>
    decreases methods.len() - j,
{
    if j < 0 || j >= methods.len() {
        Ok(Seq::<Seq<char>>::empty())
    } else {
        match resolved_children_model(m, methods[j].span, methods[j].key) {
            Err(e) => Err(e),
            Ok(cs) => {
                let k = find_entry_pos(cs, "operationId"@);
                if k == cs.len() {
                    Err(ErrModel::KeyMissing("operationId"@))
                } else {
                    match ops_for_methods(m, methods, j + 1) {
                        Err(e) => Err(e),
                        Ok(rest) => Ok(seq![cs[k].value] + rest),
                    }
                }
            },
        }
    }
}

/// The operation identifiers contributed by the paths from position `i` on,
/// in declaration order: paths outermost, then each path's methods.
pub open spec fn ops_for_paths(
    m: ProviderModel,
    paths: Seq<EntryModel>,
    i: int,
) -> Result<Seq<Seq<char>>, ErrModel>
    decreases paths.len() - i,
{
    if i < 0 || i >= paths.len() {
        Ok(Seq::<Seq<char>>::empty())
    } else {
        match resolved_children_model(m, paths[i].span, paths[i].key) {
            Err(e) => Err(e),
            Ok(methods) => match ops_for_methods(m, methods, 0) {
                Err(e) => Err(e),
                Ok(ops) => match ops_for_paths(m, paths, i + 1) {
                    Err(e) => Err(e),
                    Ok(rest) => Ok(ops + rest),
                },
            },
        }
    }
}

/// The whole operation walk, starting from the root document's `paths`.
pub open spec fn operation_walk_model(m: ProviderModel) -> Result<Seq<Seq<char>>, ErrModel> {
    match resolve_model(m, root_marker()) {
        None => Err(ErrModel::Unresolved(root_marker())),
        Some(root) => match resolved_children_model(m, root, "paths"@) {
            Err(e) => Err(e),
            Ok(paths) => ops_for_paths(m, paths, 0),
        },
    }
}

/// Extraction done so far, prefixed to what a walk still owes.
pub open spec fn with_prefix(
    acc: Seq<Seq<char>>,
    r: Result<Seq<Seq<char>>, ErrModel>,
) -> Result<Seq<Seq<char>>, ErrModel> {
    match r {
        Ok(rest) => Ok(acc + rest),
        Err(e) => Err(e),
    }
}

pub open spec fn node_views(ns: Seq<OperationNode>) -> Seq<Seq<char>> {
    ns.map_values(|n: OperationNode| n@)
}

/// The operation walker over a pre-loaded content provider.
pub struct TreeSitterOperationParser {
    provider: ContentProviderMap,
}

impl TreeSitterOperationParser {
    pub fn new(provider: ContentProviderMap) -> (r: Self)
        ensures
            r.provider_model() == provider@,
    {
        Self { provider }
    }

    pub closed spec fn provider_model(&self) -> ProviderModel {
        self.provider@
    }

    /// The children of `key` in `content`, one reference hop followed.
    fn get_children(&self, key: &str, content: &str) -> (r: Result<Vec<ChildEntry>, WalkError>)
        ensures
            match r {
                Ok(es) => resolved_children_model(self.provider_model(), content@, key@) == Ok::<
                    Seq<EntryModel>,
                    ErrModel,
                >(entry_views(es@)),
                Err(e) => resolved_children_model(self.provider_model(), content@, key@) == Err::<
                    Seq<EntryModel>,
                    ErrModel,
                >(e@),
            },
    {
        resolved_children(&self.provider, content, key)
    }

    /// The operation identifiers of the specification: method declaration
    /// order within each path, paths in declaration order.
    #[verifier::rlimit(100)]
    pub fn operation_nodes(&self) -> (r: Result<Vec<OperationNode>, OpenapiSchemerError>)
        ensures
            match r {
                Ok(ns) => operation_walk_model(self.provider_model()) == Ok::<
                    Seq<Seq<char>>,
                    ErrModel,
                >(node_views(ns@)),
                Err(e) => e@ matches ApiErrModel::OperationList(w) && operation_walk_model(
                    self.provider_model(),
                ) == Err::<Seq<Seq<char>>, ErrModel>(w),
            },
    {
        let ghost m = self.provider_model();
        let root = match self.provider.get_content("#") {
            Some(c) => c,
            None => {
                return Err(
                    OpenapiSchemerError::OperationList(
                        WalkError::UnresolvedReference("#".to_owned()),
                    ),
                );
            },
        };
        let paths = match self.get_children("paths", root.as_str()) {
            Err(w) => {
                return Err(OpenapiSchemerError::OperationList(w));
            },
            Ok(es) => es,
        };
        let ghost pv = entry_views(paths@);
        let mut results: Vec<OperationNode> = Vec::new();
        let mut i: usize = 0;
        proof {
            assert(node_views(results@) =~= Seq::<Seq<char>>::empty());
            assert(with_prefix(node_views(results@), ops_for_paths(m, pv, 0)) == ops_for_paths(
                m,
                pv,
                0,
            )) by {
                match ops_for_paths(m, pv, 0) {
                    Ok(rest) => {
                        assert(Seq::<Seq<char>>::empty() + rest =~= rest);
                    },
                    Err(_) => {},
                }
            }
        }
        while i < paths.len()
            invariant
                0 <= i <= paths@.len(),
                pv == entry_views(paths@),
                m == self.provider_model(),
                operation_walk_model(m) == ops_for_paths(m, pv, 0),
                with_prefix(node_views(results@), ops_for_paths(m, pv, i as int)) == ops_for_paths(
                    m,
                    pv,
                    0,
                ),
            decreases paths@.len() - i,
        {
            let methods = match self.get_children(paths[i].key.as_str(), paths[i].span.as_str()) {
                Err(w) => {
                    proof {
                        assert(pv[i as int] == paths@[i as int]@);
                        assert(ops_for_paths(m, pv, i as int) == Err::<Seq<Seq<char>>, ErrModel>(
                            w@,
                        ));
                        assert(ops_for_paths(m, pv, 0) == Err::<Seq<Seq<char>>, ErrModel>(w@));
                        assert(operation_walk_model(m) == Err::<Seq<Seq<char>>, ErrModel>(w@));
                    }
                    return Err(OpenapiSchemerError::OperationList(w));
                },
                Ok(es) => es,
            };
            let ghost mv = entry_views(methods@);
            proof {
                assert(pv[i as int] == paths@[i as int]@);
                assert(resolved_children_model(m, pv[i as int].span, pv[i as int].key) == Ok::<
                    Seq<EntryModel>,
                    ErrModel,
                >(mv));
            }
            let mut j: usize = 0;
            while j < methods.len()
                invariant
                    0 <= j <= methods@.len(),
                    0 <= i < paths@.len(),
                    pv == entry_views(paths@),
                    mv == entry_views(methods@),
                    m == self.provider_model(),
                    operation_walk_model(m) == ops_for_paths(m, pv, 0),
                    resolved_children_model(m, pv[i as int].span, pv[i as int].key) == Ok::<
                        Seq<EntryModel>,
                        ErrModel,
                    >(mv),
                    with_prefix(
                        node_views(results@),
                        match ops_for_methods(m, mv, j as int) {
                            Err(e) => Err(e),
                            Ok(ops) => match ops_for_paths(m, pv, i as int + 1) {
                                Err(e) => Err(e),
                                Ok(rest) => Ok(ops + rest),
                            },
                        },
                    ) == ops_for_paths(m, pv, 0),
                decreases methods@.len() - j,
            {
                let cs = match self.get_children(
                    methods[j].key.as_str(),
                    methods[j].span.as_str(),
                ) {
                    Err(w) => {
                        proof {
                            assert(mv[j as int] == methods@[j as int]@);
                            assert(ops_for_methods(m, mv, j as int) == Err::<
                                Seq<Seq<char>>,
                                ErrModel,
                            >(w@));
                            assert(ops_for_paths(m, pv, 0) == Err::<Seq<Seq<char>>, ErrModel>(w@));
                            assert(operation_walk_model(m) == Err::<Seq<Seq<char>>, ErrModel>(w@));
                        }
                        return Err(OpenapiSchemerError::OperationList(w));
                    },
                    Ok(es) => es,
                };
                proof {
                    assert(mv[j as int] == methods@[j as int]@);
                }
                let k = find_entry(&cs, "operationId");
                if k == cs.len() {
                    proof {
                        assert(ops_for_methods(m, mv, j as int) == Err::<Seq<Seq<char>>, ErrModel>(
                            ErrModel::KeyMissing("operationId"@),
                        ));
                        assert(ops_for_paths(m, pv, 0) == Err::<Seq<Seq<char>>, ErrModel>(
                            ErrModel::KeyMissing("operationId"@),
                        ));
                        assert(operation_walk_model(m) == Err::<Seq<Seq<char>>, ErrModel>(
                            ErrModel::KeyMissing("operationId"@),
                        ));
                    }
                    return Err(
                        OpenapiSchemerError::OperationList(
                            WalkError::StructuralKeyMissing("operationId".to_owned()),
                        ),
                    );
                }
                let ghost acc = node_views(results@);
                let ghost v = entry_views(cs@)[k as int].value;
                proof {
                    assert(entry_views(cs@)[k as int] == cs@[k as int]@);
                }
                results.push(OperationNode { text: cs[k].value.clone() });
                proof {
                    assert(node_views(results@) =~= acc + seq![v]);
                    let rem_m = ops_for_methods(m, mv, j as int + 1);
                    let rem_p = ops_for_paths(m, pv, i as int + 1);
                    match rem_m {
                        Err(_) => {},
                        Ok(rest_m) => {
                            assert(ops_for_methods(m, mv, j as int) == Ok::<
                                Seq<Seq<char>>,
                                ErrModel,
                            >(seq![v] + rest_m));
                            match rem_p {
                                Err(_) => {},
                                Ok(rest_p) => {
                                    assert(acc + ((seq![v] + rest_m) + rest_p) =~= (acc + seq![v])
                                        + (rest_m + rest_p));
                                },
                            }
                        },
                    }
                }
                j = j + 1;
            }
            proof {
                assert(ops_for_methods(m, mv, j as int) == Ok::<Seq<Seq<char>>, ErrModel>(
                    Seq::<Seq<char>>::empty(),
                ));
                match ops_for_paths(m, pv, i as int + 1) {
                    Err(_) => {},
                    Ok(rest_p) => {
                        assert(Seq::<Seq<char>>::empty() + rest_p =~= rest_p);
                    },
                }
            }
            i = i + 1;
        }
        proof {
            assert(ops_for_paths(m, pv, i as int) == Ok::<Seq<Seq<char>>, ErrModel>(
                Seq::<Seq<char>>::empty(),
            ));
            assert(node_views(results@) + Seq::<Seq<char>>::empty() =~= node_views(results@));
        }
        Ok(results)
    }
}

impl OperationParser for TreeSitterOperationParser {
    open spec fn walk_model(&self) -> Result<Seq<Seq<char>>, ApiErrModel> {
        match operation_walk_model(self.provider_model()) {
            Ok(ops) => Ok(ops),
            Err(w) => Err(ApiErrModel::OperationList(w)),
        }
    }

    fn get_operation_nodes(&self) -> (r: Result<Vec<OperationNode>, OpenapiSchemerError>) {
        self.operation_nodes()
    }
}

} // verus!
