//! Descent along a dot-separated key path: `components.schemas` names the
//! children of `schemas` inside `components`.  References are not followed
//! here; hitting one is an error.

use vstd::prelude::*;

use crate::bindings::{entry_keys, find_entry, get_children_by_key, ChildrenOrRef};
use crate::error::{ErrModel, WalkError};
use crate::yaml::{find_entry_pos, lookup_model, split_on, views_of, EntryModel, LookupModel};
use crate::yaml::split_str;

verus! {

/// Descending `doc` along the segments from position `i` on: each segment is
/// looked up among the current document's top-level entries; at the last
/// segment the children's keys are the answer; in between, the walk re-enters
/// the span of the child named by the next segment.
pub open spec fn descend_model(doc: Seq<char>, segs: Seq<Seq<char>>, i: int) -> Result<
    Seq<Seq<char>>,
    ErrModel,
>
    decreases segs.len() - i,
{
    if i < 0 || i >= segs.len() {
        Err(ErrModel::KeyMissing(Seq::<char>::empty()))
    } else {
        match lookup_model(doc, segs[i]) {
            LookupModel::Missing => Err(ErrModel::KeyMissing(segs[i])),
            LookupModel::Reference(r) => Err(ErrModel::ChainViolation(r)),
            LookupModel::Children(es) => {
                if i == segs.len() - 1 {
                    Ok(es.map_values(|e: EntryModel| e.key))
                } else {
                    let j = find_entry_pos(es, segs[i + 1]);
                    if j == es.len() {
                        Err(ErrModel::KeyMissing(segs[i + 1]))
                    } else {
                        descend_model(es[j].span, segs, i + 1)
                    }
                }
            },
        }
    }
}

/// The whole descent: `key` split at the dots, walked from the top.
pub open spec fn find_children_model(doc: Seq<char>, key: Seq<char>) -> Result<
    Seq<Seq<char>>,
    ErrModel,
> {
    descend_model(doc, split_on(key, '.'), 0)
}

/// A source of raw document text for the key finder.  An implementation
/// models what it hands out as a spec-level function of itself and the path.
pub trait KeyFinderProvider {
    /// The text this provider holds for `path`.
    spec fn content_model(&self, path: Seq<char>) -> Seq<char>;

    fn get(&self, path: &str) -> (r: String)
        ensures
            r@ == self.content_model(path@),
    ;
}

/// Answers dot-separated key queries against one document.
pub trait KeyFinder {
    /// What a query for `key` returns, as a spec-level value.
    spec fn find_model(&self, key: Seq<char>) -> Result<Seq<Seq<char>>, ErrModel>;

    fn find_children_for_key(&self, key: &str) -> (r: Result<Vec<String>, WalkError>)
        ensures
            match r {
                Ok(ks) => self.find_model(key@) == Ok::<Seq<Seq<char>>, ErrModel>(views_of(ks@)),
                Err(e) => self.find_model(key@) == Err::<Seq<Seq<char>>, ErrModel>(e@),
            },
    ;
}

/// A key finder that fetches the document at `path` from its provider.
pub struct TreeSitterKeyFinder<T: KeyFinderProvider> {
    path: String,
    provider: T,
}

impl<T: KeyFinderProvider> TreeSitterKeyFinder<T> {
    /// The path whose document this finder queries.
    pub closed spec fn path_model(&self) -> Seq<char> {
        self.path@
    }

    /// The text of the document this finder queries.
    pub closed spec fn doc_model(&self) -> Seq<char> {
        self.provider.content_model(self.path@)
    }

    pub fn new(path: String, provider: T) -> (r: Self)
        ensures
            r.path_model() == path@,
            r.doc_model() == provider.content_model(path@),
    {
        TreeSitterKeyFinder { path, provider }
    }

    fn get_content(&self, path: &str) -> (r: String)
        ensures
            r@ == self.provider.content_model(path@),
    {
        self.provider.get(path)
    }

    /// The children's keys at the end of the dotted descent through
    /// `content`.
    pub fn find_children_in(content: &str, key: &str) -> (r: Result<Vec<String>, WalkError>)
        ensures
            match r {
                Ok(ks) => find_children_model(content@, key@) == Ok::<Seq<Seq<char>>, ErrModel>(
                    views_of(ks@),
                ),
                Err(e) => find_children_model(content@, key@) == Err::<Seq<Seq<char>>, ErrModel>(
                    e@,
                ),
            },
    {
        let segs = split_str(key, '.');
        let ghost sv = views_of(segs@);
        let mut doc: String = content.to_owned();
        let mut i: usize = 0;
        while i < segs.len()
            invariant
                0 <= i < segs@.len(),
                sv == views_of(segs@),
                sv.len() == segs@.len(),
                find_children_model(content@, key@) == descend_model(doc@, sv, i as int),
            decreases segs@.len() - i,
        {
            proof {
                assert(sv[i as int] == segs@[i as int]@);
            }
            match get_children_by_key(segs[i].as_str(), doc.as_str()) {
                Err(e) => {
                    return Err(e);
                },
                Ok(ChildrenOrRef::Ref(r)) => {
                    return Err(WalkError::ReferenceChainViolation(r));
                },
                Ok(ChildrenOrRef::Children(es)) => {
                    if i == segs.len() - 1 {
                        return Ok(entry_keys(&es));
                    }
                    proof {
                        assert(sv[i as int + 1] == segs@[i as int + 1]@);
                    }
                    let j = find_entry(&es, segs[i + 1].as_str());
                    if j == es.len() {
                        return Err(WalkError::StructuralKeyMissing(segs[i + 1].clone()));
                    }
                    doc = es[j].span.clone();
                    i = i + 1;
                },
            }
        }
        proof {
            assert(false);
        }
        Err(WalkError::StructuralKeyMissing(String::new()))
    }
}

impl<T: KeyFinderProvider> KeyFinder for TreeSitterKeyFinder<T> {
    open spec fn find_model(&self, key: Seq<char>) -> Result<Seq<Seq<char>>, ErrModel> {
        find_children_model(self.doc_model(), key)
    }

    fn find_children_for_key(&self, key: &str) -> (r: Result<Vec<String>, WalkError>) {
        let content = self.get_content(self.path.as_str());
        Self::find_children_in(content.as_str(), key)
    }
}

} // verus!
