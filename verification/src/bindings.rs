//! The document query primitives: the children of a key, the top-level
//! entries of a document, and the scan for `$ref` values.  These are the
//! building blocks the walkers compose.

pub mod key_finder;
pub mod operation;
pub mod path;
pub mod schema;

use vstd::prelude::*;

use crate::content::{resolve_model, ContentProviderMap, ProviderModel};
use crate::error::{ErrModel, WalkError};
use crate::yaml::{
    child_entries, child_indices, child_lookup_model, entries_at, entry_model, find_entry_pos,
    first_sig_at, indent_of, is_entry, key_of, lemma_child_indices_range, lemma_entry_indices_range,
    lemma_find_entry_pos_unique, lemma_top_indices_range, lines_of, lookup_model, ref_marker,
    refs_in, strip_quotes, top_entries_of, top_indices, value_of, views_of, EntryModel, LookupModel,
};
use crate::yaml::{
    block_end, collect_entry_indices, first_sig, indent_len, key_string, line_is_entry,
    span_stop_at, span_string, split_lines, str_eq, strip_quotes_string, value_string,
};

verus! {

/// One immediate child of a matched entry: its key, its scalar value (empty
/// for a nested block), and the verbatim text of its whole subtree, which is
/// itself parseable as a one-entry document.
#[derive(Debug, Clone)]
pub struct ChildEntry {
    pub key: String,
    pub value: String,
    pub span: String,
}

impl View for ChildEntry {
    type V = EntryModel;

    open spec fn view(&self) -> EntryModel {
        EntryModel { key: self.key@, value: self.value@, span: self.span@ }
    }
}

pub open spec fn entry_views(es: Seq<ChildEntry>) -> Seq<EntryModel> {
    es.map_values(|e: ChildEntry| e@)
}

/// What a key lookup finds: the immediate children of the matched entry, or
/// the single reference its content collapses to.  Never both.
#[derive(Debug)]
pub enum ChildrenOrRef {
    Children(Vec<ChildEntry>),
    Ref(String),
}

/// Builds the child record of the entry at line `k`.
fn build_entry(lines: &Vec<String>, k: usize) -> (e: ChildEntry)
    requires
        k < lines@.len(),
        is_entry(views_of(lines@)[k as int]),
    ensures
        e@ == entry_model(views_of(lines@), k as int),
{
    let ghost ls = views_of(lines@);
    let _bound = lines.len();
    let line = lines[k].as_str();
    let key = key_string(line);
    let value = value_string(line);
    let ind = indent_len(line);
    let hi = block_end(lines, k + 1, ind);
    let stop = span_stop_at(lines, k, hi);
    let span = span_string(lines, k, stop);
    ChildEntry { key, value, span }
}

/// Builds the child records of the entry lines listed in `idxs`.
fn entries_from_indices(lines: &Vec<String>, idxs: &Vec<usize>) -> (es: Vec<ChildEntry>)
    requires
        forall|p: int|
            0 <= p < idxs@.len() ==> (#[trigger] idxs@[p]) < lines@.len() && is_entry(
                views_of(lines@)[idxs@[p] as int],
            ),
    ensures
        entry_views(es@) == entries_at(views_of(lines@), idxs@.map_values(|u: usize| u as int)),
{
    let ghost ls = views_of(lines@);
    let ghost idxs_int = idxs@.map_values(|u: usize| u as int);
    let mut es: Vec<ChildEntry> = Vec::new();
    let mut i: usize = 0;
    while i < idxs.len()
        invariant
            0 <= i <= idxs@.len(),
            forall|p: int|
                0 <= p < idxs@.len() ==> (#[trigger] idxs@[p]) < lines@.len() && is_entry(
                    views_of(lines@)[idxs@[p] as int],
                ),
            es@.len() == i,
            forall|p: int| 0 <= p < i ==> (#[trigger] es@[p])@ == entry_model(ls, idxs@[p] as int),
            ls == views_of(lines@),
        decreases idxs@.len() - i,
    {
        let e = build_entry(lines, idxs[i]);
        es.push(e);
        i = i + 1;
    }
    proof {
        assert forall|p: int| 0 <= p < idxs_int.len() implies entry_views(es@)[p] == entries_at(
            ls,
            idxs_int,
        )[p] by {
            assert(idxs_int[p] == idxs@[p] as int);
            assert(es@[p]@ == entry_model(ls, idxs@[p] as int));
        }
        assert(entry_views(es@) =~= entries_at(ls, idxs_int));
    }
    es
}

/// The indices of a document's top-level entries.
fn top_idx(lines: &Vec<String>) -> (r: Vec<usize>)
    ensures
        r@.map_values(|u: usize| u as int) == top_indices(views_of(lines@)),
{
    let ghost ls = views_of(lines@);
    let fs = first_sig(lines, 0);
    if fs >= lines.len() {
        let r: Vec<usize> = Vec::new();
        proof {
            assert(r@.map_values(|u: usize| u as int) =~= Seq::<int>::empty());
        }
        r
    } else {
        collect_entry_indices(lines, 0, lines.len(), indent_len(lines[fs].as_str()))
    }
}

/// Position of the first index in `idxs` whose entry line carries `key`, or
/// the index count.
pub(crate) fn find_idx_by_key(lines: &Vec<String>, idxs: &Vec<usize>, key: &str) -> (j: usize)
    requires
        forall|p: int|
            0 <= p < idxs@.len() ==> (#[trigger] idxs@[p]) < lines@.len() && is_entry(
                views_of(lines@)[idxs@[p] as int],
            ),
    ensures
        j == find_entry_pos(
            entries_at(views_of(lines@), idxs@.map_values(|u: usize| u as int)),
            key@,
        ),
        j <= idxs@.len(),
{
    let ghost ls = views_of(lines@);
    let ghost es = entries_at(ls, idxs@.map_values(|u: usize| u as int));
    let mut j: usize = 0;
    while j < idxs.len()
        invariant
            0 <= j <= idxs@.len(),
            forall|p: int|
                0 <= p < idxs@.len() ==> (#[trigger] idxs@[p]) < lines@.len() && is_entry(
                    views_of(lines@)[idxs@[p] as int],
                ),
            forall|p: int| 0 <= p < j ==> (#[trigger] es[p]).key != key@,
            ls == views_of(lines@),
            es == entries_at(ls, idxs@.map_values(|u: usize| u as int)),
        decreases idxs@.len() - j,
    {
        let k = key_string(lines[idxs[j]].as_str());
        if str_eq(k.as_str(), key) {
            proof {
                lemma_find_entry_pos_unique(es, key@, j as int);
            }
            return j;
        }
        j = j + 1;
    }
    proof {
        lemma_find_entry_pos_unique(es, key@, j as int);
    }
    j
}

/// Position of the first child record carrying `key`, or the record count.
pub fn find_entry(es: &Vec<ChildEntry>, key: &str) -> (j: usize)
    ensures
        j == find_entry_pos(entry_views(es@), key@),
        j <= es@.len(),
{
    let mut j: usize = 0;
    while j < es.len()
        invariant
            0 <= j <= es@.len(),
            forall|p: int| 0 <= p < j ==> (#[trigger] entry_views(es@)[p]).key != key@,
        decreases es@.len() - j,
    {
        if str_eq(es[j].key.as_str(), key) {
            proof {
                lemma_find_entry_pos_unique(entry_views(es@), key@, j as int);
            }
            return j;
        }
        j = j + 1;
    }
    proof {
        lemma_find_entry_pos_unique(entry_views(es@), key@, j as int);
    }
    j
}

/// The keys of the given child records, in order.
pub fn entry_keys(es: &Vec<ChildEntry>) -> (r: Vec<String>)
    ensures
        views_of(r@) == entry_views(es@).map_values(|e: EntryModel| e.key),
{
    let mut r: Vec<String> = Vec::new();
    let mut i: usize = 0;
    while i < es.len()
        invariant
            0 <= i <= es@.len(),
            r@.len() == i,
            forall|p: int| 0 <= p < i ==> (#[trigger] r@[p])@ == es@[p]@.key,
        decreases es@.len() - i,
    {
        r.push(es[i].key.clone());
        i = i + 1;
    }
    proof {
        assert(views_of(r@) =~= entry_views(es@).map_values(|e: EntryModel| e.key));
    }
    r
}

/// The line indices of the immediate children of the entry at line `parent`.
pub(crate) fn child_idx_list(lines: &Vec<String>, parent: usize) -> (r: Vec<usize>)
    requires
        parent < lines@.len(),
    ensures
        r@.map_values(|u: usize| u as int) == child_indices(views_of(lines@), parent as int),
{
    let ghost ls = views_of(lines@);
    let _bound = lines.len();
    let p_ind = indent_len(lines[parent].as_str());
    let hi = block_end(lines, parent + 1, p_ind);
    let fs = first_sig(lines, parent + 1);
    let idxs: Vec<usize> = if fs >= hi {
        Vec::new()
    } else {
        collect_entry_indices(lines, parent + 1, hi, indent_len(lines[fs].as_str()))
    };
    proof {
        if fs >= hi {
            assert(idxs@.map_values(|u: usize| u as int) =~= Seq::<int>::empty());
        }
        assert(idxs@.map_values(|u: usize| u as int) == child_indices(ls, parent as int));
    }
    idxs
}

/// The children of the entry at line `parent`, collapsed to a reference when
/// a `$ref` child is present.
fn child_lookup(lines: &Vec<String>, parent: usize) -> (r: ChildrenOrRef)
    requires
        parent < lines@.len(),
        is_entry(views_of(lines@)[parent as int]),
    ensures
        match r {
            ChildrenOrRef::Children(es) => child_lookup_model(views_of(lines@), parent as int)
                == LookupModel::Children(entry_views(es@)),
            ChildrenOrRef::Ref(s) => child_lookup_model(views_of(lines@), parent as int)
                == LookupModel::Reference(s@),
        },
{
    let ghost ls = views_of(lines@);
    let idxs = child_idx_list(lines, parent);
    proof {
        lemma_child_indices_range(ls, parent as int);
        assert forall|p: int| 0 <= p < idxs@.len() implies (#[trigger] idxs@[p]) < lines@.len()
            && is_entry(views_of(lines@)[idxs@[p] as int]) by {
            assert(child_indices(ls, parent as int)[p] == idxs@[p] as int);
        }
    }
    let rpos = find_idx_by_key(lines, &idxs, "$ref");
    proof {
        assert(entries_at(ls, idxs@.map_values(|u: usize| u as int)) == child_entries(
            ls,
            parent as int,
        ));
    }
    if rpos < idxs.len() {
        let value = value_string(lines[idxs[rpos]].as_str());
        let reference = strip_quotes_string(value.as_str());
        proof {
            assert(child_entries(ls, parent as int)[rpos as int] == entry_model(
                ls,
                child_indices(ls, parent as int)[rpos as int],
            ));
        }
        ChildrenOrRef::Ref(reference)
    } else {
        let es = entries_from_indices(lines, &idxs);
        ChildrenOrRef::Children(es)
    }
}

/// Finds the top-level entry whose key is `key` and returns its children, or
/// the reference they collapse to.  A missing key is an error: the structural
/// keys the walkers ask for are mandatory where they are expected.
pub fn get_children_by_key(key: &str, content: &str) -> (r: Result<ChildrenOrRef, WalkError>)
    ensures
        match r {
            Ok(ChildrenOrRef::Children(es)) => lookup_model(content@, key@) == LookupModel::Children(
                entry_views(es@),
            ),
            Ok(ChildrenOrRef::Ref(s)) => lookup_model(content@, key@) == LookupModel::Reference(s@),
            Err(e) => lookup_model(content@, key@) == LookupModel::Missing && e@
                == ErrModel::KeyMissing(key@),
        },
{
    let lines = split_lines(content);
    let ghost ls = views_of(lines@);
    let tops = top_idx(&lines);
    proof {
        lemma_top_indices_range(ls);
        assert forall|p: int| 0 <= p < tops@.len() implies (#[trigger] tops@[p]) < lines@.len()
            && is_entry(views_of(lines@)[tops@[p] as int]) by {
            assert(top_indices(ls)[p] == tops@[p] as int);
        }
    }
    let j = find_idx_by_key(&lines, &tops, key);
    if j == tops.len() {
        Err(WalkError::StructuralKeyMissing(key.to_owned()))
    } else {
        let parent = tops[j];
        Ok(child_lookup(&lines, parent))
    }
}

/// The top-level entries of a document, used once a reference has been
/// followed: the referenced document is the mapping to split.
pub fn get_top_level_keys(content: &str) -> (es: Vec<ChildEntry>)
    ensures
        entry_views(es@) == top_entries_of(content@),
{
    let lines = split_lines(content);
    let ghost ls = views_of(lines@);
    let tops = top_idx(&lines);
    proof {
        lemma_top_indices_range(ls);
        assert forall|p: int| 0 <= p < tops@.len() implies (#[trigger] tops@[p]) < lines@.len()
            && is_entry(views_of(lines@)[tops@[p] as int]) by {
            assert(top_indices(ls)[p] == tops@[p] as int);
        }
    }
    entries_from_indices(&lines, &tops)
}

/// An operation identifier extracted from a specification.
#[derive(Clone, Debug)]
pub struct OperationNode {
    pub text: String,
}

impl View for OperationNode {
    type V = Seq<char>;

    open spec fn view(&self) -> Seq<char> {
        self.text@
    }
}

/// A source of operation nodes; the library's own parser is
/// `TreeSitterOperationParser`, users may supply another.
pub trait OperationParser {
    /// What this parser's walk returns, as a spec-level value: the operation
    /// identifiers in order, or the typed error.
    spec fn walk_model(&self) -> Result<Seq<Seq<char>>, crate::error::ApiErrModel>;

    fn get_operation_nodes(&self) -> (r: Result<
        Vec<OperationNode>,
        crate::error::OpenapiSchemerError,
    >)
        ensures
            match r {
                Ok(ns) => self.walk_model() == Ok::<Seq<Seq<char>>, crate::error::ApiErrModel>(
                    ns@.map_values(|n: OperationNode| n@),
                ),
                Err(e) => self.walk_model() == Err::<Seq<Seq<char>>, crate::error::ApiErrModel>(
                    e@,
                ),
            },
    ;
}

/// What a walker sees after looking `key` up in `doc` and transparently
/// following one reference: the children of the matched entry, or those of
/// the referenced document's top level.  A missing key, an unresolvable
/// reference, and a referenced document that is itself a reference are the
/// walk's fatal errors.
pub open spec fn resolved_children_model(
    m: ProviderModel,
    doc: Seq<char>,
    key: Seq<char>,
) -> Result<Seq<EntryModel>, ErrModel> {
    match lookup_model(doc, key) {
        LookupModel::Missing => Err(ErrModel::KeyMissing(key)),
        LookupModel::Children(es) => Ok(es),
        LookupModel::Reference(r) => match resolve_model(m, r) {
            None => Err(ErrModel::Unresolved(r)),
            Some(d) => {
                let tops = top_entries_of(d);
                let p = find_entry_pos(tops, ref_marker());
                if p < tops.len() {
                    Err(ErrModel::ChainViolation(strip_quotes(tops[p].value)))
                } else {
                    Ok(tops)
                }
            },
        },
    }
}

/// Looks `key` up among the top-level entries of `doc`; a reference is
/// resolved through `provider` and replaced by the referenced document's
/// top-level entries, which must not themselves be a reference.
pub fn resolved_children(provider: &ContentProviderMap, doc: &str, key: &str) -> (r: Result<
    Vec<ChildEntry>,
    WalkError,
>)
    ensures
        match r {
            Ok(es) => resolved_children_model(provider@, doc@, key@) == Ok::<
                Seq<EntryModel>,
                ErrModel,
            >(entry_views(es@)),
            Err(e) => resolved_children_model(provider@, doc@, key@) == Err::<
                Seq<EntryModel>,
                ErrModel,
            >(e@),
        },
{
    match get_children_by_key(key, doc) {
        Err(e) => Err(e),
        Ok(ChildrenOrRef::Children(es)) => Ok(es),
        Ok(ChildrenOrRef::Ref(reference)) => match provider.get_content(reference.as_str()) {
            None => Err(WalkError::UnresolvedReference(reference)),
            Some(d) => {
                let tops = get_top_level_keys(d.as_str());
                let p = find_entry(&tops, "$ref");
                if p < tops.len() {
                    let offending = strip_quotes_string(tops[p].value.as_str());
                    Err(WalkError::ReferenceChainViolation(offending))
                } else {
                    Ok(tops)
                }
            },
        },
    }
}

/// Every `$ref` value found anywhere in `content`, quotes stripped, in
/// document order.  This is the discovery scan the content provider is built
/// from.
pub fn find_refs(content: &str) -> (r: Vec<String>)
    ensures
        views_of(r@) == refs_in(lines_of(content@), 0),
{
    let lines = split_lines(content);
    let ghost ls = views_of(lines@);
    let mut r: Vec<String> = Vec::new();
    let mut i: usize = 0;
    proof {
        assert(views_of(r@) + refs_in(ls, 0) =~= refs_in(ls, 0));
    }
    while i < lines.len()
        invariant
            0 <= i <= lines@.len(),
            refs_in(ls, 0) == views_of(r@) + refs_in(ls, i as int),
            ls == views_of(lines@),
        decreases lines@.len() - i,
    {
        let ghost head: Seq<Seq<char>> = if is_entry(ls[i as int]) && key_of(ls[i as int])
            == ref_marker() {
            seq![strip_quotes(value_of(ls[i as int]))]
        } else {
            Seq::<Seq<char>>::empty()
        };
        proof {
            assert(refs_in(ls, i as int) == head + refs_in(ls, i as int + 1));
        }
        if line_is_entry(lines[i].as_str()) && str_eq(
            key_string(lines[i].as_str()).as_str(),
            "$ref",
        ) {
            let v = value_string(lines[i].as_str());
            let stripped = strip_quotes_string(v.as_str());
            let ghost old_r = r@;
            r.push(stripped);
            proof {
                assert(views_of(r@) =~= views_of(old_r) + seq![
                    strip_quotes(value_of(ls[i as int])),
                ]);
                assert((views_of(old_r) + seq![strip_quotes(value_of(ls[i as int]))]) + refs_in(
                    ls,
                    i as int + 1,
                ) =~= views_of(old_r) + (seq![strip_quotes(value_of(ls[i as int]))] + refs_in(
                    ls,
                    i as int + 1,
                )));
            }
        } else {
            proof {
                assert(head =~~= Seq::<Seq<char>>::empty());
                assert(head + refs_in(ls, i as int + 1) =~~= refs_in(ls, i as int + 1));
            }
        }
        i = i + 1;
    }
    r
}

} // verus!
