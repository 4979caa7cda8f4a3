//! The general laws of the walkers, stated over the walk models and proved
//! once and for all.

use vstd::prelude::*;

use crate::bindings::operation::operation_walk_model;
use crate::bindings::path::path_walk_model;
use crate::bindings::schema::schema_walk_model;
use crate::content::{resolve_model, root_marker, ProviderModel};
use crate::error::ErrModel;
use crate::yaml::{
    block_end_from, find_entry_pos, indent_of, lemma_block_end_from, lemma_indent_of,
    lemma_span_stop, lemma_split_of_join, lines_of, lookup_model, ref_marker, span_lines,
    span_stop, span_text_of, top_entries_of, EntryModel, LookupModel,
};

verus! {

/// For a document whose `paths` entry carries inline children, the path
/// walk returns exactly those children's keys, in order.
pub proof fn lemma_path_walk_inline(m: ProviderModel, root: Seq<char>, es: Seq<EntryModel>)
    requires
        resolve_model(m, root_marker()) == Some(root),
        lookup_model(root, "paths"@) == LookupModel::Children(es),
    ensures
        path_walk_model(m) == Ok::<Seq<Seq<char>>, ErrModel>(es.map_values(|e: EntryModel| e.key)),
{
}

/// With the mapping's keys unique — as a mapping's keys are — the path
/// walk's output holds no duplicates.
pub proof fn lemma_path_walk_inline_distinct(m: ProviderModel, root: Seq<char>, es: Seq<
    EntryModel,
>)
    requires
        resolve_model(m, root_marker()) == Some(root),
        lookup_model(root, "paths"@) == LookupModel::Children(es),
        forall|a: int, b: int| 0 <= a < b < es.len() ==> es[a].key != es[b].key,
    ensures
        path_walk_model(m) matches Ok(ps) && forall|a: int, b: int|
            0 <= a < b < ps.len() ==> ps[a] != ps[b],
{
    lemma_path_walk_inline(m, root, es);
    let ps = es.map_values(|e: EntryModel| e.key);
    assert forall|a: int, b: int| 0 <= a < b < ps.len() implies ps[a] != ps[b] by {
        assert(ps[a] == es[a].key);
        assert(ps[b] == es[b].key);
    }
}

/// For a document whose `paths` entry is a `$ref` to a document free of a
/// top-level `$ref`, the path walk returns the referenced document's
/// top-level keys.
pub proof fn lemma_path_walk_ref(m: ProviderModel, root: Seq<char>, r: Seq<char>, d: Seq<char>)
    requires
        resolve_model(m, root_marker()) == Some(root),
        lookup_model(root, "paths"@) == LookupModel::Reference(r),
        resolve_model(m, r) == Some(d),
        find_entry_pos(top_entries_of(d), ref_marker()) == top_entries_of(d).len(),
    ensures
        path_walk_model(m) == Ok::<Seq<Seq<char>>, ErrModel>(
            top_entries_of(d).map_values(|e: EntryModel| e.key),
        ),
{
}

/// Inlining the referenced document in place of the `$ref` does not change
/// the path walk's output: whenever the referenced document's top-level
/// entries and the inline children carry the same keys, the two forms agree.
pub proof fn lemma_path_walk_ref_matches_inline(
    m1: ProviderModel,
    root1: Seq<char>,
    r: Seq<char>,
    d: Seq<char>,
    m2: ProviderModel,
    root2: Seq<char>,
    es: Seq<EntryModel>,
)
    requires
        resolve_model(m1, root_marker()) == Some(root1),
        lookup_model(root1, "paths"@) == LookupModel::Reference(r),
        resolve_model(m1, r) == Some(d),
        find_entry_pos(top_entries_of(d), ref_marker()) == top_entries_of(d).len(),
        resolve_model(m2, root_marker()) == Some(root2),
        lookup_model(root2, "paths"@) == LookupModel::Children(es),
        top_entries_of(d).map_values(|e: EntryModel| e.key) == es.map_values(
            |e: EntryModel| e.key,
        ),
    ensures
        path_walk_model(m1) == path_walk_model(m2),
{
    lemma_path_walk_ref(m1, root1, r, d);
    lemma_path_walk_inline(m2, root2, es);
}

/// A root document with no top-level `components` entry makes the schema
/// walk fail with the missing structural key — never an empty list.
pub proof fn lemma_schema_walk_missing_components(m: ProviderModel, root: Seq<char>)
    requires
        resolve_model(m, root_marker()) == Some(root),
        find_entry_pos(top_entries_of(root), "components"@) == top_entries_of(root).len(),
    ensures
        schema_walk_model(m) == Err::<Seq<Seq<char>>, ErrModel>(
            ErrModel::KeyMissing("components"@),
        ),
{
}

/// The walks are functions of the provider snapshot alone: two runs against
/// the same snapshot yield the same output, error or list alike.
pub proof fn lemma_walks_deterministic(
    m: ProviderModel,
    p1: Result<Seq<Seq<char>>, ErrModel>,
    p2: Result<Seq<Seq<char>>, ErrModel>,
    o1: Result<Seq<Seq<char>>, ErrModel>,
    o2: Result<Seq<Seq<char>>, ErrModel>,
    s1: Result<Seq<Seq<char>>, ErrModel>,
    s2: Result<Seq<Seq<char>>, ErrModel>,
)
    requires
        p1 == path_walk_model(m),
        p2 == path_walk_model(m),
        o1 == operation_walk_model(m),
        o2 == operation_walk_model(m),
        s1 == schema_walk_model(m),
        s2 == schema_walk_model(m),
    ensures
        p1 == p2,
        o1 == o2,
        s1 == s2,
{
}

/// A span handed out by the query primitive is a self-contained fragment:
/// splitting the joined span text recovers exactly the lines it was built
/// from, so re-parsing it loses nothing.
pub proof fn lemma_span_reparse(ls: Seq<Seq<char>>, k: int)
    requires
        0 <= k < ls.len(),
        forall|a: int, b: int| 0 <= a < ls.len() && 0 <= b < ls[a].len() ==> ls[a][b] != '\n',
    ensures
        lines_of(span_text_of(ls, k)) == span_lines(
            ls,
            k,
            span_stop(ls, k, block_end_from(ls, k + 1, indent_of(ls[k]))),
        ),
{
    let hi = block_end_from(ls, k + 1, indent_of(ls[k]));
    lemma_block_end_from(ls, k + 1, indent_of(ls[k]));
    let stop = span_stop(ls, k, hi);
    lemma_span_stop(ls, k, hi);
    let parts = span_lines(ls, k, stop);
    lemma_indent_of(ls[k]);
    assert(parts.len() >= 1);
    assert forall|a: int, b: int| 0 <= a < parts.len() && 0 <= b < parts[a].len() implies parts[a][b]
        != '\n' by {
        if a == 0 {
            assert(parts[0][b] == ls[k][indent_of(ls[k]) + b]);
        } else {
            assert(parts[a] == ls[k + a]);
        }
    }
    lemma_split_of_join(parts, '\n');
}

} // verus!
