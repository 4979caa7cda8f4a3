//! Listing operation identifiers straight off one document: every HTTP
//! method entry, at any depth, contributes the value of its `operationId`
//! child.

use vstd::prelude::*;

use crate::bindings::{child_idx_list, find_idx_by_key};
use crate::content::join_strings;
use crate::error::OpenapiSchemerError;
use crate::yaml::{
    child_entries, child_indices, entries_at, find_entry_pos, is_entry, join_with, key_of,
    lemma_child_indices_range, lines_of, value_of, views_of,
};
use crate::yaml::{key_string, line_is_entry, split_lines, str_eq, value_string};

verus! {

/// One of the HTTP method keys an operation can hang under.
pub open spec fn is_http_method(k: Seq<char>) -> bool {
    k == "connect"@ || k == "delete"@ || k == "get"@ || k == "head"@ || k == "options"@ || k
        == "patch"@ || k == "post"@ || k == "put"@ || k == "trace"@
}

/// The operation identifiers of every method entry at or after line `i`, in
/// document order: a method entry contributes the value of its `operationId`
/// child, and nothing when it has none.
pub open spec fn method_ops_in(ls: Seq<Seq<char>>, i: int) -> Seq<Seq<char>>
    decreases ls.len() - i,
{
    if i < 0 || i >= ls.len() {
        Seq::<Seq<char>>::empty()
    } else {
        let head: Seq<Seq<char>> = if is_entry(ls[i]) && is_http_method(key_of(ls[i])) {
            let cs = child_entries(ls, i);
            let k = find_entry_pos(cs, "operationId"@);
            if k < cs.len() {
                seq![cs[k].value]
            } else {
                Seq::<Seq<char>>::empty()
            }
        } else {
            Seq::<Seq<char>>::empty()
        };
        head + method_ops_in(ls, i + 1)
    }
}

/// A display-ready ordered list of extracted operation identifiers.
#[derive(Debug, PartialEq, Eq)]
pub struct ListResult {
    entries: Vec<String>,
}

impl View for ListResult {
    type V = Seq<Seq<char>>;

    closed spec fn view(&self) -> Seq<Seq<char>> {
        views_of(self.entries@)
    }
}

impl ListResult {
    pub fn new(list: Vec<String>) -> (r: ListResult)
        ensures
            r@ == views_of(list@),
    {
        ListResult { entries: list }
    }

    /// The listed entries, in order.
    pub fn entries(&self) -> (r: &Vec<String>)
        ensures
            views_of(r@) == self@,
    {
        &self.entries
    }

    /// The newline-joined rendering of the list.
    pub fn render(&self) -> (r: String)
        ensures
            r@ == join_with(self@, '\n'),
    {
        proof {
            reveal_strlit("\n");
        }
        join_strings(&self.entries, "\n")
    }
}

/// Whether `k` is one of the HTTP method keys.
fn is_http_method_str(k: &str) -> (b: bool)
    ensures
        b == is_http_method(k@),
{
    str_eq(k, "connect") || str_eq(k, "delete") || str_eq(k, "get") || str_eq(k, "head") || str_eq(
        k,
        "options",
    ) || str_eq(k, "patch") || str_eq(k, "post") || str_eq(k, "put") || str_eq(k, "trace")
}

/// The operation identifiers of every method entry in `contents`, in
/// document order.
pub fn list(contents: &str) -> (r: Result<ListResult, OpenapiSchemerError>)
    ensures
        match r {
            Ok(lr) => lr@ == method_ops_in(lines_of(contents@), 0),
            Err(_) => false,
        },
{
    let lines = split_lines(contents);
    let ghost ls = views_of(lines@);
    let mut entries: Vec<String> = Vec::new();
    let mut i: usize = 0;
    proof {
        assert(views_of(entries@) + method_ops_in(ls, 0) =~= method_ops_in(ls, 0));
    }
    while i < lines.len()
        invariant
            0 <= i <= lines@.len(),
            method_ops_in(ls, 0) == views_of(entries@) + method_ops_in(ls, i as int),
            ls == views_of(lines@),
        decreases lines@.len() - i,
    {
        let ghost head: Seq<Seq<char>> = if is_entry(ls[i as int]) && is_http_method(
            key_of(ls[i as int]),
        ) {
            let cs = child_entries(ls, i as int);
            let k = find_entry_pos(cs, "operationId"@);
            if k < cs.len() {
                seq![cs[k].value]
            } else {
                Seq::<Seq<char>>::empty()
            }
        } else {
            Seq::<Seq<char>>::empty()
        };
        proof {
            assert(method_ops_in(ls, i as int) == head + method_ops_in(ls, i as int + 1));
        }
        let mut matched = false;
        if line_is_entry(lines[i].as_str()) && is_http_method_str(
            key_string(lines[i].as_str()).as_str(),
        ) {
            let idxs = child_idx_list(&lines, i);
            proof {
                lemma_child_indices_range(ls, i as int);
                assert forall|p: int| 0 <= p < idxs@.len() implies (#[trigger] idxs@[p])
                    < lines@.len() && is_entry(views_of(lines@)[idxs@[p] as int]) by {
                    assert(child_indices(ls, i as int)[p] == idxs@[p] as int);
                }
            }
            let k = find_idx_by_key(&lines, &idxs, "operationId");
            proof {
                assert(entries_at(ls, idxs@.map_values(|u: usize| u as int)) == child_entries(
                    ls,
                    i as int,
                ));
            }
            if k < idxs.len() {
                matched = true;
                let v = value_string(lines[idxs[k]].as_str());
                let ghost old_entries = entries@;
                proof {
                    assert(child_entries(ls, i as int)[k as int].value == value_of(
                        ls[idxs@[k as int] as int],
                    ));
                }
                entries.push(v);
                proof {
                    assert(views_of(entries@) =~= views_of(old_entries) + head);
                    assert((views_of(old_entries) + head) + method_ops_in(ls, i as int + 1)
                        =~= views_of(old_entries) + (head + method_ops_in(ls, i as int + 1)));
                }
            }
        }
        if !matched {
            proof {
                assert(head =~~= Seq::<Seq<char>>::empty());
                assert(head + method_ops_in(ls, i as int + 1) =~~= method_ops_in(ls, i as int + 1));
            }
        }
        i = i + 1;
    }
    proof {
        assert(views_of(entries@) + Seq::<Seq<char>>::empty() =~= views_of(entries@));
    }
    Ok(ListResult::new(entries))
}

} // verus!
