//! The general laws of the document model, each stated over the spec
//! functions that the public contracts use and proved once and for all.

use vstd::prelude::*;

verus! {

use crate::xml::model::{depth_delta, doc_name, elem_name, find_close, first_subtree_named};
use crate::xml::model::{is_single_rooted, max_depth, render_doc, running_depth, spec_get_subtree};
use crate::xml::model::{spec_subtrees, spec_subtrees_from, subtree_step, well_formed_single_root};
use crate::xml::model::{lemma_running_le_max, AttrModel, ElemModel};

/// The depth of an empty document is 0.
pub proof fn lemma_depth_of_empty_document(d: Seq<ElemModel>)
    requires
        d.len() == 0,
    ensures
        max_depth(d) == 0,
{
}

/// The nesting counter distributes over concatenation.
proof fn lemma_running_concat(a: Seq<ElemModel>, b: Seq<ElemModel>)
    ensures
        running_depth(a + b) == running_depth(a) + running_depth(b),
    decreases b.len(),
{
    if b.len() == 0 {
        assert(a + b =~= a);
    } else {
        lemma_running_concat(a, b.drop_last());
        assert((a + b).drop_last() =~= a + b.drop_last());
        assert((a + b).last() == b.last());
    }
}

/// Putting one opening tag in front of a document pushes its whole
/// depth profile down by one level.
proof fn lemma_depth_after_open(o: ElemModel, d: Seq<ElemModel>)
    requires
        o is OpenTag,
    ensures
        running_depth(seq![o] + d) == 1 + running_depth(d),
        max_depth(seq![o] + d) == 1 + max_depth(d),
    decreases d.len(),
{
    if d.len() == 0 {
        assert(running_depth(Seq::<ElemModel>::empty()) == 0);
        assert(max_depth(Seq::<ElemModel>::empty()) == 0);
        assert(seq![o].drop_last() =~= Seq::<ElemModel>::empty());
        assert(running_depth(seq![o]) == 1);
        assert(max_depth(seq![o]) == 1);
        assert(seq![o] + d =~= seq![o]);
    } else {
        lemma_depth_after_open(o, d.drop_last());
        assert((seq![o] + d).drop_last() =~= seq![o] + d.drop_last());
        assert((seq![o] + d).last() == d.last());
        assert(running_depth(seq![o] + d) == running_depth(seq![o] + d.drop_last())
            + depth_delta(d.last()));
        assert(running_depth(seq![o] + d) == 1 + running_depth(d));
        assert(max_depth(seq![o] + d) == vstd::math::max(
            max_depth(seq![o] + d.drop_last()),
            running_depth(seq![o] + d),
        ));
        assert(max_depth(seq![o] + d) == 1 + max_depth(d));
    }
}

/// Wrapping any document in one more `OpenTag`/`CloseTag` pair adds
/// exactly 1 to its depth: each additional uniform nesting level adds
/// exactly one.
pub proof fn lemma_depth_of_nesting(o: ElemModel, c: ElemModel, d: Seq<ElemModel>)
    requires
        o is OpenTag,
        c is ElementEnd,
    ensures
        max_depth(seq![o] + d + seq![c]) == 1 + max_depth(d),
{
    let w = seq![o] + d + seq![c];
    lemma_depth_after_open(o, d);
    lemma_running_le_max(d);
    assert(w.drop_last() =~= seq![o] + d);
    assert(w.last() == c);
}

/// A self-closing tag never affects the depth of a document, wherever
/// it stands.
pub proof fn lemma_empty_tag_depth_invisible(e: ElemModel, a: Seq<ElemModel>, b: Seq<ElemModel>)
    requires
        e is EmptyTag,
    ensures
        running_depth(a + seq![e] + b) == running_depth(a + b),
        max_depth(a + seq![e] + b) == max_depth(a + b),
    decreases b.len(),
{
    if b.len() == 0 {
        assert(a + seq![e] + b =~= a + seq![e]);
        assert(a + b =~= a);
        assert((a + seq![e]).drop_last() =~= a);
        assert((a + seq![e]).last() == e);
        lemma_running_le_max(a);
    } else {
        lemma_empty_tag_depth_invisible(e, a, b.drop_last());
        assert((a + seq![e] + b).drop_last() =~= a + seq![e] + b.drop_last());
        assert((a + seq![e] + b).last() == b.last());
        assert((a + b).drop_last() =~= a + b.drop_last());
        assert((a + b).last() == b.last());
    }
}

/// The partitioner yields a self-closing tag as a subtree of exactly
/// one element.
pub proof fn lemma_empty_tag_single_element_subtree(d: Seq<ElemModel>, i: int)
    requires
        0 <= i < d.len(),
        d[i] is EmptyTag,
    ensures
        subtree_step(d, i) == Some((seq![d[i]], i + 1)),
{
}

/// Partitioning is a function of the document alone: partitioning equal
/// documents yields equal subtree sequences with equal renderings, so
/// iterating the subtrees twice yields the same sequence both times.
pub proof fn lemma_partition_restartable(d1: Seq<ElemModel>, d2: Seq<ElemModel>)
    requires
        d1 == d2,
    ensures
        spec_subtrees(d1) == spec_subtrees(d2),
        spec_subtrees(d1).map_values(|s: Seq<ElemModel>| render_doc(s)) == spec_subtrees(
            d2,
        ).map_values(|s: Seq<ElemModel>| render_doc(s)),
{
}

/// When the first match for a name stands at position `k` of a subtree
/// sequence, the search returns it, however many matches follow.
pub proof fn lemma_first_match_wins(parts: Seq<Seq<ElemModel>>, n: Seq<char>, k: int)
    requires
        0 <= k < parts.len(),
        doc_name(parts[k]) == Some(n),
        forall|j: int| 0 <= j < k ==> doc_name(parts[j]) != Some(n),
    ensures
        first_subtree_named(parts, n) == Some(parts[k]),
    decreases k,
{
    if k > 0 {
        lemma_first_match_wins(parts.drop_first(), n, k - 1);
        assert(parts.drop_first()[k - 1] == parts[k]);
    }
}

/// The matching-close scan, walking from `j` with `depth` unmatched
/// opens, stops exactly at the final position when the counter stays
/// positive up to it and returns to 1 there, on a closing tag.
proof fn lemma_find_close_scan(d: Seq<ElemModel>, j: int, depth: int)
    requires
        0 <= j < d.len(),
        d[d.len() - 1] is ElementEnd,
        depth >= 1,
        forall|k: int|
            j <= k < d.len() - 1 ==> depth + #[trigger] running_depth(d.subrange(j, k + 1)) >= 1,
        depth + running_depth(d.subrange(j, d.len() - 1)) == 1,
    ensures
        find_close(d, j, depth) == Some(d.len() - 1),
    decreases d.len() - j,
{
    let last = d.len() - 1;
    if j == last {
        assert(d.subrange(j, last) =~= Seq::<ElemModel>::empty());
        assert(depth == 1);
    } else {
        let dj = depth_delta(d[j]);
        assert(d.subrange(j, j + 1) =~= seq![d[j]]);
        assert(seq![d[j]].drop_last() =~= Seq::<ElemModel>::empty());
        assert(running_depth(Seq::<ElemModel>::empty()) == 0);
        assert(seq![d[j]].last() == d[j]);
        assert(running_depth(seq![d[j]]) == dj);
        assert(running_depth(d.subrange(j, j + 1)) == dj);
        assert forall|k: int|
            j + 1 <= k < last implies (depth + dj) + #[trigger] running_depth(
            d.subrange(j + 1, k + 1),
        ) >= 1 by {
            assert(d.subrange(j, k + 1) =~= d.subrange(j, j + 1) + d.subrange(j + 1, k + 1));
            lemma_running_concat(d.subrange(j, j + 1), d.subrange(j + 1, k + 1));
            assert(depth + running_depth(d.subrange(j, k + 1)) >= 1);
        }
        assert(d.subrange(j, last) =~= d.subrange(j, j + 1) + d.subrange(j + 1, last));
        lemma_running_concat(d.subrange(j, j + 1), d.subrange(j + 1, last));
        match d[j] {
            ElemModel::OpenTag(_, _) => {
                lemma_find_close_scan(d, j + 1, depth + 1);
            }
            ElemModel::ElementEnd(_) => {
                assert(depth + running_depth(d.subrange(j, j + 1)) >= 1);
                lemma_find_close_scan(d, j + 1, depth - 1);
            }
            _ => {
                lemma_find_close_scan(d, j + 1, depth);
            }
        }
    }
}

/// A well-formed single-root document is one subtree: the partitioner
/// yields the whole document in a single step.
pub proof fn lemma_single_root_partitions_whole(d: Seq<ElemModel>)
    requires
        well_formed_single_root(d),
    ensures
        spec_subtrees(d) == seq![d],
        is_single_rooted(d),
{
    let last = d.len() - 1;
    lemma_find_close_scan(d, 1, 1);
    assert(find_close(d, 1, 1) == Some(last));
    assert(subtree_step(d, 0) == Some((d.subrange(0, last + 1), last + 1)));
    assert(d.subrange(0, last + 1) =~= d);
    assert(spec_subtrees_from(d, d.len() as int) =~= Seq::<Seq<ElemModel>>::empty());
    assert(spec_subtrees(d) =~= seq![d]);
}

/// The decided semantics of querying a well-formed single-root document
/// for its own root name: the whole document comes back (the root
/// itself is the one top-level subtree), not nothing.
pub proof fn lemma_query_for_root_name(d: Seq<ElemModel>, n: Seq<char>)
    requires
        well_formed_single_root(d),
        elem_name(d[0]) == Some(n),
    ensures
        spec_get_subtree(d, n) == Some(d),
{
    lemma_single_root_partitions_whole(d);
    assert(doc_name(d) == Some(n));
    assert(first_subtree_named(seq![d], n) == Some(d));
}

/// Querying a well-formed single-root document for any other name
/// searches exactly the top-level children of the root, one level in.
pub proof fn lemma_query_searches_children(d: Seq<ElemModel>, n: Seq<char>)
    requires
        well_formed_single_root(d),
        elem_name(d[0]) != Some(n),
    ensures
        spec_get_subtree(d, n) == first_subtree_named(
            spec_subtrees(d.subrange(1, d.len() - 1)),
            n,
        ),
{
    lemma_single_root_partitions_whole(d);
    assert(doc_name(d) != Some(n));
    assert(seq![d][0] == d);
    assert(seq![d].drop_first() =~= Seq::<Seq<ElemModel>>::empty());
    assert(first_subtree_named(Seq::<Seq<ElemModel>>::empty(), n) is None);
    assert(first_subtree_named(seq![d], n) is None);
}

} // verus!

