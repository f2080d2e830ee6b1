//! Copy executor policy: skip-if-exists, and a model of the destination tree
//! under which whole-run copy behaviour is proved: a second identical run
//! copies nothing, and a repeated destination is written at most once.

use vstd::prelude::*;
use crate::naming::spec_content_filename;

verus! {

/// Skip-if-exists: a copy is performed only when the destination path is
/// free. The pipeline never overwrites an existing destination file.
pub fn should_copy(dest_exists: bool) -> (b: bool)
    ensures
        b == !dest_exists,
{
    !dest_exists
}

/// In the destination-tree model, whether processing `dest` writes a copy:
/// exactly when the tree does not hold that path yet.
pub open spec fn copy_performed(tree: Set<Seq<char>>, dest: Seq<char>) -> bool {
    !tree.contains(dest)
}

/// The destination tree after one candidate is processed: whether the copy
/// was performed or skipped, the path exists afterwards.
pub open spec fn tree_after_copy(tree: Set<Seq<char>>, dest: Seq<char>) -> Set<Seq<char>> {
    tree.insert(dest)
}

/// The destination tree after one whole run over a sequence of planned
/// destination paths.
pub open spec fn run_tree(tree: Set<Seq<char>>, dests: Seq<Seq<char>>) -> Set<Seq<char>>
    decreases dests.len(),
{
    if dests.len() == 0 {
        tree
    } else {
        run_tree(tree_after_copy(tree, dests[0]), dests.drop_first())
    }
}

/// How many copies one run performs over a sequence of planned destinations.
pub open spec fn run_copied_count(tree: Set<Seq<char>>, dests: Seq<Seq<char>>) -> nat
    decreases dests.len(),
{
    if dests.len() == 0 {
        0
    } else {
        (if copy_performed(tree, dests[0]) {
            1nat
        } else {
            0nat
        }) + run_copied_count(tree_after_copy(tree, dests[0]), dests.drop_first())
    }
}

/// A sequence contains an element exactly when its first element is it or
/// the rest contains it.
proof fn lemma_contains_split(dests: Seq<Seq<char>>, x: Seq<char>)
    requires
        dests.len() > 0,
    ensures
        dests.contains(x) <==> (x == dests[0] || dests.drop_first().contains(x)),
{
    if dests.contains(x) {
        let i = choose|i: int| 0 <= i < dests.len() && dests[i] == x;
        if i > 0 {
            assert(dests.drop_first()[i - 1] == x);
        }
    }
    if dests.drop_first().contains(x) {
        let j = choose|j: int| 0 <= j < dests.drop_first().len() && dests.drop_first()[j] == x;
        assert(dests[j + 1] == x);
    }
}

/// After a run the destination tree holds exactly the paths it held before
/// and the planned ones: every copy lands, nothing else appears, and
/// nothing is removed.
pub proof fn lemma_run_tree_contents(tree: Set<Seq<char>>, dests: Seq<Seq<char>>)
    ensures
        run_tree(tree, dests) =~= tree.union(dests.to_set()),
    decreases dests.len(),
{
    if dests.len() == 0 {
        assert(run_tree(tree, dests) =~= tree.union(dests.to_set()));
    } else {
        lemma_run_tree_contents(tree_after_copy(tree, dests[0]), dests.drop_first());
        assert forall|x: Seq<char>|
            run_tree(tree, dests).contains(x) <==> tree.union(dests.to_set()).contains(x) by {
            lemma_contains_split(dests, x);
        }
    }
}

/// A run over destinations the tree already holds changes nothing and
/// copies nothing.
proof fn lemma_run_on_covered_tree(tree: Set<Seq<char>>, dests: Seq<Seq<char>>)
    requires
        forall|i: int| 0 <= i < dests.len() ==> tree.contains(#[trigger] dests[i]),
    ensures
        run_tree(tree, dests) == tree,
        run_copied_count(tree, dests) == 0,
    decreases dests.len(),
{
    if dests.len() == 0 {
    } else {
        assert(tree_after_copy(tree, dests[0]) =~= tree);
        assert(forall|j: int|
            0 <= j < dests.drop_first().len() ==> tree.contains(#[trigger] dests.drop_first()[j]));
        lemma_run_on_covered_tree(tree, dests.drop_first());
    }
}

/// Copy idempotence: running the pipeline a second time over the same
/// planned destinations copies nothing and leaves the destination tree
/// exactly as the first run left it.
pub proof fn lemma_rerun_copies_nothing(tree: Set<Seq<char>>, dests: Seq<Seq<char>>)
    ensures
        run_tree(run_tree(tree, dests), dests) == run_tree(tree, dests),
        run_copied_count(run_tree(tree, dests), dests) == 0,
{
    let t1 = run_tree(tree, dests);
    lemma_run_tree_contents(tree, dests);
    assert forall|i: int| 0 <= i < dests.len() implies t1.contains(#[trigger] dests[i]) by {
        assert(dests.contains(dests[i]));
    }
    lemma_run_on_covered_tree(t1, dests);
}

/// Content-based deduplication: when two planned destinations coincide (as
/// content-addressed names of byte-identical files do), the later one is
/// skipped, not written again.
pub proof fn lemma_duplicate_dest_skipped(
    tree: Set<Seq<char>>,
    dests: Seq<Seq<char>>,
    i: int,
    j: int,
)
    requires
        0 <= i < j < dests.len(),
        dests[i] == dests[j],
    ensures
        !copy_performed(run_tree(tree, dests.take(j)), dests[j]),
{
    lemma_run_tree_contents(tree, dests.take(j));
    assert(dests.take(j)[i] == dests[i]);
    assert(dests.take(j).contains(dests[i]));
}

/// Content-addressed naming determinism: two source files with
/// byte-identical contents and equal extensions plan the same destination
/// name, so the later of the two is skipped — deduplicated, not written
/// again.
pub proof fn lemma_content_dedup(
    tree: Set<Seq<char>>,
    dests: Seq<Seq<char>>,
    i: int,
    j: int,
    data1: Seq<u8>,
    data2: Seq<u8>,
    ext: Seq<char>,
)
    requires
        0 <= i < j < dests.len(),
        data1 == data2,
        dests[i] == spec_content_filename(data1, ext),
        dests[j] == spec_content_filename(data2, ext),
    ensures
        !copy_performed(run_tree(tree, dests.take(j)), dests[j]),
{
    lemma_duplicate_dest_skipped(tree, dests, i, j);
}

} // verus!
