//! Registry-level laws: properties of any finite sequence of extend-or-create
//! steps whose candidates form a tree rooted at a genesis block.
//!
//! The central results: the registry never tracks two branches with equal tip
//! hashes, and after applying a whole candidate tree the registry holds one
//! branch per leaf of that tree.

use vstd::prelude::*;

use crate::branch::{
    first_match, handle_index, lemma_first_match, spec_apply, BlockRefView, TipView,
};

verus! {

/// No two tracked tips report the same hash.
pub open spec fn distinct_tips(tips: Seq<TipView>) -> bool {
    forall|i: int, j: int|
        0 <= i < j < tips.len() ==> tips[i].reference.hash != tips[j].reference.hash
}

/// Candidate `k`'s parent is the genesis block or an earlier candidate.
pub open spec fn parent_ok(cs: Seq<BlockRefView>, genesis: Seq<char>, k: int) -> bool {
    cs[k].parent_hash == genesis || exists|m: int|
        0 <= m < k && #[trigger] cs[m].hash == cs[k].parent_hash
}

/// The candidates form a tree rooted at the genesis block: each candidate's
/// parent is genesis or a previously applied candidate, all candidate hashes
/// are distinct, and no candidate reuses the genesis hash.
pub open spec fn is_tree(cs: Seq<BlockRefView>, genesis: Seq<char>) -> bool {
    &&& forall|k: int| 0 <= k < cs.len() ==> #[trigger] parent_ok(cs, genesis, k)
    &&& forall|k: int, m: int| 0 <= k < m < cs.len() ==> cs[k].hash != cs[m].hash
    &&& forall|k: int| 0 <= k < cs.len() ==> #[trigger] cs[k].hash != genesis
}

/// Candidate `k` is a leaf of the candidate tree: no candidate names its
/// hash as a parent.
pub open spec fn is_leaf(cs: Seq<BlockRefView>, k: int) -> bool {
    &&& 0 <= k < cs.len()
    &&& forall|j: int| 0 <= j < cs.len() ==> #[trigger] cs[j].parent_hash != cs[k].hash
}

/// The number of leaves among the first `n` candidates.
pub open spec fn count_leaves(cs: Seq<BlockRefView>, n: int) -> int
    decreases n,
{
    if n <= 0 {
        0
    } else {
        count_leaves(cs, n - 1) + if is_leaf(cs, n - 1) {
            1int
        } else {
            0int
        }
    }
}

/// The number of leaves of the candidate tree.
pub open spec fn leaf_count(cs: Seq<BlockRefView>) -> int {
    count_leaves(cs, cs.len() as int)
}

/// The registry contents after offering every candidate in order to an
/// initially empty registry whose clock starts at `clock0`.
pub open spec fn apply_all(cs: Seq<BlockRefView>, clock0: nat) -> Seq<TipView>
    decreases cs.len(),
{
    if cs.len() == 0 {
        Seq::<TipView>::empty()
    } else {
        spec_apply(apply_all(cs.drop_last(), clock0), cs.last(), (clock0 + cs.len()) as nat)
    }
}

/// Extending the candidate sequence by one candidate applies one more
/// extend-or-create step to the registry the shorter sequence produced: the
/// bridge between a single call's contract and the whole fold.
pub proof fn lemma_apply_all_snoc(cs: Seq<BlockRefView>, c: BlockRefView, clock0: nat)
    ensures
        apply_all(cs.push(c), clock0) == spec_apply(
            apply_all(cs, clock0),
            c,
            (clock0 + cs.len() + 1) as nat,
        ),
{
    let whole = cs.push(c);
    assert(whole.drop_last() =~= cs);
    assert(whole.last() == c);
}

/// The most recently applied candidate is always a leaf of the tree.
proof fn lemma_last_is_leaf(cs: Seq<BlockRefView>, genesis: Seq<char>)
    requires
        is_tree(cs, genesis),
        cs.len() > 0,
    ensures
        is_leaf(cs, cs.len() - 1),
{
    let last = cs.len() - 1;
    assert forall|j: int| 0 <= j < cs.len() implies #[trigger] cs[j].parent_hash
        != cs[last].hash by {
        assert(parent_ok(cs, genesis, j));
        if cs[j].parent_hash == genesis {
            assert(cs[last].hash != genesis);
        } else {
            let m = choose|m: int| 0 <= m < j && #[trigger] cs[m].hash == cs[j].parent_hash;
            assert(cs[m].hash != cs[last].hash);
        }
    }
}

/// A prefix of a candidate tree is itself a candidate tree.
proof fn lemma_tree_prefix(cs: Seq<BlockRefView>, genesis: Seq<char>)
    requires
        is_tree(cs, genesis),
        cs.len() > 0,
    ensures
        is_tree(cs.drop_last(), genesis),
{
    let prefix = cs.drop_last();
    assert forall|k: int| 0 <= k < prefix.len() implies #[trigger] parent_ok(
        prefix,
        genesis,
        k,
    ) by {
        assert(parent_ok(cs, genesis, k));
        if cs[k].parent_hash != genesis {
            let m = choose|m: int| 0 <= m < k && #[trigger] cs[m].hash == cs[k].parent_hash;
            assert(prefix[m].hash == prefix[k].parent_hash);
        }
    }
}

/// A leaf of the whole tree below the last candidate is a leaf of the prefix;
/// conversely a prefix leaf stays a leaf unless the last candidate extends it.
proof fn lemma_leaf_step(cs: Seq<BlockRefView>, k: int)
    requires
        cs.len() > 0,
        0 <= k < cs.len() - 1,
    ensures
        is_leaf(cs, k) <==> (is_leaf(cs.drop_last(), k) && cs.last().parent_hash != cs[k].hash),
{
    let prefix = cs.drop_last();
    if is_leaf(cs, k) {
        assert forall|j: int| 0 <= j < prefix.len() implies #[trigger] prefix[j].parent_hash
            != prefix[k].hash by {
            assert(cs[j].parent_hash != cs[k].hash);
        }
        assert(cs[cs.len() - 1].parent_hash != cs[k].hash);
    }
    if is_leaf(prefix, k) && cs.last().parent_hash != cs[k].hash {
        assert forall|j: int| 0 <= j < cs.len() implies #[trigger] cs[j].parent_hash
            != cs[k].hash by {
            if j < cs.len() - 1 {
                assert(prefix[j].parent_hash != prefix[k].hash);
            }
        }
    }
}

/// Counting leaves among the first `n` candidates, the whole tree and its
/// prefix agree except at a single pivot index where a prefix leaf gained a
/// child.
proof fn lemma_count_compare(cs: Seq<BlockRefView>, pivot: int, n: int)
    requires
        cs.len() > 0,
        0 <= n <= cs.len() - 1,
        forall|j: int|
            0 <= j < cs.len() - 1 && j != pivot ==> (is_leaf(cs, j) <==> is_leaf(
                cs.drop_last(),
                j,
            )),
        0 <= pivot < cs.len() - 1 ==> is_leaf(cs.drop_last(), pivot) && !is_leaf(cs, pivot),
    ensures
        count_leaves(cs, n) == count_leaves(cs.drop_last(), n) - if 0 <= pivot < n {
            1int
        } else {
            0int
        },
    decreases n,
{
    if n > 0 {
        lemma_count_compare(cs, pivot, n - 1);
    }
}

/// The induction invariant tying a registry state to the candidate tree that
/// produced it: tip hashes are pairwise distinct, every tip holds a leaf's
/// hash, every leaf's hash is held by a tip, and the registry size equals the
/// leaf count.
pub open spec fn tips_match_leaves(tips: Seq<TipView>, cs: Seq<BlockRefView>) -> bool {
    &&& distinct_tips(tips)
    &&& tips.len() == leaf_count(cs)
    &&& forall|i: int|
        0 <= i < tips.len() ==> exists|k: int|
            is_leaf(cs, k) && cs[k].hash == #[trigger] tips[i].reference.hash
    &&& forall|k: int|
        #[trigger] is_leaf(cs, k) ==> exists|i: int|
            0 <= i < tips.len() && tips[i].reference.hash == cs[k].hash
}

/// The extension step preserves the invariant: the newest candidate's parent
/// hash is held by some tip, which is replaced by the candidate.
#[verifier::spinoff_prover]
#[verifier::rlimit(100)]
proof fn lemma_step_extension(cs: Seq<BlockRefView>, genesis: Seq<char>, before: Seq<TipView>, now: nat)
    requires
        is_tree(cs, genesis),
        cs.len() > 0,
        tips_match_leaves(before, cs.drop_last()),
        first_match(before, cs.last().parent_hash) >= 0,
    ensures
        tips_match_leaves(spec_apply(before, cs.last(), now), cs),
{
    let prefix = cs.drop_last();
    let c = cs.last();
    let last = cs.len() - 1;
    let r = spec_apply(before, c, now);
    let fm = first_match(before, c.parent_hash);
    lemma_first_match(before, c.parent_hash);
    lemma_last_is_leaf(cs, genesis);
    assert(r == before.update(fm, TipView { reference: c, last_updated: now }));

    // The freshly applied candidate's hash is new to the registry.
    assert forall|i: int| 0 <= i < before.len() implies #[trigger] before[i].reference.hash
        != c.hash by {
        let k = choose|k: int|
            is_leaf(prefix, k) && prefix[k].hash == #[trigger] before[i].reference.hash;
        assert(cs[k].hash != cs[last].hash);
    }

    // Leaf status changes only at the branch the candidate extends.
    assert forall|j: int| 0 <= j < last implies (is_leaf(cs, j) <==> (is_leaf(prefix, j)
        && c.parent_hash != cs[j].hash)) by {
        lemma_leaf_step(cs, j);
    }

    // The tip holding the candidate's parent corresponds to a unique
    // candidate, which stops being a leaf.
    assert(before[fm].reference.hash == c.parent_hash);
    let k0 = choose|k: int|
        is_leaf(prefix, k) && prefix[k].hash == #[trigger] before[fm].reference.hash;
    assert(!is_leaf(cs, k0)) by {
        assert(cs[last].parent_hash == cs[k0].hash);
    }
    assert forall|j: int| 0 <= j < last && j != k0 implies (is_leaf(cs, j) <==> is_leaf(
        prefix,
        j,
    )) by {
        if prefix[j].hash == c.parent_hash {
            assert(cs[j].hash == cs[k0].hash);
            assert(j == k0);
        }
    }
    lemma_count_compare(cs, k0, last);
    assert(leaf_count(cs) == count_leaves(cs, last) + 1);
    assert(leaf_count(prefix) == count_leaves(prefix, last));
    assert(r.len() == leaf_count(cs));

    // Distinctness is preserved.
    assert forall|i: int, j: int|
        0 <= i < j < r.len() implies r[i].reference.hash != r[j].reference.hash by {
        if i != fm && j != fm {
            assert(r[i] == before[i] && r[j] == before[j]);
        }
    }

    // Every tip is a leaf of the extended tree.
    assert forall|i: int| 0 <= i < r.len() implies exists|k: int|
        is_leaf(cs, k) && cs[k].hash == #[trigger] r[i].reference.hash by {
        if i == fm {
            assert(is_leaf(cs, last) && cs[last].hash == r[i].reference.hash);
        } else {
            let k = choose|k: int|
                is_leaf(prefix, k) && prefix[k].hash == #[trigger] before[i].reference.hash;
            assert(before[i].reference.hash != before[fm].reference.hash);
            assert(c.parent_hash != cs[k].hash);
            assert(is_leaf(cs, k) && cs[k].hash == r[i].reference.hash);
        }
    }

    // Every leaf of the extended tree is a tip.
    assert forall|k: int| #[trigger] is_leaf(cs, k) implies exists|i: int|
        0 <= i < r.len() && r[i].reference.hash == cs[k].hash by {
        if k == last {
            assert(r[fm].reference.hash == cs[last].hash);
        } else {
            assert(is_leaf(prefix, k));
            let i = choose|i: int|
                0 <= i < before.len() && before[i].reference.hash == prefix[k].hash;
            assert(cs[last].parent_hash != cs[k].hash);
            if i == fm {
                assert(before[fm].reference.hash == c.parent_hash);
                assert(false);
            }
            assert(r[i].reference.hash == cs[k].hash);
        }
    }
}

/// The fork step preserves the invariant: no tip holds the newest
/// candidate's parent hash, so a new branch is appended.
#[verifier::spinoff_prover]
#[verifier::rlimit(100)]
proof fn lemma_step_fork(cs: Seq<BlockRefView>, genesis: Seq<char>, before: Seq<TipView>, now: nat)
    requires
        is_tree(cs, genesis),
        cs.len() > 0,
        tips_match_leaves(before, cs.drop_last()),
        first_match(before, cs.last().parent_hash) < 0,
    ensures
        tips_match_leaves(spec_apply(before, cs.last(), now), cs),
{
    let prefix = cs.drop_last();
    let c = cs.last();
    let last = cs.len() - 1;
    let r = spec_apply(before, c, now);
    lemma_first_match(before, c.parent_hash);
    lemma_last_is_leaf(cs, genesis);
    assert(r == before.push(TipView { reference: c, last_updated: now }));

    assert forall|i: int| 0 <= i < before.len() implies #[trigger] before[i].reference.hash
        != c.hash by {
        let k = choose|k: int|
            is_leaf(prefix, k) && prefix[k].hash == #[trigger] before[i].reference.hash;
        assert(cs[k].hash != cs[last].hash);
    }

    assert forall|j: int| 0 <= j < last implies (is_leaf(cs, j) <==> (is_leaf(prefix, j)
        && c.parent_hash != cs[j].hash)) by {
        lemma_leaf_step(cs, j);
    }

    // No prefix leaf holds the candidate's parent hash, so leaf status is
    // unchanged below the new candidate.
    assert forall|j: int| 0 <= j < last implies (is_leaf(cs, j) <==> is_leaf(prefix, j)) by {
        if is_leaf(prefix, j) && prefix[j].hash == c.parent_hash {
            let i = choose|i: int|
                0 <= i < before.len() && before[i].reference.hash == prefix[j].hash;
            assert(before[i].reference.hash == c.parent_hash);
            assert(false);
        }
    }
    lemma_count_compare(cs, -1, last);
    assert(leaf_count(cs) == count_leaves(cs, last) + 1);
    assert(leaf_count(prefix) == count_leaves(prefix, last));
    assert(r.len() == leaf_count(cs));

    assert forall|i: int, j: int|
        0 <= i < j < r.len() implies r[i].reference.hash != r[j].reference.hash by {
        if j == before.len() {
            assert(before[i].reference.hash != c.hash);
        }
    }

    assert forall|i: int| 0 <= i < r.len() implies exists|k: int|
        is_leaf(cs, k) && cs[k].hash == #[trigger] r[i].reference.hash by {
        if i == before.len() {
            assert(is_leaf(cs, last) && cs[last].hash == r[i].reference.hash);
        } else {
            let k = choose|k: int|
                is_leaf(prefix, k) && prefix[k].hash == #[trigger] before[i].reference.hash;
            if c.parent_hash == cs[k].hash {
                assert(before[i].reference.hash == c.parent_hash);
                assert(false);
            }
            assert(is_leaf(cs, k) && cs[k].hash == r[i].reference.hash);
        }
    }

    assert forall|k: int| #[trigger] is_leaf(cs, k) implies exists|i: int|
        0 <= i < r.len() && r[i].reference.hash == cs[k].hash by {
        if k == last {
            assert(r[before.len() as int].reference.hash == cs[last].hash);
        } else {
            assert(is_leaf(prefix, k));
            let i = choose|i: int|
                0 <= i < before.len() && before[i].reference.hash == prefix[k].hash;
            assert(r[i].reference.hash == cs[k].hash);
        }
    }
}

/// The heart of the registry laws, by induction over the candidate sequence:
/// after applying a candidate tree to an empty registry, the registry's tips
/// are exactly the tree's leaves.
proof fn lemma_apply_all_tree(cs: Seq<BlockRefView>, genesis: Seq<char>, clock0: nat)
    requires
        is_tree(cs, genesis),
    ensures
        tips_match_leaves(apply_all(cs, clock0), cs),
    decreases cs.len(),
{
    if cs.len() == 0 {
        assert(leaf_count(cs) == 0);
    } else {
        let prefix = cs.drop_last();
        let now = (clock0 + cs.len()) as nat;
        lemma_tree_prefix(cs, genesis);
        lemma_apply_all_tree(prefix, genesis, clock0);
        let before = apply_all(prefix, clock0);
        assert(apply_all(cs, clock0) == spec_apply(before, cs.last(), now));
        if first_match(before, cs.last().parent_hash) >= 0 {
            lemma_step_extension(cs, genesis, before, now);
        } else {
            lemma_step_fork(cs, genesis, before, now);
        }
    }
}

/// Tree-leaves law: after any finite sequence of extend-or-create steps whose
/// candidates form a tree rooted at genesis, the registry's size equals the
/// number of leaves of that tree.
pub proof fn lemma_tree_leaves(cs: Seq<BlockRefView>, genesis: Seq<char>, clock0: nat)
    requires
        is_tree(cs, genesis),
    ensures
        apply_all(cs, clock0).len() == leaf_count(cs),
{
    lemma_apply_all_tree(cs, genesis, clock0);
}

/// No-duplicate law: after any finite sequence of extend-or-create steps
/// whose candidates form a tree rooted at genesis, no two registry members
/// report equal tip hashes.
pub proof fn lemma_no_duplicate_tips(cs: Seq<BlockRefView>, genesis: Seq<char>, clock0: nat)
    requires
        is_tree(cs, genesis),
    ensures
        distinct_tips(apply_all(cs, clock0)),
{
    lemma_apply_all_tree(cs, genesis, clock0);
}

/// One extend-or-create step preserves distinct tip hashes whenever the
/// candidate's own hash is fresh: not yet the hash of any tracked tip.
pub proof fn lemma_step_preserves_distinct(tips: Seq<TipView>, c: BlockRefView, now: nat)
    requires
        distinct_tips(tips),
        forall|i: int| 0 <= i < tips.len() ==> #[trigger] tips[i].reference.hash != c.hash,
    ensures
        distinct_tips(spec_apply(tips, c, now)),
{
    let r = spec_apply(tips, c, now);
    let fm = first_match(tips, c.parent_hash);
    lemma_first_match(tips, c.parent_hash);
    assert forall|i: int, j: int|
        0 <= i < j < r.len() implies r[i].reference.hash != r[j].reference.hash by {
        if fm >= 0 {
            if i != fm && j != fm {
                assert(r[i] == tips[i] && r[j] == tips[j]);
            }
        } else {
            if j == tips.len() {
                assert(tips[i].reference.hash != c.hash);
            }
        }
    }
}

/// Extension law: when the candidate's parent hash equals an existing tip's
/// hash, an extend-or-create step leaves the registry size unchanged, the
/// branch it returns now holds the candidate, and every other branch is
/// untouched.
pub proof fn lemma_extension(tips: Seq<TipView>, c: BlockRefView, now: nat)
    requires
        exists|i: int| 0 <= i < tips.len() && #[trigger] tips[i].reference.hash == c.parent_hash,
    ensures
        spec_apply(tips, c, now).len() == tips.len(),
        0 <= handle_index(tips, c) < tips.len(),
        spec_apply(tips, c, now)[handle_index(tips, c)].reference == c,
        forall|j: int|
            0 <= j < tips.len() && j != handle_index(tips, c) ==> spec_apply(tips, c, now)[j]
                == tips[j],
{
    lemma_first_match(tips, c.parent_hash);
    let fm = first_match(tips, c.parent_hash);
    if fm == -1 {
        let i = choose|i: int|
            0 <= i < tips.len() && #[trigger] tips[i].reference.hash == c.parent_hash;
        assert(tips[i].reference.hash != c.parent_hash);
    }
}

/// Fork law: when the candidate's parent hash matches no existing tip, an
/// extend-or-create step grows the registry by exactly one branch, which
/// holds the candidate, and every existing branch is untouched.
pub proof fn lemma_fork(tips: Seq<TipView>, c: BlockRefView, now: nat)
    requires
        forall|i: int| 0 <= i < tips.len() ==> #[trigger] tips[i].reference.hash != c.parent_hash,
    ensures
        spec_apply(tips, c, now).len() == tips.len() + 1,
        handle_index(tips, c) == tips.len(),
        spec_apply(tips, c, now)[handle_index(tips, c)].reference == c,
        forall|j: int| 0 <= j < tips.len() ==> spec_apply(tips, c, now)[j] == tips[j],
{
    lemma_first_match(tips, c.parent_hash);
    let fm = first_match(tips, c.parent_hash);
    if fm != -1 {
        assert(tips[fm].reference.hash != c.parent_hash);
    }
}

} // verus!
