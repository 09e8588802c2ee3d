//! The branch registry: the node's local view of all currently known chain
//! tips ("branches"). A candidate block either extends the unique tip whose
//! hash equals the candidate's parent hash, or starts a new branch.
//!
//! The registry is a plain sequential state machine; an embedding program
//! serializes access to it (a lock or an owning actor task) and may hand out
//! `Branch` handles for direct single-branch reads and updates.

use vstd::prelude::*;

verus! {

/// Mathematical model of a block reference: the block's own hash and the
/// hash of its predecessor.
#[verifier::ext_equal]
pub ghost struct BlockRefView {
    pub hash: Seq<char>,
    pub parent_hash: Seq<char>,
}

/// An immutable reference to an already-validated block. It carries the
/// block's unique hash and the hash of its parent block.
pub struct BlockRef {
    hash: String,
    parent_hash: String,
}

impl View for BlockRef {
    type V = BlockRefView;

    closed spec fn view(&self) -> BlockRefView {
        BlockRefView { hash: self.hash@, parent_hash: self.parent_hash@ }
    }
}

impl Clone for BlockRef {
    fn clone(&self) -> (r: Self)
        ensures
            r@ == self@,
    {
        BlockRef { hash: self.hash.clone(), parent_hash: self.parent_hash.clone() }
    }
}

impl BlockRef {
    pub fn new(hash: String, parent_hash: String) -> (r: BlockRef)
        ensures
            r@ == (BlockRefView { hash: hash@, parent_hash: parent_hash@ }),
    {
        BlockRef { hash, parent_hash }
    }

    pub fn hash(&self) -> (r: &String)
        ensures
            r@ == self@.hash,
    {
        &self.hash
    }

    pub fn parent_hash(&self) -> (r: &String)
        ensures
            r@ == self@.parent_hash,
    {
        &self.parent_hash
    }
}

/// Mathematical model of one branch tip.
#[verifier::ext_equal]
pub ghost struct TipView {
    pub reference: BlockRefView,
    pub last_updated: nat,
}

/// One fork head: the reference to the block the branch currently points to,
/// together with the registry clock value of its most recent update.
pub struct BranchTip {
    reference: BlockRef,
    last_updated: u64,
}

impl View for BranchTip {
    type V = TipView;

    closed spec fn view(&self) -> TipView {
        TipView { reference: self.reference@, last_updated: self.last_updated as nat }
    }
}

impl BranchTip {
    /// Creates the tip data, stamped with the given clock value.
    pub fn new(reference: BlockRef, now: u64) -> (r: BranchTip)
        ensures
            r@ == (TipView { reference: reference@, last_updated: now as nat }),
    {
        BranchTip { reference, last_updated: now }
    }

    /// Returns the block reference the branch currently points to.
    pub fn reference(&self) -> (r: BlockRef)
        ensures
            r@ == self@.reference,
    {
        self.reference.clone()
    }

    /// Unconditionally replaces the tip, returning the previous reference
    /// and refreshing the update stamp.
    pub fn update(&mut self, reference: BlockRef, now: u64) -> (prev: BlockRef)
        ensures
            prev@ == old(self)@.reference,
            final(self)@ == (TipView { reference: reference@, last_updated: now as nat }),
    {
        let prev = self.reference.clone();
        self.reference = reference;
        self.last_updated = now;
        prev
    }

    /// The conditional extension primitive: if the candidate's parent hash
    /// equals the current tip's hash, replaces the tip and reports true;
    /// otherwise leaves the tip untouched and reports false.
    pub fn continue_with(&mut self, candidate: &BlockRef, now: u64) -> (extended: bool)
        ensures
            extended == (old(self)@.reference.hash == candidate@.parent_hash),
            extended ==> final(self)@ == (TipView {
                reference: candidate@,
                last_updated: now as nat,
            }),
            !extended ==> final(self)@ == old(self)@,
    {
        if self.reference.hash == candidate.parent_hash {
            let _prev = self.update(candidate.clone(), now);
            true
        } else {
            false
        }
    }
}

/// Mathematical model of the registry: the tracked tips in insertion order,
/// and the logical clock used to stamp updates.
#[verifier::ext_equal]
pub ghost struct BranchesView {
    pub tips: Seq<TipView>,
    pub clock: nat,
}

/// A handle to one branch of a registry: the position of its tip in the
/// registry's collection. Handles are cheap to copy and remain attached to
/// the same branch for the registry's whole lifetime (branches are never
/// removed).
#[derive(Clone, Copy)]
pub struct Branch {
    index: usize,
}

impl View for Branch {
    type V = int;

    closed spec fn view(&self) -> int {
        self.index as int
    }
}

impl Branch {
    /// The position of this branch in the registry's snapshot order.
    pub fn index(&self) -> (r: usize)
        ensures
            r as int == self@,
    {
        self.index
    }
}

/// The index of the first tip whose hash equals `parent`, searching from
/// position `i`; `-1` if no tip from `i` on matches.
pub open spec fn first_match_from(tips: Seq<TipView>, parent: Seq<char>, i: int) -> int
    decreases tips.len() - i,
{
    if i < 0 || i >= tips.len() {
        -1
    } else if tips[i].reference.hash == parent {
        i
    } else {
        first_match_from(tips, parent, i + 1)
    }
}

/// The index of the first tip whose hash equals `parent`, or `-1`.
pub open spec fn first_match(tips: Seq<TipView>, parent: Seq<char>) -> int {
    first_match_from(tips, parent, 0)
}

/// What `first_match_from` returns: either `-1` and nothing from `i` on
/// matches, or the first matching index at or after `i`.
pub proof fn lemma_first_match_from(tips: Seq<TipView>, parent: Seq<char>, i: int)
    requires
        0 <= i <= tips.len(),
    ensures
        first_match_from(tips, parent, i) == -1 ==> forall|j: int|
            i <= j < tips.len() ==> tips[j].reference.hash != parent,
        first_match_from(tips, parent, i) != -1 ==> {
            let r = first_match_from(tips, parent, i);
            &&& i <= r < tips.len()
            &&& tips[r].reference.hash == parent
            &&& forall|j: int| i <= j < r ==> tips[j].reference.hash != parent
        },
    decreases tips.len() - i,
{
    if i < tips.len() && tips[i].reference.hash != parent {
        lemma_first_match_from(tips, parent, i + 1);
    }
}

/// What `first_match` returns: either `-1` and no tip matches, or the first
/// matching index.
pub proof fn lemma_first_match(tips: Seq<TipView>, parent: Seq<char>)
    ensures
        first_match(tips, parent) == -1 ==> forall|j: int|
            0 <= j < tips.len() ==> tips[j].reference.hash != parent,
        first_match(tips, parent) != -1 ==> {
            let r = first_match(tips, parent);
            &&& 0 <= r < tips.len()
            &&& tips[r].reference.hash == parent
            &&& forall|j: int| 0 <= j < r ==> tips[j].reference.hash != parent
        },
{
    lemma_first_match_from(tips, parent, 0);
}

/// The registry state after offering candidate `c` at clock value `now`:
/// the first tip whose hash equals the candidate's parent hash is replaced;
/// if none matches, a new tip is appended.
pub open spec fn spec_apply(tips: Seq<TipView>, c: BlockRefView, now: nat) -> Seq<TipView> {
    let i = first_match(tips, c.parent_hash);
    if i >= 0 {
        tips.update(i, TipView { reference: c, last_updated: now })
    } else {
        tips.push(TipView { reference: c, last_updated: now })
    }
}

/// The position of the branch that holds candidate `c` after it is offered:
/// the replaced tip's position, or the freshly appended position.
pub open spec fn handle_index(tips: Seq<TipView>, c: BlockRefView) -> int {
    let i = first_match(tips, c.parent_hash);
    if i >= 0 {
        i
    } else {
        tips.len() as int
    }
}

/// The registry of all currently tracked branches, in insertion order.
pub struct Branches {
    tips: Vec<BranchTip>,
    clock: u64,
}

impl View for Branches {
    type V = BranchesView;

    closed spec fn view(&self) -> BranchesView {
        BranchesView {
            tips: self.tips@.map_values(|t: BranchTip| t@),
            clock: self.clock as nat,
        }
    }
}

impl Branches {
    /// Creates an empty registry.
    pub fn new() -> (r: Branches)
        ensures
            r@.tips == Seq::<TipView>::empty(),
            r@.clock == 0,
    {
        let r = Branches { tips: Vec::new(), clock: 0 };
        proof {
            assert(r@.tips =~= Seq::<TipView>::empty());
        }
        r
    }

    /// The number of currently tracked branches.
    pub fn len(&self) -> (r: usize)
        ensures
            r == self@.tips.len(),
    {
        self.tips.len()
    }

    /// The registry's logical clock: how many updates have been stamped.
    pub fn clock(&self) -> (r: u64)
        ensures
            r == self@.clock,
    {
        self.clock
    }

    /// Appends a new branch seeded with `reference` and returns its handle.
    /// The caller is responsible for the no-duplicate-tip invariant; this
    /// does not check for an equal existing tip.
    pub fn add(&mut self, reference: BlockRef) -> (h: Branch)
        requires
            old(self)@.clock < u64::MAX,
            old(self)@.tips.len() < usize::MAX,
        ensures
            final(self)@.clock == old(self)@.clock + 1,
            final(self)@.tips == old(self)@.tips.push(
                TipView { reference: reference@, last_updated: old(self)@.clock + 1 },
            ),
            h@ == old(self)@.tips.len(),
    {
        let ghost before = self@.tips;
        self.clock = self.clock + 1;
        let index = self.tips.len();
        self.tips.push(BranchTip::new(reference, self.clock));
        proof {
            assert(self@.tips =~= before.push(
                TipView { reference: reference@, last_updated: old(self)@.clock + 1 },
            ));
        }
        Branch { index }
    }

    /// The combined extend-or-create operation: offers the candidate to
    /// every tracked branch; the one whose tip hash equals the candidate's
    /// parent hash (at most one, when tips are distinct) advances to the
    /// candidate, and if none matches a new branch is created. Returns the
    /// handle of the branch that now holds the candidate.
    pub fn apply_or_create(&mut self, candidate: BlockRef) -> (h: Branch)
        requires
            old(self)@.clock < u64::MAX,
            old(self)@.tips.len() < usize::MAX,
        ensures
            final(self)@.clock == old(self)@.clock + 1,
            final(self)@.tips == spec_apply(
                old(self)@.tips,
                candidate@,
                old(self)@.clock + 1,
            ),
            h@ == handle_index(old(self)@.tips, candidate@),
            0 <= h@ < final(self)@.tips.len(),
            final(self)@.tips[h@].reference == candidate@,
    {
        let ghost before = self@.tips;
        self.clock = self.clock + 1;
        let now = self.clock;
        let n = self.tips.len();
        let mut i: usize = 0;
        while i < n
            invariant
                0 <= i <= n,
                n == self.tips.len(),
                now == self.clock,
                self@.clock == old(self)@.clock + 1,
                before == old(self)@.tips,
                self@.tips == before,
                forall|j: int| 0 <= j < i ==> before[j].reference.hash != candidate@.parent_hash,
            decreases n - i,
        {
            proof {
                assert(self@.tips[i as int] == before[i as int]);
            }
            let extended = self.tips[i].continue_with(&candidate, now);
            if extended {
                proof {
                    let i_int = i as int;
                    let parent = candidate@.parent_hash;
                    assert(before[i_int].reference.hash == parent);
                    lemma_first_match(before, parent);
                    let fm = first_match(before, parent);
                    assert(fm != -1);
                    assert(!(fm < i_int)) by {
                        if 0 <= fm < i_int {
                            assert(before[fm].reference.hash != parent);
                        }
                    }
                    assert(!(fm > i_int)) by {
                        if fm > i_int {
                            assert(before[i_int].reference.hash != parent);
                        }
                    }
                    assert(fm == i_int);
                    assert(self@.tips =~= spec_apply(before, candidate@, now as nat));
                }
                return Branch { index: i };
            }
            proof {
                assert(self@.tips =~= before);
            }
            i = i + 1;
        }
        proof {
            lemma_first_match(before, candidate@.parent_hash);
        }
        self.tips.push(BranchTip::new(candidate, now));
        proof {
            assert(self@.tips =~= spec_apply(before, candidate@, now as nat));
        }
        Branch { index: n }
    }

    /// A snapshot of the registry: the block reference each tracked branch
    /// currently points to, in insertion order.
    pub fn branches(&self) -> (r: Vec<BlockRef>)
        ensures
            r@.len() == self@.tips.len(),
            forall|i: int| 0 <= i < r@.len() ==> r@[i]@ == self@.tips[i].reference,
    {
        let mut out: Vec<BlockRef> = Vec::new();
        let n = self.tips.len();
        let mut i: usize = 0;
        while i < n
            invariant
                0 <= i <= n,
                n == self.tips.len(),
                out@.len() == i,
                forall|j: int| 0 <= j < i ==> out@[j]@ == self@.tips[j].reference,
            decreases n - i,
        {
            out.push(self.tips[i].reference());
            i = i + 1;
        }
        out
    }
}

impl Branch {
    /// Reads the current tip of this branch.
    pub fn get_ref(&self, branches: &Branches) -> (r: BlockRef)
        requires
            0 <= self@ < branches@.tips.len(),
        ensures
            r@ == branches@.tips[self@].reference,
    {
        branches.tips[self.index].reference()
    }

    /// Unconditionally replaces this branch's tip with `new_ref`, returning
    /// the previous reference. No other branch is touched; in particular the
    /// registry's size is unchanged.
    pub fn update_ref(&self, branches: &mut Branches, new_ref: BlockRef) -> (prev: BlockRef)
        requires
            0 <= self@ < old(branches)@.tips.len(),
            old(branches)@.clock < u64::MAX,
        ensures
            prev@ == old(branches)@.tips[self@].reference,
            final(branches)@.clock == old(branches)@.clock + 1,
            final(branches)@.tips == old(branches)@.tips.update(
                self@,
                TipView { reference: new_ref@, last_updated: old(branches)@.clock + 1 },
            ),
            final(branches)@.tips.len() == old(branches)@.tips.len(),
    {
        let ghost before = branches@.tips;
        branches.clock = branches.clock + 1;
        let now = branches.clock;
        let prev = branches.tips[self.index].update(new_ref, now);
        proof {
            assert(branches@.tips =~= before.update(
                self@,
                TipView { reference: new_ref@, last_updated: now as nat },
            ));
        }
        prev
    }

    /// The atomic conditional extension: if the candidate's parent hash
    /// equals this branch's current tip hash, advances the tip and reports
    /// true; otherwise changes nothing and reports false.
    pub fn continue_with(&self, branches: &mut Branches, candidate: &BlockRef) -> (extended: bool)
        requires
            0 <= self@ < old(branches)@.tips.len(),
            old(branches)@.clock < u64::MAX,
        ensures
            extended == (old(branches)@.tips[self@].reference.hash == candidate@.parent_hash),
            extended ==> final(branches)@.tips == old(branches)@.tips.update(
                self@,
                TipView { reference: candidate@, last_updated: old(branches)@.clock + 1 },
            ) && final(branches)@.clock == old(branches)@.clock + 1,
            !extended ==> final(branches)@ == old(branches)@,
            final(branches)@.tips.len() == old(branches)@.tips.len(),
    {
        let ghost before = branches@.tips;
        let matched = {
            let tip = &branches.tips[self.index];
            let candidate_parent = candidate.parent_hash();
            tip.reference().hash == *candidate_parent
        };
        if matched {
            branches.clock = branches.clock + 1;
            let now = branches.clock;
            let _prev = branches.tips[self.index].update(candidate.clone(), now);
            proof {
                assert(branches@.tips =~= before.update(
                    self@,
                    TipView { reference: candidate@, last_updated: now as nat },
                ));
            }
            true
        } else {
            proof {
                assert(branches@ =~= old(branches)@);
            }
            false
        }
    }
}

} // verus!
