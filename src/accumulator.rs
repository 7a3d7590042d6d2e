use vstd::prelude::*;
use vstd::arithmetic::power2::{pow2, lemma_pow2_strictly_increases, lemma_pow2_unfold, lemma2_to64, lemma2_to64_rest};
use crate::hash::HashValue;
use crate::hasher::{role_digest, HasherRole};
use crate::node::MerkleTreeInternalNode;
use crate::sparse_merkle::{hash_value_of, lemma_hash_value_of, ProofError};

verus! {

/// A proof that one Merkle accumulator extends another: the roots of the
/// perfect subtrees that hold the appended leaves, left to right.
#[derive(Clone, Debug)]
pub struct AccumulatorConsistencyProof {
    /// The roots of the subtrees holding the appended leaves.
    pub subtrees: Vec<HashValue>,
}

impl AccumulatorConsistencyProof {
    /// A consistency proof with subtree roots `subtrees`, left to right.
    pub fn new(subtrees: Vec<HashValue>) -> (r: AccumulatorConsistencyProof)
        ensures
            r.subtrees@ == subtrees@,
    {
        AccumulatorConsistencyProof { subtrees }
    }

    /// The subtree roots, left to right.
    pub fn subtrees(&self) -> (r: &[HashValue])
        ensures
            r@ == self.subtrees@,
    {
        self.subtrees.as_slice()
    }
}


/// Height above which two subtrees are never merged: an accumulator of at
/// most `u64::MAX` leaves has no perfect subtree of height 64.
pub const MAX_MERGED_HEIGHT: u64 = 64;

/// The digest of an empty accumulator subtree: the ASCII bytes of
/// `ACCUMULATOR_PLACEHOLDER_HASH` followed by zeros.
pub open spec fn accumulator_placeholder() -> Seq<u8> {
    seq![65u8, 67u8, 67u8, 85u8, 77u8, 85u8, 76u8, 65u8, 84u8, 79u8, 82u8, 95u8, 80u8, 76u8, 65u8, 67u8, 69u8, 72u8, 79u8, 76u8, 68u8, 69u8, 82u8, 95u8, 72u8, 65u8, 83u8, 72u8, 0u8, 0u8, 0u8, 0u8]
}

/// The digest of an empty accumulator subtree.
pub fn accumulator_placeholder_hash() -> (r: HashValue)
    ensures
        r@ == accumulator_placeholder(),
{
    let r = HashValue::new([65u8, 67u8, 67u8, 85u8, 77u8, 85u8, 76u8, 65u8, 84u8, 79u8, 82u8, 95u8, 80u8, 76u8, 65u8, 67u8, 69u8, 72u8, 79u8, 76u8, 68u8, 69u8, 82u8, 95u8, 72u8, 65u8, 83u8, 72u8, 0u8, 0u8, 0u8, 0u8]);
    assert(r@ =~= accumulator_placeholder());
    r
}

/// The digest of an internal accumulator node with children `left` and
/// `right`.
pub open spec fn accumulator_internal(left: Seq<u8>, right: Seq<u8>) -> Seq<u8> {
    role_digest(HasherRole::TransactionAccumulator, left + right)
}

/// The height of the largest perfect subtree that starts at leaf `pos`, is
/// aligned to its own size and ends by leaf `end`, searching upwards from
/// height `h`.
pub open spec fn step_height(pos: nat, end: nat, h: nat) -> nat
    decreases 63 - h,
{
    if h < 63 && pos % pow2(h + 1) == 0 && pos + pow2(h + 1) <= end {
        step_height(pos, end, h + 1)
    } else {
        h
    }
}

/// The heights of the perfect subtrees that cover leaves `pos` up to `end`,
/// left to right, each as large as its position allows. From 0 they are
/// the frozen subtrees of an accumulator of `end` leaves; from an old leaf
/// count they are the subtrees appended to reach `end`.
pub open spec fn subtree_heights(pos: nat, end: nat) -> Seq<nat>
    decreases end - pos,
{
    if pos >= end {
        Seq::empty()
    } else {
        let h = step_height(pos, end, 0);
        let next = pos + pow2(h);
        // `next` always lies in `(pos, end]`; the test only bounds the recursion.
        if next <= pos || next > end {
            Seq::empty()
        } else {
            seq![h] + subtree_heights(next, end)
        }
    }
}

/// Pushes the subtree `(h, root)` onto the right of a frontier of
/// `(height, root)` pairs, merging it with its left neighbour while both
/// have the same height.
pub open spec fn merge_push(frontier: Seq<(nat, Seq<u8>)>, h: nat, root: Seq<u8>) -> Seq<(nat, Seq<u8>)>
    decreases frontier.len(),
{
    if frontier.len() > 0 && frontier.last().0 == h && h < MAX_MERGED_HEIGHT {
        merge_push(frontier.drop_last(), h + 1, accumulator_internal(frontier.last().1, root))
    } else {
        frontier.push((h, root))
    }
}

/// Pushes all of `items` onto `frontier`, left to right.
pub open spec fn push_all(frontier: Seq<(nat, Seq<u8>)>, items: Seq<(nat, Seq<u8>)>) -> Seq<(nat, Seq<u8>)>
    decreases items.len(),
{
    if items.len() == 0 {
        frontier
    } else {
        push_all(merge_push(frontier, items[0].0, items[0].1), items.drop_first())
    }
}

/// Lifts the root of a subtree of height `from` to height `to`, with an
/// empty subtree on the right at each level.
pub open spec fn pad_up(current: Seq<u8>, from: nat, to: nat) -> Seq<u8>
    decreases to - from,
{
    if from >= to {
        current
    } else {
        pad_up(accumulator_internal(current, accumulator_placeholder()), from + 1, to)
    }
}

/// Folds the frontier `rest` onto `current`, the root of height
/// `current_height` of everything to its right.
pub open spec fn fold_left(rest: Seq<(nat, Seq<u8>)>, current: Seq<u8>, current_height: nat) -> Seq<u8>
    decreases rest.len(),
{
    if rest.len() == 0 {
        current
    } else {
        let h = rest.last().0;
        fold_left(
            rest.drop_last(),
            accumulator_internal(rest.last().1, pad_up(current, current_height, h)),
            h + 1,
        )
    }
}

/// The root of an accumulator whose frozen subtrees are `frontier`, left to
/// right: empty subtrees pad it on the right up to a perfect tree.
pub open spec fn frontier_root(frontier: Seq<(nat, Seq<u8>)>) -> Seq<u8> {
    if frontier.len() == 0 {
        accumulator_placeholder()
    } else {
        fold_left(frontier.drop_last(), frontier.last().1, frontier.last().0)
    }
}

/// Pairs each height with the bytes of the root at the same place.
pub open spec fn zip_items(heights: Seq<nat>, roots: Seq<HashValue>) -> Seq<(nat, Seq<u8>)> {
    Seq::new(heights.len(), |i: int| (heights[i], roots[i]@))
}

/// The frontier that an executable stack of `(height, root)` pairs stands
/// for.
pub open spec fn stack_view(stack: Seq<(u64, HashValue)>) -> Seq<(nat, Seq<u8>)> {
    Seq::new(stack.len(), |i: int| (stack[i].0 as nat, stack[i].1@))
}

/// What verifying `subtrees` gives for the claim that the accumulator with
/// root `old_root`, frozen subtrees `old_frozen` and `old_num_leaves` leaves
/// grows into one with root `expected_new_root` and `new_num_leaves`
/// leaves.
pub open spec fn consistency_outcome(
    subtrees: Seq<HashValue>,
    old_root: HashValue,
    old_frozen: Seq<HashValue>,
    old_num_leaves: u64,
    new_num_leaves: u64,
    expected_new_root: HashValue,
) -> Result<(), ProofError> {
    if old_num_leaves > new_num_leaves
        || subtree_heights(0, old_num_leaves as nat).len() != old_frozen.len()
        || subtree_heights(old_num_leaves as nat, new_num_leaves as nat).len() != subtrees.len() {
        Err(ProofError::LengthMismatch { old_num_leaves, new_num_leaves })
    } else {
        let old_items = zip_items(subtree_heights(0, old_num_leaves as nat), old_frozen);
        let new_items = zip_items(subtree_heights(old_num_leaves as nat, new_num_leaves as nat), subtrees);
        let old_actual = frontier_root(old_items);
        let new_actual = frontier_root(push_all(old_items, new_items));
        if old_actual != old_root@ {
            Err(
                ProofError::RootMismatch {
                    actual_root_hash: hash_value_of(old_actual),
                    expected_root_hash: old_root,
                },
            )
        } else if new_actual != expected_new_root@ {
            Err(
                ProofError::RootMismatch {
                    actual_root_hash: hash_value_of(new_actual),
                    expected_root_hash: expected_new_root,
                },
            )
        } else {
            Ok(())
        }
    }
}

fn accumulator_hash(left: HashValue, right: HashValue) -> (r: HashValue)
    ensures
        r@ == accumulator_internal(left@, right@),
{
    MerkleTreeInternalNode::new(left, right).hash(HasherRole::TransactionAccumulator)
}

fn next_step(pos: u64, end: u64) -> (r: (u64, u64))
    requires
        pos < end,
    ensures
        r.0 == step_height(pos as nat, end as nat, 0),
        r.0 <= 63,
        r.1 == pow2(r.0 as nat),
        pos + r.1 <= end,
{
    proof {
        lemma2_to64();
    }
    let mut h: u64 = 0;
    let mut size: u64 = 1;
    loop
        invariant
            pos < end,
            h <= 63,
            size == pow2(h as nat),
            pos + size <= end,
            step_height(pos as nat, end as nat, h as nat) == step_height(pos as nat, end as nat, 0),
        ensures
            h <= 63,
            size == pow2(h as nat),
            pos + size <= end,
            step_height(pos as nat, end as nat, 0) == h as nat,
        decreases 63 - h,
    {
        if h >= 63 {
            assert(step_height(pos as nat, end as nat, h as nat) == h as nat);
            break;
        }
        proof {
            lemma2_to64();
            lemma2_to64_rest();
            lemma_pow2_strictly_increases(h as nat, 63);
            lemma_pow2_unfold(h as nat + 1);
            vstd::arithmetic::power2::lemma_pow2_pos(h as nat);
        }
        let double = size * 2;
        if pos % double != 0 || end - pos < double {
            assert(!(pos as nat % pow2(h as nat + 1) == 0 && pos as nat + pow2(h as nat + 1) <= end as nat));
            assert(step_height(pos as nat, end as nat, h as nat) == h as nat);
            break;
        }
        h = h + 1;
        size = double;
    }
    (h, size)
}

fn heights_between(pos: u64, end: u64) -> (r: Vec<u64>)
    requires
        pos <= end,
    ensures
        r@.len() == subtree_heights(pos as nat, end as nat).len(),
        forall|i: int| 0 <= i < r@.len() ==> r@[i] as nat == subtree_heights(pos as nat, end as nat)[i],
        forall|i: int| 0 <= i < r@.len() ==> r@[i] <= 63,
{
    let mut r: Vec<u64> = Vec::new();
    let mut p: u64 = pos;
    while p < end
        invariant
            pos <= p <= end,
            Seq::new(r@.len(), |i: int| r@[i] as nat) + subtree_heights(p as nat, end as nat)
                == subtree_heights(pos as nat, end as nat),
            forall|i: int| 0 <= i < r@.len() ==> r@[i] <= 63,
        decreases end - p,
    {
        let (h, size) = next_step(p, end);
        proof {
            vstd::arithmetic::power2::lemma_pow2_pos(h as nat);
        }
        let ghost before = Seq::new(r@.len(), |i: int| r@[i] as nat);
        r.push(h);
        assert(Seq::new(r@.len(), |i: int| r@[i] as nat) =~= before.push(h as nat));
        assert(subtree_heights(p as nat, end as nat) == seq![h as nat] + subtree_heights((p + size) as nat, end as nat));
        assert(before.push(h as nat) + subtree_heights((p + size) as nat, end as nat)
            =~= before + (seq![h as nat] + subtree_heights((p + size) as nat, end as nat)));
        p = p + size;
    }
    assert(Seq::new(r@.len(), |i: int| r@[i] as nat) + subtree_heights(p as nat, end as nat)
        =~= Seq::new(r@.len(), |i: int| r@[i] as nat));
    r
}

fn push_merging(stack: &mut Vec<(u64, HashValue)>, h: u64, root: HashValue)
    requires
        h <= MAX_MERGED_HEIGHT,
        forall|i: int| 0 <= i < old(stack)@.len() ==> old(stack)@[i].0 <= MAX_MERGED_HEIGHT,
    ensures
        stack_view(final(stack)@) == merge_push(stack_view(old(stack)@), h as nat, root@),
        forall|i: int| 0 <= i < final(stack)@.len() ==> final(stack)@[i].0 <= MAX_MERGED_HEIGHT,
{
    let ghost target = merge_push(stack_view(stack@), h as nat, root@);
    let mut cur_h = h;
    let mut cur = root;
    loop
        invariant_except_break
            cur_h <= MAX_MERGED_HEIGHT,
            forall|i: int| 0 <= i < stack@.len() ==> stack@[i].0 <= MAX_MERGED_HEIGHT,
            merge_push(stack_view(stack@), cur_h as nat, cur@) == target,
        ensures
            stack_view(stack@) == target,
            forall|i: int| 0 <= i < stack@.len() ==> stack@[i].0 <= MAX_MERGED_HEIGHT,
        decreases stack@.len(),
    {
        let n = stack.len();
        if n == 0 || stack[n - 1].0 != cur_h || cur_h >= MAX_MERGED_HEIGHT {
            let ghost before = stack@;
            stack.push((cur_h, cur));
            assert(stack_view(stack@) =~= stack_view(before).push((cur_h as nat, cur@)));
            break;
        }
        let top = stack[n - 1];
        let ghost before = stack@;
        stack.pop();
        assert(stack_view(stack@) =~= stack_view(before).drop_last());
        cur = accumulator_hash(top.1, cur);
        cur_h = cur_h + 1;
    }
}

fn pad_to(current: HashValue, from: u64, to: u64) -> (r: HashValue)
    ensures
        r@ == pad_up(current@, from as nat, to as nat),
{
    let placeholder = accumulator_placeholder_hash();
    let mut cur = current;
    let mut h = from;
    while h < to
        invariant
            placeholder@ == accumulator_placeholder(),
            pad_up(cur@, h as nat, to as nat) == pad_up(current@, from as nat, to as nat),
        decreases to - h,
    {
        cur = accumulator_hash(cur, placeholder);
        h = h + 1;
    }
    cur
}

fn root_of_frontier(frontier: &Vec<(u64, HashValue)>) -> (r: HashValue)
    requires
        forall|i: int| 0 <= i < frontier@.len() ==> frontier@[i].0 <= MAX_MERGED_HEIGHT,
    ensures
        r@ == frontier_root(stack_view(frontier@)),
{
    let n = frontier.len();
    if n == 0 {
        return accumulator_placeholder_hash();
    }
    let ghost whole = stack_view(frontier@);
    let mut cur = frontier[n - 1].1;
    let mut cur_h = frontier[n - 1].0;
    let mut j: usize = n - 1;
    assert(whole.drop_last() =~= whole.subrange(0, j as int));
    while j > 0
        invariant
            n == frontier@.len(),
            j < n,
            whole == stack_view(frontier@),
            cur_h <= MAX_MERGED_HEIGHT + 1,
            forall|i: int| 0 <= i < frontier@.len() ==> frontier@[i].0 <= MAX_MERGED_HEIGHT,
            fold_left(whole.subrange(0, j as int), cur@, cur_h as nat) == frontier_root(whole),
        decreases j,
    {
        let (h, root) = frontier[j - 1];
        assert(whole.subrange(0, j as int).drop_last() =~= whole.subrange(0, j - 1));
        let padded = pad_to(cur, cur_h, h);
        cur = accumulator_hash(root, padded);
        cur_h = h + 1;
        j = j - 1;
    }
    cur
}

impl AccumulatorConsistencyProof {
    /// Verifies that the accumulator with root `old_root`, frozen subtree
    /// roots `old_frozen_subtree_roots` (left to right) and
    /// `old_num_leaves` leaves grows, by appending the proof's subtrees,
    /// into an accumulator of `new_num_leaves` leaves with root
    /// `expected_new_root`.
    pub fn verify(
        &self,
        old_root: HashValue,
        old_frozen_subtree_roots: &[HashValue],
        old_num_leaves: u64,
        new_num_leaves: u64,
        expected_new_root: HashValue,
    ) -> (r: Result<(), ProofError>)
        ensures
            r == consistency_outcome(
                self.subtrees@,
                old_root,
                old_frozen_subtree_roots@,
                old_num_leaves,
                new_num_leaves,
                expected_new_root,
            ),
    {
        if old_num_leaves > new_num_leaves {
            return Err(ProofError::LengthMismatch { old_num_leaves, new_num_leaves });
        }
        let old_heights = heights_between(0, old_num_leaves);
        let new_heights = heights_between(old_num_leaves, new_num_leaves);
        if old_heights.len() != old_frozen_subtree_roots.len() || new_heights.len() != self.subtrees.len() {
            return Err(ProofError::LengthMismatch { old_num_leaves, new_num_leaves });
        }
        let ghost old_items = zip_items(subtree_heights(0, old_num_leaves as nat), old_frozen_subtree_roots@);
        let ghost new_items = zip_items(
            subtree_heights(old_num_leaves as nat, new_num_leaves as nat),
            self.subtrees@,
        );
        let mut stack: Vec<(u64, HashValue)> = Vec::new();
        let mut i: usize = 0;
        while i < old_heights.len()
            invariant
                old_heights@.len() == old_frozen_subtree_roots@.len(),
                old_items == zip_items(subtree_heights(0, old_num_leaves as nat), old_frozen_subtree_roots@),
                old_heights@.len() == subtree_heights(0, old_num_leaves as nat).len(),
                forall|k: int| 0 <= k < old_heights@.len() ==> old_heights@[k] as nat == subtree_heights(0, old_num_leaves as nat)[k],
                forall|k: int| 0 <= k < old_heights@.len() ==> old_heights@[k] <= 63,
                i <= old_heights@.len(),
                stack_view(stack@) == old_items.subrange(0, i as int),
                forall|k: int| 0 <= k < stack@.len() ==> stack@[k].0 <= MAX_MERGED_HEIGHT,
            decreases old_heights@.len() - i,
        {
            let ghost before = stack@;
            stack.push((old_heights[i], old_frozen_subtree_roots[i]));
            assert(stack_view(stack@) =~= stack_view(before).push(old_items[i as int]));
            i = i + 1;
            assert(stack_view(stack@) =~= old_items.subrange(0, i as int));
        }
        assert(old_items.subrange(0, i as int) =~= old_items);
        let old_actual = root_of_frontier(&stack);
        if old_actual != old_root {
            proof {
                lemma_hash_value_of(old_actual);
            }
            return Err(ProofError::RootMismatch { actual_root_hash: old_actual, expected_root_hash: old_root });
        }
        let mut j: usize = 0;
        assert(new_items.subrange(0, new_items.len() as int) =~= new_items);
        while j < new_heights.len()
            invariant
                new_heights@.len() == self.subtrees@.len(),
                new_items == zip_items(
                    subtree_heights(old_num_leaves as nat, new_num_leaves as nat),
                    self.subtrees@,
                ),
                new_heights@.len() == subtree_heights(old_num_leaves as nat, new_num_leaves as nat).len(),
                forall|k: int| 0 <= k < new_heights@.len() ==> new_heights@[k] as nat == subtree_heights(old_num_leaves as nat, new_num_leaves as nat)[k],
                forall|k: int| 0 <= k < new_heights@.len() ==> new_heights@[k] <= 63,
                j <= new_heights@.len(),
                push_all(stack_view(stack@), new_items.subrange(j as int, new_items.len() as int))
                    == push_all(old_items, new_items),
                forall|k: int| 0 <= k < stack@.len() ==> stack@[k].0 <= MAX_MERGED_HEIGHT,
            decreases new_heights@.len() - j,
        {
            let ghost rest = new_items.subrange(j as int, new_items.len() as int);
            push_merging(&mut stack, new_heights[j], self.subtrees[j]);
            j = j + 1;
            assert(rest.drop_first() =~= new_items.subrange(j as int, new_items.len() as int));
        }
        assert(new_items.subrange(j as int, new_items.len() as int) =~= Seq::<(nat, Seq<u8>)>::empty());
        let new_actual = root_of_frontier(&stack);
        if new_actual != expected_new_root {
            proof {
                lemma_hash_value_of(new_actual);
            }
            return Err(
                ProofError::RootMismatch { actual_root_hash: new_actual, expected_root_hash: expected_new_root },
            );
        }
        Ok(())
    }
}

} // verus!
