//! The dispatch tree: a balanced binary partition of the selector-sorted
//! entries, with at most `MAX_SELECTORS_PER_SWITCH_STATEMENT` entries per leaf.

use vstd::prelude::*;

use crate::entry::{sort_by_selector, sorted_by_selector, RouterTemplateInputs};

verus! {

/// The most entries a leaf's `switch` block holds.
pub const MAX_SELECTORS_PER_SWITCH_STATEMENT: usize = 9;

/// A node of the dispatch tree: a leaf holds entries, a branch holds exactly
/// two subtrees, the left one for the lower selectors.
pub enum DispatchNode {
    Leaf(Vec<RouterTemplateInputs>),
    Branch(Box<DispatchNode>, Box<DispatchNode>),
}

/// The entries of the leaves of `n`, read from left to right.
pub open spec fn leaves(n: DispatchNode) -> Seq<RouterTemplateInputs>
    decreases n,
{
    match n {
        DispatchNode::Leaf(v) => v@,
        DispatchNode::Branch(l, r) => leaves(*l) + leaves(*r),
    }
}

/// The shape that splitting gives: a leaf holds at most the threshold, and a
/// branch stands only over more than the threshold, with the first half
/// (rounded up) of its entries on the left.
pub open spec fn split_shape(n: DispatchNode) -> bool
    decreases n,
{
    match n {
        DispatchNode::Leaf(v) => v@.len() <= MAX_SELECTORS_PER_SWITCH_STATEMENT,
        DispatchNode::Branch(l, r) => {
            let total = leaves(*l).len() + leaves(*r).len();
            &&& total > MAX_SELECTORS_PER_SWITCH_STATEMENT
            &&& leaves(*l).len() == (total + 1) / 2
            &&& split_shape(*l)
            &&& split_shape(*r)
        },
    }
}

/// Splits the entries, in their order, into a tree of `split_shape`.
fn binary_split(v: Vec<RouterTemplateInputs>) -> (r: DispatchNode)
    ensures
        leaves(r) == v@,
        split_shape(r),
    decreases v@.len(),
{
    if v.len() <= MAX_SELECTORS_PER_SWITCH_STATEMENT {
        DispatchNode::Leaf(v)
    } else {
        let mid_idx = v.len() / 2 + v.len() % 2;
        let mut left = v;
        let right = left.split_off(mid_idx);
        let child_a = binary_split(left);
        let child_b = binary_split(right);
        assert(leaves(child_a) + leaves(child_b) =~= v@);
        DispatchNode::Branch(Box::new(child_a), Box::new(child_b))
    }
}

/// Builds the dispatch tree: sorts the entries by selector text, then splits
/// them into halves until no part holds more than the threshold.
pub fn build_binary_data(selectors: Vec<RouterTemplateInputs>) -> (r: DispatchNode)
    ensures
        sorted_by_selector(leaves(r)),
        leaves(r).to_multiset() == selectors@.to_multiset(),
        split_shape(r),
        bounded_leaves(r),
{
    let sorted = sort_by_selector(selectors);
    let root = binary_split(sorted);
    proof {
        lemma_split_shape_bounds_leaves(root);
    }
    root
}

/// The entries of the leaves, from left to right, taken out of the tree.
pub fn into_leaves(node: DispatchNode) -> (r: Vec<RouterTemplateInputs>)
    ensures
        r@ == leaves(node),
    decreases node,
{
    match node {
        DispatchNode::Leaf(v) => v,
        DispatchNode::Branch(l, r) => {
            let mut a = into_leaves(*l);
            let mut b = into_leaves(*r);
            a.append(&mut b);
            a
        },
    }
}

/// Every leaf holds at most the threshold, and both subtrees of every branch
/// hold entries.
pub open spec fn bounded_leaves(n: DispatchNode) -> bool
    decreases n,
{
    match n {
        DispatchNode::Leaf(v) => v@.len() <= MAX_SELECTORS_PER_SWITCH_STATEMENT,
        DispatchNode::Branch(l, r) => leaves(*l).len() > 0 && leaves(*r).len() > 0 && bounded_leaves(*l)
            && bounded_leaves(*r),
    }
}

/// In a tree that splitting gives, no leaf holds more than the threshold and
/// no branch has an empty side.
pub proof fn lemma_split_shape_bounds_leaves(n: DispatchNode)
    requires
        split_shape(n),
    ensures
        bounded_leaves(n),
    decreases n,
{
    match n {
        DispatchNode::Leaf(_) => {},
        DispatchNode::Branch(l, r) => {
            lemma_split_shape_bounds_leaves(*l);
            lemma_split_shape_bounds_leaves(*r);
        },
    }
}

} // verus!
