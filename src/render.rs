//! Rendering of the dispatch tree and of the module address table as text.

use vstd::prelude::*;
use vstd::string::*;

use crate::entry::{first_per_module, RouterTemplateInputs};
use crate::naming::{constant_case, repeat_string, repeated, to_constant_case};
use crate::outside::{checksum_of, checksum_text, unique_by_module};
use crate::tree::{bounded_leaves, leaves, DispatchNode};

verus! {

/// Indentation for nesting depth `k`: four spaces per level.
pub open spec fn indent(k: nat) -> Seq<char> {
    repeated("    "@, k)
}

/// The selector text of the first entry of `n`'s leftmost leaf, or nothing
/// where that leaf is empty.
pub open spec fn first_selector(n: DispatchNode) -> Seq<char>
    decreases n,
{
    match n {
        DispatchNode::Leaf(v) => if v@.len() > 0 {
            v@[0].selector@
        } else {
            Seq::empty()
        },
        DispatchNode::Branch(l, _) => first_selector(*l),
    }
}

/// The `case` line of one entry, at depth `k`.
pub open spec fn case_line(e: RouterTemplateInputs, k: nat) -> Seq<char> {
    indent(k) + "case "@ + e.selector@ + " { result := "@ + constant_case(e.contract_name@)
        + " } // "@ + e.contract_name@ + "."@ + e.function_name@ + "()"@
}

/// The `case` lines of entries, each at depth `k`.
pub open spec fn case_lines(s: Seq<RouterTemplateInputs>, k: nat) -> Seq<Seq<char>>
    decreases s.len(),
{
    if s.len() == 0 {
        Seq::empty()
    } else {
        case_lines(s.drop_last(), k).push(case_line(s.last(), k))
    }
}

/// The lines that render `n` at depth `k`. A leaf is a `switch` over its
/// entries closed by `leave`. A branch guards its left side with
/// `if lt(sig, ..)` on the first selector of its right side, one level
/// deeper, and renders its right side after the guard, at the guard's depth.
pub open spec fn node_lines(n: DispatchNode, k: nat) -> Seq<Seq<char>>
    decreases n,
{
    match n {
        DispatchNode::Leaf(v) => seq![indent(k) + "switch sig"@] + case_lines(v@, k + 1) + seq![
            indent(k) + "leave"@,
        ],
        DispatchNode::Branch(l, r) => seq![indent(k) + "if lt(sig, "@ + first_selector(*r) + ") {"@]
            + node_lines(*l, k + 1) + seq![indent(k) + "}"@] + node_lines(*r, k),
    }
}

/// The lines joined by single newlines.
pub open spec fn joined_lines(lines: Seq<Seq<char>>) -> Seq<char>
    decreases lines.len(),
{
    if lines.len() == 0 {
        Seq::empty()
    } else if lines.len() == 1 {
        lines[0]
    } else {
        joined_lines(lines.drop_last()) + "\n"@ + lines.last()
    }
}

/// The dispatch code of a tree: its lines from depth 4 on.
pub open spec fn rendered_selectors(n: DispatchNode) -> Seq<char> {
    joined_lines(node_lines(n, 4))
}

/// The views of a vector of strings.
pub open spec fn views(v: Seq<String>) -> Seq<Seq<char>> {
    v.map_values(|s: String| s@)
}

/// Every guard of `n` compares against the selector of the first entry held
/// by the subtree on its right.
pub open spec fn guards_match(n: DispatchNode) -> bool
    decreases n,
{
    match n {
        DispatchNode::Leaf(_) => true,
        DispatchNode::Branch(l, r) => leaves(*r).len() > 0 && first_selector(*r) == leaves(*r)[0].selector@
            && guards_match(*l) && guards_match(*r),
    }
}

proof fn lemma_first_selector_is_first_leaf(n: DispatchNode)
    requires
        bounded_leaves(n),
        leaves(n).len() > 0,
    ensures
        first_selector(n) == leaves(n)[0].selector@,
    decreases n,
{
    match n {
        DispatchNode::Leaf(_) => {},
        DispatchNode::Branch(l, r) => {
            lemma_first_selector_is_first_leaf(*l);
        },
    }
}

/// In a tree whose branches have two non-empty sides, each guard's boundary
/// is the first selector of the leftmost leaf of its right subtree.
pub proof fn lemma_guards_match(n: DispatchNode)
    requires
        bounded_leaves(n),
    ensures
        guards_match(n),
    decreases n,
{
    match n {
        DispatchNode::Leaf(_) => {},
        DispatchNode::Branch(l, r) => {
            lemma_first_selector_is_first_leaf(*r);
            lemma_guards_match(*l);
            lemma_guards_match(*r);
        },
    }
}

/// Rendering is a function of the tree: two renderings of one tree are the
/// same text.
pub proof fn lemma_render_deterministic(t: DispatchNode, a: String, b: String)
    requires
        a@ == rendered_selectors(t),
        b@ == rendered_selectors(t),
    ensures
        a@ == b@,
{
}

/// The first selector of the leftmost leaf of `node`.
fn find_mid_selector(node: &DispatchNode) -> (r: String)
    ensures
        r@ == first_selector(*node),
    decreases node,
{
    match node {
        DispatchNode::Leaf(v) => if v.len() > 0 {
            v[0].selector.clone()
        } else {
            String::new()
        },
        DispatchNode::Branch(l, _) => find_mid_selector(l),
    }
}

/// Appends the lines of `node` at depth `k`, whose indentation is `pad`.
fn render_node(node: &DispatchNode, pad: &String, Ghost(k): Ghost<nat>, selectors_str: &mut Vec<String>)
    requires
        pad@ == indent(k),
    ensures
        views(final(selectors_str)@) == views(old(selectors_str)@) + node_lines(*node, k),
    decreases node,
{
    let mut deeper = pad.clone();
    deeper.append("    ");
    assert(deeper@ == indent(k + 1));
    match node {
        DispatchNode::Branch(child_a, child_b) => {
            let ghost start = views(selectors_str@);
            let mid_selector = find_mid_selector(child_b);
            let mut guard = pad.clone();
            guard.append("if lt(sig, ");
            guard.append(mid_selector.as_str());
            guard.append(") {");
            selectors_str.push(guard);
            assert(views(selectors_str@) =~= start.push(guard@));
            let ghost after_guard = views(selectors_str@);
            render_node(child_a, &deeper, Ghost(k + 1), selectors_str);
            let ghost after_left = views(selectors_str@);
            let mut close = pad.clone();
            close.append("}");
            selectors_str.push(close);
            assert(views(selectors_str@) =~= after_left.push(close@));
            let ghost after_close = views(selectors_str@);
            render_node(child_b, pad, Ghost(k), selectors_str);
            assert(views(selectors_str@) =~= start + node_lines(*node, k));
        },
        DispatchNode::Leaf(entries) => {
            let ghost start = views(selectors_str@);
            let mut head = pad.clone();
            head.append("switch sig");
            selectors_str.push(head);
            assert(views(selectors_str@) =~= start.push(head@));
            let mut i: usize = 0;
            while i < entries.len()
                invariant
                    i <= entries@.len(),
                    deeper@ == indent(k + 1),
                    views(selectors_str@) == start.push(head@) + case_lines(entries@.take(i as int), k + 1),
                decreases entries@.len() - i,
            {
                let s = &entries[i];
                let ghost before = views(selectors_str@);
                let mut line = deeper.clone();
                line.append("case ");
                line.append(s.selector.as_str());
                line.append(" { result := ");
                let constant = to_constant_case(s.contract_name.as_str());
                line.append(constant.as_str());
                line.append(" } // ");
                line.append(s.contract_name.as_str());
                line.append(".");
                line.append(s.function_name.as_str());
                line.append("()");
                selectors_str.push(line);
                proof {
                    let t = entries@.take(i + 1);
                    assert(t.drop_last() =~= entries@.take(i as int));
                    assert(line@ == case_line(t.last(), k + 1));
                    assert(views(selectors_str@) =~= before.push(line@));
                }
                i += 1;
            }
            let ghost after_cases = views(selectors_str@);
            let mut tail = pad.clone();
            tail.append("leave");
            selectors_str.push(tail);
            assert(views(selectors_str@) =~= after_cases.push(tail@));
            assert(entries@.take(entries@.len() as int) =~= entries@);
            assert(views(selectors_str@) =~= start + node_lines(*node, k));
        },
    }
}

/// The lines joined by single newlines.
fn join_lines(lines: &Vec<String>) -> (r: String)
    ensures
        r@ == joined_lines(views(lines@)),
{
    let ghost all = views(lines@);
    let mut result = String::new();
    let mut i: usize = 0;
    while i < lines.len()
        invariant
            i <= lines@.len(),
            all == views(lines@),
            result@ == joined_lines(all.take(i as int)),
        decreases lines@.len() - i,
    {
        if i > 0 {
            result.append("\n");
        }
        result.append(lines[i].as_str());
        proof {
            let t = all.take(i + 1);
            assert(t.drop_last() =~= all.take(i as int));
            if i == 0 {
                assert(all.take(0) =~= Seq::<Seq<char>>::empty());
            }
        }
        i += 1;
    }
    assert(all.take(lines@.len() as int) =~= all);
    result
}

/// Renders the dispatch code of a tree, starting four levels deep.
pub fn render_selectors(binary_data: &DispatchNode) -> (r: String)
    ensures
        r@ == rendered_selectors(*binary_data),
{
    let mut selectors_str: Vec<String> = Vec::new();
    let pad = repeat_string("    ", 4);
    render_node(binary_data, &pad, Ghost(4), &mut selectors_str);
    assert(views(selectors_str@) =~= node_lines(*binary_data, 4));
    join_lines(&selectors_str)
}

/// The address constant line of one module.
pub open spec fn module_line(e: RouterTemplateInputs) -> Seq<char> {
    "address constant "@ + constant_case(e.contract_name@) + " = "@ + checksum_of(e.address@) + ";"@
}

/// The address constant lines of entries, one each, in order.
pub open spec fn module_lines(s: Seq<RouterTemplateInputs>) -> Seq<Seq<char>>
    decreases s.len(),
{
    if s.len() == 0 {
        Seq::empty()
    } else {
        module_lines(s.drop_last()).push(module_line(s.last()))
    }
}

/// The module address table: one constant per distinct module name, in the
/// order in which each module first owns an entry.
pub open spec fn rendered_modules(s: Seq<RouterTemplateInputs>) -> Seq<char> {
    joined_lines(module_lines(first_per_module(s)))
}

/// Renders one `address constant NAME = 0x..;` line per distinct module,
/// with the checksummed deployment address, in first-seen order.
pub fn render_modules(modules: Vec<RouterTemplateInputs>) -> (r: String)
    ensures
        r@ == rendered_modules(modules@),
{
    let modules = unique_by_module(modules);
    let mut modules_str: Vec<String> = Vec::new();
    let mut i: usize = 0;
    while i < modules.len()
        invariant
            i <= modules@.len(),
            views(modules_str@) == module_lines(modules@.take(i as int)),
        decreases modules@.len() - i,
    {
        let m = &modules[i];
        let ghost before = views(modules_str@);
        let mut line = String::from_str("address constant ");
        let constant = to_constant_case(m.contract_name.as_str());
        line.append(constant.as_str());
        line.append(" = ");
        let checksum = checksum_text(&m.address);
        line.append(checksum.as_str());
        line.append(";");
        modules_str.push(line);
        proof {
            let t = modules@.take(i + 1);
            assert(t.drop_last() =~= modules@.take(i as int));
            assert(views(modules_str@) =~= before.push(line@));
        }
        i += 1;
    }
    assert(modules@.take(modules@.len() as int) =~= modules@);
    join_lines(&modules_str)
}

} // verus!
