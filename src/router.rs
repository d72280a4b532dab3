//! The generated text fragments of a router, from its modules.

use vstd::prelude::*;

use crate::collect::{collect_entries, collect_spec, Collected, ModuleInput, RouterError};
use crate::entry::{entry_views, sorted_by_selector, RouterTemplateInputs};
use crate::render::{render_modules, render_selectors, rendered_modules, rendered_selectors};
use crate::tree::{build_binary_data, into_leaves, leaves, split_shape, DispatchNode};

verus! {

/// The rendered parts of a router: its dispatch code and its module
/// address table.
#[derive(Debug)]
pub struct RouterCode {
    pub selectors: String,
    pub modules: String,
}

/// `t` is the dispatch tree of the entries `es`: its leaves hold them sorted
/// by selector, split into halves down to the threshold.
pub open spec fn dispatch_tree_of(t: DispatchNode, es: Seq<RouterTemplateInputs>) -> bool {
    &&& sorted_by_selector(leaves(t))
    &&& leaves(t).to_multiset() == es.to_multiset()
    &&& split_shape(t)
}

/// Collects the modules' entries, builds their dispatch tree and renders it
/// together with the module address table (in the tree's selector order).
/// Any collection error is returned before anything is rendered.
pub fn generate_router(modules: &Vec<ModuleInput>, deployer: &[u8; 20], salt: &[u8; 32]) -> (r: Result<
    RouterCode,
    RouterError,
>)
    ensures
        match collect_spec(modules@, deployer@, salt@) {
            Err(e) => r is Err && r->Err_0@ == e,
            Ok(c) => r is Ok && exists|t: DispatchNode, es: Seq<RouterTemplateInputs>|
                {
                    &&& entry_views(es) == c.entries
                    &&& dispatch_tree_of(t, es)
                    &&& r->Ok_0.selectors@ == rendered_selectors(t)
                    &&& r->Ok_0.modules@ == rendered_modules(leaves(t))
                },
        },
{
    let collected = match collect_entries(modules, deployer, salt) {
        Err(e) => return Err(e),
        Ok(c) => c,
    };
    let Collected { entries, fallback: _, receive: _ } = collected;
    let ghost es = entries@;
    let tree = build_binary_data(entries);
    let ghost t = tree;
    let selectors = render_selectors(&tree);
    let sorted = into_leaves(tree);
    let module_table = render_modules(sorted);
    assert(dispatch_tree_of(t, es));
    Ok(RouterCode { selectors, modules: module_table })
}

} // verus!
