//! Collection of the dispatch entries of several modules, with the checks
//! that selectors are unique and that special functions are not shared.

use vstd::prelude::*;

use crate::entry::{entry_views, EntryView, RouterTemplateInputs};
use crate::outside::{create2_address, hex_of, hex_with_prefix, keccak256, keccak256_of};

verus! {

/// A function of a module's ABI: its name and its canonical signature,
/// such as `transfer(address,uint256)`.
pub struct AbiFunction {
    pub name: String,
    pub signature: String,
}

/// What the router needs of a module's ABI.
pub struct ModuleAbi {
    pub functions: Vec<AbiFunction>,
    pub has_fallback: bool,
    pub has_receive: bool,
}

/// A module's compiled artifact: its bytecode and ABI, where present.
pub struct ModuleArtifact {
    pub bytecode: Option<Vec<u8>>,
    pub abi: Option<ModuleAbi>,
}

/// A named module and its artifact, if one was found.
pub struct ModuleInput {
    pub name: String,
    pub artifact: Option<ModuleArtifact>,
}

/// The two special entry points of a contract.
#[derive(Clone, Copy, PartialEq, Eq, Structural, Debug)]
pub enum SpecialFunction {
    Fallback,
    Receive,
}

/// Why a router cannot be generated.
#[derive(Debug)]
pub enum RouterError {
    /// No compiled artifact matches the module.
    ArtifactNotFound(String),
    /// The module's artifact has no bytecode.
    MissingBytecode(String),
    /// The module's artifact has no ABI.
    MissingAbi(String),
    /// Two functions share a selector; the modules that declare them.
    DuplicateSelector { selector: String, first_module: String, second_module: String },
    /// A second module declares a fallback or a receive function.
    ConflictingSpecialFunction { kind: SpecialFunction, first_module: String, second_module: String },
}

/// The mathematical content of a `RouterError`.
pub enum RouterErrorView {
    ArtifactNotFound(Seq<char>),
    MissingBytecode(Seq<char>),
    MissingAbi(Seq<char>),
    DuplicateSelector { selector: Seq<char>, first_module: Seq<char>, second_module: Seq<char> },
    ConflictingSpecialFunction { kind: SpecialFunction, first_module: Seq<char>, second_module: Seq<char> },
}

impl View for RouterError {
    type V = RouterErrorView;

    open spec fn view(&self) -> RouterErrorView {
        match self {
            RouterError::ArtifactNotFound(m) => RouterErrorView::ArtifactNotFound(m@),
            RouterError::MissingBytecode(m) => RouterErrorView::MissingBytecode(m@),
            RouterError::MissingAbi(m) => RouterErrorView::MissingAbi(m@),
            RouterError::DuplicateSelector { selector, first_module, second_module } =>
                RouterErrorView::DuplicateSelector {
                selector: selector@,
                first_module: first_module@,
                second_module: second_module@,
            },
            RouterError::ConflictingSpecialFunction { kind, first_module, second_module } =>
                RouterErrorView::ConflictingSpecialFunction {
                kind: *kind,
                first_module: first_module@,
                second_module: second_module@,
            },
        }
    }
}

/// The entries of all modules, and the modules that declare the fallback
/// and the receive function, if any does.
pub struct Collected {
    pub entries: Vec<RouterTemplateInputs>,
    pub fallback: Option<String>,
    pub receive: Option<String>,
}

/// The mathematical content of a `Collected`.
pub struct CollectedView {
    pub entries: Seq<EntryView>,
    pub fallback: Option<Seq<char>>,
    pub receive: Option<Seq<char>>,
}

/// The view of an optional string.
pub open spec fn name_view(o: Option<String>) -> Option<Seq<char>> {
    match o {
        Some(s) => Some(s@),
        None => None,
    }
}

impl View for Collected {
    type V = CollectedView;

    open spec fn view(&self) -> CollectedView {
        CollectedView {
            entries: entry_views(self.entries@),
            fallback: name_view(self.fallback),
            receive: name_view(self.receive),
        }
    }
}

/// The view of a collection result.
pub open spec fn result_view(r: Result<Collected, RouterError>) -> Result<CollectedView, RouterErrorView> {
    match r {
        Ok(c) => Ok(c@),
        Err(e) => Err(e@),
    }
}

/// The selector text of a signature: `0x` and the hex of the first four
/// bytes of the Keccak-256 digest of its UTF-8 bytes.
pub open spec fn selector_text(signature: Seq<char>) -> Seq<char> {
    seq!['0', 'x'] + hex_of(keccak256_of(vstd::utf8::encode_utf8(signature)).take(4))
}

/// The CREATE2 deployment address of `init_code` from `deployer` with `salt`.
pub open spec fn create2_of(deployer: Seq<u8>, salt: Seq<u8>, init_code: Seq<u8>) -> Seq<u8> {
    keccak256_of(seq![0xffu8] + deployer + salt + keccak256_of(init_code)).subrange(12, 32)
}

/// The index of the first entry with selector `sel`, if any.
pub open spec fn find_selector(es: Seq<EntryView>, sel: Seq<char>) -> Option<int>
    decreases es.len(),
{
    if es.len() == 0 {
        None
    } else {
        match find_selector(es.drop_last(), sel) {
            Some(j) => Some(j),
            None => if es.last().selector == sel {
                Some(es.len() - 1)
            } else {
                None
            },
        }
    }
}

/// Appends the entries of `fns`, in order, to `acc`, failing at the first
/// whose selector is already there.
pub open spec fn add_functions(
    acc: Seq<EntryView>,
    module: Seq<char>,
    address: Seq<u8>,
    fns: Seq<AbiFunction>,
) -> Result<Seq<EntryView>, RouterErrorView>
    decreases fns.len(),
{
    if fns.len() == 0 {
        Ok(acc)
    } else {
        match add_functions(acc, module, address, fns.drop_last()) {
            Err(e) => Err(e),
            Ok(es) => {
                let f = fns.last();
                let sel = selector_text(f.signature@);
                match find_selector(es, sel) {
                    Some(j) => Err(
                        RouterErrorView::DuplicateSelector {
                            selector: sel,
                            first_module: es[j].contract_name,
                            second_module: module,
                        },
                    ),
                    None => Ok(
                        es.push(
                            EntryView {
                                address,
                                contract_name: module,
                                function_name: f.name@,
                                selector: sel,
                            },
                        ),
                    ),
                }
            },
        }
    }
}

/// Adds one module to what was collected so far.
pub open spec fn add_module(acc: CollectedView, m: ModuleInput, deployer: Seq<u8>, salt: Seq<u8>) -> Result<
    CollectedView,
    RouterErrorView,
> {
    match m.artifact {
        None => Err(RouterErrorView::ArtifactNotFound(m.name@)),
        Some(a) => match a.bytecode {
            None => Err(RouterErrorView::MissingBytecode(m.name@)),
            Some(code) => match a.abi {
                None => Err(RouterErrorView::MissingAbi(m.name@)),
                Some(abi) => {
                    let address = create2_of(deployer, salt, code@);
                    match add_functions(acc.entries, m.name@, address, abi.functions@) {
                        Err(e) => Err(e),
                        Ok(es) => if abi.has_fallback && acc.fallback is Some {
                            Err(
                                RouterErrorView::ConflictingSpecialFunction {
                                    kind: SpecialFunction::Fallback,
                                    first_module: acc.fallback->Some_0,
                                    second_module: m.name@,
                                },
                            )
                        } else if abi.has_receive && acc.receive is Some {
                            Err(
                                RouterErrorView::ConflictingSpecialFunction {
                                    kind: SpecialFunction::Receive,
                                    first_module: acc.receive->Some_0,
                                    second_module: m.name@,
                                },
                            )
                        } else {
                            Ok(
                                CollectedView {
                                    entries: es,
                                    fallback: if abi.has_fallback {
                                        Some(m.name@)
                                    } else {
                                        acc.fallback
                                    },
                                    receive: if abi.has_receive {
                                        Some(m.name@)
                                    } else {
                                        acc.receive
                                    },
                                },
                            )
                        },
                    }
                },
            },
        },
    }
}

/// Collects the modules in order, stopping at the first error.
pub open spec fn collect_spec(mods: Seq<ModuleInput>, deployer: Seq<u8>, salt: Seq<u8>) -> Result<
    CollectedView,
    RouterErrorView,
>
    decreases mods.len(),
{
    if mods.len() == 0 {
        Ok(CollectedView { entries: Seq::empty(), fallback: None, receive: None })
    } else {
        match collect_spec(mods.drop_last(), deployer, salt) {
            Err(e) => Err(e),
            Ok(c) => add_module(c, mods.last(), deployer, salt),
        }
    }
}

/// A prefix that already holds `sel` fixes the first index of `sel`.
proof fn lemma_find_selector_prefix(es: Seq<EntryView>, k: int, sel: Seq<char>)
    requires
        0 <= k <= es.len(),
        find_selector(es.take(k), sel) is Some,
    ensures
        find_selector(es, sel) == find_selector(es.take(k), sel),
    decreases es.len(),
{
    if k == es.len() {
        assert(es.take(k) =~= es);
    } else {
        assert(es.drop_last().take(k) =~= es.take(k));
        lemma_find_selector_prefix(es.drop_last(), k, sel);
    }
}

/// A found index is in range and holds the selector.
proof fn lemma_find_selector_found(es: Seq<EntryView>, sel: Seq<char>)
    ensures
        match find_selector(es, sel) {
            Some(j) => 0 <= j < es.len() && es[j].selector == sel,
            None => true,
        },
    decreases es.len(),
{
    if es.len() > 0 {
        lemma_find_selector_found(es.drop_last(), sel);
    }
}

/// An error on a prefix of the functions is the error on all of them.
proof fn lemma_add_functions_err_prefix(
    acc: Seq<EntryView>,
    module: Seq<char>,
    address: Seq<u8>,
    fns: Seq<AbiFunction>,
    k: int,
)
    requires
        0 <= k <= fns.len(),
        add_functions(acc, module, address, fns.take(k)) is Err,
    ensures
        add_functions(acc, module, address, fns) == add_functions(acc, module, address, fns.take(k)),
    decreases fns.len(),
{
    if k == fns.len() {
        assert(fns.take(k) =~= fns);
    } else {
        assert(fns.drop_last().take(k) =~= fns.take(k));
        lemma_add_functions_err_prefix(acc, module, address, fns.drop_last(), k);
    }
}

/// An error on a prefix of the modules is the error on all of them.
proof fn lemma_collect_err_prefix(mods: Seq<ModuleInput>, deployer: Seq<u8>, salt: Seq<u8>, k: int)
    requires
        0 <= k <= mods.len(),
        collect_spec(mods.take(k), deployer, salt) is Err,
    ensures
        collect_spec(mods, deployer, salt) == collect_spec(mods.take(k), deployer, salt),
    decreases mods.len(),
{
    if k == mods.len() {
        assert(mods.take(k) =~= mods);
    } else {
        assert(mods.drop_last().take(k) =~= mods.take(k));
        lemma_collect_err_prefix(mods.drop_last(), deployer, salt, k);
    }
}

/// The 4-byte selector of a function signature, as `0x`-prefixed hex text.
pub fn function_selector(signature: &str) -> (r: String)
    ensures
        r@ == selector_text(signature@),
{
    let digest = keccak256(signature.as_bytes());
    let head: Vec<u8> = vec![digest[0], digest[1], digest[2], digest[3]];
    assert(head@ =~= digest@.take(4));
    hex_with_prefix(head.as_slice())
}

/// The index of the first entry with selector `sel`, if any.
fn find_entry(entries: &Vec<RouterTemplateInputs>, sel: &String) -> (r: Option<usize>)
    ensures
        match r {
            Some(j) => find_selector(entry_views(entries@), sel@) == Some(j as int),
            None => find_selector(entry_views(entries@), sel@) is None,
        },
{
    let ghost es = entry_views(entries@);
    let mut k: usize = 0;
    while k < entries.len()
        invariant
            k <= entries@.len(),
            es == entry_views(entries@),
            find_selector(es.take(k as int), sel@) is None,
        decreases entries@.len() - k,
    {
        let ghost t = es.take(k + 1);
        assert(t.drop_last() =~= es.take(k as int));
        if entries[k].selector == *sel {
            proof {
                lemma_find_selector_prefix(es, k + 1, sel@);
            }
            return Some(k);
        }
        k += 1;
    }
    assert(es.take(entries@.len() as int) =~= es);
    None
}

/// Collects the dispatch entries of the modules, in order, each function
/// with its module's CREATE2 address from `deployer` and `salt`. Fails on
/// the first module without an artifact, bytecode or ABI, on the first
/// selector seen twice, and on a second fallback or receive function.
pub fn collect_entries(modules: &Vec<ModuleInput>, deployer: &[u8; 20], salt: &[u8; 32]) -> (r: Result<
    Collected,
    RouterError,
>)
    ensures
        result_view(r) == collect_spec(modules@, deployer@, salt@),
{
    let mut entries: Vec<RouterTemplateInputs> = Vec::new();
    let mut fallback: Option<String> = None;
    let mut receive: Option<String> = None;
    let mut i: usize = 0;
    assert(modules@.take(0) =~= Seq::<ModuleInput>::empty());
    assert(entry_views(entries@) =~= Seq::<EntryView>::empty());
    while i < modules.len()
        invariant
            i <= modules@.len(),
            collect_spec(modules@.take(i as int), deployer@, salt@) == Ok::<CollectedView, RouterErrorView>(
                CollectedView {
                    entries: entry_views(entries@),
                    fallback: name_view(fallback),
                    receive: name_view(receive),
                },
            ),
        decreases modules@.len() - i,
    {
        let m = &modules[i];
        let ghost prev = CollectedView {
            entries: entry_views(entries@),
            fallback: name_view(fallback),
            receive: name_view(receive),
        };
        proof {
            assert(modules@.take(i + 1).drop_last() =~= modules@.take(i as int));
        }
        let artifact = match &m.artifact {
            None => {
                proof {
                    lemma_collect_err_prefix(modules@, deployer@, salt@, i + 1);
                }
                return Err(RouterError::ArtifactNotFound(m.name.clone()));
            },
            Some(a) => a,
        };
        let bytecode = match &artifact.bytecode {
            None => {
                proof {
                    lemma_collect_err_prefix(modules@, deployer@, salt@, i + 1);
                }
                return Err(RouterError::MissingBytecode(m.name.clone()));
            },
            Some(b) => b,
        };
        let abi = match &artifact.abi {
            None => {
                proof {
                    lemma_collect_err_prefix(modules@, deployer@, salt@, i + 1);
                }
                return Err(RouterError::MissingAbi(m.name.clone()));
            },
            Some(abi) => abi,
        };
        let address = create2_address(deployer, salt, bytecode.as_slice());
        let ghost fns = abi.functions@;
        let mut j: usize = 0;
        assert(fns.take(0) =~= Seq::<AbiFunction>::empty());
        while j < abi.functions.len()
            invariant
                j <= fns.len(),
                fns == abi.functions@,
                i < modules@.len(),
                *m == modules@[i as int],
                m.artifact == Some(*artifact),
                artifact.bytecode == Some(*bytecode),
                artifact.abi == Some(*abi),
                address@ == create2_of(deployer@, salt@, bytecode@),
                collect_spec(modules@.take(i as int), deployer@, salt@) == Ok::<CollectedView, RouterErrorView>(prev),
                modules@.take(i + 1).drop_last() == modules@.take(i as int),
                add_functions(prev.entries, m.name@, address@, fns.take(j as int)) == Ok::<
                    Seq<EntryView>,
                    RouterErrorView,
                >(entry_views(entries@)),
            decreases fns.len() - j,
        {
            let f = &abi.functions[j];
            let selector = function_selector(f.signature.as_str());
            proof {
                assert(fns.take(j + 1).drop_last() =~= fns.take(j as int));
            }
            match find_entry(&entries, &selector) {
                Some(k) => {
                    proof {
                        lemma_find_selector_found(entry_views(entries@), selector@);
                        lemma_add_functions_err_prefix(prev.entries, m.name@, address@, fns, j + 1);
                        assert(fns.take(fns.len() as int) =~= fns);
                        lemma_collect_err_prefix(modules@, deployer@, salt@, i + 1);
                    }
                    return Err(
                        RouterError::DuplicateSelector {
                            selector,
                            first_module: entries[k].contract_name.clone(),
                            second_module: m.name.clone(),
                        },
                    );
                },
                None => {},
            }
            let ghost before = entries@;
            entries.push(
                RouterTemplateInputs {
                    address,
                    contract_name: m.name.clone(),
                    function_name: f.name.clone(),
                    selector,
                },
            );
            assert(entry_views(entries@) =~= entry_views(before).push(entries@.last()@));
            j += 1;
        }
        assert(fns.take(fns.len() as int) =~= fns);
        if abi.has_fallback {
            match &fallback {
                Some(first) => {
                    proof {
                        lemma_collect_err_prefix(modules@, deployer@, salt@, i + 1);
                    }
                    return Err(
                        RouterError::ConflictingSpecialFunction {
                            kind: SpecialFunction::Fallback,
                            first_module: first.clone(),
                            second_module: m.name.clone(),
                        },
                    );
                },
                None => {},
            }
        }
        if abi.has_receive {
            match &receive {
                Some(first) => {
                    proof {
                        lemma_collect_err_prefix(modules@, deployer@, salt@, i + 1);
                    }
                    return Err(
                        RouterError::ConflictingSpecialFunction {
                            kind: SpecialFunction::Receive,
                            first_module: first.clone(),
                            second_module: m.name.clone(),
                        },
                    );
                },
                None => {},
            }
        }
        if abi.has_fallback {
            fallback = Some(m.name.clone());
        }
        if abi.has_receive {
            receive = Some(m.name.clone());
        }
        i += 1;
    }
    assert(modules@.take(modules@.len() as int) =~= modules@);
    Ok(Collected { entries, fallback, receive })
}

} // verus!
