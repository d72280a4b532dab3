use forge_generate::cli::GenerateRouterArgs;
use forge_generate::collect::{
    collect_entries, function_selector, AbiFunction, ModuleAbi, ModuleArtifact, ModuleInput, RouterError,
    SpecialFunction,
};
use forge_generate::entry::{selector_lt, sort_by_selector, RouterTemplateInputs};
use forge_generate::naming::{format_identifier, repeat_string, to_constant_case};
use forge_generate::render::{render_modules, render_selectors};
use forge_generate::router::generate_router;
use forge_generate::tree::{build_binary_data, into_leaves, DispatchNode};

fn entry(module: &str, function: &str, selector: &str) -> RouterTemplateInputs {
    RouterTemplateInputs::new([0x11; 20], module.to_string(), function.to_string(), selector.to_string())
}

fn numbered(n: usize) -> Vec<RouterTemplateInputs> {
    (1..=n).map(|i| entry("ModA", &format!("f{}", i), &format!("0x{:08x}", i))).collect()
}

fn function(name: &str, signature: &str) -> AbiFunction {
    AbiFunction { name: name.to_string(), signature: signature.to_string() }
}

fn module(name: &str, functions: Vec<AbiFunction>, has_fallback: bool, has_receive: bool) -> ModuleInput {
    ModuleInput {
        name: name.to_string(),
        artifact: Some(ModuleArtifact {
            bytecode: Some(vec![0x00]),
            abi: Some(ModuleAbi { functions, has_fallback, has_receive }),
        }),
    }
}

fn leaf_sizes(n: &DispatchNode, out: &mut Vec<usize>) {
    match n {
        DispatchNode::Leaf(v) => out.push(v.len()),
        DispatchNode::Branch(l, r) => {
            leaf_sizes(l, out);
            leaf_sizes(r, out);
        }
    }
}

#[test]
fn three_entries_make_one_leaf() {
    let tree = build_binary_data(vec![
        entry("ModA", "f3", "0x00000003"),
        entry("ModA", "f1", "0x00000001"),
        entry("ModA", "f2", "0x00000002"),
    ]);
    match &tree {
        DispatchNode::Leaf(v) => {
            let sels: Vec<&str> = v.iter().map(|e| e.selector.as_str()).collect();
            assert_eq!(sels, vec!["0x00000001", "0x00000002", "0x00000003"]);
        }
        DispatchNode::Branch(..) => panic!("expected a leaf"),
    }
    let text = render_selectors(&tree);
    let pad = "                ";
    let expected = format!(
        "{pad}switch sig\n\
         {pad}    case 0x00000001 {{ result := _MOD_A }} // ModA.f1()\n\
         {pad}    case 0x00000002 {{ result := _MOD_A }} // ModA.f2()\n\
         {pad}    case 0x00000003 {{ result := _MOD_A }} // ModA.f3()\n\
         {pad}leave"
    );
    assert_eq!(text, expected);
}

#[test]
fn twenty_entries_split_twice() {
    let mut input = numbered(20);
    input.reverse();
    let tree = build_binary_data(input);
    let mut sizes = Vec::new();
    leaf_sizes(&tree, &mut sizes);
    assert_eq!(sizes, vec![5, 5, 5, 5]);
    match &tree {
        DispatchNode::Branch(l, r) => {
            assert!(matches!(**l, DispatchNode::Branch(..)));
            assert!(matches!(**r, DispatchNode::Branch(..)));
        }
        DispatchNode::Leaf(_) => panic!("expected a branch"),
    }
    let text = render_selectors(&tree);
    let guards: Vec<&str> = text.lines().filter(|l| l.trim_start().starts_with("if lt")).collect();
    assert_eq!(
        guards,
        vec![
            "                if lt(sig, 0x0000000b) {",
            "                    if lt(sig, 0x00000006) {",
            "                if lt(sig, 0x00000010) {",
        ]
    );
    let leaves = into_leaves(tree);
    let sels: Vec<String> = leaves.iter().map(|e| e.selector.clone()).collect();
    let expected: Vec<String> = (1..=20).map(|i| format!("0x{:08x}", i)).collect();
    assert_eq!(sels, expected);
}

#[test]
fn twenty_entries_golden_layout() {
    let text = render_selectors(&build_binary_data(numbered(20)));
    let lines: Vec<&str> = text.lines().collect();
    assert_eq!(lines[0], "                if lt(sig, 0x0000000b) {");
    assert_eq!(lines[1], "                    if lt(sig, 0x00000006) {");
    assert_eq!(lines[2], "                        switch sig");
    assert_eq!(lines[3], "                            case 0x00000001 { result := _MOD_A } // ModA.f1()");
    assert_eq!(lines[8], "                        leave");
    assert_eq!(lines[9], "                    }");
    assert_eq!(lines[10], "                    switch sig");
    assert_eq!(lines[17], "                }");
    assert_eq!(lines.len(), 4 * 7 + 3 * 2);
    assert_eq!(*lines.last().unwrap(), "                leave");
}

#[test]
fn rendering_twice_is_identical() {
    let tree = build_binary_data(numbered(23));
    assert_eq!(render_selectors(&tree), render_selectors(&tree));
}

#[test]
fn leaves_respect_threshold() {
    for n in [0usize, 1, 9, 10, 17, 18, 19, 37, 100] {
        let mut sizes = Vec::new();
        leaf_sizes(&build_binary_data(numbered(n)), &mut sizes);
        assert!(sizes.iter().all(|s| *s <= 9));
        assert_eq!(sizes.iter().sum::<usize>(), n);
    }
}

#[test]
fn empty_tree_renders_empty_switch() {
    let text = render_selectors(&build_binary_data(Vec::new()));
    assert_eq!(text, "                switch sig\n                leave");
}

#[test]
fn sort_orders_by_selector_text() {
    let sorted = sort_by_selector(vec![
        entry("M", "c", "0xffffffff"),
        entry("M", "a", "0x0000000a"),
        entry("M", "b", "0x000000a0"),
    ]);
    let names: Vec<&str> = sorted.iter().map(|e| e.function_name.as_str()).collect();
    assert_eq!(names, vec!["a", "b", "c"]);
}

#[test]
fn selector_text_order() {
    assert!(selector_lt("0x00000001", "0x00000002"));
    assert!(!selector_lt("0x00000002", "0x00000001"));
    assert!(!selector_lt("0x00000001", "0x00000001"));
    assert!(selector_lt("0x0000", "0x00000000"));
    assert!(selector_lt("0xA", "0xa"));
}

#[test]
fn selector_of_transfer() {
    assert_eq!(function_selector("transfer(address,uint256)"), "0xa9059cbb");
    assert_eq!(function_selector("balanceOf(address)"), "0x70a08231");
}

#[test]
fn colliding_selectors_are_rejected() {
    let modules = vec![
        module("First", vec![function("transfer", "transfer(address,uint256)")], false, false),
        module("Second", vec![function("transfer", "transfer(address,uint256)")], false, false),
    ];
    match generate_router(&modules, &[0; 20], &[0; 32]) {
        Err(RouterError::DuplicateSelector { selector, first_module, second_module }) => {
            assert_eq!(selector, "0xa9059cbb");
            assert_eq!(first_module, "First");
            assert_eq!(second_module, "Second");
        }
        other => panic!("unexpected {:?}", other),
    }
}

#[test]
fn two_receive_functions_conflict() {
    let modules = vec![
        module("First", vec![function("a", "a()")], false, true),
        module("Second", vec![function("b", "b()")], false, true),
    ];
    match collect_entries(&modules, &[0; 20], &[0; 32]) {
        Err(RouterError::ConflictingSpecialFunction { kind, first_module, second_module }) => {
            assert_eq!(kind, SpecialFunction::Receive);
            assert_eq!(first_module, "First");
            assert_eq!(second_module, "Second");
        }
        other => panic!("unexpected {:?}", other.map(|c| c.entries.len())),
    }
}

#[test]
fn two_fallback_functions_conflict() {
    let modules = vec![
        module("First", vec![], true, false),
        module("Second", vec![], true, true),
    ];
    match collect_entries(&modules, &[0; 20], &[0; 32]) {
        Err(RouterError::ConflictingSpecialFunction { kind, .. }) => assert_eq!(kind, SpecialFunction::Fallback),
        other => panic!("unexpected {:?}", other.map(|c| c.entries.len())),
    }
}

#[test]
fn one_fallback_and_one_receive_are_kept() {
    let modules = vec![module("First", vec![], true, false), module("Second", vec![], false, true)];
    let c = collect_entries(&modules, &[0; 20], &[0; 32]).unwrap();
    assert_eq!(c.fallback.as_deref(), Some("First"));
    assert_eq!(c.receive.as_deref(), Some("Second"));
}

#[test]
fn missing_artifact_parts_are_reported() {
    let none = vec![ModuleInput { name: "Gone".to_string(), artifact: None }];
    assert!(matches!(collect_entries(&none, &[0; 20], &[0; 32]), Err(RouterError::ArtifactNotFound(m)) if m == "Gone"));
    let no_code = vec![ModuleInput {
        name: "NoCode".to_string(),
        artifact: Some(ModuleArtifact {
            bytecode: None,
            abi: Some(ModuleAbi { functions: vec![], has_fallback: false, has_receive: false }),
        }),
    }];
    assert!(matches!(collect_entries(&no_code, &[0; 20], &[0; 32]), Err(RouterError::MissingBytecode(m)) if m == "NoCode"));
    let no_abi = vec![ModuleInput {
        name: "NoAbi".to_string(),
        artifact: Some(ModuleArtifact { bytecode: Some(vec![1]), abi: None }),
    }];
    assert!(matches!(collect_entries(&no_abi, &[0; 20], &[0; 32]), Err(RouterError::MissingAbi(m)) if m == "NoAbi"));
}

#[test]
fn module_with_five_entries_has_one_constant() {
    let text = render_modules(numbered(5));
    assert_eq!(text.lines().count(), 1);
    assert!(text.starts_with("address constant _MOD_A = 0x"));
    assert!(text.ends_with(";"));
}

#[test]
fn module_table_keeps_first_seen_order() {
    let entries = vec![
        entry("Beta", "x", "0x00000001"),
        entry("Alpha", "y", "0x00000002"),
        entry("Beta", "z", "0x00000003"),
    ];
    let text = render_modules(entries);
    let names: Vec<&str> = text.lines().map(|l| l.split(' ').nth(2).unwrap()).collect();
    assert_eq!(names, vec!["_BETA", "_ALPHA"]);
}

#[test]
fn module_address_is_create2_checksummed() {
    let modules = vec![module("A", vec![function("f", "f()")], false, false)];
    let code = generate_router(&modules, &[0; 20], &[0; 32]).unwrap();
    assert_eq!(code.modules, "address constant _A = 0x4D1A2e2bB4F88F0250f26Ffff098B0b30B26BF38;");
    assert!(code.selectors.contains("// A.f()"));
}

#[test]
fn router_output_is_sorted_by_selector() {
    let modules = vec![
        module("Token", vec![function("transfer", "transfer(address,uint256)")], false, false),
        module("Vault", vec![function("balanceOf", "balanceOf(address)")], false, false),
    ];
    let code = generate_router(&modules, &[0; 20], &[0; 32]).unwrap();
    let cases: Vec<&str> = code.selectors.lines().filter(|l| l.contains("case")).collect();
    assert!(cases[0].contains("0x70a08231"));
    assert!(cases[1].contains("0xa9059cbb"));
    let consts: Vec<&str> = code.modules.lines().map(|l| l.split(' ').nth(2).unwrap()).collect();
    assert_eq!(consts, vec!["_VAULT", "_TOKEN"]);
}

#[test]
fn constant_case_conversion() {
    assert_eq!(to_constant_case("MyModule"), "_MY_MODULE");
    assert_eq!(to_constant_case("myModule"), "MY_MODULE");
    assert_eq!(to_constant_case("ERC20Token"), "_ERC20_TOKEN");
    assert_eq!(to_constant_case(""), "");
}

#[test]
fn identifier_formatting() {
    assert_eq!(format_identifier("my cool router", true), "MyCoolRouter");
    assert_eq!(format_identifier("my cool router", false), "myCoolRouter");
    assert_eq!(format_identifier("  Spaced   Out ", false), "spacedOut");
    assert_eq!(format_identifier("", true), "");
}

#[test]
fn repeat_builds_indentation() {
    assert_eq!(repeat_string("ab", 3), "ababab");
    assert_eq!(repeat_string("    ", 0), "");
}

#[test]
fn router_args_defaults() {
    let args = GenerateRouterArgs::new("R".to_string(), vec!["A".to_string()]);
    assert_eq!(const_hex::encode_prefixed(args.deployer), "0x4e59b44847b379578588920ca78fbf26c0b4956c");
    assert_eq!(args.salt, [0u8; 32]);
}
