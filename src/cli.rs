//! The arguments of the `generate` command, as plain values.

use vstd::prelude::*;

verus! {

/// Arguments for scaffolding a test file.
pub struct GenerateTestArgs {
    /// The name of the contract the test is for.
    pub contract_name: String,
}

/// Arguments for generating a router over several modules.
pub struct GenerateRouterArgs {
    /// The name of the router contract.
    pub router_name: String,
    /// The modules, as `name` or `path:name`.
    pub module_names: Vec<String>,
    /// The CREATE2 deployer of the modules.
    pub deployer: [u8; 20],
    /// The CREATE2 salt of the modules.
    pub salt: [u8; 32],
}

/// The deterministic CREATE2 deployer,
/// `0x4e59b44847b379578588920cA78FbF26c0B4956C`.
pub open spec fn default_deployer_bytes() -> Seq<u8> {
    seq![
        0x4eu8, 0x59, 0xb4, 0x48, 0x47, 0xb3, 0x79, 0x57, 0x85, 0x88,
        0x92, 0x0c, 0xa7, 0x8f, 0xbf, 0x26, 0xc0, 0xb4, 0x95, 0x6c,
    ]
}

impl GenerateRouterArgs {
    /// Router arguments with the default deployer and a zero salt.
    pub fn new(router_name: String, module_names: Vec<String>) -> (r: Self)
        ensures
            r.router_name@ == router_name@,
            r.module_names@ == module_names@,
            r.deployer@ == default_deployer_bytes(),
            r.salt@ == Seq::new(32, |i: int| 0u8),
    {
        let deployer: [u8; 20] = [
            0x4e, 0x59, 0xb4, 0x48, 0x47, 0xb3, 0x79, 0x57, 0x85, 0x88,
            0x92, 0x0c, 0xa7, 0x8f, 0xbf, 0x26, 0xc0, 0xb4, 0x95, 0x6c,
        ];
        let salt: [u8; 32] = [0u8; 32];
        let r = GenerateRouterArgs { router_name, module_names, deployer, salt };
        assert(r.deployer@ =~= default_deployer_bytes());
        assert(r.salt@ =~= Seq::new(32, |i: int| 0u8));
        r
    }
}

/// The subcommands of `generate`.
pub enum GenerateSubcommands {
    /// Scaffolds a test file for a contract.
    Test(GenerateTestArgs),
    /// Generates a router over several modules.
    Router(Box<GenerateRouterArgs>),
}

/// The arguments of `generate`.
pub struct GenerateArgs {
    pub sub: GenerateSubcommands,
}

} // verus!
