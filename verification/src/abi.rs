//! The ABI of a module: a hint to WebAssembly runtimes about what additional
//! imports to insert.

use vstd::prelude::*;

verus! {

/// The ABI is a hint to WebAssembly runtimes about what additional imports to insert.
/// It currently is only used for validation (in the validation subcommand).  The default value is `Generic`, the absence of an ABI (written `none` in manifests).
#[derive(Clone, Copy, Debug, PartialEq, Eq, Structural)]
pub enum Abi {
    Emscripten,
    Generic,
    Wasi,
}

impl Abi {
    /// How the ABI is shown to users: `emscripten`, `wasi`, or `generic` for none.
    pub open spec fn spec_name(self) -> Seq<char> {
        match self {
            Abi::Emscripten => "emscripten"@,
            Abi::Wasi => "wasi"@,
            Abi::Generic => "generic"@,
        }
    }

    /// How the ABI is shown to users.
    pub fn to_string(&self) -> (res: String)
        ensures
            res@ == self.spec_name(),
    {
        match self {
            Abi::Emscripten => String::from_str("emscripten"),
            Abi::Wasi => String::from_str("wasi"),
            Abi::Generic => String::from_str("generic"),
        }
    }
}

impl Default for Abi {
    fn default() -> (res: Abi)
        ensures
            res == Abi::Generic,
    {
        Abi::Generic
    }
}

} // verus!
