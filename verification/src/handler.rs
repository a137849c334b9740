//! Launch-command construction for the two executable kinds. A WebAssembly
//! module is run under the `wasmtime` host runtime; a native binary is run
//! directly. The commands are built here and executed outside the library.

use vstd::prelude::*;

use vstd::string::StringExecFns;

use crate::text::clone_string_vec;

verus! {

/// A WebAssembly module to be run under the host runtime.
#[derive(Debug, Clone)]
pub struct Wasm32Wasi {
    pub path: String,
}

impl Wasm32Wasi {
    pub fn new(path: String) -> (r: Self)
        ensures
            r.path == path,
    {
        Wasm32Wasi { path }
    }

    /// The command that runs this module: the host runtime, given the
    /// module path and then the caller's arguments.
    pub fn command(&self, args: &Vec<String>) -> (r: (String, Vec<String>))
        ensures
            r.0@ == "wasmtime"@,
            r.1@ == seq![self.path] + args@,
    {
        let mut full: Vec<String> = Vec::new();
        full.push(self.path.clone());
        let mut rest = clone_string_vec(args);
        full.append(&mut rest);
        proof {
            assert(full@ =~= seq![self.path] + args@);
        }
        (String::from_str("wasmtime"), full)
    }
}

/// A native binary to be run directly.
#[derive(Debug, Clone)]
pub struct NativeBinary {
    pub path: String,
}

impl NativeBinary {
    pub fn new(path: String) -> (r: Self)
        ensures
            r.path == path,
    {
        NativeBinary { path }
    }

    /// The command that runs this binary: the binary itself with the
    /// caller's arguments.
    pub fn command(&self, args: &Vec<String>) -> (r: (String, Vec<String>))
        ensures
            r.0 == self.path,
            r.1@ == args@,
    {
        (self.path.clone(), clone_string_vec(args))
    }
}

} // verus!
