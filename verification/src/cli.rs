//! The command line's arguments, as the driver takes them.
use vstd::prelude::*;

use crate::driver::{CompilationOptions, EmitKind};

verus! {

/// The arguments of `fibc`: the entry file, the import roots, the stage to
/// stop after and the output and toolchain choices.
#[derive(Debug)]
pub struct Args {
    /// Path to the Fib source file to compile.
    pub file: String,
    /// Extra directories searched when resolving imports.
    pub include_path: Vec<String>,
    /// Output binary path (`--emit=bin`) or `.ll` path (`--emit=llvm`).
    pub output: Option<String>,
    /// Stage to stop after.
    pub emit: EmitKind,
    /// Run the frontend only.
    pub check: bool,
    /// Keep the intermediate LLVM IR next to the binary.
    pub emit_llvm: bool,
    /// Explicit path for the intermediate LLVM IR.
    pub llvm_out: Option<String>,
    /// C compiler used for linking.
    pub cc: Option<String>,
    /// Optimization level passed to the C compiler.
    pub opt_level: Option<String>,
}

/// The `--emit` value parser.
pub fn parse_emit_kind(s: &str) -> (r: Result<EmitKind, String>)
    ensures
        match crate::driver::emit_named(s@) {
            Some(k) => r == Ok::<EmitKind, String>(k),
            None => r is Err,
        },
{
    EmitKind::parse_name(s)
}

impl From<Args> for CompilationOptions {
    fn from(args: Args) -> (o: Self) {
        CompilationOptions {
            project_path: args.file,
            source_override: None,
            include_paths: args.include_path,
            output: args.output,
            emit: args.emit,
            check_only: args.check,
            emit_llvm: args.emit_llvm,
            llvm_out: args.llvm_out,
            cc: args.cc,
            opt_level: args.opt_level,
        }
    }
}

impl vstd::std_specs::convert::FromSpecImpl<Args> for CompilationOptions {
    open spec fn obeys_from_spec() -> bool {
        true
    }

    open spec fn from_spec(args: Args) -> Self {
        CompilationOptions {
            project_path: args.file,
            source_override: None,
            include_paths: args.include_path,
            output: args.output,
            emit: args.emit,
            check_only: args.check,
            emit_llvm: args.emit_llvm,
            llvm_out: args.llvm_out,
            cc: args.cc,
            opt_level: args.opt_level,
        }
    }
}

} // verus!
