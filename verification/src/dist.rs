//! Output locations of the firmware's companion build tool: the directory,
//! relative to the project root, where built artifacts for the firmware's
//! target land under each compile mode.

use vstd::prelude::*;
use vstd::string::StringExecFns;

verus! {

/// The compile mode the build tool runs under.
#[derive(Clone, Copy, PartialEq, Eq, Structural, Debug)]
pub enum CompileMode {
    Debug,
    Release,
}

/// The mode's name, as it appears in paths and messages.
pub open spec fn mode_name_spec(m: CompileMode) -> Seq<char> {
    match m {
        CompileMode::Debug => "debug"@,
        CompileMode::Release => "release"@,
    }
}

impl CompileMode {
    /// The mode's name, as it appears in paths and messages.
    pub fn name(&self) -> (r: String)
        ensures
            r@ == mode_name_spec(*self),
    {
        match self {
            CompileMode::Debug => String::from_str("debug"),
            CompileMode::Release => String::from_str("release"),
        }
    }
}

/// The build tool's settings.
#[derive(Clone, Copy, PartialEq, Eq, Structural, Debug)]
pub struct XtaskEnv {
    pub compile_mode: CompileMode,
}

/// The artifact directory for each mode: the target triple's build output,
/// in its debug or release flavor.
pub open spec fn dist_dir_spec(m: CompileMode) -> Seq<char> {
    match m {
        CompileMode::Debug => "target/riscv64imac-unknown-none-elf/debug"@,
        CompileMode::Release => "target/riscv64imac-unknown-none-elf/release"@,
    }
}

/// The directory, relative to the project root, where the build tool puts
/// this target's artifacts under the given settings.
pub fn dist_dir(xtask_env: &XtaskEnv) -> (r: String)
    ensures
        r@ == dist_dir_spec(xtask_env.compile_mode),
{
    match xtask_env.compile_mode {
        CompileMode::Debug => String::from_str("target/riscv64imac-unknown-none-elf/debug"),
        CompileMode::Release => String::from_str("target/riscv64imac-unknown-none-elf/release"),
    }
}

} // verus!
