//! Constants of the BOLT (post-link binary reordering) workflow: the
//! linker flags an instrumentation build needs, and the hint shown when
//! the external rewriting tool is missing.

use vstd::prelude::*;

verus! {

/// Hint displayed when the external binary-rewriting tool cannot be found.
pub fn llvm_bolt_install_hint() -> (r: &'static str)
    ensures
        r@ == "Build LLVM with BOLT and add its `bin` directory to PATH."@,
{
    "Build LLVM with BOLT and add its `bin` directory to PATH."
}

/// Extra compiler flags that a BOLT instrumentation build injects: keep
/// relocations in the linked binary so it can be rewritten afterwards.
pub fn bolt_rustflags() -> (r: &'static str)
    ensures
        r@ == "-C link-args=-Wl,-q"@,
{
    "-C link-args=-Wl,-q"
}

} // verus!
