use vstd::prelude::*;

verus! {

/// Directory holding one subdirectory per benchmark.
pub const SUITE_PATH: &'static str = "benchmarks";

/// Directory receiving one timing record per benchmark.
pub const RAW_PATH: &'static str = "results/raw";

/// Scratch workspace of the MoonBit build.
pub const MOON_WORKSPACE: &'static str = "target_scc/moon_workspace";

/// The host processor architectures that have a binary directory.
#[derive(Clone, Copy, Debug, PartialEq, Eq, Structural, Hash)]
pub enum Arch {
    X86_64,
    Aarch64,
}

/// The binary directory of an architecture.
pub open spec fn bin_root_spec(arch: Arch) -> Seq<char> {
    match arch {
        Arch::X86_64 => "target_scc/bin_x86_64"@,
        Arch::Aarch64 => "target_scc/bin_aarch64"@,
    }
}

/// The binary directory of an architecture.
pub fn bin_root(arch: Arch) -> (r: &'static str)
    ensures
        r@ == bin_root_spec(arch),
{
    match arch {
        Arch::X86_64 => "target_scc/bin_x86_64",
        Arch::Aarch64 => "target_scc/bin_aarch64",
    }
}

} // verus!
