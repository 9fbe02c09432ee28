//! Link Publisher: the directives announced to the enclosing build —
//! rebuild triggers, the recorded configuration, the linker search path
//! and the libraries to link. It has no failure path of its own.
use crate::text::dec_digits;
use crate::text::render_usize;
use vstd::prelude::*;
use vstd::string::*;

verus! {

/// The linker directives owed after a successful build: search the
/// scratch directory, link the produced static archive, and link the
/// accelerator runtime and the compiler support runtime dynamically.
pub open spec fn link_directive_chars(out_dir: Seq<char>) -> Seq<Seq<char>> {
    seq![
        "cargo:rustc-link-search="@ + out_dir,
        "cargo:rustc-link-lib=layernorm"@,
        "cargo:rustc-link-lib=dylib=cudart"@,
        "cargo:rustc-link-lib=dylib=stdc++"@,
    ]
}

/// The linker directives for a build that put its artifacts under
/// `out_dir`.
pub fn link_directives(out_dir: &str) -> (r: Vec<String>)
    ensures
        r.deep_view() == link_directive_chars(out_dir@),
{
    let mut out: Vec<String> = Vec::new();
    let mut search = String::from_str("cargo:rustc-link-search=");
    search.append(out_dir);
    out.push(search);
    out.push(String::from_str("cargo:rustc-link-lib=layernorm"));
    out.push(String::from_str("cargo:rustc-link-lib=dylib=cudart"));
    out.push(String::from_str("cargo:rustc-link-lib=dylib=stdc++"));
    proof {
        assert(out.deep_view() =~~= link_directive_chars(out_dir@));
    }
    out
}

/// The rebuild triggers: the kernel sources and the override variable.
pub open spec fn rebuild_trigger_chars() -> Seq<Seq<char>> {
    seq![
        "cargo:rerun-if-changed=cuda-kernels/layer_norm/ln_api.cu"@,
        "cargo:rerun-if-changed=cuda-kernels/layer_norm/*.cuh"@,
        "cargo:rerun-if-changed=cuda-kernels/layer_norm/*.h"@,
        "cargo:rerun-if-env-changed=CUDA_COMPUTE_CAP"@,
    ]
}

/// The rebuild triggers to announce before detection runs.
pub fn rebuild_triggers() -> (r: Vec<String>)
    ensures
        r.deep_view() == rebuild_trigger_chars(),
{
    let mut out: Vec<String> = Vec::new();
    out.push(String::from_str("cargo:rerun-if-changed=cuda-kernels/layer_norm/ln_api.cu"));
    out.push(String::from_str("cargo:rerun-if-changed=cuda-kernels/layer_norm/*.cuh"));
    out.push(String::from_str("cargo:rerun-if-changed=cuda-kernels/layer_norm/*.h"));
    out.push(String::from_str("cargo:rerun-if-env-changed=CUDA_COMPUTE_CAP"));
    proof {
        assert(out.deep_view() =~~= rebuild_trigger_chars());
    }
    out
}

/// The directive recording the resolved architecture, so a change of it
/// re-runs the pipeline.
pub fn record_arch_directive(cap: usize) -> (r: String)
    ensures
        r@ == "cargo:rustc-env=CUDA_COMPUTE_CAP="@ + dec_digits(cap as int),
{
    let mut s = String::from_str("cargo:rustc-env=CUDA_COMPUTE_CAP=");
    let rendered = render_usize(cap);
    s.append(rendered.as_str());
    s
}

/// The directive recording the chosen SDK include directory.
pub fn record_include_dir_directive(dir: &str) -> (r: String)
    ensures
        r@ == "cargo:rustc-env=CUDA_INCLUDE_DIR="@ + dir@,
{
    let mut s = String::from_str("cargo:rustc-env=CUDA_INCLUDE_DIR=");
    s.append(dir);
    s
}

} // verus!
