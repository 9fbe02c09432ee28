//! Locating the accelerator SDK's include tree: an ordered candidate
//! list, and the first candidate holding the expected header wins.
use vstd::prelude::*;
use vstd::string::*;

verus! {

/// A directory that may hold the SDK, with the result of probing it for
/// the expected header file.
pub struct SdkCandidate {
    /// The candidate root directory.
    pub path: String,
    /// Whether `include/cuda.h` exists under it.
    pub has_header: bool,
}

/// The environment variables consulted for SDK roots, in order.
pub open spec fn sdk_env_name_chars() -> Seq<Seq<char>> {
    seq!["CUDA_PATH"@, "CUDA_ROOT"@, "CUDA_TOOLKIT_ROOT_DIR"@, "CUDNN_LIB"@]
}

/// The environment variables consulted for SDK roots, in order.
pub fn sdk_env_names() -> (r: Vec<String>)
    ensures
        r.deep_view() == sdk_env_name_chars(),
{
    let mut out: Vec<String> = Vec::new();
    out.push(String::from_str("CUDA_PATH"));
    out.push(String::from_str("CUDA_ROOT"));
    out.push(String::from_str("CUDA_TOOLKIT_ROOT_DIR"));
    out.push(String::from_str("CUDNN_LIB"));
    proof {
        assert(out.deep_view() =~~= sdk_env_name_chars());
    }
    out
}

/// The fixed fallback roots probed after the environment hints.
pub open spec fn default_root_chars() -> Seq<Seq<char>> {
    seq![
        "/usr"@,
        "/usr/local/cuda"@,
        "/opt/cuda"@,
        "/usr/lib/cuda"@,
        "C:/Program Files/NVIDIA GPU Computing Toolkit"@,
        "C:/CUDA"@,
    ]
}

/// The fixed fallback roots probed after the environment hints.
pub fn default_roots() -> (r: Vec<String>)
    ensures
        r.deep_view() == default_root_chars(),
{
    let mut out: Vec<String> = Vec::new();
    out.push(String::from_str("/usr"));
    out.push(String::from_str("/usr/local/cuda"));
    out.push(String::from_str("/opt/cuda"));
    out.push(String::from_str("/usr/lib/cuda"));
    out.push(String::from_str("C:/Program Files/NVIDIA GPU Computing Toolkit"));
    out.push(String::from_str("C:/CUDA"));
    proof {
        assert(out.deep_view() =~~= default_root_chars());
    }
    out
}

/// The full search order: the environment hints first, then the fixed
/// roots.
pub fn search_order(env_paths: Vec<String>) -> (r: Vec<String>)
    ensures
        r.deep_view() == env_paths.deep_view() + default_root_chars(),
{
    let mut out = env_paths;
    let mut rest = default_roots();
    out.append(&mut rest);
    proof {
        assert(out.deep_view() =~~= env_paths.deep_view() + default_root_chars());
    }
    out
}

/// The path probed for the header under a candidate root.
pub fn header_probe_path(root: &str) -> (r: String)
    ensures
        r@ == root@ + "/include/cuda.h"@,
{
    let mut s = root.to_owned();
    s.append("/include/cuda.h");
    s
}

/// The include directory under a chosen root.
pub fn include_dir_path(root: &str) -> (r: String)
    ensures
        r@ == root@ + "/include"@,
{
    let mut s = root.to_owned();
    s.append("/include");
    s
}

/// The first candidate whose probe found the header, if any.
pub fn select_sdk_root(cands: &Vec<SdkCandidate>) -> (r: Option<usize>)
    ensures
        match r {
            Some(i) => i < cands@.len() && cands@[i as int].has_header && (forall|j: int|
                0 <= j < i ==> !(#[trigger] cands@[j]).has_header),
            None => forall|j: int| 0 <= j < cands@.len() ==> !(#[trigger] cands@[j]).has_header,
        },
{
    let n = cands.len();
    let mut i: usize = 0;
    while i < n
        invariant
            0 <= i <= n,
            n == cands@.len(),
            forall|j: int| 0 <= j < i ==> !(#[trigger] cands@[j]).has_header,
        decreases n - i,
    {
        if cands[i].has_header {
            return Some(i);
        }
        i = i + 1;
    }
    None
}

} // verus!
