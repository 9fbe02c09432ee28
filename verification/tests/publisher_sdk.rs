use ln_build::publisher::{
    link_directives, rebuild_triggers, record_arch_directive, record_include_dir_directive,
};
use ln_build::sdk::{
    default_roots, header_probe_path, include_dir_path, sdk_env_names, search_order,
    select_sdk_root, SdkCandidate,
};

#[test]
fn link_directives_name_search_path_and_libraries() {
    assert_eq!(
        link_directives("/scratch"),
        vec![
            "cargo:rustc-link-search=/scratch",
            "cargo:rustc-link-lib=layernorm",
            "cargo:rustc-link-lib=dylib=cudart",
            "cargo:rustc-link-lib=dylib=stdc++",
        ]
    );
}

#[test]
fn rebuild_triggers_name_sources_and_override_variable() {
    assert_eq!(
        rebuild_triggers(),
        vec![
            "cargo:rerun-if-changed=cuda-kernels/layer_norm/ln_api.cu",
            "cargo:rerun-if-changed=cuda-kernels/layer_norm/*.cuh",
            "cargo:rerun-if-changed=cuda-kernels/layer_norm/*.h",
            "cargo:rerun-if-env-changed=CUDA_COMPUTE_CAP",
        ]
    );
}

#[test]
fn resolved_architecture_is_recorded() {
    assert_eq!(record_arch_directive(86), "cargo:rustc-env=CUDA_COMPUTE_CAP=86");
    assert_eq!(record_arch_directive(100), "cargo:rustc-env=CUDA_COMPUTE_CAP=100");
}

#[test]
fn chosen_include_dir_is_recorded() {
    assert_eq!(
        record_include_dir_directive("/usr/local/cuda/include"),
        "cargo:rustc-env=CUDA_INCLUDE_DIR=/usr/local/cuda/include"
    );
}

#[test]
fn search_order_puts_environment_hints_first() {
    let order = search_order(vec![String::from("/custom/sdk")]);
    assert_eq!(order[0], "/custom/sdk");
    assert_eq!(order[1], "/usr");
    assert_eq!(order.len(), 1 + default_roots().len());
}

#[test]
fn env_names_are_the_four_hints_in_order() {
    assert_eq!(
        sdk_env_names(),
        vec!["CUDA_PATH", "CUDA_ROOT", "CUDA_TOOLKIT_ROOT_DIR", "CUDNN_LIB"]
    );
}

#[test]
fn probe_and_include_paths_extend_the_root() {
    assert_eq!(header_probe_path("/opt/cuda"), "/opt/cuda/include/cuda.h");
    assert_eq!(include_dir_path("/opt/cuda"), "/opt/cuda/include");
}

fn candidate(path: &str, has_header: bool) -> SdkCandidate {
    SdkCandidate { path: String::from(path), has_header }
}

#[test]
fn first_candidate_with_header_wins() {
    let cands = vec![
        candidate("/a", false),
        candidate("/b", true),
        candidate("/c", true),
    ];
    assert_eq!(select_sdk_root(&cands), Some(1));
}

#[test]
fn no_candidate_with_header_selects_nothing() {
    let cands = vec![candidate("/a", false), candidate("/b", false)];
    assert_eq!(select_sdk_root(&cands), None);
    assert_eq!(select_sdk_root(&vec![]), None);
}
