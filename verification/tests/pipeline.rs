use ln_build::errors::{ConfigIssue, Error};
use ln_build::pipeline::{plan_archive, plan_compile, publish_after_archive};

#[test]
fn accepted_architecture_yields_the_fixed_compile_command() {
    let cmd = plan_compile(86, &vec![80, 86, 90], "/tmp/scratch").unwrap();
    assert_eq!(cmd.program, "nvcc");
    assert_eq!(
        cmd.args,
        vec![
            "-std=c++17",
            "-O3",
            "-U__CUDA_NO_HALF_OPERATORS__",
            "-U__CUDA_NO_HALF_CONVERSIONS__",
            "-U__CUDA_NO_BFLOAT16_OPERATORS__",
            "-U__CUDA_NO_BFLOAT16_CONVERSIONS__",
            "-U__CUDA_NO_BFLOAT162_OPERATORS__",
            "-U__CUDA_NO_BFLOAT162_CONVERSIONS__",
            "--gpu-architecture=sm_86",
            "-c",
            "-o",
            "/tmp/scratch/ln_api.o",
            "--default-stream",
            "per-thread",
            "--expt-relaxed-constexpr",
            "--expt-extended-lambda",
            "--use_fast_math",
            "cuda-kernels/layer_norm/ln_api.cu",
        ]
    );
}

#[test]
fn rejected_architecture_yields_no_compile_command() {
    assert!(matches!(
        plan_compile(85, &vec![80, 86], "/tmp/scratch"),
        Err(Error::Config(ConfigIssue::NotSupported { requested: 85 }))
    ));
}

#[test]
fn architecture_above_maximum_yields_its_own_error_and_no_command() {
    assert!(matches!(
        plan_compile(90, &vec![80, 86], "/tmp/scratch"),
        Err(Error::Config(ConfigIssue::ExceedsMax { requested: 90, max: 86 }))
    ));
}

#[test]
fn successful_compile_yields_the_archive_command() {
    let compile = plan_compile(80, &vec![80], "/out").unwrap();
    let archive = plan_archive(
        compile,
        true,
        String::new(),
        String::new(),
        "/out",
    )
    .unwrap();
    assert_eq!(archive.program, "nvcc");
    assert_eq!(
        archive.args,
        vec!["--lib", "-o", "/out/liblayernorm.a", "/out/ln_api.o"]
    );
}

#[test]
fn failed_compile_surfaces_captured_stderr_verbatim_and_no_archive() {
    let compile = plan_compile(80, &vec![80], "/out").unwrap();
    match plan_archive(
        compile,
        false,
        String::from("some progress"),
        String::from("ptxas fatal : oh no"),
        "/out",
    ) {
        Err(Error::Build(b)) => {
            assert_eq!(b.stderr, "ptxas fatal : oh no");
            assert_eq!(b.stdout, "some progress");
            assert_eq!(b.command[0], "nvcc");
            assert!(b.command.contains(&String::from("--gpu-architecture=sm_80")));
        }
        other => panic!("expected a build error, got {:?}", other),
    }
}

#[test]
fn successful_archive_yields_the_link_directives() {
    let compile = plan_compile(80, &vec![80], "/out").unwrap();
    let archive = plan_archive(compile, true, String::new(), String::new(), "/out").unwrap();
    let lines =
        publish_after_archive(archive, true, String::new(), String::new(), "/out").unwrap();
    assert_eq!(
        lines,
        vec![
            "cargo:rustc-link-search=/out",
            "cargo:rustc-link-lib=layernorm",
            "cargo:rustc-link-lib=dylib=cudart",
            "cargo:rustc-link-lib=dylib=stdc++",
        ]
    );
}

#[test]
fn failed_archive_surfaces_its_own_command_line() {
    let compile = plan_compile(80, &vec![80], "/out").unwrap();
    let archive = plan_archive(compile, true, String::new(), String::new(), "/out").unwrap();
    match publish_after_archive(
        archive,
        false,
        String::new(),
        String::from("ar: cannot write"),
        "/out",
    ) {
        Err(Error::Build(b)) => {
            assert_eq!(b.stderr, "ar: cannot write");
            assert_eq!(b.command[0], "nvcc");
            assert_eq!(b.command[1], "--lib");
        }
        other => panic!("expected a build error, got {:?}", other),
    }
}
