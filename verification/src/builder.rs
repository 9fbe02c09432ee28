//! Kernel Builder: the two fixed compiler invocations — compile to an
//! object file, then archive to a static library — and the judgement of
//! each run's exit status.
use crate::errors::{BuildFailure, Error};
use crate::text::{dec_digits, render_usize};
use vstd::prelude::*;
use vstd::string::*;

verus! {

/// A program to spawn together with its arguments.
#[derive(Debug)]
pub struct ToolCommand {
    /// The program name looked up on the search path.
    pub program: String,
    /// The arguments, in order.
    pub args: Vec<String>,
}

/// The object file's path inside the scratch directory.
pub open spec fn obj_path_chars(out_dir: Seq<char>) -> Seq<char> {
    out_dir + "/ln_api.o"@
}

/// The static archive's path inside the scratch directory.
pub open spec fn lib_path_chars(out_dir: Seq<char>) -> Seq<char> {
    out_dir + "/liblayernorm.a"@
}

/// The fixed compile arguments: modern language standard, maximum
/// optimization, half/extended precision support forced back on, the
/// target architecture, per-thread default stream, relaxed constexpr
/// and extended lambdas, and fast math.
pub open spec fn compile_args_chars(arch: int, out_dir: Seq<char>) -> Seq<Seq<char>> {
    seq![
        "-std=c++17"@,
        "-O3"@,
        "-U__CUDA_NO_HALF_OPERATORS__"@,
        "-U__CUDA_NO_HALF_CONVERSIONS__"@,
        "-U__CUDA_NO_BFLOAT16_OPERATORS__"@,
        "-U__CUDA_NO_BFLOAT16_CONVERSIONS__"@,
        "-U__CUDA_NO_BFLOAT162_OPERATORS__"@,
        "-U__CUDA_NO_BFLOAT162_CONVERSIONS__"@,
        "--gpu-architecture=sm_"@ + dec_digits(arch),
        "-c"@,
        "-o"@,
        obj_path_chars(out_dir),
        "--default-stream"@,
        "per-thread"@,
        "--expt-relaxed-constexpr"@,
        "--expt-extended-lambda"@,
        "--use_fast_math"@,
        "cuda-kernels/layer_norm/ln_api.cu"@,
    ]
}

/// The fixed archive arguments: pack the object file into the static
/// library.
pub open spec fn archive_args_chars(out_dir: Seq<char>) -> Seq<Seq<char>> {
    seq!["--lib"@, "-o"@, lib_path_chars(out_dir), obj_path_chars(out_dir)]
}

/// The compiler invocation for the chosen architecture.
pub fn compile_command(arch: usize, out_dir: &str) -> (r: ToolCommand)
    ensures
        r.program@ == "nvcc"@,
        r.args.deep_view() == compile_args_chars(arch as int, out_dir@),
{
    let mut args: Vec<String> = Vec::new();
    args.push(String::from_str("-std=c++17"));
    args.push(String::from_str("-O3"));
    args.push(String::from_str("-U__CUDA_NO_HALF_OPERATORS__"));
    args.push(String::from_str("-U__CUDA_NO_HALF_CONVERSIONS__"));
    args.push(String::from_str("-U__CUDA_NO_BFLOAT16_OPERATORS__"));
    args.push(String::from_str("-U__CUDA_NO_BFLOAT16_CONVERSIONS__"));
    args.push(String::from_str("-U__CUDA_NO_BFLOAT162_OPERATORS__"));
    args.push(String::from_str("-U__CUDA_NO_BFLOAT162_CONVERSIONS__"));
    let mut arch_arg = String::from_str("--gpu-architecture=sm_");
    let rendered = render_usize(arch);
    arch_arg.append(rendered.as_str());
    args.push(arch_arg);
    args.push(String::from_str("-c"));
    args.push(String::from_str("-o"));
    let mut obj = out_dir.to_owned();
    obj.append("/ln_api.o");
    args.push(obj);
    args.push(String::from_str("--default-stream"));
    args.push(String::from_str("per-thread"));
    args.push(String::from_str("--expt-relaxed-constexpr"));
    args.push(String::from_str("--expt-extended-lambda"));
    args.push(String::from_str("--use_fast_math"));
    args.push(String::from_str("cuda-kernels/layer_norm/ln_api.cu"));
    proof {
        assert(args.deep_view() =~~= compile_args_chars(arch as int, out_dir@));
    }
    ToolCommand { program: String::from_str("nvcc"), args }
}

/// The archiver invocation.
pub fn archive_command(out_dir: &str) -> (r: ToolCommand)
    ensures
        r.program@ == "nvcc"@,
        r.args.deep_view() == archive_args_chars(out_dir@),
{
    let mut args: Vec<String> = Vec::new();
    args.push(String::from_str("--lib"));
    args.push(String::from_str("-o"));
    let mut lib = out_dir.to_owned();
    lib.append("/liblayernorm.a");
    args.push(lib);
    let mut obj = out_dir.to_owned();
    obj.append("/ln_api.o");
    args.push(obj);
    proof {
        assert(args.deep_view() =~~= archive_args_chars(out_dir@));
    }
    ToolCommand { program: String::from_str("nvcc"), args }
}

/// The full invoked command line, program first.
pub open spec fn command_line_chars(cmd: ToolCommand) -> Seq<Seq<char>> {
    seq![cmd.program@] + cmd.args.deep_view()
}

/// Judge a finished tool run: a zero exit passes; a non-zero exit is a
/// build error carrying the full command line and both captured output
/// streams verbatim.
pub fn check_tool_exit(cmd: ToolCommand, success: bool, stdout: String, stderr: String) -> (r:
    Result<(), Error>)
    ensures
        success ==> r is Ok,
        !success ==> (r matches Err(Error::Build(b)) && b.command.deep_view()
            == command_line_chars(cmd) && b.stdout@ == stdout@ && b.stderr@ == stderr@),
{
    if success {
        return Ok(());
    }
    let mut command: Vec<String> = Vec::new();
    command.push(cmd.program);
    let mut rest = cmd.args;
    command.append(&mut rest);
    proof {
        assert(command.deep_view() =~~= command_line_chars(cmd));
    }
    Err(Error::Build(BuildFailure { command, stdout, stderr }))
}

} // verus!
