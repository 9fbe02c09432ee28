//! The build-time sequence: validate the detected architecture, then
//! plan the compile, judge its exit, plan the archive, judge its exit,
//! and only then hand out the link directives. A stage's command can
//! only be obtained from the previous stage's success, so no compiler
//! runs on a rejected configuration and no archive step follows a
//! failed compile.
use crate::builder::{archive_args_chars, archive_command, check_tool_exit, command_line_chars,
    compile_args_chars, compile_command, ToolCommand};
use crate::catalog::{arch_accepted, arch_rejected, validate_arch};
use crate::errors::Error;
use crate::publisher::{link_directive_chars, link_directives};
use vstd::prelude::*;

verus! {

/// Validate the architecture against the supported set and, only on
/// acceptance, hand out the compile invocation.
pub fn plan_compile(cap: usize, codes: &Vec<usize>, out_dir: &str) -> (r: Result<
    ToolCommand,
    Error,
>)
    ensures
        ({
            let cs = codes@.map_values(|v: usize| v as int);
            match r {
                Ok(cmd) => arch_accepted(cap as int, cs) && cmd.program@ == "nvcc"@
                    && cmd.args.deep_view() == compile_args_chars(cap as int, out_dir@),
                Err(e) => arch_rejected(cap as int, cs, e),
            }
        }),
{
    match validate_arch(cap, codes) {
        Ok(()) => Ok(compile_command(cap, out_dir)),
        Err(e) => Err(e),
    }
}

/// Judge the finished compile and, only on success, hand out the
/// archive invocation; a failed compile is a build error carrying the
/// compile command line and its captured output verbatim.
pub fn plan_archive(
    compile_cmd: ToolCommand,
    success: bool,
    stdout: String,
    stderr: String,
    out_dir: &str,
) -> (r: Result<ToolCommand, Error>)
    ensures
        success ==> (r matches Ok(cmd) && cmd.program@ == "nvcc"@ && cmd.args.deep_view()
            == archive_args_chars(out_dir@)),
        !success ==> (r matches Err(Error::Build(b)) && b.command.deep_view()
            == command_line_chars(compile_cmd) && b.stdout@ == stdout@ && b.stderr@ == stderr@),
{
    match check_tool_exit(compile_cmd, success, stdout, stderr) {
        Ok(()) => Ok(archive_command(out_dir)),
        Err(e) => Err(e),
    }
}

/// Judge the finished archive run and, only on success, hand out the
/// link directives to publish.
pub fn publish_after_archive(
    archive_cmd: ToolCommand,
    success: bool,
    stdout: String,
    stderr: String,
    out_dir: &str,
) -> (r: Result<Vec<String>, Error>)
    ensures
        success ==> (r matches Ok(lines) && lines.deep_view() == link_directive_chars(out_dir@)),
        !success ==> (r matches Err(Error::Build(b)) && b.command.deep_view()
            == command_line_chars(archive_cmd) && b.stdout@ == stdout@ && b.stderr@ == stderr@),
{
    match check_tool_exit(archive_cmd, success, stdout, stderr) {
        Ok(()) => Ok(link_directives(out_dir)),
        Err(e) => Err(e),
    }
}

} // verus!
