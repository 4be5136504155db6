//! The decisions behind running external commands and reporting their
//! errors; the caller performs the actual process work.
use vstd::prelude::*;
use crate::strutil::{
    spec_contains_sub, spec_lower, spec_starts_with, spec_tokens, contains_sub, starts_with,
    to_lowercase, tokenize,
};

verus! {

/// How a command line is to be run: through a shell when it chains
/// commands, directly otherwise, with its whitespace-separated program
/// and arguments.
pub struct CommandPlan {
    pub use_shell: bool,
    pub program: String,
    pub args: Vec<String>,
}

/// The mathematical content of a `CommandPlan`.
pub ghost struct CommandPlanModel {
    pub use_shell: bool,
    pub program: Seq<char>,
    pub args: Seq<Seq<char>>,
}

impl View for CommandPlan {
    type V = CommandPlanModel;

    open spec fn view(&self) -> CommandPlanModel {
        CommandPlanModel {
            use_shell: self.use_shell,
            program: self.program@,
            args: self.args.deep_view(),
        }
    }
}

/// What a command line plans to: a shell run when it contains `&&`; else
/// its first word as the program — empty when there is none — and the
/// remaining words as arguments.
pub open spec fn spec_command_plan(cmd: Seq<char>) -> CommandPlanModel {
    let toks = spec_tokens(cmd);
    CommandPlanModel {
        use_shell: spec_contains_sub(cmd, "&&"@),
        program: if toks.len() > 0 {
            toks[0]
        } else {
            Seq::empty()
        },
        args: if toks.len() > 0 {
            toks.skip(1)
        } else {
            Seq::empty()
        },
    }
}

/// Plans a command line.
pub fn command_plan(cmd: &str) -> (r: CommandPlan)
    ensures
        r@ == spec_command_plan(cmd@),
{
    let use_shell = contains_sub(cmd, "&&");
    let mut toks = tokenize(cmd);
    let ghost tm = toks.deep_view();
    if toks.len() > 0 {
        let program = toks.remove(0);
        proof {
            assert(toks.deep_view() =~= tm.skip(1));
            assert(program@ == tm[0]);
        }
        CommandPlan { use_shell, program, args: toks }
    } else {
        let r = CommandPlan { use_shell, program: String::new(), args: Vec::new() };
        proof {
            assert(r.args.deep_view() =~= Seq::<Seq<char>>::empty());
        }
        r
    }
}

/// What a finished command returns to its caller: standard output, or
/// standard error when standard output is empty.
pub open spec fn spec_select_output(stdout: Seq<char>, stderr: Seq<char>) -> Seq<char> {
    if stdout.len() == 0 {
        stderr
    } else {
        stdout
    }
}

/// Selects what a finished command returns.
pub fn select_command_output(stdout: String, stderr: String) -> (r: String)
    ensures
        r@ == spec_select_output(stdout@, stderr@),
{
    if stdout.as_str().unicode_len() == 0 {
        stderr
    } else {
        stdout
    }
}

/// Whether a finished command's error stream is to be reported: only
/// when not suppressed, the stream is non-empty and the exit status was
/// a failure.
pub fn should_report_error(stderr: &str, status_ok: bool, suppress: bool) -> (r: bool)
    ensures
        r == (!suppress && stderr@.len() > 0 && !status_ok),
{
    !suppress && stderr.unicode_len() > 0 && !status_ok
}

/// Whether an error message is a mere warning: it starts with
/// `warning`, in any casing.
pub fn error_is_warning(msg: &str) -> (r: bool)
    ensures
        r == spec_starts_with(spec_lower(msg@), "warning"@),
{
    let low = to_lowercase(msg);
    starts_with(low.as_str(), "warning")
}

/// Whether an error code ends the process: every code but the general
/// one does.
pub fn error_should_exit(code: i32) -> (r: bool)
    ensures
        r == (code != 101),
{
    code != 101
}

} // verus!
