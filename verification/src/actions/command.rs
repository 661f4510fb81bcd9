//! The `command.run` action: an allowlisted program with structured
//! arguments, run without a shell.
use vstd::prelude::*;

use crate::error::{opt_view, validation_error, AppError, AppErrorView};
use crate::json::{
    json_i64, json_object, json_object_text, json_opt_str, json_opt_string, json_str, json_str_array,
    json_string, json_string_array,
};
use crate::process_runner::{OutputView, ProcessOutput};
use crate::runtime::{unit_result_view, RunOptions};
use crate::text::{chars_of, owned, signed_decimal, trim, trim_chars, views};

verus! {

/// Parameters of `command.run`.
#[derive(Debug, Clone)]
pub struct CommandRunParams {
    pub program: String,
    pub args: Vec<String>,
    pub cwd: Option<String>,
}

/// What checking the parameters of `command.run` gives.
pub open spec fn command_params_check(program: Seq<char>) -> Result<(), AppErrorView> {
    if trim(program).len() == 0 {
        Err(validation_error("program must not be empty."@, None))
    } else {
        Ok(())
    }
}

/// Rejects a blank program name.
pub fn check_command_params(params: &CommandRunParams) -> (r: Result<(), AppError>)
    ensures
        unit_result_view(&r) == command_params_check(params.program@),
{
    let v = chars_of(params.program.as_str());
    let t = trim_chars(v.as_slice());
    if t.len() == 0 {
        return Err(AppError::validation(owned("program must not be empty.")));
    }
    Ok(())
}

/// How `command.run` runs its program: checked against the allowlist, with
/// the command and its output logged.
pub fn command_run_options() -> (o: RunOptions)
    ensures
        o.enforce_command_allowlist && o.log_command && o.log_output,
{
    RunOptions { enforce_command_allowlist: true, log_command: true, log_output: true }
}

/// The result of `command.run`: what ran, where, and its output.
pub open spec fn command_result_json(
    program: Seq<char>,
    args: Seq<Seq<char>>,
    cwd: Option<Seq<char>>,
    output: OutputView,
) -> Seq<char> {
    json_object(
        seq!["action"@, "program"@, "args"@, "cwd"@, "exit_code"@, "stdout"@, "stderr"@],
        seq![
            json_str("command.run"@),
            json_str(program),
            json_str_array(args),
            json_opt_str(cwd),
            signed_decimal(output.exit_code as int),
            json_str(output.stdout),
            json_str(output.stderr),
        ],
    )
}

/// The result of `command.run`, as JSON text.
pub fn command_result(params: &CommandRunParams, cwd: &Option<String>, output: &ProcessOutput) -> (out: String)
    ensures
        out@ == command_result_json(params.program@, views(params.args@), opt_view(*cwd), output@),
{
    let keys = vec![
        owned("action"),
        owned("program"),
        owned("args"),
        owned("cwd"),
        owned("exit_code"),
        owned("stdout"),
        owned("stderr"),
    ];
    let values = vec![
        json_string("command.run"),
        json_string(params.program.as_str()),
        json_string_array(&params.args),
        json_opt_string(cwd),
        json_i64(output.exit_code as i64),
        json_string(output.stdout.as_str()),
        json_string(output.stderr.as_str()),
    ];
    assert(views(keys@) =~= seq!["action"@, "program"@, "args"@, "cwd"@, "exit_code"@, "stdout"@, "stderr"@]);
    assert(views(values@) =~= seq![
        json_str("command.run"@),
        json_str(params.program@),
        json_str_array(views(params.args@)),
        json_opt_str(opt_view(*cwd)),
        signed_decimal(output.exit_code as int),
        json_str(output.stdout@),
        json_str(output.stderr@),
    ]);
    json_object_text(&keys, &values)
}

} // verus!
