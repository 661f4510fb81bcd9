//! What becomes of a program run: its captured output on success, and the
//! error, with the run's details, when it could not start, could not be
//! waited for, timed out, or exited with a failure status.
use vstd::prelude::*;

use crate::error::{internal_error, process_failed_error, AppError, AppErrorView, opt_view};
use crate::json::{
    json_i64, json_object, json_object_text, json_opt_str, json_opt_string, json_str,
    json_str_array, json_string, json_string_array, json_u64,
};
use crate::text::{decimal, owned, signed_decimal, views};

verus! {

/// The captured result of a program that exited successfully.
#[derive(Debug, Clone)]
pub struct ProcessOutput {
    pub exit_code: i32,
    pub stdout: String,
    pub stderr: String,
}

/// The mathematical value of a [`ProcessOutput`].
pub struct OutputView {
    pub exit_code: i32,
    pub stdout: Seq<char>,
    pub stderr: Seq<char>,
}

impl View for ProcessOutput {
    type V = OutputView;

    open spec fn view(&self) -> OutputView {
        OutputView { exit_code: self.exit_code, stdout: self.stdout@, stderr: self.stderr@ }
    }
}

/// The details every run error starts with: the program, its arguments
/// and its working directory.
pub open spec fn run_keys() -> Seq<Seq<char>> {
    seq!["program"@, "args"@, "cwd"@]
}

/// The JSON values of [`run_keys`].
pub open spec fn run_values(program: Seq<char>, args: Seq<Seq<char>>, cwd: Option<Seq<char>>) -> Seq<
    Seq<char>,
> {
    seq![json_str(program), json_str_array(args), json_opt_str(cwd)]
}

/// The error for a program that could not be started.
pub open spec fn start_error(
    program: Seq<char>,
    args: Seq<Seq<char>>,
    cwd: Option<Seq<char>>,
    cause: Seq<char>,
) -> AppErrorView {
    process_failed_error(
        "Failed to start program: "@ + program,
        json_object(run_keys().push("cause"@), run_values(program, args, cwd).push(json_str(cause))),
    )
}

/// The error for a program that could not be waited for.
pub open spec fn wait_error(
    program: Seq<char>,
    args: Seq<Seq<char>>,
    cwd: Option<Seq<char>>,
    cause: Seq<char>,
) -> AppErrorView {
    process_failed_error(
        "Failed while waiting for program: "@ + program,
        json_object(run_keys().push("cause"@), run_values(program, args, cwd).push(json_str(cause))),
    )
}

/// The error for a program that ran longer than allowed.
pub open spec fn timeout_error(
    program: Seq<char>,
    args: Seq<Seq<char>>,
    cwd: Option<Seq<char>>,
    timeout_ms: u64,
    stdout: Seq<char>,
    stderr: Seq<char>,
) -> AppErrorView {
    process_failed_error(
        "Program timed out: "@ + program,
        json_object(
            run_keys() + seq!["timeout_ms"@, "stdout"@, "stderr"@],
            run_values(program, args, cwd) + seq![
                decimal(timeout_ms as nat),
                json_str(stdout),
                json_str(stderr),
            ],
        ),
    )
}

/// The error for a program that exited with a failure status.
pub open spec fn exit_error(
    program: Seq<char>,
    args: Seq<Seq<char>>,
    cwd: Option<Seq<char>>,
    exit_code: i32,
    stdout: Seq<char>,
    stderr: Seq<char>,
) -> AppErrorView {
    process_failed_error(
        "Program exited with a non-zero status: "@ + program,
        json_object(
            run_keys() + seq!["exit_code"@, "stdout"@, "stderr"@],
            run_values(program, args, cwd) + seq![
                signed_decimal(exit_code as int),
                json_str(stdout),
                json_str(stderr),
            ],
        ),
    )
}

/// The exit code reported for a process; `-1` when it was ended by a
/// signal and has none.
pub open spec fn reported_exit_code(code: Option<i32>) -> i32 {
    match code {
        Some(c) => c,
        None => -1i32,
    }
}

fn run_details(
    program: &str,
    args: &Vec<String>,
    cwd: &Option<String>,
    mut keys: Vec<String>,
    mut values: Vec<String>,
) -> (out: String)
    requires
        keys.len() == values.len(),
    ensures
        out@ == json_object(
            run_keys() + views(keys@),
            run_values(program@, views(args@), opt_view(*cwd)) + views(values@),
        ),
{
    let mut all_keys = vec![owned("program"), owned("args"), owned("cwd")];
    let mut all_values = vec![json_string(program), json_string_array(args), json_opt_string(cwd)];
    let ghost k0 = views(all_keys@);
    let ghost v0 = views(all_values@);
    assert(k0 =~= run_keys());
    assert(v0 =~= run_values(program@, views(args@), opt_view(*cwd)));
    let ghost ks = views(keys@);
    let ghost vs = views(values@);
    all_keys.append(&mut keys);
    all_values.append(&mut values);
    assert(views(all_keys@) =~= k0 + ks);
    assert(views(all_values@) =~= v0 + vs);
    json_object_text(&all_keys, &all_values)
}

/// The error for a program that could not be started.
pub fn start_failure(program: &str, args: &Vec<String>, cwd: &Option<String>, cause: &str) -> (e:
    AppError)
    ensures
        e@ == start_error(program@, views(args@), opt_view(*cwd), cause@),
{
    let keys = vec![owned("cause")];
    let values = vec![json_string(cause)];
    assert(views(keys@) =~= seq!["cause"@]);
    assert(views(values@) =~= seq![json_str(cause@)]);
    let details = run_details(program, args, cwd, keys, values);
    let mut message = owned("Failed to start program: ");
    message.append(program);
    proof {
        assert(run_keys() + seq!["cause"@] =~= run_keys().push("cause"@));
        assert(run_values(program@, views(args@), opt_view(*cwd)) + seq![json_str(cause@)]
            =~= run_values(program@, views(args@), opt_view(*cwd)).push(json_str(cause@)));
    }
    AppError::process_failed(message, details)
}

/// The error for a program that could not be waited for.
pub fn wait_failure(program: &str, args: &Vec<String>, cwd: &Option<String>, cause: &str) -> (e:
    AppError)
    ensures
        e@ == wait_error(program@, views(args@), opt_view(*cwd), cause@),
{
    let keys = vec![owned("cause")];
    let values = vec![json_string(cause)];
    assert(views(keys@) =~= seq!["cause"@]);
    assert(views(values@) =~= seq![json_str(cause@)]);
    let details = run_details(program, args, cwd, keys, values);
    let mut message = owned("Failed while waiting for program: ");
    message.append(program);
    proof {
        assert(run_keys() + seq!["cause"@] =~= run_keys().push("cause"@));
        assert(run_values(program@, views(args@), opt_view(*cwd)) + seq![json_str(cause@)]
            =~= run_values(program@, views(args@), opt_view(*cwd)).push(json_str(cause@)));
    }
    AppError::process_failed(message, details)
}

/// The error for a program that ran longer than `timeout_ms`, with the
/// output it produced until it was stopped.
pub fn timeout_failure(
    program: &str,
    args: &Vec<String>,
    cwd: &Option<String>,
    timeout_ms: u64,
    stdout: &str,
    stderr: &str,
) -> (e: AppError)
    ensures
        e@ == timeout_error(program@, views(args@), opt_view(*cwd), timeout_ms, stdout@, stderr@),
{
    let keys = vec![owned("timeout_ms"), owned("stdout"), owned("stderr")];
    let values = vec![json_u64(timeout_ms), json_string(stdout), json_string(stderr)];
    let details = run_details(program, args, cwd, keys, values);
    let mut message = owned("Program timed out: ");
    message.append(program);
    proof {
        assert(views(keys@) =~= seq!["timeout_ms"@, "stdout"@, "stderr"@]);
        assert(views(values@) =~= seq![decimal(timeout_ms as nat), json_str(stdout@), json_str(stderr@)]);
    }
    AppError::process_failed(message, details)
}

/// The outcome of a program that ran to its end: its output when it
/// succeeded, otherwise the error with its exit code and output.
pub fn finish_process(
    program: &str,
    args: &Vec<String>,
    cwd: &Option<String>,
    success: bool,
    exit_code: Option<i32>,
    stdout: String,
    stderr: String,
) -> (r: Result<ProcessOutput, AppError>)
    ensures
        success ==> (r matches Ok(o) && o@ == OutputView {
            exit_code: reported_exit_code(exit_code),
            stdout: stdout@,
            stderr: stderr@,
        }),
        !success ==> (r matches Err(e) && e@ == exit_error(
            program@,
            views(args@),
            opt_view(*cwd),
            reported_exit_code(exit_code),
            stdout@,
            stderr@,
        )),
{
    let code: i32 = match exit_code {
        Some(c) => c,
        None => -1,
    };
    if success {
        return Ok(ProcessOutput { exit_code: code, stdout, stderr });
    }
    let keys = vec![owned("exit_code"), owned("stdout"), owned("stderr")];
    let values = vec![json_i64(code as i64), json_string(stdout.as_str()), json_string(stderr.as_str())];
    let details = run_details(program, args, cwd, keys, values);
    let mut message = owned("Program exited with a non-zero status: ");
    message.append(program);
    proof {
        assert(views(keys@) =~= seq!["exit_code"@, "stdout"@, "stderr"@]);
        assert(views(values@) =~= seq![signed_decimal(code as int), json_str(stdout@), json_str(stderr@)]);
    }
    Err(AppError::process_failed(message, details))
}

/// The error for output that could not be collected: `message` with the
/// cause in the details.
pub open spec fn output_error(message: Seq<char>, cause: Seq<char>) -> AppErrorView {
    internal_error(message, Some(json_object(seq!["cause"@], seq![json_str(cause)])))
}

/// What `join_output` gives for the outcome of collecting one output
/// stream.
pub open spec fn joined_output(outcome: Result<Result<Seq<char>, Seq<char>>, Seq<char>>) -> Result<
    Seq<char>,
    AppErrorView,
> {
    match outcome {
        Ok(Ok(text)) => Ok(text),
        Ok(Err(cause)) => Err(output_error("Failed to read process output."@, cause)),
        Err(cause) => Err(output_error("Failed to join process output task."@, cause)),
    }
}

/// The view of the outcome of collecting one output stream.
pub open spec fn outcome_view(outcome: &Result<Result<String, String>, String>) -> Result<
    Result<Seq<char>, Seq<char>>,
    Seq<char>,
> {
    match outcome {
        Ok(Ok(text)) => Ok(Ok(text@)),
        Ok(Err(cause)) => Ok(Err(cause@)),
        Err(cause) => Err(cause@),
    }
}

/// The text of one output stream, given how collecting it went: the text,
/// or the reason it could not be read (inner error), or the reason the
/// task that read it could not be joined (outer error).
pub fn join_output(outcome: Result<Result<String, String>, String>) -> (r: Result<String, AppError>)
    ensures
        crate::path_policy::path_result_view(&r) == joined_output(outcome_view(&outcome)),
{
    let (message, cause) = match outcome {
        Ok(Ok(text)) => return Ok(text),
        Ok(Err(cause)) => (owned("Failed to read process output."), cause),
        Err(cause) => (owned("Failed to join process output task."), cause),
    };
    let keys = vec![owned("cause")];
    let values = vec![json_string(cause.as_str())];
    assert(views(keys@) =~= seq!["cause"@]);
    assert(views(values@) =~= seq![json_str(cause@)]);
    Err(AppError::internal_with_details(message, json_object_text(&keys, &values)))
}

} // verus!
