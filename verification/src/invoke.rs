//! The decision side of the process invoker: the argument lists of the
//! subprocess protocol, and how a finished wait turns into a result.

use vstd::prelude::*;
use vstd::string::StrSliceExecFns;
use vstd::string::StringExecFns;

use crate::text::trim_spec;
use crate::text::trim_str;

verus! {

/// What one invocation of the tool captured.
#[derive(Debug, Clone)]
pub struct CommandOutput {
    pub stdout: String,
    pub stderr: String,
}

/// How the wait on the spawned child ended.
pub enum WaitOutcome {
    /// The child exited within the budget, with or without success.
    Exited { success: bool },
    /// The budget ran out and the child was killed.
    TimedOut,
    /// The wait itself failed; the text is the reported error.
    WaitFailed { error: String },
}

/// The error text for a failing exit status: the trimmed captured
/// standard-error text, or a generic message when it is empty.
pub open spec fn nonzero_exit_spec(stderr: Seq<char>) -> Seq<char> {
    if trim_spec(stderr).len() == 0 {
        "granitectl returned an error"@
    } else {
        trim_spec(stderr)
    }
}

pub fn nonzero_exit_message(stderr: &str) -> (r: String)
    ensures
        r@ == nonzero_exit_spec(stderr@),
{
    let t = trim_str(stderr);
    if t.unicode_len() == 0 {
        String::from_str("granitectl returned an error")
    } else {
        String::from_str(t)
    }
}

/// How a finished wait and the captured streams become the invocation's
/// result: a timeout or a failed wait is an error that carries none of
/// the captured output; a failing exit reports the standard-error text;
/// only a successful exit hands the output on.
pub open spec fn finish_spec(wait: WaitOutcome, stdout: Seq<char>, stderr: Seq<char>) -> Result<
    (Seq<char>, Seq<char>),
    Seq<char>,
> {
    match wait {
        WaitOutcome::TimedOut => Err("granitectl timed out"@),
        WaitOutcome::WaitFailed { error } => Err("Failed to await granitectl: "@ + error@),
        WaitOutcome::Exited { success } => if success {
            Ok((stdout, stderr))
        } else {
            Err(nonzero_exit_spec(stderr))
        },
    }
}

/// Closes one invocation. On success the captured streams come back as
/// they were read; on any failure only the error text does.
pub fn finish_invocation(wait: WaitOutcome, stdout: String, stderr: String) -> (r: Result<
    CommandOutput,
    String,
>)
    ensures
        match r {
            Ok(o) => finish_spec(wait, stdout@, stderr@) == Ok::<(Seq<char>, Seq<char>), Seq<char>>(
                (o.stdout@, o.stderr@),
            ),
            Err(e) => finish_spec(wait, stdout@, stderr@) == Err::<
                (Seq<char>, Seq<char>),
                Seq<char>,
            >(e@),
        },
{
    match wait {
        WaitOutcome::TimedOut => Err(String::from_str("granitectl timed out")),
        WaitOutcome::WaitFailed { error } => {
            let mut e = String::from_str("Failed to await granitectl: ");
            e.append(error.as_str());
            Err(e)
        },
        WaitOutcome::Exited { success } => {
            if success {
                Ok(CommandOutput { stdout, stderr })
            } else {
                Err(nonzero_exit_message(stderr.as_str()))
            }
        },
    }
}

/// A timed-out invocation ends in the fixed timeout error and nothing
/// else: whatever standard output was captured, the result is the same,
/// so no partial output can ever reach the caller.
pub proof fn lemma_timeout_returns_no_output(
    out1: Seq<char>,
    err1: Seq<char>,
    out2: Seq<char>,
    err2: Seq<char>,
)
    ensures
        finish_spec(WaitOutcome::TimedOut, out1, err1) == finish_spec(
            WaitOutcome::TimedOut,
            out2,
            err2,
        ),
        finish_spec(WaitOutcome::TimedOut, out1, err1) == Err::<
            (Seq<char>, Seq<char>),
            Seq<char>,
        >("granitectl timed out"@),
{
}

/// The exec output formats the tool itself accepts.
#[derive(Debug, Clone, Copy, PartialEq, Eq, Structural)]
pub enum ExecFormat {
    Json,
    Table,
    Csv,
}

pub open spec fn format_token_spec(f: ExecFormat) -> Seq<char> {
    match f {
        ExecFormat::Json => "json"@,
        ExecFormat::Table => "table"@,
        ExecFormat::Csv => "csv"@,
    }
}

pub fn format_token(f: ExecFormat) -> (r: &'static str)
    ensures
        r@ == format_token_spec(f),
{
    match f {
        ExecFormat::Json => "json",
        ExecFormat::Table => "table",
        ExecFormat::Csv => "csv",
    }
}

/// One request to the tool, as the subprocess protocol shapes it.
pub enum GraniteRequest {
    /// Run SQL and capture its output in the named format.
    Exec { format: ExecFormat, sql: String, db: String },
    /// Explain a statement, in structured output.
    Explain { sql: String, db: String },
    /// Fetch schema metadata, in structured output.
    Meta { db: String },
    /// Dump the schema in the legacy indented text form.
    Dump { db: String },
    /// Create a new database file.
    New { db: String },
    /// Report the tool's version.
    Version,
}

/// The command-line arguments for one request.
pub open spec fn request_args_spec(r: GraniteRequest) -> Seq<Seq<char>> {
    match r {
        GraniteRequest::Exec { format, sql, db } => seq![
            "exec"@,
            "--format"@,
            format_token_spec(format),
            "-q"@,
            sql@,
            db@,
        ],
        GraniteRequest::Explain { sql, db } => seq!["explain"@, "--json"@, "-q"@, sql@, db@],
        GraniteRequest::Meta { db } => seq!["meta"@, "--json"@, db@],
        GraniteRequest::Dump { db } => seq!["dump"@, db@],
        GraniteRequest::New { db } => seq!["new"@, db@],
        GraniteRequest::Version => seq!["--version"@],
    }
}

/// The argument list for one request, exactly as the tool's command line
/// takes it.
pub fn granitectl_args(r: &GraniteRequest) -> (a: Vec<String>)
    ensures
        a.deep_view() == request_args_spec(*r),
{
    let mut a: Vec<String> = Vec::new();
    match r {
        GraniteRequest::Exec { format, sql, db } => {
            a.push(String::from_str("exec"));
            a.push(String::from_str("--format"));
            a.push(String::from_str(format_token(*format)));
            a.push(String::from_str("-q"));
            a.push(sql.clone());
            a.push(db.clone());
            proof {
                assert(a.deep_view() =~= request_args_spec(*r));
            }
        },
        GraniteRequest::Explain { sql, db } => {
            a.push(String::from_str("explain"));
            a.push(String::from_str("--json"));
            a.push(String::from_str("-q"));
            a.push(sql.clone());
            a.push(db.clone());
            proof {
                assert(a.deep_view() =~= request_args_spec(*r));
            }
        },
        GraniteRequest::Meta { db } => {
            a.push(String::from_str("meta"));
            a.push(String::from_str("--json"));
            a.push(db.clone());
            proof {
                assert(a.deep_view() =~= request_args_spec(*r));
            }
        },
        GraniteRequest::Dump { db } => {
            a.push(String::from_str("dump"));
            a.push(db.clone());
            proof {
                assert(a.deep_view() =~= request_args_spec(*r));
            }
        },
        GraniteRequest::New { db } => {
            a.push(String::from_str("new"));
            a.push(db.clone());
            proof {
                assert(a.deep_view() =~= request_args_spec(*r));
            }
        },
        GraniteRequest::Version => {
            a.push(String::from_str("--version"));
            proof {
                assert(a.deep_view() =~= request_args_spec(*r));
            }
        },
    }
    a
}

} // verus!
