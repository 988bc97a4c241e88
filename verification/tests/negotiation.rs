use granite_adapter::diagnostics::build_granitectl_info;
use granite_adapter::diagnostics::VersionProbe;
use granite_adapter::invoke::finish_invocation;
use granite_adapter::invoke::granitectl_args;
use granite_adapter::invoke::nonzero_exit_message;
use granite_adapter::invoke::ExecFormat;
use granite_adapter::invoke::GraniteRequest;
use granite_adapter::invoke::WaitOutcome;
use granite_adapter::negotiate::exec_json_step;
use granite_adapter::negotiate::exec_request_plan;
use granite_adapter::negotiate::is_unknown_format_error;
use granite_adapter::negotiate::looks_like_json;
use granite_adapter::negotiate::metadata_step;
use granite_adapter::negotiate::Negotiation;
use granite_adapter::negotiate::RequestedFormat;
use granite_adapter::resolve::GraniteCtlSource;

#[test]
fn json_detection_looks_past_leading_whitespace() {
    assert!(looks_like_json("{\"a\":1}"));
    assert!(looks_like_json("  \n\t[1,2]"));
    assert!(!looks_like_json("unknown command: meta"));
    assert!(!looks_like_json(""));
    assert!(!looks_like_json("   "));
}

#[test]
fn format_rejection_is_matched_case_insensitively() {
    assert!(is_unknown_format_error("Unknown Format: json"));
    assert!(is_unknown_format_error("error: UNKNOWN FORMAT"));
    assert!(is_unknown_format_error("JSON format is only supported since v2"));
    assert!(is_unknown_format_error("unknown formatting directive"));
    assert!(!is_unknown_format_error("json output follows"));
    assert!(!is_unknown_format_error("unrecognized option"));
}

#[test]
fn exec_step_falls_back_only_on_recognized_rejection() {
    match exec_json_step(Ok("{\"columns\":[]}".to_string())) {
        Negotiation::Structured { body } => assert_eq!(body, "{\"columns\":[]}"),
        _ => panic!("expected the structured body"),
    }
    assert!(matches!(
        exec_json_step(Err("unknown format json".to_string())),
        Negotiation::FallbackToLegacy
    ));
    match exec_json_step(Err("syntax error near SELECT".to_string())) {
        Negotiation::Failed { error } => assert_eq!(error, "syntax error near SELECT"),
        _ => panic!("expected the error to propagate"),
    }
}

#[test]
fn metadata_step_distinguishes_fallback_from_garbage() {
    assert!(matches!(
        metadata_step(Ok("{\"tables\":[]}".to_string())),
        Negotiation::Structured { .. }
    ));
    assert!(matches!(
        metadata_step(Ok("unknown command: meta\n".to_string())),
        Negotiation::FallbackToLegacy
    ));
    assert!(matches!(
        metadata_step(Err("unknown command: meta".to_string())),
        Negotiation::FallbackToLegacy
    ));
    match metadata_step(Ok("".to_string())) {
        Negotiation::Failed { error } => assert_eq!(error, "granitectl returned no metadata"),
        _ => panic!("expected the empty-body error"),
    }
    match metadata_step(Ok("garbage output\n".to_string())) {
        Negotiation::Failed { error } => {
            assert_eq!(error, "granitectl metadata output was not JSON: garbage output")
        }
        _ => panic!("expected the hard parse error"),
    }
    match metadata_step(Err("disk error".to_string())) {
        Negotiation::Failed { error } => assert_eq!(error, "disk error"),
        _ => panic!("expected the error to propagate"),
    }
}

#[test]
fn exec_plan_validates_sql_and_format() {
    assert_eq!(
        exec_request_plan("SELECT 1", "jsonRows").unwrap(),
        RequestedFormat::JsonRows
    );
    assert_eq!(exec_request_plan("SELECT 1", "table").unwrap(), RequestedFormat::Table);
    assert_eq!(exec_request_plan("SELECT 1", "csv").unwrap(), RequestedFormat::Csv);
    assert_eq!(
        exec_request_plan("   \n", "table").unwrap_err(),
        "SQL must not be empty"
    );
    assert_eq!(
        exec_request_plan("SELECT 1", "xml").unwrap_err(),
        "Unsupported format xml"
    );
}

#[test]
fn timeout_discards_captured_output() {
    let r = finish_invocation(
        WaitOutcome::TimedOut,
        "partial rows that must never leak".to_string(),
        "some stderr".to_string(),
    );
    assert_eq!(r.unwrap_err(), "granitectl timed out");
}

#[test]
fn nonzero_exit_reports_stderr_or_generic_text() {
    let r = finish_invocation(
        WaitOutcome::Exited { success: false },
        "ignored".to_string(),
        "  table missing\n".to_string(),
    );
    assert_eq!(r.unwrap_err(), "table missing");
    let r = finish_invocation(
        WaitOutcome::Exited { success: false },
        "ignored".to_string(),
        "   ".to_string(),
    );
    assert_eq!(r.unwrap_err(), "granitectl returned an error");
    assert_eq!(nonzero_exit_message(""), "granitectl returned an error");
}

#[test]
fn successful_exit_returns_both_streams() {
    let r = finish_invocation(
        WaitOutcome::Exited { success: true },
        "out".to_string(),
        "err".to_string(),
    )
    .unwrap();
    assert_eq!(r.stdout, "out");
    assert_eq!(r.stderr, "err");
}

#[test]
fn wait_failure_is_labelled() {
    let r = finish_invocation(
        WaitOutcome::WaitFailed { error: "interrupted".to_string() },
        String::new(),
        String::new(),
    );
    assert_eq!(r.unwrap_err(), "Failed to await granitectl: interrupted");
}

#[test]
fn request_args_follow_the_protocol() {
    let args = granitectl_args(&GraniteRequest::Exec {
        format: ExecFormat::Json,
        sql: "SELECT 1".to_string(),
        db: "/tmp/db".to_string(),
    });
    assert_eq!(args, vec!["exec", "--format", "json", "-q", "SELECT 1", "/tmp/db"]);
    let args = granitectl_args(&GraniteRequest::Exec {
        format: ExecFormat::Table,
        sql: "SELECT 1".to_string(),
        db: "d".to_string(),
    });
    assert_eq!(args, vec!["exec", "--format", "table", "-q", "SELECT 1", "d"]);
    let args = granitectl_args(&GraniteRequest::Explain {
        sql: "SELECT 1".to_string(),
        db: "d".to_string(),
    });
    assert_eq!(args, vec!["explain", "--json", "-q", "SELECT 1", "d"]);
    assert_eq!(
        granitectl_args(&GraniteRequest::Meta { db: "d".to_string() }),
        vec!["meta", "--json", "d"]
    );
    assert_eq!(
        granitectl_args(&GraniteRequest::Dump { db: "d".to_string() }),
        vec!["dump", "d"]
    );
    assert_eq!(
        granitectl_args(&GraniteRequest::New { db: "d".to_string() }),
        vec!["new", "d"]
    );
    assert_eq!(granitectl_args(&GraniteRequest::Version), vec!["--version"]);
}

#[test]
fn diagnostics_report_missing_file_without_probe() {
    let info = build_granitectl_info(
        "/x/granitectl".to_string(),
        GraniteCtlSource::Default,
        false,
        VersionProbe::NotRun,
    );
    assert!(!info.exists);
    assert_eq!(info.version, None);
    assert_eq!(
        info.error.as_deref(),
        Some("granitectl executable not found at /x/granitectl. Build the engine or set GRANITECTL_PATH.")
    );
}

#[test]
fn diagnostics_trim_version_output() {
    let info = build_granitectl_info(
        "/x/granitectl".to_string(),
        GraniteCtlSource::Environment,
        true,
        VersionProbe::Ran { stdout: "granitectl 1.4.2\n".to_string() },
    );
    assert!(info.exists);
    assert_eq!(info.version.as_deref(), Some("granitectl 1.4.2"));
    assert_eq!(info.error, None);
    let info = build_granitectl_info(
        "/x/granitectl".to_string(),
        GraniteCtlSource::Environment,
        true,
        VersionProbe::Ran { stdout: "  \n".to_string() },
    );
    assert_eq!(info.version, None);
    assert_eq!(info.error, None);
}

#[test]
fn diagnostics_on_system_path_learn_existence_from_the_probe() {
    let info = build_granitectl_info(
        "granitectl".to_string(),
        GraniteCtlSource::System,
        false,
        VersionProbe::Ran { stdout: "granitectl 2.0\n".to_string() },
    );
    assert!(info.exists);
    assert_eq!(info.version.as_deref(), Some("granitectl 2.0"));
    let info = build_granitectl_info(
        "granitectl".to_string(),
        GraniteCtlSource::System,
        false,
        VersionProbe::NotFound { error: "No such file or directory".to_string() },
    );
    assert!(!info.exists);
    assert_eq!(
        info.error.as_deref(),
        Some("granitectl executable was not found on PATH. Build the engine or set GRANITECTL_PATH.")
    );
    let info = build_granitectl_info(
        "granitectl".to_string(),
        GraniteCtlSource::System,
        false,
        VersionProbe::Failed { error: "permission denied".to_string() },
    );
    assert!(!info.exists);
    assert_eq!(
        info.error.as_deref(),
        Some("Failed to run granitectl --version: permission denied")
    );
}
