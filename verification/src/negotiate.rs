//! The format negotiator's decisions: telling structured output from
//! legacy text, recognizing the rejection signatures that trigger the
//! legacy fallback, and validating exec requests.

use vstd::prelude::*;
use vstd::string::StrSliceExecFns;
use vstd::string::StringExecFns;

use crate::text::contains_str;
use crate::text::contains_str_ci;
use crate::text::contains_sub;
use crate::text::contains_sub_ci;
use crate::text::trim_spec;
use crate::text::trim_start_spec;
use crate::text::trim_start_str;
use crate::text::trim_str;

verus! {

/// Whether output text looks like structured data: its first character
/// after leading whitespace opens an object or an array.
pub open spec fn looks_like_json_spec(s: Seq<char>) -> bool {
    let t = trim_start_spec(s);
    t.len() > 0 && (t[0] == '{' || t[0] == '[')
}

pub fn looks_like_json(output: &str) -> (r: bool)
    ensures
        r == looks_like_json_spec(output@),
{
    let t = trim_start_str(output);
    if t.unicode_len() == 0 {
        false
    } else {
        let c = t.get_char(0);
        c == '{' || c == '['
    }
}

/// The recognized "format not supported" signatures, matched against the
/// ASCII-lowercased error text.
pub open spec fn unknown_format_spec(msg: Seq<char>) -> bool {
    contains_sub_ci(msg, "unknown format"@) || contains_sub_ci(
        msg,
        "json format is only supported"@,
    )
}

/// Whether an error message is the tool's way of refusing the structured
/// output mode: only this signature licenses the legacy fallback.
pub fn is_unknown_format_error(message: &str) -> (r: bool)
    ensures
        r == unknown_format_spec(message@),
{
    contains_str_ci(message, "unknown format") || contains_str_ci(
        message,
        "json format is only supported",
    )
}

/// The recognized "command not recognized" signature of older tool
/// builds, for the metadata fallback.
pub open spec fn unknown_command_spec(msg: Seq<char>) -> bool {
    contains_sub(msg, "unknown command"@)
}

/// What the negotiator does next after one structured-mode invocation.
pub enum Negotiation {
    /// The invocation succeeded: hand its body to the structured decoder.
    Structured { body: String },
    /// The tool refused the mode: re-invoke in the legacy mode.
    FallbackToLegacy,
    /// Anything else: fail with this error text.
    Failed { error: String },
}

/// Decides the structured-mode exec outcome: a success goes to the
/// structured decoder as it stands; a failure whose text carries a
/// recognized format-rejection signature renegotiates in legacy mode;
/// any other failure propagates untouched.
pub fn exec_json_step(outcome: Result<String, String>) -> (r: Negotiation)
    ensures
        match outcome {
            Ok(body) => r matches Negotiation::Structured { body: b } && b@ == body@,
            Err(e) => if unknown_format_spec(e@) {
                r is FallbackToLegacy
            } else {
                (r matches Negotiation::Failed { error } && error@ == e@)
            },
        },
{
    match outcome {
        Ok(body) => Negotiation::Structured { body },
        Err(e) => {
            if is_unknown_format_error(e.as_str()) {
                Negotiation::FallbackToLegacy
            } else {
                Negotiation::Failed { error: e }
            }
        },
    }
}

/// The metadata decision, over the mathematics of the outcome text.
pub enum MetadataDecision {
    Modern(Seq<char>),
    Fallback,
    Failed(Seq<char>),
}

/// What the negotiator does after the structured metadata invocation: a
/// body that looks structured is used; a body or an error carrying the
/// "command not recognized" signature falls back to the legacy dump; an
/// empty body is reported as missing metadata; any other body or error
/// is a hard failure, never silently swallowed.
pub open spec fn metadata_step_spec(outcome: Result<Seq<char>, Seq<char>>) -> MetadataDecision {
    match outcome {
        Ok(body) => {
            if looks_like_json_spec(body) {
                MetadataDecision::Modern(body)
            } else {
                let preview = trim_spec(body);
                if unknown_command_spec(preview) {
                    MetadataDecision::Fallback
                } else if preview.len() == 0 {
                    MetadataDecision::Failed("granitectl returned no metadata"@)
                } else {
                    MetadataDecision::Failed("granitectl metadata output was not JSON: "@ + preview)
                }
            }
        },
        Err(e) => if unknown_command_spec(e) {
            MetadataDecision::Fallback
        } else {
            MetadataDecision::Failed(e)
        },
    }
}

/// The view of a captured outcome: each side as its text.
pub open spec fn outcome_view(o: Result<String, String>) -> Result<Seq<char>, Seq<char>> {
    match o {
        Ok(s) => Ok(s@),
        Err(e) => Err(e@),
    }
}

pub fn metadata_step(outcome: Result<String, String>) -> (r: Negotiation)
    ensures
        match r {
            Negotiation::Structured { body } => metadata_step_spec(outcome_view(outcome))
                == MetadataDecision::Modern(body@),
            Negotiation::FallbackToLegacy => metadata_step_spec(outcome_view(outcome))
                == MetadataDecision::Fallback,
            Negotiation::Failed { error } => metadata_step_spec(outcome_view(outcome))
                == MetadataDecision::Failed(error@),
        },
{
    match outcome {
        Ok(body) => {
            if looks_like_json(body.as_str()) {
                Negotiation::Structured { body }
            } else {
                let preview = String::from_str(trim_str(body.as_str()));
                if contains_str(preview.as_str(), "unknown command") {
                    Negotiation::FallbackToLegacy
                } else if preview.as_str().unicode_len() == 0 {
                    Negotiation::Failed {
                        error: String::from_str("granitectl returned no metadata"),
                    }
                } else {
                    let mut e = String::from_str("granitectl metadata output was not JSON: ");
                    e.append(preview.as_str());
                    Negotiation::Failed { error: e }
                }
            }
        },
        Err(e) => {
            if contains_str(e.as_str(), "unknown command") {
                Negotiation::FallbackToLegacy
            } else {
                Negotiation::Failed { error: e }
            }
        },
    }
}

/// The output shapes a caller may request of an exec operation.
#[derive(Debug, Clone, Copy, PartialEq, Eq, Structural)]
pub enum RequestedFormat {
    /// The canonical structured rows, through either protocol generation.
    JsonRows,
    /// The tool's plain text table, passed through raw.
    Table,
    /// The tool's CSV output, passed through raw.
    Csv,
}

/// Validating an exec request: empty or whitespace-only SQL is rejected,
/// and the format token must be one of the three known ones.
pub open spec fn exec_plan_spec(sql: Seq<char>, format: Seq<char>) -> Result<
    RequestedFormat,
    Seq<char>,
> {
    if trim_spec(sql).len() == 0 {
        Err("SQL must not be empty"@)
    } else if format == "jsonRows"@ {
        Ok(RequestedFormat::JsonRows)
    } else if format == "table"@ {
        Ok(RequestedFormat::Table)
    } else if format == "csv"@ {
        Ok(RequestedFormat::Csv)
    } else {
        Err("Unsupported format "@ + format)
    }
}

pub fn exec_request_plan(sql: &str, format: &str) -> (r: Result<RequestedFormat, String>)
    ensures
        match r {
            Ok(f) => exec_plan_spec(sql@, format@) == Ok::<RequestedFormat, Seq<char>>(f),
            Err(e) => exec_plan_spec(sql@, format@) == Err::<RequestedFormat, Seq<char>>(e@),
        },
{
    let t = trim_str(sql);
    if t.unicode_len() == 0 {
        return Err(String::from_str("SQL must not be empty"));
    }
    if crate::text::str_eq(format, "jsonRows") {
        Ok(RequestedFormat::JsonRows)
    } else if crate::text::str_eq(format, "table") {
        Ok(RequestedFormat::Table)
    } else if crate::text::str_eq(format, "csv") {
        Ok(RequestedFormat::Csv)
    } else {
        let mut e = String::from_str("Unsupported format ");
        e.append(format);
        Err(e)
    }
}

} // verus!
