//! Deciding which executable to invoke, and how its absence is reported.

use vstd::prelude::*;
use vstd::string::StrSliceExecFns;
use vstd::string::StringExecFns;

verus! {

/// Where a resolved executable path came from. The source decides whether
/// existence is checked before spawning and how absence is worded.
#[derive(Debug, Clone, Copy, PartialEq, Eq, Structural)]
pub enum GraniteCtlSource {
    /// The override environment variable supplied the path verbatim.
    Environment,
    /// The path was derived from the running program's own directory.
    Default,
    /// The bare executable name, left to the system search path.
    System,
}

/// Resolution once the override is out of play: the conventional sibling
/// `engine` directory beside the running program, or the bare name for
/// the system search path when the program's own place is unknown.
pub open spec fn layout_resolution_spec(exe_dir: Option<Seq<char>>, exe_suffix: Seq<char>) -> (
    Seq<char>,
    GraniteCtlSource,
) {
    match exe_dir {
        Some(d) => (d + "/../engine/granitectl"@ + exe_suffix, GraniteCtlSource::Default),
        None => ("granitectl"@ + exe_suffix, GraniteCtlSource::System),
    }
}

/// The full resolution order: a non-empty override wins verbatim; an
/// override that is unset or empty falls through to the build layout.
pub open spec fn resolution_spec(
    override_path: Option<Seq<char>>,
    exe_dir: Option<Seq<char>>,
    exe_suffix: Seq<char>,
) -> (Seq<char>, GraniteCtlSource) {
    match override_path {
        Some(p) => if p.len() > 0 {
            (p, GraniteCtlSource::Environment)
        } else {
            layout_resolution_spec(exe_dir, exe_suffix)
        },
        None => layout_resolution_spec(exe_dir, exe_suffix),
    }
}

/// Resolves the executable to invoke. The caller hands in what it read
/// from the process environment: the override variable's value if set,
/// the running program's directory if known, and the platform's
/// executable suffix.
pub fn granitectl_resolution(
    override_path: Option<String>,
    exe_dir: Option<String>,
    exe_suffix: &str,
) -> (r: (String, GraniteCtlSource))
    ensures
        (r.0@, r.1) == resolution_spec(
            override_path.deep_view(),
            exe_dir.deep_view(),
            exe_suffix@,
        ),
{
    match override_path {
        Some(p) => {
            if p.as_str().unicode_len() > 0 {
                return (p, GraniteCtlSource::Environment);
            }
        },
        None => {},
    }
    match exe_dir {
        Some(d) => {
            let mut path = d;
            path.append("/../engine/granitectl");
            path.append(exe_suffix);
            (path, GraniteCtlSource::Default)
        },
        None => {
            let mut name = String::from_str("granitectl");
            name.append(exe_suffix);
            (name, GraniteCtlSource::System)
        },
    }
}

/// An override variable set to the empty string resolves exactly as an
/// unset override does: the empty value falls through to the later
/// resolution steps.
pub proof fn lemma_empty_override_ignored(exe_dir: Option<Seq<char>>, exe_suffix: Seq<char>)
    ensures
        resolution_spec(Some(Seq::<char>::empty()), exe_dir, exe_suffix) == resolution_spec(
            None,
            exe_dir,
            exe_suffix,
        ),
{
}

/// The remediation text when the executable is missing, by source.
pub open spec fn missing_message_spec(path: Seq<char>, source: GraniteCtlSource) -> Seq<char> {
    match source {
        GraniteCtlSource::Environment => "granitectl executable not found at "@ + path
            + ". Update GRANITECTL_PATH or build the engine."@,
        GraniteCtlSource::Default => "granitectl executable not found at "@ + path
            + ". Build the engine or set GRANITECTL_PATH."@,
        GraniteCtlSource::System => {
            "granitectl executable was not found on PATH. Build the engine or set GRANITECTL_PATH."@
        },
    }
}

/// The message reported when the executable is absent: it names the path
/// looked at and the way to mend the setup, according to how the path
/// was resolved.
pub fn missing_granitectl_message(path: &str, source: GraniteCtlSource) -> (r: String)
    ensures
        r@ == missing_message_spec(path@, source),
{
    match source {
        GraniteCtlSource::Environment => {
            let mut m = String::from_str("granitectl executable not found at ");
            m.append(path);
            m.append(". Update GRANITECTL_PATH or build the engine.");
            m
        },
        GraniteCtlSource::Default => {
            let mut m = String::from_str("granitectl executable not found at ");
            m.append(path);
            m.append(". Build the engine or set GRANITECTL_PATH.");
            m
        },
        GraniteCtlSource::System => {
            String::from_str(
                "granitectl executable was not found on PATH. Build the engine or set GRANITECTL_PATH.",
            )
        },
    }
}

/// Whether existence is checked before spawning: it is for every source
/// but the system search path, where only the spawn itself can tell.
pub fn needs_existence_check(source: GraniteCtlSource) -> (r: bool)
    ensures
        r == (source != GraniteCtlSource::System),
{
    match source {
        GraniteCtlSource::System => false,
        GraniteCtlSource::Environment => true,
        GraniteCtlSource::Default => true,
    }
}

} // verus!
