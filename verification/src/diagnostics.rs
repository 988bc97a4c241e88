//! The diagnostics probe: assembling the report on the resolved
//! executable — its path, provenance, existence and version — without
//! ever failing, so absence comes back as data.

use vstd::prelude::*;
use vstd::string::StrSliceExecFns;
use vstd::string::StringExecFns;

use crate::resolve::missing_granitectl_message;
use crate::resolve::missing_message_spec;
use crate::resolve::GraniteCtlSource;
use crate::text::trim_spec;
use crate::text::trim_str;

verus! {

/// The diagnostics report on the resolved executable.
pub struct GraniteCtlInfo {
    pub path: String,
    pub exists: bool,
    pub source: GraniteCtlSource,
    pub version: Option<String>,
    pub error: Option<String>,
}

/// The mathematical shape of the report.
pub struct InfoModel {
    pub path: Seq<char>,
    pub exists: bool,
    pub source: GraniteCtlSource,
    pub version: Option<Seq<char>>,
    pub error: Option<Seq<char>>,
}

impl View for GraniteCtlInfo {
    type V = InfoModel;

    open spec fn view(&self) -> InfoModel {
        InfoModel {
            path: self.path@,
            exists: self.exists,
            source: self.source,
            version: self.version.deep_view(),
            error: self.error.deep_view(),
        }
    }
}

/// How the version probe of the resolved executable went.
pub enum VersionProbe {
    /// It ran; this is its captured standard output.
    Ran { stdout: String },
    /// The spawn failed because nothing was found to run.
    NotFound { error: String },
    /// The spawn or the read failed some other way.
    Failed { error: String },
    /// It was never attempted.
    NotRun,
}

/// The version a probe's output yields: the trimmed text, when any is
/// left after trimming.
pub open spec fn version_of(stdout: Seq<char>) -> Option<Seq<char>> {
    if trim_spec(stdout).len() == 0 {
        None
    } else {
        Some(trim_spec(stdout))
    }
}

/// The probe-failure message.
pub open spec fn probe_failed_message(error: Seq<char>) -> Seq<char> {
    "Failed to run granitectl --version: "@ + error
}

/// The report for a path whose existence was checked on disk first
/// (override and build-layout sources): a missing file is reported with
/// the remediation text and the probe is not consulted; otherwise the
/// probe's outcome fills in the version or the error.
pub open spec fn checked_info_spec(
    path: Seq<char>,
    source: GraniteCtlSource,
    file_exists: bool,
    probe: VersionProbe,
) -> InfoModel {
    if !file_exists {
        InfoModel {
            path,
            exists: false,
            source,
            version: None,
            error: Some(missing_message_spec(path, source)),
        }
    } else {
        match probe {
            VersionProbe::Ran { stdout } => InfoModel {
                path,
                exists: true,
                source,
                version: version_of(stdout@),
                error: None,
            },
            VersionProbe::NotFound { error } => InfoModel {
                path,
                exists: true,
                source,
                version: None,
                error: Some(probe_failed_message(error@)),
            },
            VersionProbe::Failed { error } => InfoModel {
                path,
                exists: true,
                source,
                version: None,
                error: Some(probe_failed_message(error@)),
            },
            VersionProbe::NotRun => InfoModel {
                path,
                exists: true,
                source,
                version: None,
                error: None,
            },
        }
    }
}

/// The report for the system search path, where existence is knowable
/// only by spawning: a probe that ran proves existence; a not-found
/// spawn is relabeled as the search-path remediation message.
pub open spec fn system_info_spec(path: Seq<char>, probe: VersionProbe) -> InfoModel {
    match probe {
        VersionProbe::Ran { stdout } => InfoModel {
            path,
            exists: true,
            source: GraniteCtlSource::System,
            version: version_of(stdout@),
            error: None,
        },
        VersionProbe::NotFound { error: _ } => InfoModel {
            path,
            exists: false,
            source: GraniteCtlSource::System,
            version: None,
            error: Some(missing_message_spec(path, GraniteCtlSource::System)),
        },
        VersionProbe::Failed { error } => InfoModel {
            path,
            exists: false,
            source: GraniteCtlSource::System,
            version: None,
            error: Some(probe_failed_message(error@)),
        },
        VersionProbe::NotRun => InfoModel {
            path,
            exists: false,
            source: GraniteCtlSource::System,
            version: None,
            error: None,
        },
    }
}

/// The whole report, by source.
pub open spec fn info_spec(
    path: Seq<char>,
    source: GraniteCtlSource,
    file_exists: bool,
    probe: VersionProbe,
) -> InfoModel {
    match source {
        GraniteCtlSource::System => system_info_spec(path, probe),
        GraniteCtlSource::Environment => checked_info_spec(path, source, file_exists, probe),
        GraniteCtlSource::Default => checked_info_spec(path, source, file_exists, probe),
    }
}

fn version_from_probe(stdout: &str) -> (r: Option<String>)
    ensures
        r.deep_view() == version_of(stdout@),
{
    let t = trim_str(stdout);
    if t.unicode_len() == 0 {
        None
    } else {
        Some(String::from_str(t))
    }
}

fn probe_failure_string(error: &str) -> (r: String)
    ensures
        r@ == probe_failed_message(error@),
{
    let mut m = String::from_str("Failed to run granitectl --version: ");
    m.append(error);
    m
}

/// Assembles the diagnostics report from the resolution, the on-disk
/// existence check (meaningful for the pre-checked sources), and the
/// version probe's outcome. It never fails: absence is data.
pub fn build_granitectl_info(
    path: String,
    source: GraniteCtlSource,
    file_exists: bool,
    probe: VersionProbe,
) -> (r: GraniteCtlInfo)
    ensures
        r@ == info_spec(path@, source, file_exists, probe),
{
    match source {
        GraniteCtlSource::System => {
            match probe {
                VersionProbe::Ran { stdout } => {
                    let version = version_from_probe(stdout.as_str());
                    GraniteCtlInfo { path, exists: true, source, version, error: None }
                },
                VersionProbe::NotFound { error: _ } => {
                    let msg = missing_granitectl_message(path.as_str(), source);
                    GraniteCtlInfo { path, exists: false, source, version: None, error: Some(msg) }
                },
                VersionProbe::Failed { error } => {
                    let msg = probe_failure_string(error.as_str());
                    GraniteCtlInfo { path, exists: false, source, version: None, error: Some(msg) }
                },
                VersionProbe::NotRun => {
                    GraniteCtlInfo { path, exists: false, source, version: None, error: None }
                },
            }
        },
        _ => {
            if !file_exists {
                let msg = missing_granitectl_message(path.as_str(), source);
                GraniteCtlInfo { path, exists: false, source, version: None, error: Some(msg) }
            } else {
                match probe {
                    VersionProbe::Ran { stdout } => {
                        let version = version_from_probe(stdout.as_str());
                        GraniteCtlInfo { path, exists: true, source, version, error: None }
                    },
                    VersionProbe::NotFound { error } => {
                        let msg = probe_failure_string(error.as_str());
                        GraniteCtlInfo {
                            path,
                            exists: true,
                            source,
                            version: None,
                            error: Some(msg),
                        }
                    },
                    VersionProbe::Failed { error } => {
                        let msg = probe_failure_string(error.as_str());
                        GraniteCtlInfo {
                            path,
                            exists: true,
                            source,
                            version: None,
                            error: Some(msg),
                        }
                    },
                    VersionProbe::NotRun => {
                        GraniteCtlInfo { path, exists: true, source, version: None, error: None }
                    },
                }
            }
        },
    }
}

} // verus!
