use granite_adapter::resolve::granitectl_resolution;
use granite_adapter::resolve::missing_granitectl_message;
use granite_adapter::resolve::needs_existence_check;
use granite_adapter::resolve::GraniteCtlSource;

#[test]
fn override_wins_when_set() {
    let (path, source) = granitectl_resolution(
        Some("/opt/tools/granitectl".to_string()),
        Some("/app/bin".to_string()),
        "",
    );
    assert_eq!(path, "/opt/tools/granitectl");
    assert!(matches!(source, GraniteCtlSource::Environment));
}

#[test]
fn empty_override_behaves_as_unset() {
    let with_empty = granitectl_resolution(Some(String::new()), Some("/app/bin".to_string()), "");
    let without = granitectl_resolution(None, Some("/app/bin".to_string()), "");
    assert_eq!(with_empty.0, without.0);
    assert!(matches!(with_empty.1, GraniteCtlSource::Default));
    assert!(matches!(without.1, GraniteCtlSource::Default));
}

#[test]
fn default_layout_joins_engine_directory() {
    let (path, source) = granitectl_resolution(None, Some("/app/bin".to_string()), ".exe");
    assert_eq!(path, "/app/bin/../engine/granitectl.exe");
    assert!(matches!(source, GraniteCtlSource::Default));
}

#[test]
fn system_fallback_uses_bare_name() {
    let (path, source) = granitectl_resolution(None, None, "");
    assert_eq!(path, "granitectl");
    assert!(matches!(source, GraniteCtlSource::System));
}

#[test]
fn missing_messages_name_the_source() {
    assert_eq!(
        missing_granitectl_message("/x/granitectl", GraniteCtlSource::Environment),
        "granitectl executable not found at /x/granitectl. Update GRANITECTL_PATH or build the engine."
    );
    assert_eq!(
        missing_granitectl_message("/x/granitectl", GraniteCtlSource::Default),
        "granitectl executable not found at /x/granitectl. Build the engine or set GRANITECTL_PATH."
    );
    assert_eq!(
        missing_granitectl_message("granitectl", GraniteCtlSource::System),
        "granitectl executable was not found on PATH. Build the engine or set GRANITECTL_PATH."
    );
}

#[test]
fn existence_precheck_skips_system_path() {
    assert!(needs_existence_check(GraniteCtlSource::Environment));
    assert!(needs_existence_check(GraniteCtlSource::Default));
    assert!(!needs_existence_check(GraniteCtlSource::System));
}
