use graphshell_registries::protocol::{path_extension, ProtocolRegistry, ProtocolResolveControl, ProtocolResolveOutcome};
use graphshell_registries::runtime::RegistryRuntime;

#[test]
fn protocol_resolution_returns_cancelled_outcome_when_control_cancelled() {
    let registry = ProtocolRegistry::default();
    let outcome = registry.resolve_with_control("https://example.com/path", ProtocolResolveControl::cancelled());

    assert_eq!(outcome, ProtocolResolveOutcome::Cancelled);
}

#[test]
fn protocol_resolution_with_active_control_matches_standard_resolution() {
    let registry = ProtocolRegistry::default();
    let baseline = registry.resolve("https://example.com/path/readme.md");
    let outcome =
        registry.resolve_with_control("https://example.com/path/readme.md", ProtocolResolveControl::default());

    assert_eq!(outcome, ProtocolResolveOutcome::Resolved(baseline));
}

#[test]
fn protocol_resolution_infers_data_uri_mime_hint() {
    let registry = ProtocolRegistry::default();
    let resolution = registry.resolve("data:text/csv,foo,bar");
    assert_eq!(resolution.inferred_mime_hint.as_deref(), Some("text/csv"));
    assert!(resolution.supported);
}

#[test]
fn protocol_resolution_infers_file_extension_mime_hint() {
    let registry = ProtocolRegistry::default();
    let resolution = registry.resolve("https://example.com/path/report.pdf");
    assert_eq!(resolution.inferred_mime_hint.as_deref(), Some("application/pdf"));
    assert!(resolution.supported);
}

#[test]
fn protocol_resolution_supports_graphshell_scheme_with_settings_hint() {
    let registry = ProtocolRegistry::default();
    let resolution = registry.resolve("graphshell://settings/history");

    assert!(resolution.supported);
    assert!(!resolution.fallback_used);
    assert_eq!(resolution.matched_scheme, "graphshell");
    assert_eq!(resolution.inferred_mime_hint.as_deref(), Some("application/x-graphshell-settings"));
}

#[test]
fn protocol_registry_resolves_known_scheme_and_falls_back_for_unknown() {
    let registry = ProtocolRegistry::default();
    let https = registry.resolve("https://example.com");
    assert!(https.supported);
    assert!(!https.fallback_used);

    let custom = registry.resolve("foo://example.com");
    assert!(!custom.supported);
    assert!(custom.fallback_used);
    assert_eq!(custom.matched_scheme, "https");

    let graphshell = registry.resolve("verso://settings/general");
    assert!(graphshell.supported);
    assert_eq!(graphshell.matched_scheme, "verso");
    assert_eq!(graphshell.inferred_mime_hint.as_deref(), Some("application/x-graphshell-settings"));
}

#[test]
fn data_uri_hints_cover_missing_and_parameterised_types() {
    let registry = ProtocolRegistry::default();
    assert_eq!(registry.resolve("data:,hello").inferred_mime_hint.as_deref(), Some("text/plain"));
    assert_eq!(registry.resolve("data:;base64,aGk=").inferred_mime_hint.as_deref(), Some("text/plain"));
    assert_eq!(
        registry.resolve("data:Text/HTML;charset=utf-8,<p>").inferred_mime_hint.as_deref(),
        Some("text/html")
    );
    assert_eq!(registry.resolve("data:text/plain").inferred_mime_hint, None);
}

#[test]
fn scheme_is_lower_cased_and_internal_pages_get_internal_hint() {
    let registry = ProtocolRegistry::default();
    let upper = registry.resolve("HTTPS://Example.com/Index.HTML");
    assert_eq!(upper.scheme, "https");
    assert!(upper.supported);
    assert_eq!(upper.inferred_mime_hint.as_deref(), Some("text/html"));
    let internal = registry.resolve("graphshell://graph/main");
    assert_eq!(internal.inferred_mime_hint.as_deref(), Some("application/x-graphshell-internal"));
    let no_scheme = registry.resolve("no-colon-here");
    assert_eq!(no_scheme.scheme, "");
    assert!(no_scheme.fallback_used);
    assert_eq!(registry.resolve("https:///").inferred_mime_hint, None);
    assert_eq!(
        registry.resolve("https://example.com/").inferred_mime_hint.as_deref(),
        Some("application/x-msdownload")
    );
}

#[test]
fn schemes_can_be_registered_and_removed() {
    let mut registry = ProtocolRegistry::new("https");
    assert!(!registry.has_scheme("gemini"));
    registry.register_scheme("GEMINI");
    assert!(registry.has_scheme("gemini"));
    assert!(registry.resolve("gemini://capsule").supported);
    registry.unregister_scheme("gemini");
    assert!(!registry.resolve("gemini://capsule").supported);
}

#[test]
fn phase0_normalization_rewrites_unknown_scheme_to_protocol_fallback() {
    let mut runtime = RegistryRuntime::new_with_mods();
    let rewritten = runtime
        .decide_navigation_with_control("foo://example.com/path", None, ProtocolResolveControl::default())
        .expect("default protocol resolve control should not cancel")
        .normalized_url;
    let parsed = url::Url::parse(&rewritten).expect("rewritten URL parses");
    assert_eq!(parsed.scheme(), "https");
    assert_eq!(parsed.host_str(), Some("example.com"));
}

#[test]
fn phase0_decision_prefers_mime_hint_for_viewer_selection() {
    let mut runtime = RegistryRuntime::new_with_mods();
    let decision = runtime
        .decide_navigation_with_control("https://example.com/file.bin", Some("text/csv"), ProtocolResolveControl::default())
        .expect("default protocol resolve control should not cancel");
    assert_eq!(decision.viewer.viewer_id, "viewer:csv");
    assert_eq!(decision.viewer.matched_by, "mime");
    assert!(decision.normalized_url.starts_with("https:"));
}

#[test]
fn phase0_decision_uses_protocol_inferred_mime_hint_when_explicit_hint_missing() {
    let mut runtime = RegistryRuntime::new_with_mods();
    let decision = runtime
        .decide_navigation_with_control("https://example.com/download/no_extension", None, ProtocolResolveControl::default())
        .expect("default protocol resolve control should not cancel");
    assert_eq!(decision.protocol.inferred_mime_hint.as_deref(), None);
    assert_eq!(decision.viewer.viewer_id, "viewer:webview");

    let data_decision = runtime
        .decide_navigation_with_control("data:text/csv,foo,bar", None, ProtocolResolveControl::default())
        .expect("default protocol resolve control should not cancel");
    assert_eq!(data_decision.protocol.inferred_mime_hint.as_deref(), Some("text/csv"));
    assert_eq!(data_decision.viewer.viewer_id, "viewer:csv");
    assert_eq!(data_decision.viewer.matched_by, "mime");
}

#[test]
fn phase0_decision_prefers_explicit_mime_hint_over_protocol_inferred_hint() {
    let mut runtime = RegistryRuntime::new_with_mods();
    let decision = runtime
        .decide_navigation_with_control("data:text/csv,foo,bar", Some("application/pdf"), ProtocolResolveControl::default())
        .expect("default protocol resolve control should not cancel");
    assert_eq!(decision.protocol.inferred_mime_hint.as_deref(), Some("text/csv"));
    assert_eq!(decision.viewer.matched_by, "mime");
    assert_ne!(decision.viewer.viewer_id, "viewer:csv");
}

#[test]
fn phase0_decision_returns_none_when_protocol_resolution_is_cancelled() {
    let mut runtime = RegistryRuntime::new_with_mods();
    let decision =
        runtime.decide_navigation_with_control("https://example.com/readme.md", None, ProtocolResolveControl::cancelled());
    assert!(decision.is_none());
}

#[test]
fn protocol_policy_keeps_supported_urls_as_they_are() {
    let mut runtime = RegistryRuntime::new();
    let decision = runtime
        .decide_navigation_with_control("https://Example.com/a b", None, ProtocolResolveControl::default())
        .expect("not cancelled");
    assert_eq!(decision.normalized_url, "https://Example.com/a b");
}

#[test]
fn path_extensions_follow_the_file_name() {
    assert_eq!(path_extension("archive/b.tar.gz").as_deref(), Some("gz"));
    assert_eq!(path_extension("docs/readme.md/").as_deref(), Some("md"));
    assert_eq!(path_extension("docs/readme.md/.").as_deref(), Some("md"));
    assert_eq!(path_extension(".bashrc"), None);
    assert_eq!(path_extension("dir/"), None);
    assert_eq!(path_extension("a/.."), None);
    assert_eq!(path_extension("name.").as_deref(), Some(""));
    assert_eq!(path_extension("a.html\\"), Some("html\\".to_string()));
    let registry = ProtocolRegistry::default();
    assert_eq!(registry.resolve("https://example.com/a/B.PDF?x=1#y").inferred_mime_hint.as_deref(), Some("application/pdf"));
    assert_eq!(registry.resolve("https://example.com/file.").inferred_mime_hint, None);
}
