use graphshell_registries::action_registry::ActionRegistry;
use graphshell_registries::index::IndexRegistry;
use graphshell_registries::mod_extensions::{register_verso_mod_extensions, DynamicRegistrySurfaces, LensRegistry};
use graphshell_registries::protocol::ProtocolRegistry;
use graphshell_registries::theme::ThemeRegistry;
use graphshell_registries::viewer::ViewerRegistry;

fn surfaces() -> DynamicRegistrySurfaces {
    DynamicRegistrySurfaces {
        action: ActionRegistry::default(),
        lens: LensRegistry::new(),
        protocol: ProtocolRegistry::default(),
        theme: ThemeRegistry::default(),
        viewer: ViewerRegistry::default(),
        index: IndexRegistry::default(),
    }
}

const SCHEMES: [&str; 3] = ["http", "https", "data"];
const MIMES: [&str; 5] = ["text/html", "image/svg+xml", "text/css", "application/javascript", "application/pdf"];
const EXTENSIONS: [&str; 4] = ["html", "htm", "svg", "pdf"];

fn snapshot(d: &DynamicRegistrySurfaces) -> (Vec<bool>, Vec<Option<String>>, Vec<Option<String>>) {
    (
        SCHEMES.iter().map(|s| d.protocol.has_scheme(s)).collect(),
        MIMES.iter().map(|m| d.viewer.mime_viewer(m)).collect(),
        EXTENSIONS.iter().map(|e| d.viewer.extension_viewer(e)).collect(),
    )
}

#[test]
fn unloading_verso_records_in_reverse_restores_prior_mappings() {
    let mut d = surfaces();
    d.viewer.register_mime("application/pdf", "viewer:pdf");
    d.protocol.unregister_scheme("data");
    let before = snapshot(&d);
    assert_eq!(before.0, vec![true, true, false]);
    assert_eq!(before.1[4], Some("viewer:pdf".to_string()));

    let records = register_verso_mod_extensions(&mut d);
    assert_eq!(records.len(), 12);
    let during = snapshot(&d);
    assert_eq!(during.0, vec![true, true, true]);
    assert!(during.1.iter().all(|v| v.as_deref() == Some("viewer:webview")));
    assert!(during.2.iter().all(|v| v.as_deref() == Some("viewer:webview")));

    for record in records.into_iter().rev() {
        assert_eq!(d.remove_extension(record), Ok(()));
    }
    assert_eq!(snapshot(&d), before);
}
