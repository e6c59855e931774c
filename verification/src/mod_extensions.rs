//! Mod extensions: what a mod adds to the runtime's registries, recorded so that
//! unloading the mod can put back what was there before.

use vstd::prelude::*;
use crate::action_registry::ActionRegistry;
use crate::index::IndexRegistry;
use crate::protocol::ProtocolRegistry;
use crate::table::Table;
use crate::text::{lower, lower_seq, trim, trim_seq, join2, owned, str_eq};
use crate::theme::ThemeRegistry;
use crate::viewer::{ViewerCapabilities, ViewerRegistry, static_viewer, static_viewer_id};

verus! {

/// The registered lenses, by lower-cased id.
pub struct LensRegistry {
    lenses: Table<()>,
}

impl LensRegistry {
    pub closed spec fn ids(&self) -> Set<Seq<char>> {
        self.lenses@.dom()
    }

    pub fn new() -> (r: Self)
        ensures
            r.ids() == Set::<Seq<char>>::empty(),
    {
        LensRegistry { lenses: Table::new() }
    }

    pub fn register(&mut self, lens_id: &str)
        ensures
            final(self).ids() == old(self).ids().insert(lower_seq(trim_seq(lens_id@))),
    {
        let trimmed = trim(lens_id);
        self.lenses.insert(lower(trimmed.as_str()), ());
    }

    pub fn unregister(&mut self, lens_id: &str) -> (r: bool)
        ensures
            r == old(self).ids().contains(lower_seq(trim_seq(lens_id@))),
            final(self).ids() == old(self).ids().remove(lower_seq(trim_seq(lens_id@))),
    {
        let trimmed = trim(lens_id);
        let key = lower(trimmed.as_str());
        self.lenses.remove(key.as_str()).is_some()
    }
}

/// One change a mod made to the registries, with what it replaced.
#[derive(Debug, Clone)]
pub enum ModExtensionRecord {
    ProtocolScheme { scheme: String, previously_present: bool },
    ViewerMime { mime: String, previous_viewer_id: Option<String> },
    ViewerExtension { extension: String, previous_viewer_id: Option<String> },
    ViewerCapabilities { viewer_id: String, previous_capabilities: Option<ViewerCapabilities> },
    Action { action_id: String },
    IndexProvider { provider_id: String },
    Lens { lens_id: String },
    Theme { theme_id: String },
}

/// The registries that mods extend.
pub struct DynamicRegistrySurfaces {
    pub action: ActionRegistry,
    pub lens: LensRegistry,
    pub protocol: ProtocolRegistry,
    pub theme: ThemeRegistry,
    pub viewer: ViewerRegistry,
    pub index: IndexRegistry,
}

/// The part of the registries that protocol and viewer records touch.
pub open spec fn surfaces_view(d: DynamicRegistrySurfaces) -> (
    Set<Seq<char>>,
    Map<Seq<char>, Seq<char>>,
    Map<Seq<char>, Seq<char>>,
    Map<Seq<char>, ViewerCapabilities>,
) {
    (d.protocol.schemes(), d.viewer.mime_map(), d.viewer.extension_map(), d.viewer.capability_map())
}

/// The viewer that mods may map a MIME type to at run time.
pub open spec fn runtime_mime_viewer(mime: Seq<char>) -> Option<Seq<char>> {
    if mime == "text/html"@ || mime == "application/pdf"@ || mime == "image/svg+xml"@ || mime == "text/css"@
        || mime == "application/javascript"@ {
        Some("viewer:webview"@)
    } else if mime == "application/x-graphshell-wry"@ {
        Some("viewer:wry"@)
    } else {
        None
    }
}

/// The viewer that mods may map a file extension to at run time.
pub open spec fn runtime_extension_viewer(extension: Seq<char>) -> Option<Seq<char>> {
    if extension == "html"@ || extension == "htm"@ || extension == "pdf"@ || extension == "svg"@ {
        Some("viewer:webview"@)
    } else {
        None
    }
}

pub fn static_viewer_id_for_runtime_mime(mime: &str) -> (r: Option<&'static str>)
    ensures
        match r {
            Some(v) => runtime_mime_viewer(mime@) == Some(v@),
            None => runtime_mime_viewer(mime@) is None,
        },
{
    if str_eq(mime, "text/html") || str_eq(mime, "application/pdf") || str_eq(mime, "image/svg+xml")
        || str_eq(mime, "text/css") || str_eq(mime, "application/javascript") {
        Some("viewer:webview")
    } else if str_eq(mime, "application/x-graphshell-wry") {
        Some("viewer:wry")
    } else {
        None
    }
}

pub fn static_viewer_id_for_runtime_extension(extension: &str) -> (r: Option<&'static str>)
    ensures
        match r {
            Some(v) => runtime_extension_viewer(extension@) == Some(v@),
            None => runtime_extension_viewer(extension@) is None,
        },
{
    if str_eq(extension, "html") || str_eq(extension, "htm") || str_eq(extension, "pdf") || str_eq(extension, "svg") {
        Some("viewer:webview")
    } else {
        None
    }
}

/// The previous viewer a record names, where the runtime knows it by name.
pub open spec fn known_previous(previous: Option<String>) -> Option<Seq<char>> {
    match previous {
        Some(p) => if static_viewer(p@) { Some(p@) } else { None },
        None => None,
    }
}

/// What applying a record does to the protocol and viewer registries; none where
/// the record cannot be applied.
pub open spec fn apply_spec(
    v: (Set<Seq<char>>, Map<Seq<char>, Seq<char>>, Map<Seq<char>, Seq<char>>, Map<Seq<char>, ViewerCapabilities>),
    record: ModExtensionRecord,
) -> Option<(Set<Seq<char>>, Map<Seq<char>, Seq<char>>, Map<Seq<char>, Seq<char>>, Map<Seq<char>, ViewerCapabilities>)> {
    match record {
        ModExtensionRecord::ProtocolScheme { scheme, .. } => Some((v.0.insert(lower_seq(scheme@)), v.1, v.2, v.3)),
        ModExtensionRecord::ViewerMime { mime, .. } => match runtime_mime_viewer(mime@) {
            Some(id) => Some((v.0, v.1.insert(lower_seq(mime@), id), v.2, v.3)),
            None => None,
        },
        ModExtensionRecord::ViewerExtension { extension, .. } => match runtime_extension_viewer(extension@) {
            Some(id) => Some((v.0, v.1, v.2.insert(lower_seq(extension@), id), v.3)),
            None => None,
        },
        ModExtensionRecord::ViewerCapabilities { viewer_id, .. } => if static_viewer(viewer_id@) {
            Some((v.0, v.1, v.2, v.3.insert(
                viewer_id@,
                if v.3.dom().contains(viewer_id@) { v.3[viewer_id@] } else { crate::viewer::default_capabilities() },
            )))
        } else {
            None
        },
        _ => Some(v),
    }
}

/// What removing a record does to the protocol and viewer registries; none where
/// the record cannot be removed.
pub open spec fn remove_spec(
    v: (Set<Seq<char>>, Map<Seq<char>, Seq<char>>, Map<Seq<char>, Seq<char>>, Map<Seq<char>, ViewerCapabilities>),
    record: ModExtensionRecord,
) -> Option<(Set<Seq<char>>, Map<Seq<char>, Seq<char>>, Map<Seq<char>, Seq<char>>, Map<Seq<char>, ViewerCapabilities>)> {
    match record {
        ModExtensionRecord::ProtocolScheme { scheme, previously_present } => Some(
            if previously_present { v } else { (v.0.remove(lower_seq(scheme@)), v.1, v.2, v.3) },
        ),
        ModExtensionRecord::ViewerMime { mime, previous_viewer_id } => Some(match known_previous(previous_viewer_id) {
            Some(p) => (v.0, v.1.insert(lower_seq(mime@), p), v.2, v.3),
            None => (v.0, v.1.remove(lower_seq(mime@)), v.2, v.3),
        }),
        ModExtensionRecord::ViewerExtension { extension, previous_viewer_id } => Some(match known_previous(previous_viewer_id) {
            Some(p) => (v.0, v.1, v.2.insert(lower_seq(extension@), p), v.3),
            None => (v.0, v.1, v.2.remove(lower_seq(extension@)), v.3),
        }),
        ModExtensionRecord::ViewerCapabilities { viewer_id, previous_capabilities } => if static_viewer(viewer_id@) {
            Some(match previous_capabilities {
                Some(c) => (v.0, v.1, v.2, v.3.insert(viewer_id@, c)),
                None => (v.0, v.1, v.2, v.3.remove(viewer_id@)),
            })
        } else {
            None
        },
        _ => Some(v),
    }
}

fn previous_static(previous: &Option<String>) -> (r: Option<&'static str>)
    ensures
        match r {
            Some(p) => known_previous(*previous) == Some(p@),
            None => known_previous(*previous) is None,
        },
{
    match previous {
        Some(p) => static_viewer_id(p.as_str()),
        None => None,
    }
}

impl DynamicRegistrySurfaces {
    /// Applies one record of a mod's extensions.
    pub fn apply_extension(&mut self, record: &ModExtensionRecord) -> (r: Result<(), String>)
        ensures
            match apply_spec(surfaces_view(*old(self)), *record) {
                Some(v) => r is Ok && surfaces_view(*final(self)) == v,
                None => r is Err && surfaces_view(*final(self)) == surfaces_view(*old(self)),
            },
            r matches Err(e) ==> match *record {
                ModExtensionRecord::ViewerMime { mime, .. } => e@ == "unsupported viewer mapping for mime "@ + mime@,
                ModExtensionRecord::ViewerExtension { extension, .. } => e@ == "unsupported viewer mapping for extension "@ + extension@,
                ModExtensionRecord::ViewerCapabilities { viewer_id, .. } => e@ == "unsupported viewer capabilities for "@ + viewer_id@,
                _ => false,
            },
    {
        match record {
            ModExtensionRecord::ProtocolScheme { scheme, .. } => {
                self.protocol.register_scheme(scheme.as_str());
            },
            ModExtensionRecord::ViewerMime { mime, .. } => {
                let viewer_id = match static_viewer_id_for_runtime_mime(mime.as_str()) {
                    Some(v) => v,
                    None => {
                        return Err(join2("unsupported viewer mapping for mime ", mime.as_str()));
                    },
                };
                self.viewer.register_mime(mime.as_str(), viewer_id);
            },
            ModExtensionRecord::ViewerExtension { extension, .. } => {
                let viewer_id = match static_viewer_id_for_runtime_extension(extension.as_str()) {
                    Some(v) => v,
                    None => {
                        return Err(join2("unsupported viewer mapping for extension ", extension.as_str()));
                    },
                };
                self.viewer.register_extension(extension.as_str(), viewer_id);
            },
            ModExtensionRecord::ViewerCapabilities { viewer_id, .. } => {
                let id = match static_viewer_id(viewer_id.as_str()) {
                    Some(v) => v,
                    None => {
                        return Err(join2("unsupported viewer capabilities for ", viewer_id.as_str()));
                    },
                };
                let current = self.viewer.capabilities_for(id);
                self.viewer.register_capabilities(id, current);
            },
            _ => {},
        }
        Ok(())
    }

    /// Undoes one record of a mod's extensions: restores what it replaced, or
    /// removes what it added.
    pub fn remove_extension(&mut self, record: ModExtensionRecord) -> (r: Result<(), String>)
        ensures
            match remove_spec(surfaces_view(*old(self)), record) {
                Some(v) => r is Ok && surfaces_view(*final(self)) == v,
                None => r is Err && surfaces_view(*final(self)) == surfaces_view(*old(self)),
            },
            r matches Err(e) ==> (record matches ModExtensionRecord::ViewerCapabilities { viewer_id, .. }
                && e@ == "unsupported viewer capability rollback for "@ + viewer_id@),
            match record {
                ModExtensionRecord::Action { action_id } => final(self).action@ == old(self).action@.remove(lower_seq(action_id@)),
                _ => final(self).action@ == old(self).action@,
            },
            match record {
                ModExtensionRecord::IndexProvider { provider_id } => final(self).index.providers()
                    == old(self).index.providers().remove(lower_seq(trim_seq(provider_id@))),
                _ => final(self).index.providers() == old(self).index.providers(),
            },
            match record {
                ModExtensionRecord::Lens { lens_id } => final(self).lens.ids() == old(self).lens.ids().remove(lower_seq(trim_seq(lens_id@))),
                _ => final(self).lens.ids() == old(self).lens.ids(),
            },
            match record {
                ModExtensionRecord::Theme { theme_id } => {
                    let id = lower_seq(trim_seq(theme_id@));
                    final(self).theme.names() == (if id == old(self).theme.fallback() {
                        old(self).theme.names()
                    } else {
                        old(self).theme.names().remove(id)
                    })
                },
                _ => final(self).theme.names() == old(self).theme.names(),
            },
    {
        match record {
            ModExtensionRecord::ProtocolScheme { scheme, previously_present } => {
                if !previously_present {
                    self.protocol.unregister_scheme(scheme.as_str());
                }
            },
            ModExtensionRecord::ViewerMime { mime, previous_viewer_id } => match previous_static(&previous_viewer_id) {
                Some(previous) => {
                    self.viewer.register_mime(mime.as_str(), previous);
                },
                None => {
                    self.viewer.unregister_mime(mime.as_str());
                },
            },
            ModExtensionRecord::ViewerExtension { extension, previous_viewer_id } => match previous_static(&previous_viewer_id) {
                Some(previous) => {
                    self.viewer.register_extension(extension.as_str(), previous);
                },
                None => {
                    self.viewer.unregister_extension(extension.as_str());
                },
            },
            ModExtensionRecord::ViewerCapabilities { viewer_id, previous_capabilities } => {
                let id = match static_viewer_id(viewer_id.as_str()) {
                    Some(v) => v,
                    None => {
                        return Err(join2("unsupported viewer capability rollback for ", viewer_id.as_str()));
                    },
                };
                match previous_capabilities {
                    Some(previous) => {
                        self.viewer.register_capabilities(id, previous);
                    },
                    None => {
                        self.viewer.unregister_capabilities(id);
                    },
                }
            },
            ModExtensionRecord::Action { action_id } => {
                self.action.unregister(action_id.as_str());
            },
            ModExtensionRecord::IndexProvider { provider_id } => {
                self.index.unregister_provider(provider_id.as_str());
            },
            ModExtensionRecord::Lens { lens_id } => {
                self.lens.unregister(lens_id.as_str());
            },
            ModExtensionRecord::Theme { theme_id } => {
                self.theme.unregister_theme(theme_id.as_str());
            },
        }
        Ok(())
    }
}

/// The record of registering a MIME type: the type and the viewer it replaced.
pub open spec fn mime_record_fits(record: ModExtensionRecord, mimes: Map<Seq<char>, Seq<char>>, mime: Seq<char>) -> bool {
    record matches ModExtensionRecord::ViewerMime { mime: m, previous_viewer_id } && m@ == mime && match previous_viewer_id {
        Some(p) => mimes.dom().contains(lower_seq(mime)) && mimes[lower_seq(mime)] == p@,
        None => !mimes.dom().contains(lower_seq(mime)),
    }
}

pub open spec fn extension_record_fits(record: ModExtensionRecord, exts: Map<Seq<char>, Seq<char>>, ext: Seq<char>) -> bool {
    record matches ModExtensionRecord::ViewerExtension { extension: e, previous_viewer_id } && e@ == ext && match previous_viewer_id {
        Some(p) => exts.dom().contains(lower_seq(ext)) && exts[lower_seq(ext)] == p@,
        None => !exts.dom().contains(lower_seq(ext)),
    }
}

pub open spec fn scheme_record_fits(record: ModExtensionRecord, schemes: Set<Seq<char>>, scheme: Seq<char>) -> bool {
    record matches ModExtensionRecord::ProtocolScheme { scheme: s, previously_present }
        && s@ == scheme && previously_present == schemes.contains(lower_seq(scheme))
}

fn scheme_record(d: &mut DynamicRegistrySurfaces, scheme: &str) -> (r: ModExtensionRecord)
    ensures
        scheme_record_fits(r, old(d).protocol.schemes(), scheme@),
        surfaces_view(*final(d)) == (old(d).protocol.schemes().insert(lower_seq(scheme@)), old(d).viewer.mime_map(),
            old(d).viewer.extension_map(), old(d).viewer.capability_map()),
        final(d).protocol.fallback() == old(d).protocol.fallback(),
{
    let previously_present = d.protocol.has_scheme(scheme);
    d.protocol.register_scheme(scheme);
    ModExtensionRecord::ProtocolScheme { scheme: owned(scheme), previously_present }
}

fn mime_record(d: &mut DynamicRegistrySurfaces, mime: &str, viewer_id: &str) -> (r: ModExtensionRecord)
    ensures
        mime_record_fits(r, old(d).viewer.mime_map(), mime@),
        surfaces_view(*final(d)) == (old(d).protocol.schemes(), old(d).viewer.mime_map().insert(lower_seq(mime@), viewer_id@),
            old(d).viewer.extension_map(), old(d).viewer.capability_map()),
        final(d).protocol == old(d).protocol,
{
    let previous = d.viewer.register_mime(mime, viewer_id);
    ModExtensionRecord::ViewerMime { mime: owned(mime), previous_viewer_id: previous }
}

fn extension_record(d: &mut DynamicRegistrySurfaces, extension: &str, viewer_id: &str) -> (r: ModExtensionRecord)
    ensures
        extension_record_fits(r, old(d).viewer.extension_map(), extension@),
        surfaces_view(*final(d)) == (old(d).protocol.schemes(), old(d).viewer.mime_map(),
            old(d).viewer.extension_map().insert(lower_seq(extension@), viewer_id@), old(d).viewer.capability_map()),
        final(d).protocol == old(d).protocol,
{
    let previous = d.viewer.register_extension(extension, viewer_id);
    ModExtensionRecord::ViewerExtension { extension: owned(extension), previous_viewer_id: previous }
}

/// The schemes, MIME types and extensions that the verso mod routes to the web view.
pub open spec fn verso_schemes() -> Seq<Seq<char>> {
    seq!["http"@, "https"@, "data"@]
}

pub open spec fn verso_mimes() -> Seq<Seq<char>> {
    seq!["text/html"@, "image/svg+xml"@, "text/css"@, "application/javascript"@, "application/pdf"@]
}

pub open spec fn verso_extensions() -> Seq<Seq<char>> {
    seq!["html"@, "htm"@, "svg"@, "pdf"@]
}

/// The protocol and viewer registries once the verso mod's schemes and
/// web-view mappings are registered on `v`.
pub open spec fn verso_registered(
    v: (Set<Seq<char>>, Map<Seq<char>, Seq<char>>, Map<Seq<char>, Seq<char>>, Map<Seq<char>, ViewerCapabilities>),
) -> (Set<Seq<char>>, Map<Seq<char>, Seq<char>>, Map<Seq<char>, Seq<char>>, Map<Seq<char>, ViewerCapabilities>) {
    (
        v.0.insert(lower_seq("http"@)).insert(lower_seq("https"@)).insert(lower_seq("data"@)),
        v.1.insert(lower_seq("text/html"@), "viewer:webview"@)
            .insert(lower_seq("image/svg+xml"@), "viewer:webview"@)
            .insert(lower_seq("text/css"@), "viewer:webview"@)
            .insert(lower_seq("application/javascript"@), "viewer:webview"@)
            .insert(lower_seq("application/pdf"@), "viewer:webview"@),
        v.2.insert(lower_seq("html"@), "viewer:webview"@)
            .insert(lower_seq("htm"@), "viewer:webview"@)
            .insert(lower_seq("svg"@), "viewer:webview"@)
            .insert(lower_seq("pdf"@), "viewer:webview"@),
        v.3,
    )
}

/// Removes the last `k` of `records` from `v`, the last first; none where one
/// of them cannot be removed.
pub open spec fn undo_records(
    v: (Set<Seq<char>>, Map<Seq<char>, Seq<char>>, Map<Seq<char>, Seq<char>>, Map<Seq<char>, ViewerCapabilities>),
    records: Seq<ModExtensionRecord>,
    k: nat,
) -> Option<(Set<Seq<char>>, Map<Seq<char>, Seq<char>>, Map<Seq<char>, Seq<char>>, Map<Seq<char>, ViewerCapabilities>)>
    decreases k,
{
    if k == 0 {
        Some(v)
    } else {
        match remove_spec(v, records[k - 1]) {
            Some(w) => undo_records(w, records, (k - 1) as nat),
            None => None,
        }
    }
}

/// Registers the verso mod's schemes and web-view mappings; the records name
/// each change and what it replaced, schemes first, then MIME types, then
/// extensions.
pub fn register_verso_mod_extensions(dynamic: &mut DynamicRegistrySurfaces) -> (records: Vec<ModExtensionRecord>)
    ensures
        records@.len() == 12,
        forall|i: int| 0 <= i < 3 ==> (#[trigger] records@[i] matches ModExtensionRecord::ProtocolScheme { scheme, .. }
            && scheme@ == verso_schemes()[i]),
        forall|i: int| 3 <= i < 8 ==> (#[trigger] records@[i] matches ModExtensionRecord::ViewerMime { mime, .. }
            && mime@ == verso_mimes()[i - 3]),
        forall|i: int| 8 <= i < 12 ==> (#[trigger] records@[i] matches ModExtensionRecord::ViewerExtension { extension, .. }
            && extension@ == verso_extensions()[i - 8]),
        final(dynamic).protocol.schemes() == old(dynamic).protocol.schemes()
            .insert(lower_seq("http"@)).insert(lower_seq("https"@)).insert(lower_seq("data"@)),
        final(dynamic).viewer.mime_map() == old(dynamic).viewer.mime_map()
            .insert(lower_seq("text/html"@), "viewer:webview"@)
            .insert(lower_seq("image/svg+xml"@), "viewer:webview"@)
            .insert(lower_seq("text/css"@), "viewer:webview"@)
            .insert(lower_seq("application/javascript"@), "viewer:webview"@)
            .insert(lower_seq("application/pdf"@), "viewer:webview"@),
        final(dynamic).viewer.extension_map() == old(dynamic).viewer.extension_map()
            .insert(lower_seq("html"@), "viewer:webview"@)
            .insert(lower_seq("htm"@), "viewer:webview"@)
            .insert(lower_seq("svg"@), "viewer:webview"@)
            .insert(lower_seq("pdf"@), "viewer:webview"@),
        final(dynamic).viewer.capability_map() == old(dynamic).viewer.capability_map(),
        surfaces_view(*final(dynamic)) == verso_registered(surfaces_view(*old(dynamic))),
        final(dynamic).protocol.fallback() == old(dynamic).protocol.fallback(),
        forall|i: int| 0 <= i < 3 ==> scheme_record_fits(#[trigger] records@[i], old(dynamic).protocol.schemes(), verso_schemes()[i]),
        forall|i: int| 3 <= i < 8 ==> mime_record_fits(#[trigger] records@[i], old(dynamic).viewer.mime_map(), verso_mimes()[i - 3]),
        forall|i: int| 8 <= i < 12 ==> extension_record_fits(#[trigger] records@[i], old(dynamic).viewer.extension_map(), verso_extensions()[i - 8]),
{
    proof {
        reveal_strlit("http");
        reveal_strlit("https");
        reveal_strlit("data");
        reveal_strlit("text/html");
        reveal_strlit("image/svg+xml");
        reveal_strlit("text/css");
        reveal_strlit("application/javascript");
        reveal_strlit("application/pdf");
        reveal_strlit("html");
        reveal_strlit("htm");
        reveal_strlit("svg");
        reveal_strlit("pdf");
        assert(lower_seq("http"@).len() == 4 && lower_seq("https"@).len() == 5);
        assert(lower_seq("http"@) != lower_seq("https"@));
        assert(lower_seq("data"@)[0] != lower_seq("http"@)[0]);
        assert(lower_seq("data"@) != lower_seq("https"@));
        assert(lower_seq("html"@).len() == 4 && lower_seq("htm"@).len() == 3);
        assert(lower_seq("html"@) != lower_seq("htm"@));
        assert(lower_seq("html"@) != lower_seq("svg"@));
        assert(lower_seq("html"@) != lower_seq("pdf"@));
        assert(lower_seq("htm"@)[0] != lower_seq("svg"@)[0]);
        assert(lower_seq("htm"@)[0] != lower_seq("pdf"@)[0]);
        assert(lower_seq("svg"@)[0] != lower_seq("pdf"@)[0]);
        assert(lower_seq("text/html"@).len() == 9);
        assert(lower_seq("image/svg+xml"@).len() == 13);
        assert(lower_seq("text/css"@).len() == 8);
        assert(lower_seq("application/javascript"@).len() == 22);
        assert(lower_seq("application/pdf"@).len() == 15);
    }
    let mut records: Vec<ModExtensionRecord> = Vec::new();
    records.push(scheme_record(dynamic, "http"));
    records.push(scheme_record(dynamic, "https"));
    records.push(scheme_record(dynamic, "data"));
    records.push(mime_record(dynamic, "text/html", "viewer:webview"));
    records.push(mime_record(dynamic, "image/svg+xml", "viewer:webview"));
    records.push(mime_record(dynamic, "text/css", "viewer:webview"));
    records.push(mime_record(dynamic, "application/javascript", "viewer:webview"));
    records.push(mime_record(dynamic, "application/pdf", "viewer:webview"));
    records.push(extension_record(dynamic, "html", "viewer:webview"));
    records.push(extension_record(dynamic, "htm", "viewer:webview"));
    records.push(extension_record(dynamic, "svg", "viewer:webview"));
    records.push(extension_record(dynamic, "pdf", "viewer:webview"));
    records
}

/// Removing the record of a scheme registration undoes it.
pub proof fn law_scheme_record_undoes(
    v: (Set<Seq<char>>, Map<Seq<char>, Seq<char>>, Map<Seq<char>, Seq<char>>, Map<Seq<char>, ViewerCapabilities>),
    scheme: Seq<char>,
    record: ModExtensionRecord,
)
    requires
        scheme_record_fits(record, v.0, scheme),
    ensures
        remove_spec((v.0.insert(lower_seq(scheme)), v.1, v.2, v.3), record) == Some(v),
{
    if !v.0.contains(lower_seq(scheme)) {
        assert(v.0.insert(lower_seq(scheme)).remove(lower_seq(scheme)) =~= v.0);
    } else {
        assert(v.0.insert(lower_seq(scheme)) =~= v.0);
    }
}

/// Removing the record of a MIME registration restores the viewer it replaced,
/// where the runtime knows that viewer by name.
pub proof fn law_mime_record_undoes(
    v: (Set<Seq<char>>, Map<Seq<char>, Seq<char>>, Map<Seq<char>, Seq<char>>, Map<Seq<char>, ViewerCapabilities>),
    mime: Seq<char>,
    viewer_id: Seq<char>,
    record: ModExtensionRecord,
)
    requires
        mime_record_fits(record, v.1, mime),
        v.1.dom().contains(lower_seq(mime)) ==> static_viewer(v.1[lower_seq(mime)]),
    ensures
        remove_spec((v.0, v.1.insert(lower_seq(mime), viewer_id), v.2, v.3), record) == Some(v),
{
    let k = lower_seq(mime);
    if v.1.dom().contains(k) {
        assert(v.1.insert(k, viewer_id).insert(k, v.1[k]) =~= v.1);
    } else {
        assert(v.1.insert(k, viewer_id).remove(k) =~= v.1);
    }
}

/// Removing the record of an extension registration restores the viewer it
/// replaced, where the runtime knows that viewer by name.
pub proof fn law_extension_record_undoes(
    v: (Set<Seq<char>>, Map<Seq<char>, Seq<char>>, Map<Seq<char>, Seq<char>>, Map<Seq<char>, ViewerCapabilities>),
    extension: Seq<char>,
    viewer_id: Seq<char>,
    record: ModExtensionRecord,
)
    requires
        extension_record_fits(record, v.2, extension),
        v.2.dom().contains(lower_seq(extension)) ==> static_viewer(v.2[lower_seq(extension)]),
    ensures
        remove_spec((v.0, v.1, v.2.insert(lower_seq(extension), viewer_id), v.3), record) == Some(v),
{
    let k = lower_seq(extension);
    if v.2.dom().contains(k) {
        assert(v.2.insert(k, viewer_id).insert(k, v.2[k]) =~= v.2);
    } else {
        assert(v.2.insert(k, viewer_id).remove(k) =~= v.2);
    }
}

/// Unloading the verso mod, by removing its records the last first, gives
/// back the schemes and the MIME and extension mappings that stood before it
/// was registered, where each viewer a mapping it replaced named is one the
/// runtime knows by name.
pub proof fn law_verso_unload_restores(
    v: (Set<Seq<char>>, Map<Seq<char>, Seq<char>>, Map<Seq<char>, Seq<char>>, Map<Seq<char>, ViewerCapabilities>),
    records: Seq<ModExtensionRecord>,
)
    requires
        records.len() == 12,
        forall|i: int| 0 <= i < 3 ==> scheme_record_fits(#[trigger] records[i], v.0, verso_schemes()[i]),
        forall|i: int| 3 <= i < 8 ==> mime_record_fits(#[trigger] records[i], v.1, verso_mimes()[i - 3]),
        forall|i: int| 8 <= i < 12 ==> extension_record_fits(#[trigger] records[i], v.2, verso_extensions()[i - 8]),
        forall|i: int| 0 <= i < 5 && v.1.dom().contains(lower_seq(#[trigger] verso_mimes()[i]))
            ==> static_viewer(v.1[lower_seq(verso_mimes()[i])]),
        forall|i: int| 0 <= i < 4 && v.2.dom().contains(lower_seq(#[trigger] verso_extensions()[i]))
            ==> static_viewer(v.2[lower_seq(verso_extensions()[i])]),
    ensures
        undo_records(verso_registered(v), records, 12) == Some(v),
{
    reveal_strlit("http");
    reveal_strlit("https");
    reveal_strlit("data");
    reveal_strlit("text/html");
    reveal_strlit("image/svg+xml");
    reveal_strlit("text/css");
    reveal_strlit("application/javascript");
    reveal_strlit("application/pdf");
    reveal_strlit("html");
    reveal_strlit("htm");
    reveal_strlit("svg");
    reveal_strlit("pdf");
    let w = "viewer:webview"@;
    let sh = verso_schemes();
    let mi = verso_mimes();
    let ex = verso_extensions();
    assert(lower_seq(sh[0]).len() == 4 && lower_seq(sh[1]).len() == 5);
    assert(lower_seq(sh[2])[0] != lower_seq(sh[0])[0]);
    assert(lower_seq(mi[0]).len() == 9);
    assert(lower_seq(mi[1]).len() == 13);
    assert(lower_seq(mi[2]).len() == 8);
    assert(lower_seq(mi[3]).len() == 22);
    assert(lower_seq(mi[4]).len() == 15);
    assert(lower_seq(ex[0]).len() == 4 && lower_seq(ex[1]).len() == 3);
    assert(lower_seq(ex[0]) != lower_seq(ex[2]));
    assert(lower_seq(ex[0]) != lower_seq(ex[3]));
    assert(lower_seq(ex[1])[0] != lower_seq(ex[2])[0]);
    assert(lower_seq(ex[1])[0] != lower_seq(ex[3])[0]);
    assert(lower_seq(ex[2])[0] != lower_seq(ex[3])[0]);
    let r = records;
    let s1 = (v.0.insert(lower_seq(sh[0])), v.1, v.2, v.3);
    let s2 = (s1.0.insert(lower_seq(sh[1])), v.1, v.2, v.3);
    let s3 = (s2.0.insert(lower_seq(sh[2])), v.1, v.2, v.3);
    assert(scheme_record_fits(r[0], v.0, sh[0]));
    law_scheme_record_undoes(v, sh[0], r[0]);
    assert(scheme_record_fits(r[1], v.0, sh[1]));
    law_scheme_record_undoes(s1, sh[1], r[1]);
    assert(scheme_record_fits(r[2], v.0, sh[2]));
    law_scheme_record_undoes(s2, sh[2], r[2]);
    let s4 = (s3.0, v.1.insert(lower_seq(mi[0]), w), v.2, v.3);
    let s5 = (s3.0, s4.1.insert(lower_seq(mi[1]), w), v.2, v.3);
    let s6 = (s3.0, s5.1.insert(lower_seq(mi[2]), w), v.2, v.3);
    let s7 = (s3.0, s6.1.insert(lower_seq(mi[3]), w), v.2, v.3);
    let s8 = (s3.0, s7.1.insert(lower_seq(mi[4]), w), v.2, v.3);
    assert(mime_record_fits(r[3], v.1, mi[0]));
    assert(v.1.dom().contains(lower_seq(mi[0])) ==> static_viewer(v.1[lower_seq(mi[0])]));
    law_mime_record_undoes(s3, mi[0], w, r[3]);
    assert(mime_record_fits(r[4], v.1, mi[1]));
    assert(v.1.dom().contains(lower_seq(mi[1])) ==> static_viewer(v.1[lower_seq(mi[1])]));
    law_mime_record_undoes(s4, mi[1], w, r[4]);
    assert(mime_record_fits(r[5], v.1, mi[2]));
    assert(v.1.dom().contains(lower_seq(mi[2])) ==> static_viewer(v.1[lower_seq(mi[2])]));
    law_mime_record_undoes(s5, mi[2], w, r[5]);
    assert(mime_record_fits(r[6], v.1, mi[3]));
    assert(v.1.dom().contains(lower_seq(mi[3])) ==> static_viewer(v.1[lower_seq(mi[3])]));
    law_mime_record_undoes(s6, mi[3], w, r[6]);
    assert(mime_record_fits(r[7], v.1, mi[4]));
    assert(v.1.dom().contains(lower_seq(mi[4])) ==> static_viewer(v.1[lower_seq(mi[4])]));
    law_mime_record_undoes(s7, mi[4], w, r[7]);
    let s9 = (s3.0, s8.1, v.2.insert(lower_seq(ex[0]), w), v.3);
    let s10 = (s3.0, s8.1, s9.2.insert(lower_seq(ex[1]), w), v.3);
    let s11 = (s3.0, s8.1, s10.2.insert(lower_seq(ex[2]), w), v.3);
    let s12 = (s3.0, s8.1, s11.2.insert(lower_seq(ex[3]), w), v.3);
    assert(extension_record_fits(r[8], v.2, ex[0]));
    assert(v.2.dom().contains(lower_seq(ex[0])) ==> static_viewer(v.2[lower_seq(ex[0])]));
    law_extension_record_undoes(s8, ex[0], w, r[8]);
    assert(extension_record_fits(r[9], v.2, ex[1]));
    assert(v.2.dom().contains(lower_seq(ex[1])) ==> static_viewer(v.2[lower_seq(ex[1])]));
    law_extension_record_undoes(s9, ex[1], w, r[9]);
    assert(extension_record_fits(r[10], v.2, ex[2]));
    assert(v.2.dom().contains(lower_seq(ex[2])) ==> static_viewer(v.2[lower_seq(ex[2])]));
    law_extension_record_undoes(s10, ex[2], w, r[10]);
    assert(extension_record_fits(r[11], v.2, ex[3]));
    assert(v.2.dom().contains(lower_seq(ex[3])) ==> static_viewer(v.2[lower_seq(ex[3])]));
    law_extension_record_undoes(s11, ex[3], w, r[11]);
    assert(undo_records(v, r, 0) == Some(v));
    assert(undo_records(s1, r, 1) == Some(v));
    assert(undo_records(s2, r, 2) == Some(v));
    assert(undo_records(s3, r, 3) == Some(v));
    assert(undo_records(s4, r, 4) == Some(v));
    assert(undo_records(s5, r, 5) == Some(v));
    assert(undo_records(s6, r, 6) == Some(v));
    assert(undo_records(s7, r, 7) == Some(v));
    assert(undo_records(s8, r, 8) == Some(v));
    assert(undo_records(s9, r, 9) == Some(v));
    assert(undo_records(s10, r, 10) == Some(v));
    assert(undo_records(s11, r, 11) == Some(v));
    assert(undo_records(s12, r, 12) == Some(v));
    assert(s12 == verso_registered(v));
}

} // verus!
