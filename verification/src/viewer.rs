//! The viewer registry: which viewer renders a URI, chosen by internal address,
//! then by MIME type, then by file extension, with the web view as fallback.

use vstd::prelude::*;
use crate::table::Table;
use crate::text::{
    lower, lower_seq, has_char, has_prefix, before_seq, after_last_seq, before_char, after_last_char,
    find_char, owned, starts_with, str_eq, first_index, lemma_first_index, lower_char,
};

verus! {

pub const VIEWER_WEBVIEW: &'static str = "viewer:webview";
pub const VIEWER_SETTINGS: &'static str = "viewer:settings";

/// The viewer ids the runtime knows by name.
pub open spec fn static_viewer(id: Seq<char>) -> bool {
    ||| id == "viewer:webview"@
    ||| id == "viewer:wry"@
    ||| id == "viewer:plaintext"@
    ||| id == "viewer:markdown"@
    ||| id == "viewer:image"@
    ||| id == "viewer:directory"@
    ||| id == "viewer:pdf"@
    ||| id == "viewer:csv"@
    ||| id == "viewer:settings"@
    ||| id == "viewer:metadata"@
    ||| id == "viewer:fallback"@
}

/// The known viewer id equal to `viewer_id`, where there is one.
pub fn static_viewer_id(viewer_id: &str) -> (r: Option<&'static str>)
    ensures
        r is Some <==> static_viewer(viewer_id@),
        r matches Some(id) ==> id@ == viewer_id@,
{
    if str_eq(viewer_id, "viewer:webview") {
        Some("viewer:webview")
    } else if str_eq(viewer_id, "viewer:wry") {
        Some("viewer:wry")
    } else if str_eq(viewer_id, "viewer:plaintext") {
        Some("viewer:plaintext")
    } else if str_eq(viewer_id, "viewer:markdown") {
        Some("viewer:markdown")
    } else if str_eq(viewer_id, "viewer:image") {
        Some("viewer:image")
    } else if str_eq(viewer_id, "viewer:directory") {
        Some("viewer:directory")
    } else if str_eq(viewer_id, "viewer:pdf") {
        Some("viewer:pdf")
    } else if str_eq(viewer_id, "viewer:csv") {
        Some("viewer:csv")
    } else if str_eq(viewer_id, "viewer:settings") {
        Some("viewer:settings")
    } else if str_eq(viewer_id, "viewer:metadata") {
        Some("viewer:metadata")
    } else if str_eq(viewer_id, "viewer:fallback") {
        Some("viewer:fallback")
    } else {
        None
    }
}

/// How well a viewer supports a subsystem.
#[derive(Debug, Clone, Copy, PartialEq, Eq, Structural)]
pub enum CapabilityLevel {
    Full,
    Partial,
    Unsupported,
}

/// What a viewer supports of accessibility, security, storage and history.
#[derive(Debug, Clone, Copy, PartialEq, Eq, Structural)]
pub struct ViewerCapabilities {
    pub accessibility: CapabilityLevel,
    pub security: CapabilityLevel,
    pub storage: CapabilityLevel,
    pub history: CapabilityLevel,
}

/// The capabilities assumed of a viewer that declared none.
pub open spec fn default_capabilities() -> ViewerCapabilities {
    ViewerCapabilities {
        accessibility: CapabilityLevel::Partial,
        security: CapabilityLevel::Full,
        storage: CapabilityLevel::Partial,
        history: CapabilityLevel::Partial,
    }
}

/// The viewer chosen for a URI and how it was chosen.
#[derive(Debug, Clone, PartialEq, Eq)]
pub struct ViewerSelection {
    pub viewer_id: String,
    pub matched_by: String,
    pub fallback_used: bool,
}

/// Whether a URI is an internal settings address.
pub open spec fn internal_settings_spec(uri: Seq<char>) -> bool {
    let u = lower_seq(uri);
    has_prefix(u, "verso://settings"@) || has_prefix(u, "graphshell://settings"@)
}

/// The file extension of a URI's last path segment, lower-cased.
pub open spec fn extension_spec(uri: Seq<char>) -> Option<Seq<char>> {
    let path = before_seq(before_seq(uri, '#'), '?');
    let name = after_last_seq(path, '/');
    if has_char(name, '.') {
        Some(lower_seq(after_last_seq(name, '.')))
    } else {
        None
    }
}

/// What selecting a viewer for `uri` gives, over the registered tables.
pub open spec fn selection_spec(
    mimes: Map<Seq<char>, Seq<char>>,
    extensions: Map<Seq<char>, Seq<char>>,
    uri: Seq<char>,
    mime_hint: Option<Seq<char>>,
) -> (Seq<char>, Seq<char>, bool) {
    if internal_settings_spec(uri) {
        ("viewer:settings"@, "internal"@, false)
    } else if mime_hint is Some && mimes.dom().contains(lower_seq(mime_hint->0)) {
        (mimes[lower_seq(mime_hint->0)], "mime"@, false)
    } else if extension_spec(uri) is Some && extensions.dom().contains(extension_spec(uri)->0) {
        (extensions[extension_spec(uri)->0], "extension"@, false)
    } else {
        ("viewer:webview"@, "fallback"@, true)
    }
}

fn uri_extension(uri: &str) -> (r: Option<String>)
    ensures
        match r {
            Some(e) => extension_spec(uri@) == Some(e@) && lower_seq(e@) == e@,
            None => extension_spec(uri@) is None,
        },
{
    let no_fragment = before_char(uri, '#');
    let path = before_char(no_fragment.as_str(), '?');
    let name = after_last_char(path.as_str(), '/');
    match find_char(name.as_str(), '.') {
        Some(_) => {
            let ext = after_last_char(name.as_str(), '.');
            proof {
                lemma_lower_idempotent(ext@);
            }
            Some(lower(ext.as_str()))
        },
        None => None,
    }
}

pub struct ViewerRegistry {
    mimes: Table<String>,
    extensions: Table<String>,
    capabilities: Table<ViewerCapabilities>,
}

fn take_string(v: Option<String>) -> (r: Option<String>)
    ensures
        r == v,
{
    v
}

fn copy_string(v: Option<&String>) -> (r: Option<String>)
    ensures
        match v {
            Some(s) => r matches Some(t) && t@ == s@,
            None => r is None,
        },
{
    match v {
        Some(s) => Some(s.clone()),
        None => None,
    }
}

/// The viewer ids of a table, as values.
pub open spec fn id_map(m: Map<Seq<char>, String>) -> Map<Seq<char>, Seq<char>> {
    Map::new(|k: Seq<char>| m.dom().contains(k), |k: Seq<char>| m[k]@)
}

impl ViewerRegistry {
    /// MIME type (lower-cased) to viewer id.
    pub closed spec fn mime_map(&self) -> Map<Seq<char>, Seq<char>> {
        id_map(self.mimes@)
    }

    /// File extension (lower-cased) to viewer id.
    pub closed spec fn extension_map(&self) -> Map<Seq<char>, Seq<char>> {
        id_map(self.extensions@)
    }

    /// Viewer id to the capabilities it declared.
    pub closed spec fn capability_map(&self) -> Map<Seq<char>, ViewerCapabilities> {
        self.capabilities@
    }

    pub fn new() -> (r: Self)
        ensures
            r.mime_map() == Map::<Seq<char>, Seq<char>>::empty(),
            r.extension_map() == Map::<Seq<char>, Seq<char>>::empty(),
            r.capability_map() == Map::<Seq<char>, ViewerCapabilities>::empty(),
    {
        let r = ViewerRegistry { mimes: Table::new(), extensions: Table::new(), capabilities: Table::new() };
        assert(r.mime_map() =~= Map::<Seq<char>, Seq<char>>::empty());
        assert(r.extension_map() =~= Map::<Seq<char>, Seq<char>>::empty());
        r
    }

    /// Maps a MIME type to a viewer; hands back the viewer it replaces.
    pub fn register_mime(&mut self, mime: &str, viewer_id: &str) -> (r: Option<String>)
        ensures
            final(self).mime_map() == old(self).mime_map().insert(lower_seq(mime@), viewer_id@),
            final(self).extension_map() == old(self).extension_map(),
            final(self).capability_map() == old(self).capability_map(),
            match r {
                Some(p) => old(self).mime_map().dom().contains(lower_seq(mime@)) && old(self).mime_map()[lower_seq(mime@)] == p@,
                None => !old(self).mime_map().dom().contains(lower_seq(mime@)),
            },
    {
        let previous = self.mimes.insert(lower(mime), owned(viewer_id));
        assert(self.mime_map() =~= old(self).mime_map().insert(lower_seq(mime@), viewer_id@));
        take_string(previous)
    }

    pub fn unregister_mime(&mut self, mime: &str) -> (r: bool)
        ensures
            final(self).mime_map() == old(self).mime_map().remove(lower_seq(mime@)),
            final(self).extension_map() == old(self).extension_map(),
            final(self).capability_map() == old(self).capability_map(),
            r == old(self).mime_map().dom().contains(lower_seq(mime@)),
    {
        let key = lower(mime);
        let removed = self.mimes.remove(key.as_str());
        assert(self.mime_map() =~= old(self).mime_map().remove(lower_seq(mime@)));
        removed.is_some()
    }

    /// Maps a file extension to a viewer; hands back the viewer it replaces.
    pub fn register_extension(&mut self, extension: &str, viewer_id: &str) -> (r: Option<String>)
        ensures
            final(self).extension_map() == old(self).extension_map().insert(lower_seq(extension@), viewer_id@),
            final(self).mime_map() == old(self).mime_map(),
            final(self).capability_map() == old(self).capability_map(),
            match r {
                Some(p) => old(self).extension_map().dom().contains(lower_seq(extension@))
                    && old(self).extension_map()[lower_seq(extension@)] == p@,
                None => !old(self).extension_map().dom().contains(lower_seq(extension@)),
            },
    {
        let previous = self.extensions.insert(lower(extension), owned(viewer_id));
        assert(self.extension_map() =~= old(self).extension_map().insert(lower_seq(extension@), viewer_id@));
        take_string(previous)
    }

    pub fn unregister_extension(&mut self, extension: &str) -> (r: bool)
        ensures
            final(self).extension_map() == old(self).extension_map().remove(lower_seq(extension@)),
            final(self).mime_map() == old(self).mime_map(),
            final(self).capability_map() == old(self).capability_map(),
            r == old(self).extension_map().dom().contains(lower_seq(extension@)),
    {
        let key = lower(extension);
        let removed = self.extensions.remove(key.as_str());
        assert(self.extension_map() =~= old(self).extension_map().remove(lower_seq(extension@)));
        removed.is_some()
    }

    /// Declares a viewer's capabilities; hands back those it replaces.
    pub fn register_capabilities(&mut self, viewer_id: &str, capabilities: ViewerCapabilities) -> (r: Option<ViewerCapabilities>)
        ensures
            final(self).capability_map() == old(self).capability_map().insert(viewer_id@, capabilities),
            final(self).mime_map() == old(self).mime_map(),
            final(self).extension_map() == old(self).extension_map(),
            match r {
                Some(p) => old(self).capability_map().dom().contains(viewer_id@) && old(self).capability_map()[viewer_id@] == p,
                None => !old(self).capability_map().dom().contains(viewer_id@),
            },
    {
        self.capabilities.insert(owned(viewer_id), capabilities)
    }

    pub fn unregister_capabilities(&mut self, viewer_id: &str) -> (r: bool)
        ensures
            final(self).capability_map() == old(self).capability_map().remove(viewer_id@),
            final(self).mime_map() == old(self).mime_map(),
            final(self).extension_map() == old(self).extension_map(),
            r == old(self).capability_map().dom().contains(viewer_id@),
    {
        self.capabilities.remove(viewer_id).is_some()
    }

    /// The capabilities of a viewer: those it declared, or the defaults.
    pub fn capabilities_for(&self, viewer_id: &str) -> (r: ViewerCapabilities)
        ensures
            r == (if self.capability_map().dom().contains(viewer_id@) {
                self.capability_map()[viewer_id@]
            } else {
                default_capabilities()
            }),
    {
        match self.capabilities.get(viewer_id) {
            Some(c) => *c,
            None => ViewerCapabilities {
                accessibility: CapabilityLevel::Partial,
                security: CapabilityLevel::Full,
                storage: CapabilityLevel::Partial,
                history: CapabilityLevel::Partial,
            },
        }
    }

    pub fn mime_viewer(&self, mime: &str) -> (r: Option<String>)
        ensures
            match r {
                Some(v) => self.mime_map().dom().contains(lower_seq(mime@)) && self.mime_map()[lower_seq(mime@)] == v@,
                None => !self.mime_map().dom().contains(lower_seq(mime@)),
            },
    {
        let key = lower(mime);
        copy_string(self.mimes.get(key.as_str()))
    }

    pub fn extension_viewer(&self, extension: &str) -> (r: Option<String>)
        ensures
            match r {
                Some(v) => self.extension_map().dom().contains(lower_seq(extension@))
                    && self.extension_map()[lower_seq(extension@)] == v@,
                None => !self.extension_map().dom().contains(lower_seq(extension@)),
            },
    {
        let key = lower(extension);
        copy_string(self.extensions.get(key.as_str()))
    }

    /// Chooses the viewer for `uri`: internal settings pages first, then the MIME
    /// hint, then the extension, then the web view.
    pub fn select_for_uri(&self, uri: &str, mime_hint: Option<&str>) -> (r: ViewerSelection)
        ensures
            (r.viewer_id@, r.matched_by@, r.fallback_used) == selection_spec(
                self.mime_map(),
                self.extension_map(),
                uri@,
                match mime_hint { Some(m) => Some(m@), None => None },
            ),
    {
        proof {
            reveal_strlit("verso://settings");
            reveal_strlit("graphshell://settings");
        }
        let lowered = lower(uri);
        if starts_with(lowered.as_str(), "verso://settings") || starts_with(lowered.as_str(), "graphshell://settings") {
            return ViewerSelection { viewer_id: owned("viewer:settings"), matched_by: owned("internal"), fallback_used: false };
        }
        if let Some(mime) = mime_hint {
            if let Some(v) = self.mime_viewer(mime) {
                return ViewerSelection { viewer_id: v, matched_by: owned("mime"), fallback_used: false };
            }
        }
        if let Some(ext) = uri_extension(uri) {
            if let Some(v) = self.extension_viewer(ext.as_str()) {
                return ViewerSelection { viewer_id: v, matched_by: owned("extension"), fallback_used: false };
            }
        }
        ViewerSelection { viewer_id: owned("viewer:webview"), matched_by: owned("fallback"), fallback_used: true }
    }
}

pub proof fn lemma_lower_idempotent(s: Seq<char>)
    ensures
        lower_seq(lower_seq(s)) == lower_seq(s),
{
    assert(lower_seq(lower_seq(s)) =~= lower_seq(s));
}

/// The mappings a fresh viewer registry starts with.
pub open spec fn default_mimes() -> Map<Seq<char>, Seq<char>> {
    map![
        lower_seq("text/csv"@) => "viewer:csv"@,
        lower_seq("text/markdown"@) => "viewer:markdown"@,
        lower_seq("text/plain"@) => "viewer:plaintext"@,
        lower_seq("image/png"@) => "viewer:image"@,
        lower_seq("image/jpeg"@) => "viewer:image"@,
        lower_seq("image/gif"@) => "viewer:image"@,
        lower_seq("inode/directory"@) => "viewer:directory"@,
    ]
}

pub open spec fn default_extensions() -> Map<Seq<char>, Seq<char>> {
    map![
        lower_seq("csv"@) => "viewer:csv"@,
        lower_seq("md"@) => "viewer:markdown"@,
        lower_seq("markdown"@) => "viewer:markdown"@,
        lower_seq("txt"@) => "viewer:plaintext"@,
        lower_seq("png"@) => "viewer:image"@,
        lower_seq("jpg"@) => "viewer:image"@,
        lower_seq("jpeg"@) => "viewer:image"@,
        lower_seq("gif"@) => "viewer:image"@,
    ]
}

impl Default for ViewerRegistry {
    fn default() -> (r: Self)
        ensures
            r.mime_map() == default_mimes(),
            r.extension_map() == default_extensions(),
            r.capability_map() == Map::<Seq<char>, ViewerCapabilities>::empty(),
    {
        let mut r = ViewerRegistry::new();
        r.register_mime("text/csv", "viewer:csv");
        r.register_mime("text/markdown", "viewer:markdown");
        r.register_mime("text/plain", "viewer:plaintext");
        r.register_mime("image/png", "viewer:image");
        r.register_mime("image/jpeg", "viewer:image");
        r.register_mime("image/gif", "viewer:image");
        r.register_mime("inode/directory", "viewer:directory");
        r.register_extension("csv", "viewer:csv");
        r.register_extension("md", "viewer:markdown");
        r.register_extension("markdown", "viewer:markdown");
        r.register_extension("txt", "viewer:plaintext");
        r.register_extension("png", "viewer:image");
        r.register_extension("jpg", "viewer:image");
        r.register_extension("jpeg", "viewer:image");
        r.register_extension("gif", "viewer:image");
        r
    }
}

proof fn lemma_first_index_found(w: Seq<char>, c: char)
    requires
        has_char(w, c),
    ensures
        0 <= first_index(w, c) < w.len(),
        w[first_index(w, c)] == c,
    decreases w.len(),
{
    if w[0] != c {
        let i = choose|i: int| 0 <= i < w.len() && w[i] == c;
        assert(w.drop_first()[i - 1] == c);
        lemma_first_index_found(w.drop_first(), c);
    }
}

proof fn lemma_before_concat(u: Seq<char>, w: Seq<char>, c: char)
    requires
        !has_char(u, c),
    ensures
        before_seq(u + w, c) == u + before_seq(w, c),
{
    let s = u + w;
    assert forall|k: int| 0 <= k < u.len() implies #[trigger] s[k] != c by {
        assert(s[k] == u[k]);
        if u[k] == c {
            assert(has_char(u, c));
        }
    }
    lemma_first_index(s, c, u.len() as int);
    assert(s.subrange(u.len() as int, s.len() as int) =~= w);
    if has_char(w, c) {
        let i = choose|i: int| 0 <= i < w.len() && w[i] == c;
        assert(s[u.len() + i] == c);
        assert(has_char(s, c));
        let f = first_index(w, c);
        lemma_first_index_found(w, c);
        assert(s.subrange(0, u.len() + f) =~= u + w.subrange(0, f));
    } else {
        if has_char(s, c) {
            let i = choose|i: int| 0 <= i < s.len() && s[i] == c;
            if i >= u.len() {
                assert(w[i - u.len()] == c);
            }
        }
    }
}

proof fn lemma_before_head(w: Seq<char>, c: char)
    requires
        w.len() > 0,
        w[0] == c,
    ensures
        before_seq(w, c) == Seq::<char>::empty(),
{
    assert(has_char(w, c));
    assert(first_index(w, c) == 0);
    assert(w.subrange(0, 0) =~= Seq::<char>::empty());
}

proof fn lemma_prefix_stable(a: Seq<char>, w: Seq<char>, p: Seq<char>)
    requires
        w.len() > 0,
        forall|k: int| 0 <= k < p.len() ==> p[k] != w[0],
    ensures
        has_prefix(a + w, p) == has_prefix(a, p),
{
    let s = a + w;
    if p.len() <= a.len() {
        assert(s.subrange(0, p.len() as int) =~= a.subrange(0, p.len() as int));
    } else if p.len() <= s.len() {
        assert(s.subrange(0, p.len() as int)[a.len() as int] == w[0]);
        assert(s.subrange(0, p.len() as int) != p);
    }
}

proof fn lemma_settings_stable(u: Seq<char>, w: Seq<char>)
    requires
        w.len() > 0,
        w[0] == '?' || w[0] == '#',
    ensures
        internal_settings_spec(u + w) == internal_settings_spec(u),
{
    reveal_strlit("verso://settings");
    reveal_strlit("graphshell://settings");
    assert(lower_seq(u + w) =~= lower_seq(u) + lower_seq(w));
    assert(lower_seq(w)[0] == lower_char(w[0]));
    lemma_prefix_stable(lower_seq(u), lower_seq(w), "verso://settings"@);
    lemma_prefix_stable(lower_seq(u), lower_seq(w), "graphshell://settings"@);
}

/// The viewer chosen for a URI does not depend on its query or its fragment:
/// for a URI without `?` or `#`, appending `?` and any query, or `#` and any
/// fragment, selects the same viewer the same way, whatever the MIME hint.
pub proof fn law_selection_ignores_query_and_fragment(
    mimes: Map<Seq<char>, Seq<char>>,
    extensions: Map<Seq<char>, Seq<char>>,
    u: Seq<char>,
    tail: Seq<char>,
    mime_hint: Option<Seq<char>>,
)
    requires
        !has_char(u, '?'),
        !has_char(u, '#'),
    ensures
        extension_spec(u + seq!['?'] + tail) == extension_spec(u),
        extension_spec(u + seq!['#'] + tail) == extension_spec(u),
        selection_spec(mimes, extensions, u + seq!['?'] + tail, mime_hint) == selection_spec(mimes, extensions, u, mime_hint),
        selection_spec(mimes, extensions, u + seq!['#'] + tail, mime_hint) == selection_spec(mimes, extensions, u, mime_hint),
{
    let wq = seq!['?'] + tail;
    let wh = seq!['#'] + tail;
    assert(u + seq!['?'] + tail =~= u + wq);
    assert(u + seq!['#'] + tail =~= u + wh);
    // The path of `u` itself is `u`.
    assert(before_seq(u, '#') == u);
    assert(before_seq(u, '?') == u);
    // Query: cut at `#` keeps `?` first after `u`, then cut at `?` leaves `u`.
    lemma_before_concat(u, wq, '#');
    assert(!has_char(seq!['?'], '#')) by {
        if has_char(seq!['?'], '#') {
            let i = choose|i: int| 0 <= i < 1 && seq!['?'][i] == '#';
        }
    }
    lemma_before_concat(seq!['?'], tail, '#');
    assert(seq!['?'] + tail =~= wq);
    let q2 = seq!['?'] + before_seq(tail, '#');
    lemma_before_concat(u, q2, '?');
    lemma_before_head(q2, '?');
    assert(u + Seq::<char>::empty() =~= u);
    // Fragment: cut at `#` leaves `u`.
    lemma_before_concat(u, wh, '#');
    lemma_before_head(wh, '#');
    lemma_settings_stable(u, wq);
    lemma_settings_stable(u, wh);
}

} // verus!
