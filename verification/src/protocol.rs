//! The protocol registry: which URI schemes the browser handles itself, the scheme
//! it falls back to, and the MIME type a URI suggests.

use vstd::prelude::*;
use crate::table::Table;
use crate::text::{
    lower, lower_seq, has_char, has_prefix, first_index, before_seq, after_seq, trim_start_char_seq,
    before_char, after_char, strip_prefix, trim_start_char, find_char, owned, str_eq, starts_with, split_char, split_seq, last_index,
};

verus! {

#[derive(Debug, Clone, PartialEq, Eq)]
pub struct ProtocolResolution {
    pub scheme: String,
    pub matched_scheme: String,
    pub supported: bool,
    pub fallback_used: bool,
    pub inferred_mime_hint: Option<String>,
}

#[derive(Debug, Clone, Copy, PartialEq, Eq, Structural)]
pub struct ProtocolResolveControl {
    pub cancelled: bool,
}

impl ProtocolResolveControl {
    /// A control that has been cancelled.
    pub fn cancelled() -> (r: Self)
        ensures
            r.cancelled,
    {
        ProtocolResolveControl { cancelled: true }
    }
}

impl Default for ProtocolResolveControl {
    fn default() -> (r: Self)
        ensures
            !r.cancelled,
    {
        ProtocolResolveControl { cancelled: false }
    }
}

#[derive(Debug, Clone, PartialEq, Eq)]
pub enum ProtocolResolveOutcome {
    Resolved(ProtocolResolution),
    Cancelled,
}

/// The scheme of a URI: what comes before its first colon, lower-cased (empty
/// where there is no colon).
pub open spec fn scheme_spec(uri: Seq<char>) -> Seq<char> {
    if has_char(uri, ':') {
        lower_seq(uri.subrange(0, first_index(uri, ':')))
    } else {
        Seq::empty()
    }
}

/// The hint for an internal page: settings pages have their own type.
pub open spec fn internal_hint_spec(uri: Seq<char>, prefix: Seq<char>) -> Seq<char> {
    let rest = if has_prefix(uri, prefix) { uri.subrange(prefix.len() as int, uri.len() as int) } else { uri };
    let tail = lower_seq(rest);
    if tail == "settings"@ || has_prefix(tail, "settings/"@) {
        "application/x-graphshell-settings"@
    } else {
        "application/x-graphshell-internal"@
    }
}

/// The media type a `data:` URI declares (plain text where it declares none).
pub open spec fn data_hint_spec(uri: Seq<char>) -> Option<Seq<char>> {
    if !has_prefix(uri, "data:"@) {
        None
    } else {
        let rest = uri.subrange(5, uri.len() as int);
        if !has_char(rest, ',') {
            None
        } else {
            let metadata = before_seq(rest, ',');
            let media_type = before_seq(metadata, ';');
            if media_type.len() == 0 {
                Some("text/plain"@)
            } else {
                Some(lower_seq(media_type))
            }
        }
    }
}

/// The path part of a URI that the extension is read from: no fragment, no
/// query, no scheme, no leading slashes.
pub open spec fn guess_path_spec(uri: Seq<char>) -> Seq<char> {
    let no_query = before_seq(before_seq(uri, '#'), '?');
    let path = match after_seq(no_query, ':') {
        Some(tail) => tail,
        None => no_query,
    };
    trim_start_char_seq(path, '/')
}

/// The last path component that names something (not empty, not `.`).
pub open spec fn last_named(comps: Seq<Seq<char>>) -> Option<Seq<char>>
    decreases comps.len(),
{
    if comps.len() == 0 {
        None
    } else if comps.last().len() == 0 || comps.last() == seq!['.'] {
        last_named(comps.drop_last())
    } else {
        Some(comps.last())
    }
}

/// The file name of a `/`-separated path: its last named component, none
/// where that is `..`.
pub open spec fn file_name_spec(path: Seq<char>) -> Option<Seq<char>> {
    match last_named(split_seq(path, '/')) {
        Some(c) => if c == seq!['.', '.'] { None } else { Some(c) },
        None => None,
    }
}

/// The extension of a path: what follows the last `.` of its file name, none
/// where the name has no `.` or its only leading `.` starts it.
pub open spec fn extension_spec(path: Seq<char>) -> Option<Seq<char>> {
    match file_name_spec(path) {
        Some(name) => {
            let i = last_index(name, '.');
            if i <= 0 { None } else { Some(name.subrange(i + 1, name.len() as int)) }
        },
        None => None,
    }
}

/// The name for what `mime_guess::from_ext(ext).first_raw()` gives: the first
/// MIME type that the crate's table lists for the extension (compared without
/// regard to case).
pub uninterp spec fn ext_mime(ext: Seq<char>) -> Option<Seq<char>>;

/// Calls `mime_guess::from_ext(ext).first_raw()`; an empty extension has no
/// type (`MimeGuess::from_ext` returns an empty guess for it), otherwise the
/// result is only named.
#[verifier::external_body]
fn mime_for_extension(ext: &str) -> (r: Option<String>)
    ensures
        match r {
            Some(m) => ext_mime(ext@) == Some(m@),
            None => ext_mime(ext@) is None,
        },
        ext@.len() == 0 ==> r is None,
{
    mime_guess::from_ext(ext).first_raw().map(String::from)
}

/// What the extension of a path suggests (see `extension_spec`).
pub open spec fn guessed_mime(path: Seq<char>) -> Option<Seq<char>> {
    match extension_spec(path) {
        Some(e) => ext_mime(e),
        None => None,
    }
}

/// The extension of a path (see `extension_spec`).
pub fn path_extension(path: &str) -> (r: Option<String>)
    ensures
        match r {
            Some(e) => extension_spec(path@) == Some(e@),
            None => extension_spec(path@) is None,
        },
{
    let comps = split_char(path, '/');
    let ghost cs = comps@.map_values(|l: String| l@);
    let mut j: usize = comps.len();
    assert(cs.subrange(0, j as int) =~= cs);
    while j > 0 && (comps[j - 1].unicode_len() == 0 || str_eq(comps[j - 1].as_str(), "."))
        invariant
            j <= comps@.len(),
            cs == comps@.map_values(|l: String| l@),
            last_named(cs) == last_named(cs.subrange(0, j as int)),
        decreases j,
    {
        proof {
            reveal_strlit(".");
            assert("."@ =~= seq!['.']);
            assert(cs[j - 1] == comps@[j - 1]@);
            assert(cs.subrange(0, j as int).last() == cs[j - 1]);
            assert(cs.subrange(0, j - 1) =~= cs.subrange(0, j as int).drop_last());
        }
        j = j - 1;
    }
    proof {
        reveal_strlit(".");
    }
    if j == 0 {
        assert(cs.subrange(0, 0) =~= Seq::<Seq<char>>::empty());
        return None;
    }
    let name = &comps[j - 1];
    proof {
        reveal_strlit("..");
        assert(".."@ =~= seq!['.', '.']);
        assert("."@ =~= seq!['.']);
        assert(cs[j - 1] == comps@[j - 1]@);
        assert(cs.subrange(0, j as int).last() == name@);
    }
    if str_eq(name.as_str(), "..") {
        return None;
    }
    let n = name.unicode_len();
    let mut k: usize = n;
    while k > 0 && name.get_char(k - 1) != '.'
        invariant
            n == name@.len(),
            k <= n,
            forall|t: int| k <= t < n ==> #[trigger] name@[t] != '.',
        decreases k,
    {
        k = k - 1;
    }
    proof {
        crate::text::lemma_last_index(name@, '.', k as int);
        if k > 0 {
            assert(name@.subrange(0, k as int).last() == '.');
        } else {
            assert(name@.subrange(0, 0) =~= Seq::<char>::empty());
        }
    }
    if k <= 1 {
        return None;
    }
    Some(crate::text::slice(name.as_str(), k, n))
}

/// What a path's extension suggests.
fn guess_mime(path: &str) -> (r: Option<String>)
    ensures
        match r {
            Some(m) => guessed_mime(path@) == Some(m@),
            None => guessed_mime(path@) is None,
        },
{
    match path_extension(path) {
        Some(ext) => mime_for_extension(ext.as_str()),
        None => None,
    }
}

pub open spec fn lowered_guess_spec(guess: Option<Seq<char>>) -> Option<Seq<char>> {
    match guess {
        Some(m) => Some(lower_seq(m)),
        None => None,
    }
}

/// The hint taken from a guessed MIME type: the type, lower-cased.
pub fn lowered_guess(guess: Option<String>) -> (r: Option<String>)
    ensures
        match guess {
            Some(m) => r matches Some(h) && h@ == lower_seq(m@),
            None => r is None,
        },
{
    match guess {
        Some(m) => Some(lower(m.as_str())),
        None => None,
    }
}

/// The MIME type a URI suggests, given its scheme.
pub open spec fn infer_mime_hint_spec(uri: Seq<char>, scheme: Seq<char>) -> Option<Seq<char>> {
    if scheme == "graphshell"@ {
        Some(internal_hint_spec(uri, "graphshell://"@))
    } else if scheme == "verso"@ {
        Some(internal_hint_spec(uri, "verso://"@))
    } else if scheme == "data"@ {
        data_hint_spec(uri)
    } else {
        let path = guess_path_spec(uri);
        if path.len() == 0 {
            None
        } else {
            lowered_guess_spec(guessed_mime(path))
        }
    }
}

fn internal_hint(uri: &str, prefix: &str) -> (r: String)
    ensures
        r@ == internal_hint_spec(uri@, prefix@),
{
    let rest = match strip_prefix(uri, prefix) {
        Some(t) => t,
        None => owned(uri),
    };
    let tail = lower(rest.as_str());
    if str_eq(tail.as_str(), "settings") || starts_with(tail.as_str(), "settings/") {
        owned("application/x-graphshell-settings")
    } else {
        owned("application/x-graphshell-internal")
    }
}

fn data_hint(uri: &str) -> (r: Option<String>)
    ensures
        match r {
            Some(h) => data_hint_spec(uri@) == Some(h@),
            None => data_hint_spec(uri@) is None,
        },
{
    proof {
        reveal_strlit("data:");
    }
    let rest = match strip_prefix(uri, "data:") {
        Some(t) => t,
        None => {
            return None;
        },
    };
    if find_char(rest.as_str(), ',').is_none() {
        return None;
    }
    let metadata = before_char(rest.as_str(), ',');
    let media_type = before_char(metadata.as_str(), ';');
    if media_type.unicode_len() == 0 {
        Some(owned("text/plain"))
    } else {
        Some(lower(media_type.as_str()))
    }
}

fn infer_mime_hint(uri: &str, scheme: &str) -> (r: Option<String>)
    ensures
        match r {
            Some(h) => infer_mime_hint_spec(uri@, scheme@) == Some(h@),
            None => infer_mime_hint_spec(uri@, scheme@) is None,
        },
{
    if str_eq(scheme, "graphshell") {
        return Some(internal_hint(uri, "graphshell://"));
    }
    if str_eq(scheme, "verso") {
        return Some(internal_hint(uri, "verso://"));
    }
    if str_eq(scheme, "data") {
        return data_hint(uri);
    }
    let no_fragment = before_char(uri, '#');
    let no_query = before_char(no_fragment.as_str(), '?');
    let path = match after_char(no_query.as_str(), ':') {
        Some(tail) => tail,
        None => no_query,
    };
    let trimmed = trim_start_char(path.as_str(), '/');
    if trimmed.unicode_len() == 0 {
        return None;
    }
    lowered_guess(guess_mime(trimmed.as_str()))
}

/// The scheme of `uri`.
pub fn uri_scheme(uri: &str) -> (r: String)
    ensures
        r@ == scheme_spec(uri@),
{
    match find_char(uri, ':') {
        Some(i) => {
            let head = crate::text::slice(uri, 0, i);
            lower(head.as_str())
        },
        None => String::new(),
    }
}

pub struct ProtocolRegistry {
    schemes: Table<()>,
    fallback_scheme: String,
}

impl ProtocolRegistry {
    /// The schemes handled, lower-cased.
    pub closed spec fn schemes(&self) -> Set<Seq<char>> {
        self.schemes@.dom()
    }

    /// The scheme that unknown schemes fall back to.
    pub closed spec fn fallback(&self) -> Seq<char> {
        self.fallback_scheme@
    }

    pub fn new(fallback_scheme: &str) -> (r: Self)
        ensures
            r.schemes() == Set::<Seq<char>>::empty(),
            r.fallback() == fallback_scheme@,
    {
        ProtocolRegistry { schemes: Table::new(), fallback_scheme: owned(fallback_scheme) }
    }

    pub fn register_scheme(&mut self, scheme: &str)
        ensures
            final(self).schemes() == old(self).schemes().insert(lower_seq(scheme@)),
            final(self).fallback() == old(self).fallback(),
    {
        let normalized = lower(scheme);
        self.schemes.insert(normalized, ());
    }

    pub fn unregister_scheme(&mut self, scheme: &str)
        ensures
            final(self).schemes() == old(self).schemes().remove(lower_seq(scheme@)),
            final(self).fallback() == old(self).fallback(),
    {
        let normalized = lower(scheme);
        self.schemes.remove(normalized.as_str());
    }

    pub fn has_scheme(&self, scheme: &str) -> (r: bool)
        ensures
            r == self.schemes().contains(lower_seq(scheme@)),
    {
        let normalized = lower(scheme);
        self.schemes.contains(normalized.as_str())
    }

    /// Resolves the scheme of `uri`: a handled scheme matches itself, any other
    /// falls back.
    pub fn resolve(&self, uri: &str) -> (r: ProtocolResolution)
        ensures
            resolution_spec(self.schemes(), self.fallback(), uri@, r),
    {
        let scheme = uri_scheme(uri);
        let inferred_mime_hint = infer_mime_hint(uri, scheme.as_str());
        if self.schemes.contains(scheme.as_str()) {
            let matched_scheme = scheme.clone();
            return ProtocolResolution { scheme, matched_scheme, supported: true, fallback_used: false, inferred_mime_hint };
        }
        ProtocolResolution {
            scheme,
            matched_scheme: self.fallback_scheme.clone(),
            supported: false,
            fallback_used: true,
            inferred_mime_hint,
        }
    }

    /// `resolve`, unless the control was cancelled first.
    pub fn resolve_with_control(&self, uri: &str, control: ProtocolResolveControl) -> (r: ProtocolResolveOutcome)
        ensures
            control.cancelled ==> r is Cancelled,
            !control.cancelled ==> (r matches ProtocolResolveOutcome::Resolved(res)
                && resolution_spec(self.schemes(), self.fallback(), uri@, res)),
    {
        if control.cancelled {
            return ProtocolResolveOutcome::Cancelled;
        }
        ProtocolResolveOutcome::Resolved(self.resolve(uri))
    }
}

/// What resolving `uri` against the handled `schemes` gives.
pub open spec fn resolution_spec(schemes: Set<Seq<char>>, fallback: Seq<char>, uri: Seq<char>, r: ProtocolResolution) -> bool {
    let scheme = scheme_spec(uri);
    let supported = schemes.contains(scheme);
    &&& r.scheme@ == scheme
    &&& r.supported == supported
    &&& r.fallback_used == !supported
    &&& r.matched_scheme@ == (if supported { scheme } else { fallback })
    &&& match r.inferred_mime_hint {
        Some(h) => infer_mime_hint_spec(uri, scheme) == Some(h@),
        None => infer_mime_hint_spec(uri, scheme) is None,
    }
}

/// The schemes handled from the start.
pub open spec fn default_schemes() -> Set<Seq<char>> {
    set![
        lower_seq("http"@),
        lower_seq("https"@),
        lower_seq("file"@),
        lower_seq("about"@),
        lower_seq("resource"@),
        lower_seq("data"@),
        lower_seq("graphshell"@),
        lower_seq("verso"@),
    ]
}

impl Default for ProtocolRegistry {
    fn default() -> (r: Self)
        ensures
            r.schemes() == default_schemes(),
            r.fallback() == "https"@,
    {
        let mut registry = ProtocolRegistry::new("https");
        registry.register_scheme("http");
        registry.register_scheme("https");
        registry.register_scheme("file");
        registry.register_scheme("about");
        registry.register_scheme("resource");
        registry.register_scheme("data");
        registry.register_scheme("graphshell");
        registry.register_scheme("verso");
        assert(registry.schemes() =~= default_schemes());
        registry
    }
}

} // verus!
