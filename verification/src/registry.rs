//! What the registry serves, and the errors of working with it.

use vstd::prelude::*;
use vstd::string::StrSliceExecFns;
use crate::chars;
use crate::string_map::{lookup, StringMap};
use crate::text;
use crate::types::{option_view, Component, Registry};

verus! {

/// What can go wrong between the registry and an installed file.
#[derive(Clone, Debug, PartialEq, Eq)]
pub enum RegistryError {
    /// The registry could not be reached and no cached copy stood in.
    Network(String),
    /// The registry manifest is not a valid document.
    Parse(String),
    /// The registry holds no component, or no file, of that name.
    ComponentNotFound(String),
    /// The asset of that name could not be decoded; with the reason.
    Decode(String, String),
    /// The asset of that name is not a valid document; with the reason.
    AssetParse(String, String),
}

/// The name, version and description of a registry.
#[derive(Clone, Debug)]
pub struct RegistrySummary {
    pub name: String,
    pub version: String,
    pub description: Option<String>,
}

/// A component together with the slug under which the registry keeps it.
#[derive(Clone, Debug)]
pub struct RegistryComponent {
    pub slug: String,
    pub component: Component,
}

/// The registry that is asked where no other is named.
pub const DEFAULT_BASE_URL: &'static str = "https://www.nocta-ui.com/registry";

/// The place of the registry manifest in the cache.
pub const CACHE_PATH: &'static str = "registry/registry.json";

/// The file name of the registry manifest.
pub const REGISTRY_MANIFEST: &'static str = "registry.json";

/// The path of the manifest of component files.
pub const COMPONENTS_MANIFEST: &'static str = "components.json";

/// The path of the style sheet that the registry serves.
pub const CSS_BUNDLE_PATH: &'static str = "css/index.css";

/// The variable that sets how long the registry manifest stays fresh.
pub const CACHE_TTL_ENV: &'static str = "NOCTA_CACHE_TTL_MS";

/// The variable that sets how long an asset stays fresh.
pub const ASSET_CACHE_TTL_ENV: &'static str = "NOCTA_ASSET_CACHE_TTL_MS";

/// The CRC-32 checksum of `bytes`, as `crc32fast::hash` computes it.
pub uninterp spec fn crc32(bytes: Seq<u8>) -> u32;

/// The bytes that the standard base64 text `encoded` stands for, as the
/// `decode` of `base64::engine::general_purpose::STANDARD` gives them, or
/// the text of the error with which it refuses `encoded`.
pub uninterp spec fn base64_decoded(encoded: Seq<char>) -> Result<Seq<u8>, Seq<char>>;

/// The text with which `String::from_utf8` refuses bytes that are not
/// valid UTF-8.
pub uninterp spec fn utf8_error_text(bytes: Seq<u8>) -> Seq<char>;

/// Calls `crc32fast::hash`. Trusted: the result is the named `crc32` of
/// the bytes.
#[verifier::external_body]
fn checksum(bytes: &Vec<u8>) -> (r: u32)
    ensures
        r == crc32(bytes@),
{
    crc32fast::hash(bytes.as_slice())
}

/// Calls `decode` of `base64::engine::general_purpose::STANDARD` and
/// renders an error with its `Display` impl. Trusted: the result is the
/// named `base64_decoded` of the text.
#[verifier::external_body]
fn decode_base64(encoded: &str) -> (r: Result<Vec<u8>, String>)
    ensures
        (match r {
            Ok(bytes) => Ok(bytes@),
            Err(reason) => Err(reason@),
        }) == base64_decoded(encoded@),
{
    match base64::Engine::decode(&base64::engine::general_purpose::STANDARD, encoded) {
        Ok(bytes) => Ok(bytes),
        Err(error) => Err(error.to_string()),
    }
}

/// Calls `String::from_utf8` and renders an error with its `Display` impl.
/// Trusted: valid UTF-8, and nothing else, gives the text that the bytes
/// encode; an error gives the named `utf8_error_text`.
#[verifier::external_body]
fn text_from_utf8(bytes: Vec<u8>) -> (r: Result<String, String>)
    ensures
        r is Ok == vstd::utf8::valid_utf8(bytes@),
        r matches Ok(text) ==> text@ == vstd::utf8::decode_utf8(bytes@),
        r matches Err(reason) ==> reason@ == utf8_error_text(bytes@),
{
    match String::from_utf8(bytes) {
        Ok(text) => Ok(text),
        Err(error) => Err(error.to_string()),
    }
}

/// The character that writes a number below sixteen in base sixteen.
pub open spec fn hex_char(d: nat) -> char {
    if d < 10 {
        ((d + 48) as u8) as char
    } else {
        ((d + 87) as u8) as char
    }
}

/// The last `width` digits of `n` in base sixteen, in lower case.
pub open spec fn hex_digits(n: nat, width: nat) -> Seq<char>
    decreases width,
{
    if width == 0 {
        seq![]
    } else {
        hex_digits(n / 16, (width - 1) as nat).push(hex_char(n % 16))
    }
}

/// The last `width` digits of `n` in base sixteen.
fn hex(n: u32, width: usize) -> (r: Vec<char>)
    ensures
        r@ == hex_digits(n as nat, width as nat),
    decreases width,
{
    if width == 0 {
        return Vec::new();
    }
    let mut digits = hex(n / 16, width - 1);
    let d: u8 = (n % 16) as u8;
    let c = if d < 10 {
        (d + 48) as char
    } else {
        (d + 87) as char
    };
    digits.push(c);
    digits
}

/// The part of the cache that belongs to a registry: named after the
/// checksum of its address, so that two registries never share entries.
pub open spec fn cache_namespace(base_url: Seq<char>) -> Seq<char> {
    "registry/"@ + hex_digits(crc32(vstd::utf8::encode_utf8(text::trim(base_url))) as nat, 8)
}

/// The part of the cache that is named after the checksum `sum`: the
/// checksum in eight digits of base sixteen, below `registry`.
pub fn namespace_of_checksum(sum: u32) -> (r: String)
    ensures
        r@ == "registry/"@ + hex_digits(sum as nat, 8),
{
    let mut name = chars::chars_of("registry/");
    chars::append(&mut name, &hex(sum, 8));
    chars::string_of(&name)
}

/// The part of the cache that belongs to the registry at `base_url`.
pub fn cache_namespace_for(base_url: &str) -> (r: String)
    ensures
        r@ == cache_namespace(base_url@),
{
    let trimmed = chars::string_of(&chars::trim(&chars::chars_of(base_url)));
    namespace_of_checksum(checksum(&trimmed.as_str().as_bytes_vec()))
}

/// `rel_path` inside the namespace.
pub open spec fn namespaced(namespace: Seq<char>, rel_path: Seq<char>) -> Seq<char> {
    namespace + "/"@ + text::trim_start_pat(rel_path, "/"@)
}

/// The cache path of `rel_path` inside the namespace.
pub fn namespaced_path(namespace: &str, rel_path: &str) -> (r: String)
    ensures
        r@ == namespaced(namespace@, rel_path@),
{
    let slash = chars::chars_of("/");
    let mut all = chars::chars_of(namespace);
    chars::append(&mut all, &slash);
    chars::append(&mut all, &chars::trim_start_pat(&chars::chars_of(rel_path), &slash));
    chars::string_of(&all)
}

/// The address of `asset` at the registry: the registry's address without
/// trailing slashes, a slash, and the asset's path without leading ones.
pub open spec fn asset_address(base_url: Seq<char>, asset: Seq<char>) -> Seq<char> {
    text::trim_end_char(base_url, '/') + "/"@ + text::trim_start_pat(asset, "/"@)
}

/// The address of `asset` at the registry.
pub fn asset_url(base_url: &str, asset: &str) -> (r: String)
    ensures
        r@ == asset_address(base_url@, asset@),
{
    let slash = chars::chars_of("/");
    let mut all = chars::trim_end_char(&chars::chars_of(base_url), '/');
    chars::append(&mut all, &slash);
    chars::append(&mut all, &chars::trim_start_pat(&chars::chars_of(asset), &slash));
    chars::string_of(&all)
}

/// The address of the registry manifest.
pub fn registry_url(base_url: &str) -> (r: String)
    ensures
        r@ == text::trim_end_char(base_url@, '/') + "/"@ + REGISTRY_MANIFEST@,
{
    let mut all = chars::trim_end_char(&chars::chars_of(base_url), '/');
    chars::append(&mut all, &chars::chars_of("/"));
    chars::append(&mut all, &chars::chars_of(REGISTRY_MANIFEST));
    chars::string_of(&all)
}

/// The place of an asset in the cache of its registry.
pub fn asset_cache_path(asset_path: &str) -> (r: String)
    ensures
        r@ == "assets/"@ + text::trim_start_pat(asset_path@, "/"@),
{
    let mut all = chars::chars_of("assets/");
    chars::append(
        &mut all,
        &chars::trim_start_pat(&chars::chars_of(asset_path), &chars::chars_of("/")),
    );
    chars::string_of(&all)
}

/// The summary of a registry.
pub fn fetch_summary(registry: &Registry) -> (r: RegistrySummary)
    ensures
        r.name@ == registry.name@,
        r.version@ == registry.version@,
        option_view(r.description) == option_view(registry.description),
{
    RegistrySummary {
        name: registry.name.clone(),
        version: registry.version.clone(),
        description: crate::types::duplicate_option(&registry.description),
    }
}

/// The component that the registry keeps under `name`.
pub fn fetch_component(registry: &Registry, name: &str) -> (r: Result<Component, RegistryError>)
    ensures
        match r {
            Ok(component) => crate::resolver::place(
                crate::resolver::graph_of(registry.components@),
                name@,
            ) matches Some(i) && component@ == registry.components@[i].1@,
            Err(error) => error matches RegistryError::ComponentNotFound(missing) && missing@
                == name@ && crate::resolver::place(
                crate::resolver::graph_of(registry.components@),
                name@,
            ) is None,
        },
{
    let ghost keys = crate::resolver::slugs(crate::resolver::graph_of(registry.components@));
    let mut i: usize = 0;
    while i < registry.components.len()
        invariant
            i <= registry.components.len(),
            keys == crate::resolver::slugs(crate::resolver::graph_of(registry.components@)),
            crate::string_map::position(keys, name@) == crate::string_map::position_from(
                keys,
                name@,
                i as int,
            ),
        decreases registry.components.len() - i,
    {
        if crate::string_map::same_text(registry.components[i].0.as_str(), name) {
            return Ok(registry.components[i].1.duplicate());
        }
        i += 1;
    }
    Err(RegistryError::ComponentNotFound(name.to_owned()))
}

// ---------------------------------------------------------------------------
// The manifest of component files
// ---------------------------------------------------------------------------

/// A key of the manifest in its plain form: slashes for backslashes, and
/// no leading `./` or `/`.
pub open spec fn manifest_key(path: Seq<char>) -> Seq<char> {
    text::trim_start_pat(text::trim_start_pat(text::replace_char(path, '\\', '/'), "./"@), "/"@)
}

/// A key of the manifest in its plain form.
pub fn normalize_manifest_key(path: &str) -> (r: String)
    ensures
        r@ == manifest_key(path@),
{
    let swapped = chars::replace_char(&chars::chars_of(path), '\\', '/');
    chars::string_of(
        &chars::trim_start_pat(
            &chars::trim_start_pat(&swapped, &chars::chars_of("./")),
            &chars::chars_of("/"),
        ),
    )
}

/// The encoded files of the registry: by path, and by file name alone for
/// the entries that have no directory.
#[derive(Clone, Debug)]
pub struct ComponentManifest {
    pub by_path: StringMap,
    pub fallback_by_file: StringMap,
}

/// `entries` with `key` set to `value`.
pub open spec fn with_entry(
    entries: Seq<(Seq<char>, Seq<char>)>,
    key: Seq<char>,
    value: Seq<char>,
) -> Seq<(Seq<char>, Seq<char>)> {
    match crate::string_map::position(crate::string_map::names(entries), key) {
        Some(i) => entries.update(i, (key, value)),
        None => entries.push((key, value)),
    }
}

/// The entries among the first `n` raw ones whose plain key has a
/// directory, or those whose key has none, under their plain keys.
pub open spec fn manifest_part(raw: Seq<(Seq<char>, Seq<char>)>, with_directory: bool, n: int) -> Seq<
    (Seq<char>, Seq<char>),
>
    decreases n,
{
    if n <= 0 {
        seq![]
    } else {
        let before = manifest_part(raw, with_directory, n - 1);
        let key = manifest_key(raw[n - 1].0);
        if (text::find_char(key, '/') is Some) == with_directory {
            with_entry(before, key, raw[n - 1].1)
        } else {
            before
        }
    }
}

/// What follows the last `/` of `path`; all of it where it has none.
pub open spec fn after_last_slash(path: Seq<char>) -> Seq<char>
    decreases path.len(),
{
    match text::find_char(path, '/') {
        Some(i) => if 0 <= i < path.len() {
            after_last_slash(path.skip(i + 1))
        } else {
            path
        },
        None => path,
    }
}

/// What follows the last `/` of `path`.
pub fn file_part(path: &Vec<char>) -> (r: Vec<char>)
    ensures
        r@ == after_last_slash(path@),
{
    let mut start: usize = 0;
    assert(path@.skip(0) == path@);
    loop
        invariant
            start <= path.len(),
            after_last_slash(path@) == after_last_slash(path@.skip(start as int)),
        decreases path.len() - start,
    {
        proof {
            text::lemma_find_char_skip(path@, '/', start as int);
        }
        match chars::find_char_from(path, '/', start) {
            Some(i) => {
                assert(path@.skip(start as int).skip(i - start + 1) == path@.skip(i + 1));
                start = i + 1;
            },
            None => {
                return chars::slice(path, start, path.len());
            },
        }
    }
}

impl ComponentManifest {
    /// Both maps hold no key twice.
    pub open spec fn wf(&self) -> bool {
        self.by_path.wf() && self.fallback_by_file.wf()
    }

    /// The encoded file that answers to `requested_path`: the entry at its
    /// plain path, else the entry without directory that has its file name.
    pub open spec fn entry_for(&self, requested_path: Seq<char>) -> Option<Seq<char>> {
        let key = manifest_key(requested_path);
        match lookup(self.by_path@, key) {
            Some(value) => Some(value),
            None => lookup(self.fallback_by_file@, after_last_slash(key)),
        }
    }

    /// Sorts the raw entries of the manifest by whether their plain key
    /// has a directory. A later entry takes the place of an earlier one
    /// with the same plain key.
    pub fn from_raw(entries: &StringMap) -> (r: Self)
        ensures
            r.wf(),
            r.by_path@ == manifest_part(entries@, true, entries@.len() as int),
            r.fallback_by_file@ == manifest_part(entries@, false, entries@.len() as int),
    {
        let mut by_path = StringMap::new();
        let mut fallback_by_file = StringMap::new();
        let mut n: usize = 0;
        while n < entries.entries.len()
            invariant
                n <= entries.entries.len(),
                by_path.wf(),
                fallback_by_file.wf(),
                by_path@ == manifest_part(entries@, true, n as int),
                fallback_by_file@ == manifest_part(entries@, false, n as int),
            decreases entries.entries.len() - n,
        {
            let key = normalize_manifest_key(entries.entries[n].0.as_str());
            let value = entries.entries[n].1.clone();
            if chars::find_char(&chars::chars_of(key.as_str()), '/').is_some() {
                by_path.insert(key, value);
            } else {
                fallback_by_file.insert(key, value);
            }
            n += 1;
        }
        ComponentManifest { by_path, fallback_by_file }
    }

    /// The encoded file that answers to `requested_path`.
    pub fn lookup(&self, requested_path: &str) -> (r: Option<&String>)
        ensures
            (match r {
                Some(value) => Some(value@),
                None => None,
            }) == self.entry_for(requested_path@),
    {
        let key = normalize_manifest_key(requested_path);
        if let Some(value) = self.by_path.get(key.as_str()) {
            return Some(value);
        }
        let name = chars::string_of(&file_part(&chars::chars_of(key.as_str())));
        self.fallback_by_file.get(name.as_str())
    }
}

/// The text of an encoded file: its base64 decoded and read as UTF-8; or
/// why it cannot be had.
pub open spec fn decoded_file(path: Seq<char>, encoded: Option<Seq<char>>) -> Result<
    Seq<char>,
    RegistryErrorView,
> {
    match encoded {
        None => Err(RegistryErrorView::ComponentNotFound(path)),
        Some(text) => match base64_decoded(text) {
            Err(reason) => Err(RegistryErrorView::Decode(path, reason)),
            Ok(bytes) => if vstd::utf8::valid_utf8(bytes) {
                Ok(vstd::utf8::decode_utf8(bytes))
            } else {
                Err(RegistryErrorView::Decode(path, utf8_error_text(bytes)))
            },
        },
    }
}

/// What a `RegistryError` says.
pub enum RegistryErrorView {
    Network(Seq<char>),
    Parse(Seq<char>),
    ComponentNotFound(Seq<char>),
    Decode(Seq<char>, Seq<char>),
    AssetParse(Seq<char>, Seq<char>),
}

impl View for RegistryError {
    type V = RegistryErrorView;

    open spec fn view(&self) -> RegistryErrorView {
        match self {
            RegistryError::Network(reason) => RegistryErrorView::Network(reason@),
            RegistryError::Parse(reason) => RegistryErrorView::Parse(reason@),
            RegistryError::ComponentNotFound(name) => RegistryErrorView::ComponentNotFound(name@),
            RegistryError::Decode(name, reason) => RegistryErrorView::Decode(name@, reason@),
            RegistryError::AssetParse(name, reason) => RegistryErrorView::AssetParse(
                name@,
                reason@,
            ),
        }
    }
}

impl RegistryError {
    /// What to tell the user.
    pub open spec fn text(error: RegistryErrorView) -> Seq<char> {
        match error {
            RegistryErrorView::Network(reason) => "network error: "@ + reason,
            RegistryErrorView::Parse(reason) => "failed to parse registry response: "@ + reason,
            RegistryErrorView::ComponentNotFound(name) => "component `"@ + name
                + "` not found in registry"@,
            RegistryErrorView::Decode(name, reason) => "failed to decode registry asset `"@ + name
                + "`: "@ + reason,
            RegistryErrorView::AssetParse(name, reason) => "failed to parse registry asset `"@
                + name + "`: "@ + reason,
        }
    }

    /// What to tell the user.
    pub fn message(&self) -> (r: String)
        ensures
            r@ == Self::text(self@),
    {
        let mut all: Vec<char> = Vec::new();
        match self {
            RegistryError::Network(reason) => {
                chars::append(&mut all, &chars::chars_of("network error: "));
                chars::append(&mut all, &chars::chars_of(reason.as_str()));
            },
            RegistryError::Parse(reason) => {
                chars::append(&mut all, &chars::chars_of("failed to parse registry response: "));
                chars::append(&mut all, &chars::chars_of(reason.as_str()));
            },
            RegistryError::ComponentNotFound(name) => {
                chars::append(&mut all, &chars::chars_of("component `"));
                chars::append(&mut all, &chars::chars_of(name.as_str()));
                chars::append(&mut all, &chars::chars_of("` not found in registry"));
            },
            RegistryError::Decode(name, reason) => {
                chars::append(&mut all, &chars::chars_of("failed to decode registry asset `"));
                chars::append(&mut all, &chars::chars_of(name.as_str()));
                chars::append(&mut all, &chars::chars_of("`: "));
                chars::append(&mut all, &chars::chars_of(reason.as_str()));
            },
            RegistryError::AssetParse(name, reason) => {
                chars::append(&mut all, &chars::chars_of("failed to parse registry asset `"));
                chars::append(&mut all, &chars::chars_of(name.as_str()));
                chars::append(&mut all, &chars::chars_of("`: "));
                chars::append(&mut all, &chars::chars_of(reason.as_str()));
            },
        }
        chars::string_of(&all)
    }
}

/// Turns what the decoder and the reader of UTF-8 gave into the text of a
/// file or the error to report for `path`.
pub fn decoded_text(path: &str, decoded: Result<Vec<u8>, String>) -> (r: Result<String, RegistryError>)
    ensures
        match decoded {
            Err(reason) => r matches Err(error) && error@ == RegistryErrorView::Decode(
                path@,
                reason@,
            ),
            Ok(bytes) => if vstd::utf8::valid_utf8(bytes@) {
                r matches Ok(text) && text@ == vstd::utf8::decode_utf8(bytes@)
            } else {
                r matches Err(error) && error@ == RegistryErrorView::Decode(
                    path@,
                    utf8_error_text(bytes@),
                )
            },
        },
{
    match decoded {
        Err(reason) => Err(RegistryError::Decode(path.to_owned(), reason)),
        Ok(bytes) => read_as_text(path, text_from_utf8(bytes)),
    }
}

/// Turns what the reader of UTF-8 gave into the text of a file or the
/// error to report for `path`.
pub fn read_as_text(path: &str, read: Result<String, String>) -> (r: Result<String, RegistryError>)
    ensures
        match read {
            Ok(text) => r == Ok::<String, RegistryError>(text),
            Err(reason) => r matches Err(error) && error@ == RegistryErrorView::Decode(
                path@,
                reason@,
            ),
        },
{
    match read {
        Ok(text) => Ok(text),
        Err(reason) => Err(RegistryError::Decode(path.to_owned(), reason)),
    }
}

/// The text of the file that the manifest keeps for `path`.
pub fn fetch_component_file(manifest: &ComponentManifest, path: &str) -> (r: Result<
    String,
    RegistryError,
>)
    ensures
        (match r {
            Ok(text) => Ok(text@),
            Err(error) => Err(error@),
        }) == decoded_file(path@, manifest.entry_for(path@)),
{
    match manifest.lookup(path) {
        None => Err(RegistryError::ComponentNotFound(path.to_owned())),
        Some(encoded) => decoded_text(path, decode_base64(encoded.as_str())),
    }
}

} // verus!
