//! Cloud and network storage: providers, OAuth configuration checks and
//! authorisation URLs, remote backup paths, storage ids.
use vstd::prelude::*;
use base64::engine::general_purpose::URL_SAFE_NO_PAD as B64_URL;
use base64::Engine as _;
use crate::text::{
    chars_eq, chars_of, copy_range, decimal, eq_str, find_char, first_index_of, is_ws, join_path,
    lemma_first_char_window, path_join, push_chars, push_decimal, push_str, str_equal, string_of, trim,
    trim_bounds, trim_end_all, trim_end_matches, trim_start_all, trim_start_matches_from,
};
use crate::crypto::{hex_lower, sha256_hex, sha256_of_bytes};
use crate::text::string_views;

verus! {

/// Cloud storage provider.
#[derive(Debug, Clone, Copy, PartialEq, Eq, Structural)]
pub enum CloudProvider {
    GoogleDrive,
    Dropbox,
    OneDrive,
    ICloudDrive,
    S3,
    Gcs,
    Azure,
    Nas,
}

impl CloudProvider {
    pub open spec fn spec_display_name(&self) -> Seq<char> {
        match self {
            CloudProvider::GoogleDrive => "Google Drive"@,
            CloudProvider::Dropbox => "Dropbox"@,
            CloudProvider::OneDrive => "OneDrive"@,
            CloudProvider::ICloudDrive => "iCloud Drive"@,
            CloudProvider::S3 => "Amazon S3"@,
            CloudProvider::Gcs => "Google Cloud Storage"@,
            CloudProvider::Azure => "Azure Blob Storage"@,
            CloudProvider::Nas => "Network Storage"@,
        }
    }

    /// The provider's name as shown to users.
    pub fn display_name(&self) -> (r: &'static str)
        ensures
            r@ == self.spec_display_name(),
    {
        match self {
            CloudProvider::GoogleDrive => "Google Drive",
            CloudProvider::Dropbox => "Dropbox",
            CloudProvider::OneDrive => "OneDrive",
            CloudProvider::ICloudDrive => "iCloud Drive",
            CloudProvider::S3 => "Amazon S3",
            CloudProvider::Gcs => "Google Cloud Storage",
            CloudProvider::Azure => "Azure Blob Storage",
            CloudProvider::Nas => "Network Storage",
        }
    }

    /// Google Drive, Dropbox and OneDrive connect through OAuth.
    pub fn requires_oauth(&self) -> (b: bool)
        ensures
            b == (*self == CloudProvider::GoogleDrive || *self == CloudProvider::Dropbox || *self == CloudProvider::OneDrive),
    {
        match self {
            CloudProvider::GoogleDrive | CloudProvider::Dropbox | CloudProvider::OneDrive => true,
            _ => false,
        }
    }
}

/// The environment variables that configure a provider's OAuth client.
pub fn oauth_env_hint(provider: CloudProvider) -> (r: &'static str)
    ensures
        r@ == match provider {
            CloudProvider::GoogleDrive => "GOOGLE_CLIENT_ID/GOOGLE_CLIENT_SECRET"@,
            CloudProvider::Dropbox => "DROPBOX_CLIENT_ID/DROPBOX_CLIENT_SECRET"@,
            CloudProvider::OneDrive => "ONEDRIVE_CLIENT_ID/ONEDRIVE_CLIENT_SECRET"@,
            _ => "N/A"@,
        },
{
    match provider {
        CloudProvider::GoogleDrive => "GOOGLE_CLIENT_ID/GOOGLE_CLIENT_SECRET",
        CloudProvider::Dropbox => "DROPBOX_CLIENT_ID/DROPBOX_CLIENT_SECRET",
        CloudProvider::OneDrive => "ONEDRIVE_CLIENT_ID/ONEDRIVE_CLIENT_SECRET",
        _ => "N/A",
    }
}

/// OAuth configuration of a cloud provider.
#[derive(Debug, Clone, PartialEq, Eq)]
pub struct OAuthConfig {
    pub client_id: String,
    pub client_secret: String,
    pub redirect_uri: String,
    pub scopes: Vec<String>,
}

/// Whether a provider's OAuth client is usable, and what is missing.
#[derive(Debug, Clone, PartialEq, Eq)]
pub struct OAuthAvailability {
    pub available: bool,
    pub missing_fields: Vec<&'static str>,
    pub env_hint: &'static str,
}

fn blank(s: &str) -> (b: bool)
    ensures
        b == (trim(s@).len() == 0),
{
    let v = chars_of(s);
    let (a, b) = trim_bounds(v.as_slice(), 0, v.len());
    assert(v@.subrange(0, v@.len() as int) =~= v@);
    a == b
}

pub open spec fn field_views(v: Seq<&'static str>) -> Seq<Seq<char>> {
    v.map_values(|s: &'static str| s@)
}

/// The fields of an OAuth configuration that are blank, in the order
/// `client_id`, `client_secret`, `redirect_uri`.
pub open spec fn missing_oauth_fields(client_id: Seq<char>, client_secret: Seq<char>, redirect_uri: Seq<char>) -> Seq<Seq<char>> {
    (if trim(client_id).len() == 0 { seq!["client_id"@] } else { Seq::empty() })
        + (if trim(client_secret).len() == 0 { seq!["client_secret"@] } else { Seq::empty() })
        + (if trim(redirect_uri).len() == 0 { seq!["redirect_uri"@] } else { Seq::empty() })
}

pub fn oauth_config_availability(provider: CloudProvider, config: &OAuthConfig) -> (r: OAuthAvailability)
    ensures
        field_views(r.missing_fields@) == missing_oauth_fields(config.client_id@, config.client_secret@, config.redirect_uri@),
        r.available == (r.missing_fields@.len() == 0),
        r.env_hint@ == match provider {
            CloudProvider::GoogleDrive => "GOOGLE_CLIENT_ID/GOOGLE_CLIENT_SECRET"@,
            CloudProvider::Dropbox => "DROPBOX_CLIENT_ID/DROPBOX_CLIENT_SECRET"@,
            CloudProvider::OneDrive => "ONEDRIVE_CLIENT_ID/ONEDRIVE_CLIENT_SECRET"@,
            _ => "N/A"@,
        },
{
    let mut missing: Vec<&'static str> = Vec::new();
    if blank(config.client_id.as_str()) {
        missing.push("client_id");
    }
    if blank(config.client_secret.as_str()) {
        missing.push("client_secret");
    }
    if blank(config.redirect_uri.as_str()) {
        missing.push("redirect_uri");
    }
    assert(field_views(missing@) =~= missing_oauth_fields(config.client_id@, config.client_secret@, config.redirect_uri@));
    let available = missing.len() == 0;
    OAuthAvailability { available, missing_fields: missing, env_hint: oauth_env_hint(provider) }
}

/// Where a provider's OAuth callback is served, below the redirect base.
pub open spec fn oauth_callback_suffix(provider: CloudProvider) -> Seq<char> {
    match provider {
        CloudProvider::GoogleDrive => "/api/storage/oauth/google_drive/callback"@,
        CloudProvider::Dropbox => "/api/storage/oauth/dropbox/callback"@,
        _ => "/api/storage/oauth/onedrive/callback"@,
    }
}

/// The scopes a provider's OAuth client asks for.
pub open spec fn oauth_default_scopes(provider: CloudProvider) -> Seq<Seq<char>> {
    match provider {
        CloudProvider::GoogleDrive => seq![
            "https://www.googleapis.com/auth/drive.file"@,
            "https://www.googleapis.com/auth/drive.metadata.readonly"@,
        ],
        CloudProvider::Dropbox => seq!["files.content.read"@, "files.content.write"@],
        _ => seq!["Files.ReadWrite"@, "offline_access"@],
    }
}

fn owned_strings(items: &[&str]) -> (r: Vec<String>)
    ensures
        string_views(r@) == items@.map_values(|s: &str| s@),
{
    let mut r: Vec<String> = Vec::new();
    let mut i: usize = 0;
    while i < items.len()
        invariant
            i <= items@.len(),
            r@.len() == i,
            forall|k: int| 0 <= k < i ==> (#[trigger] r@[k])@ == items@[k]@,
        decreases items@.len() - i,
    {
        let t = string_of(chars_of(items[i]).as_slice());
        r.push(t);
        i = i + 1;
    }
    assert(string_views(r@) =~= items@.map_values(|s: &str| s@));
    r
}

/// The OAuth client of Google Drive, Dropbox or OneDrive, the providers that
/// sign in with OAuth: the configured credentials, the callback below the
/// redirect base, and the scopes each asks for; `None` for other providers.
pub fn default_oauth_config(provider: CloudProvider, client_id: String, client_secret: String, redirect_base: &str) -> (r: Option<OAuthConfig>)
    ensures
        r is Some <==> (provider == CloudProvider::GoogleDrive || provider == CloudProvider::Dropbox || provider == CloudProvider::OneDrive),
        r matches Some(c) ==> {
            &&& c.client_id == client_id
            &&& c.client_secret == client_secret
            &&& c.redirect_uri@ == redirect_base@ + oauth_callback_suffix(provider)
            &&& string_views(c.scopes@) == oauth_default_scopes(provider)
        },
{
    proof {
        reveal_strlit("https://www.googleapis.com/auth/drive.file");
        reveal_strlit("https://www.googleapis.com/auth/drive.metadata.readonly");
        reveal_strlit("files.content.read");
        reveal_strlit("files.content.write");
        reveal_strlit("Files.ReadWrite");
        reveal_strlit("offline_access");
    }
    let (suffix, scopes): (&str, Vec<String>) = match provider {
        CloudProvider::GoogleDrive => {
            let items = ["https://www.googleapis.com/auth/drive.file", "https://www.googleapis.com/auth/drive.metadata.readonly"];
            let v = owned_strings(items.as_slice());
            assert(string_views(v@) =~= oauth_default_scopes(provider));
            ("/api/storage/oauth/google_drive/callback", v)
        },
        CloudProvider::Dropbox => {
            let items = ["files.content.read", "files.content.write"];
            let v = owned_strings(items.as_slice());
            assert(string_views(v@) =~= oauth_default_scopes(provider));
            ("/api/storage/oauth/dropbox/callback", v)
        },
        CloudProvider::OneDrive => {
            let items = ["Files.ReadWrite", "offline_access"];
            let v = owned_strings(items.as_slice());
            assert(string_views(v@) =~= oauth_default_scopes(provider));
            ("/api/storage/oauth/onedrive/callback", v)
        },
        _ => return None,
    };
    let mut uri: Vec<char> = Vec::new();
    push_str(&mut uri, redirect_base);
    push_str(&mut uri, suffix);
    Some(OAuthConfig { client_id, client_secret, redirect_uri: string_of(uri.as_slice()), scopes })
}

pub open spec fn slash() -> Seq<char> {
    seq!['/']
}

/// A remote path without surrounding whitespace or slashes.
pub open spec fn spec_normalize_remote_path(path: Seq<char>) -> Seq<char> {
    trim_end_all(trim_start_all(trim(path), slash()), slash())
}

fn normalized_remote(path: &str) -> (r: Vec<char>)
    ensures
        r@ == spec_normalize_remote_path(path@),
{
    let v = chars_of(path);
    assert(v@.subrange(0, v@.len() as int) =~= v@);
    let (a, b) = trim_bounds(v.as_slice(), 0, v.len());
    let s = ['/'];
    assert(s@ =~= slash());
    let a2 = trim_start_matches_from(v.as_slice(), s.as_slice(), a, b);
    let w = copy_range(v.as_slice(), a2, b);
    trim_end_matches(w.as_slice(), s.as_slice())
}

pub fn normalize_remote_path(path: &str) -> (r: String)
    ensures
        r@ == spec_normalize_remote_path(path@),
{
    string_of(normalized_remote(path).as_slice())
}

/// A remote path under a base path, with exactly one `/` between them.
pub open spec fn spec_join_remote_path(base_path: Seq<char>, suffix: Seq<char>) -> Seq<char> {
    let base = spec_normalize_remote_path(base_path);
    let s = trim_start_all(suffix, slash());
    if base.len() == 0 {
        s
    } else if s.len() == 0 {
        base
    } else {
        base + slash() + s
    }
}

pub fn join_remote_path(base_path: &str, suffix: &str) -> (r: String)
    ensures
        r@ == spec_join_remote_path(base_path@, suffix@),
{
    let base = normalized_remote(base_path);
    let v = chars_of(suffix);
    assert(v@.subrange(0, v@.len() as int) =~= v@);
    let sl = ['/'];
    assert(sl@ =~= slash());
    let a = trim_start_matches_from(v.as_slice(), sl.as_slice(), 0, v.len());
    let s = copy_range(v.as_slice(), a, v.len());
    if base.len() == 0 {
        string_of(s.as_slice())
    } else if s.len() == 0 {
        string_of(base.as_slice())
    } else {
        let mut out = base;
        out.push('/');
        push_chars(&mut out, s.as_slice());
        assert(out@ =~= spec_join_remote_path(base_path@, suffix@));
        string_of(out.as_slice())
    }
}

/// `backups/<project>/<job>.tar.gz` under the connection's base path.
pub fn default_backup_remote_path(base_path: &str, project_id: &str, job_id: &str) -> (r: String)
    ensures
        r@ == spec_join_remote_path(base_path@, "backups/"@ + project_id@ + "/"@ + job_id@ + ".tar.gz"@),
{
    let mut v: Vec<char> = Vec::new();
    push_str(&mut v, "backups/");
    push_str(&mut v, project_id);
    push_str(&mut v, "/");
    push_str(&mut v, job_id);
    push_str(&mut v, ".tar.gz");
    let suffix = string_of(v.as_slice());
    join_remote_path(base_path, suffix.as_str())
}

/// One character of a storage id: ASCII letters and digits lower-cased;
/// space, `-` and `_` become `-`; anything else is dropped.
pub open spec fn storage_id_char(c: char) -> Seq<char> {
    if ('a' <= c && c <= 'z') || ('0' <= c && c <= '9') {
        seq![c]
    } else if 'A' <= c && c <= 'Z' {
        seq![((c as u32) + 32) as char]
    } else if c == ' ' || c == '-' || c == '_' {
        seq!['-']
    } else {
        Seq::empty()
    }
}

pub open spec fn storage_id_chars(s: Seq<char>) -> Seq<char>
    decreases s.len(),
{
    if s.len() == 0 {
        Seq::empty()
    } else {
        storage_id_chars(s.drop_last()) + storage_id_char(s.last())
    }
}

pub open spec fn dash() -> Seq<char> {
    seq!['-']
}

/// The id of a storage connection named `name`: its kept characters without
/// leading or trailing `-`, or `storage` when nothing remains.
pub open spec fn spec_normalize_storage_id(name: Seq<char>) -> Seq<char> {
    let t = trim_end_all(trim_start_all(storage_id_chars(name), dash()), dash());
    if t.len() == 0 { "storage"@ } else { t }
}

pub fn normalize_storage_id(name: &str) -> (r: String)
    ensures
        r@ == spec_normalize_storage_id(name@),
{
    let v = chars_of(name);
    let mut out: Vec<char> = Vec::new();
    let mut i: usize = 0;
    while i < v.len()
        invariant
            i <= v@.len(),
            v@ == name@,
            out@ == storage_id_chars(v@.take(i as int)),
        decreases v@.len() - i,
    {
        let c = v[i];
        let ghost before = out@;
        if ('a' <= c && c <= 'z') || ('0' <= c && c <= '9') {
            out.push(c);
        } else if 'A' <= c && c <= 'Z' {
            let l = crate::text::to_ascii_lower(c);
            out.push(l);
        } else if c == ' ' || c == '-' || c == '_' {
            out.push('-');
        }
        assert(v@.take(i + 1).drop_last() =~= v@.take(i as int));
        assert(out@ =~= before + storage_id_char(c));
        i = i + 1;
    }
    assert(v@.take(v@.len() as int) =~= v@);
    let d = ['-'];
    assert(d@ =~= dash());
    assert(out@.subrange(0, out@.len() as int) =~= out@);
    let a = trim_start_matches_from(out.as_slice(), d.as_slice(), 0, out.len());
    let w = copy_range(out.as_slice(), a, out.len());
    let t = trim_end_matches(w.as_slice(), d.as_slice());
    if t.len() == 0 {
        string_of(chars_of("storage").as_slice())
    } else {
        string_of(t.as_slice())
    }
}

/// The frontend's base URL without trailing `/`, defaulting to the dev server.
pub fn frontend_base_url(configured: Option<&str>) -> (r: String)
    ensures
        r@ == trim_end_all(match configured { Some(c) => c@, None => "http://localhost:5173"@ }, slash()),
{
    let v = match configured {
        Some(c) => chars_of(c),
        None => chars_of("http://localhost:5173"),
    };
    let s = ['/'];
    assert(s@ =~= slash());
    string_of(trim_end_matches(v.as_slice(), s.as_slice()).as_slice())
}

/// Where OAuth redirects return: the public base URL without trailing `/`,
/// else `http://<host>:<port>` with `0.0.0.0` shown as `localhost`.
pub fn oauth_redirect_base_url(public_base_url: Option<&str>, host: &str, port: u16) -> (r: String)
    ensures
        r@ == match public_base_url {
            Some(u) => trim_end_all(u@, slash()),
            None => "http://"@ + (if host@ == "0.0.0.0"@ { "localhost"@ } else { host@ }) + ":"@ + decimal(port as nat),
        },
{
    match public_base_url {
        Some(u) => {
            let v = chars_of(u);
            let s = ['/'];
            assert(s@ =~= slash());
            string_of(trim_end_matches(v.as_slice(), s.as_slice()).as_slice())
        },
        None => {
            let mut out = chars_of("http://");
            if str_equal(host, "0.0.0.0") {
                push_str(&mut out, "localhost");
            } else {
                push_str(&mut out, host);
            }
            push_str(&mut out, ":");
            push_decimal(&mut out, port as u64);
            string_of(out.as_slice())
        },
    }
}

/// The provider named by a storage key.
pub open spec fn spec_provider_from_key(key: Seq<char>) -> Option<CloudProvider> {
    if key == "google_drive"@ { Some(CloudProvider::GoogleDrive) }
    else if key == "dropbox"@ { Some(CloudProvider::Dropbox) }
    else if key == "onedrive"@ { Some(CloudProvider::OneDrive) }
    else if key == "icloud"@ { Some(CloudProvider::ICloudDrive) }
    else if key == "s3"@ { Some(CloudProvider::S3) }
    else if key == "gcs"@ { Some(CloudProvider::Gcs) }
    else if key == "azure"@ { Some(CloudProvider::Azure) }
    else if key == "nas"@ { Some(CloudProvider::Nas) }
    else { None }
}

fn provider_from_chars(key: &[char]) -> (r: Option<CloudProvider>)
    ensures
        r == spec_provider_from_key(key@),
{
    if eq_str(key, "google_drive") { Some(CloudProvider::GoogleDrive) }
    else if eq_str(key, "dropbox") { Some(CloudProvider::Dropbox) }
    else if eq_str(key, "onedrive") { Some(CloudProvider::OneDrive) }
    else if eq_str(key, "icloud") { Some(CloudProvider::ICloudDrive) }
    else if eq_str(key, "s3") { Some(CloudProvider::S3) }
    else if eq_str(key, "gcs") { Some(CloudProvider::Gcs) }
    else if eq_str(key, "azure") { Some(CloudProvider::Azure) }
    else if eq_str(key, "nas") { Some(CloudProvider::Nas) }
    else { None }
}

pub fn provider_from_key(key: &str) -> (r: Option<CloudProvider>)
    ensures
        r == spec_provider_from_key(key@),
{
    provider_from_chars(chars_of(key).as_slice())
}

/// The provider of a connection id `<provider>:<name>` (or a bare provider key).
pub fn provider_from_connection_id(key: &str) -> (r: Option<CloudProvider>)
    ensures
        r == match first_index_of(key@, ':') {
            Some(k) => spec_provider_from_key(key@.take(k)),
            None => spec_provider_from_key(key@),
        },
{
    let v = chars_of(key);
    proof { lemma_first_char_window(v@, ':', 0, 0, v@.len() as int); }
    assert(v@.subrange(0, v@.len() as int) =~= v@);
    match find_char(v.as_slice(), ':', 0, v.len()) {
        Some(k) => {
            let p = copy_range(v.as_slice(), 0, k);
            assert(p@ =~= v@.take(k as int));
            provider_from_chars(p.as_slice())
        },
        None => provider_from_chars(v.as_slice()),
    }
}

/// The providers that `GET /api/storage/oauth/<provider>/url` accepts.
pub fn oauth_provider_from_key(key: &str) -> (r: Option<CloudProvider>)
    ensures
        r == (if key@ == "google_drive"@ { Some(CloudProvider::GoogleDrive) }
            else if key@ == "dropbox"@ { Some(CloudProvider::Dropbox) }
            else if key@ == "onedrive"@ { Some(CloudProvider::OneDrive) }
            else { None }),
{
    if str_equal(key, "google_drive") { Some(CloudProvider::GoogleDrive) }
    else if str_equal(key, "dropbox") { Some(CloudProvider::Dropbox) }
    else if str_equal(key, "onedrive") { Some(CloudProvider::OneDrive) }
    else { None }
}

/// Why a remote location cannot be resolved.
#[derive(Debug, Clone, Copy, PartialEq, Eq, Structural)]
pub enum RemotePathError {
    NasEndpointMissing,
    RemotePathMissing,
}

/// The local path of a remote path on a network share mounted at `endpoint`.
pub fn nas_target_path(endpoint: Option<&str>, remote_path: &str) -> (r: Result<String, RemotePathError>)
    ensures
        match endpoint {
            None => r == Err::<String, RemotePathError>(RemotePathError::NasEndpointMissing),
            Some(e) => if spec_normalize_remote_path(remote_path@).len() == 0 {
                r == Err::<String, RemotePathError>(RemotePathError::RemotePathMissing)
            } else {
                r matches Ok(p) && p@ == path_join(e@, spec_normalize_remote_path(remote_path@))
            },
        },
{
    let e = match endpoint {
        None => return Err(RemotePathError::NasEndpointMissing),
        Some(e) => e,
    };
    let rel = normalized_remote(remote_path);
    if rel.len() == 0 {
        return Err(RemotePathError::RemotePathMissing);
    }
    let base = chars_of(e);
    Ok(string_of(join_path(base.as_slice(), rel.as_slice()).as_slice()))
}

/// `<projects_dir>/_backups`.
pub fn backup_root_dir(projects_dir: &str) -> (r: String)
    ensures
        r@ == path_join(projects_dir@, "_backups"@),
{
    let d = chars_of(projects_dir);
    let b = chars_of("_backups");
    string_of(join_path(d.as_slice(), b.as_slice()).as_slice())
}

/// Whether a byte is left as it is by percent-encoding: ASCII letters,
/// digits and `- . _ ~`.
pub open spec fn url_safe_byte(b: u8) -> bool {
    (0x30 <= b && b <= 0x39) || (0x41 <= b && b <= 0x5a) || (0x61 <= b && b <= 0x7a) || b == 0x2d || b == 0x2e
        || b == 0x5f || b == 0x7e
}

pub open spec fn hex_upper(d: nat) -> char {
    if d < 10 { ((0x30 + d) as u32) as char } else { ((0x41 + d - 10) as u32) as char }
}

pub open spec fn url_encode_byte(b: u8) -> Seq<char> {
    if url_safe_byte(b) {
        seq![(b as u32) as char]
    } else {
        seq!['%', hex_upper((b / 16) as nat), hex_upper((b % 16) as nat)]
    }
}

/// Percent-encoding of a byte string: each byte kept or written `%XX`.
pub open spec fn url_encoded_bytes(bytes: Seq<u8>) -> Seq<char>
    decreases bytes.len(),
{
    if bytes.len() == 0 {
        Seq::empty()
    } else {
        url_encoded_bytes(bytes.drop_last()) + url_encode_byte(bytes.last())
    }
}

/// `urlencoding::encode`: as its source shows, every byte of the UTF-8 text
/// except ASCII letters, digits and `- . _ ~` is written as `%` and two
/// upper-case hexadecimal digits.
#[verifier::external_body]
pub(crate) fn url_encode(s: &str) -> (r: String)
    ensures
        r@ == url_encoded_bytes(vstd::utf8::encode_utf8(s@)),
{
    urlencoding::encode(s).into_owned()
}

/// `items` separated by `sep`.
pub open spec fn joined(items: Seq<Seq<char>>, sep: Seq<char>) -> Seq<char>
    decreases items.len(),
{
    if items.len() == 0 {
        Seq::empty()
    } else if items.len() == 1 {
        items[0]
    } else {
        joined(items.drop_last(), sep) + sep + items.last()
    }
}

pub fn join_strings(items: &Vec<String>, sep: &str) -> (r: String)
    ensures
        r@ == joined(items@.map_values(|s: String| s@), sep@),
{
    let ghost iv = items@.map_values(|s: String| s@);
    let mut out: Vec<char> = Vec::new();
    let mut i: usize = 0;
    while i < items.len()
        invariant
            i <= items@.len(),
            iv == items@.map_values(|s: String| s@),
            out@ == joined(iv.take(i as int), sep@),
        decreases items@.len() - i,
    {
        if i > 0 {
            push_str(&mut out, sep);
        }
        push_str(&mut out, items[i].as_str());
        assert(iv.take(i + 1).drop_last() =~= iv.take(i as int));
        proof {
            if i == 0 {
                assert(iv.take(1) =~= seq![items@[0]@]);
            }
        }
        i = i + 1;
    }
    assert(iv.take(items@.len() as int) =~= iv);
    string_of(out.as_slice())
}

/// The authorisation URL of an OAuth provider for the given CSRF state.
pub open spec fn spec_oauth_url(provider: CloudProvider, client_id: Seq<char>, redirect_uri: Seq<char>, scopes: Seq<Seq<char>>, state: Seq<char>) -> Option<Seq<char>> {
    let redirect = url_encoded_bytes(vstd::utf8::encode_utf8(redirect_uri));
    let scope = url_encoded_bytes(vstd::utf8::encode_utf8(joined(scopes, " "@)));
    match provider {
        CloudProvider::GoogleDrive => Some("https://accounts.google.com/o/oauth2/v2/auth?client_id="@ + client_id
            + "&redirect_uri="@ + redirect + "&response_type=code&scope="@ + scope
            + "&access_type=offline&state="@ + state),
        CloudProvider::Dropbox => Some("https://www.dropbox.com/oauth2/authorize?client_id="@ + client_id
            + "&redirect_uri="@ + redirect + "&response_type=code&token_access_type=offline&state="@ + state),
        CloudProvider::OneDrive => Some("https://login.microsoftonline.com/common/oauth2/v2.0/authorize?client_id="@
            + client_id + "&redirect_uri="@ + redirect + "&response_type=code&scope="@ + scope + "&state="@ + state),
        _ => None,
    }
}

pub fn oauth_authorize_url(provider: CloudProvider, config: &OAuthConfig, state_token: &str) -> (r: Option<String>)
    ensures
        match r {
            Some(u) => spec_oauth_url(provider, config.client_id@, config.redirect_uri@, config.scopes@.map_values(|s: String| s@), state_token@) == Some(u@),
            None => spec_oauth_url(provider, config.client_id@, config.redirect_uri@, config.scopes@.map_values(|s: String| s@), state_token@) is None,
        },
{
    let redirect = url_encode(config.redirect_uri.as_str());
    let scope_text = join_strings(&config.scopes, " ");
    let scope = url_encode(scope_text.as_str());
    let mut out: Vec<char> = Vec::new();
    match provider {
        CloudProvider::GoogleDrive => {
            push_str(&mut out, "https://accounts.google.com/o/oauth2/v2/auth?client_id=");
            push_str(&mut out, config.client_id.as_str());
            push_str(&mut out, "&redirect_uri=");
            push_str(&mut out, redirect.as_str());
            push_str(&mut out, "&response_type=code&scope=");
            push_str(&mut out, scope.as_str());
            push_str(&mut out, "&access_type=offline&state=");
            push_str(&mut out, state_token);
        },
        CloudProvider::Dropbox => {
            push_str(&mut out, "https://www.dropbox.com/oauth2/authorize?client_id=");
            push_str(&mut out, config.client_id.as_str());
            push_str(&mut out, "&redirect_uri=");
            push_str(&mut out, redirect.as_str());
            push_str(&mut out, "&response_type=code&token_access_type=offline&state=");
            push_str(&mut out, state_token);
        },
        CloudProvider::OneDrive => {
            push_str(&mut out, "https://login.microsoftonline.com/common/oauth2/v2.0/authorize?client_id=");
            push_str(&mut out, config.client_id.as_str());
            push_str(&mut out, "&redirect_uri=");
            push_str(&mut out, redirect.as_str());
            push_str(&mut out, "&response_type=code&scope=");
            push_str(&mut out, scope.as_str());
            push_str(&mut out, "&state=");
            push_str(&mut out, state_token);
        },
        _ => return None,
    }
    Some(string_of(out.as_slice()))
}

/// The unpadded URL-safe base64 encoding of `bytes`.
pub uninterp spec fn base64_url_encoded(bytes: Seq<u8>) -> Seq<char>;

/// `URL_SAFE_NO_PAD.encode` (base64): the text is named by the bytes; the
/// source panics only when the encoded length overflows `usize`.
#[verifier::external_body]
fn base64_url_encode(bytes: &[u8]) -> (r: String)
    requires
        bytes@.len() <= usize::MAX / 2,
    ensures
        r@ == base64_url_encoded(bytes@),
{
    B64_URL.encode(bytes)
}

/// The OAuth state token made of the given 32 bytes: their unpadded URL-safe
/// base64 text.
pub fn state_token_from(bytes: &[u8; 32]) -> (r: String)
    ensures
        r@ == base64_url_encoded(bytes@),
{
    base64_url_encode(bytes.as_slice())
}

/// A fresh OAuth state token: 32 random bytes in unpadded URL-safe base64.
pub fn new_state_token() -> (r: String)
    ensures
        exists|bytes: Seq<u8>| bytes.len() == 32 && r@ == base64_url_encoded(bytes),
{
    let bytes = crate::crypto::random_key();
    let r = state_token_from(&bytes);
    assert(bytes@.len() == 32 && r@ == base64_url_encoded(bytes@));
    r
}

/// Starts an OAuth sign-in for a provider that uses OAuth: a fresh state
/// token and the authorisation URL that carries it; `None` for the others.
pub fn begin_oauth(provider: CloudProvider, config: &OAuthConfig) -> (r: Option<(String, String)>)
    ensures
        r is None <==> !(provider == CloudProvider::GoogleDrive || provider == CloudProvider::Dropbox || provider == CloudProvider::OneDrive),
        r matches Some((token, url)) ==> spec_oauth_url(provider, config.client_id@, config.redirect_uri@,
            config.scopes@.map_values(|s: String| s@), token@) == Some(url@),
{
    let token = new_state_token();
    match oauth_authorize_url(provider, config, token.as_str()) {
        Some(url) => Some((token, url)),
        None => None,
    }
}

/// State of a storage connection.
#[derive(Debug, Clone, Copy, PartialEq, Eq, Structural)]
pub enum StorageConnectionStatus {
    Connected,
    Disconnected,
    Syncing,
    Error,
    NeedsReauth,
}

/// A stored connection rebuilt from the token store: the provider its id
/// names (NAS when none), its status (OAuth providers whose token cannot be
/// read need signing in again), its name (the provider's, or `Legacy
/// Storage` for providers without OAuth), and the default base path.
pub fn token_connection(provider_id: &str, token_loaded: bool) -> (r: (CloudProvider, StorageConnectionStatus, String, String))
    ensures
        ({
            let p = match provider_from_connection_id_spec(provider_id@) { Some(p) => p, None => CloudProvider::Nas };
            let oauth = p == CloudProvider::GoogleDrive || p == CloudProvider::Dropbox || p == CloudProvider::OneDrive;
            &&& r.0 == p
            &&& r.1 == (if oauth && !token_loaded { StorageConnectionStatus::NeedsReauth } else { StorageConnectionStatus::Connected })
            &&& r.2@ == (if oauth { p.spec_display_name() } else { "Legacy Storage"@ })
            &&& r.3@ == "/TrueShot"@
        }),
{
    let p = match provider_from_connection_id(provider_id) { Some(p) => p, None => CloudProvider::Nas };
    let oauth = p.requires_oauth();
    let status = if oauth && !token_loaded { StorageConnectionStatus::NeedsReauth } else { StorageConnectionStatus::Connected };
    let name = if oauth { p.display_name().to_string() } else { "Legacy Storage".to_string() };
    (p, status, name, "/TrueShot".to_string())
}

/// The provider a connection id names: its part before the first `:`.
pub open spec fn provider_from_connection_id_spec(key: Seq<char>) -> Option<CloudProvider> {
    match first_index_of(key, ':') {
        Some(k) => spec_provider_from_key(key.take(k)),
        None => spec_provider_from_key(key),
    }
}

/// State of a backup job.
#[derive(Debug, Clone, Copy, PartialEq, Eq, Structural)]
pub enum BackupJobStatus {
    Pending,
    Running,
    Completed,
    Failed,
}

/// Kind of a backup job.
#[derive(Debug, Clone, Copy, PartialEq, Eq, Structural)]
pub enum BackupJobType {
    Backup,
    Restore,
}

/// Query of an OAuth callback.
#[derive(Debug, Clone, PartialEq, Eq)]
pub struct OAuthCallback {
    pub code: Option<String>,
    pub state: Option<String>,
    pub error: Option<String>,
}

/// Request to add a storage connection.
#[derive(Debug, Clone, PartialEq, Eq)]
pub struct AddStorageRequest {
    pub provider: String,
    pub name: String,
    pub endpoint: Option<String>,
    pub region: Option<String>,
    pub access_key: Option<String>,
    pub secret_key: Option<String>,
    pub bucket: Option<String>,
    pub base_path: Option<String>,
}

/// Request to start a backup.
#[derive(Debug, Clone, PartialEq, Eq)]
pub struct BackupStartRequest {
    pub project_id: String,
    pub label: Option<String>,
    pub storage_id: Option<String>,
    pub remote_path: Option<String>,
}

/// Request to restore a backup.
#[derive(Debug, Clone, PartialEq, Eq)]
pub struct BackupRestoreRequest {
    pub job_id: String,
    pub target_project_id: Option<String>,
}


/// A provider as the provider list presents it.
#[derive(Debug, Clone, Copy, PartialEq, Eq)]
pub struct ProviderInfo {
    pub provider: CloudProvider,
    pub id: &'static str,
    pub icon: &'static str,
    pub description: &'static str,
    pub mac_only: bool,
}

pub open spec fn info_matches(
    i: ProviderInfo,
    provider: CloudProvider,
    id: Seq<char>,
    icon: Seq<char>,
    description: Seq<char>,
    mac_only: bool,
) -> bool {
    i.provider == provider && i.id@ == id && i.icon@ == icon && i.description@ == description && i.mac_only == mac_only
}

/// The eight providers, in the order they are listed.
pub fn provider_catalog() -> (r: Vec<ProviderInfo>)
    ensures
        r@.len() == 8,
        info_matches(r@[0], CloudProvider::GoogleDrive, "google_drive"@, "google"@, "Connect your Google Drive for cloud backup"@, false),
        info_matches(r@[1], CloudProvider::Dropbox, "dropbox"@, "dropbox"@, "Sync projects to Dropbox"@, false),
        info_matches(r@[2], CloudProvider::OneDrive, "onedrive"@, "microsoft"@, "Connect Microsoft OneDrive"@, false),
        info_matches(r@[3], CloudProvider::ICloudDrive, "icloud"@, "apple"@, "Use iCloud Drive (macOS only)"@, true),
        info_matches(r@[4], CloudProvider::S3, "s3"@, "aws"@, "S3-compatible object storage"@, false),
        info_matches(r@[5], CloudProvider::Gcs, "gcs"@, "google"@, "Google Cloud Storage (S3-compatible)"@, false),
        info_matches(r@[6], CloudProvider::Azure, "azure"@, "azure"@, "Azure Blob Storage (S3-compatible)"@, false),
        info_matches(r@[7], CloudProvider::Nas, "nas"@, "server"@, "Connect via SMB, NFS, or WebDAV"@, false),
{
    vec![
        ProviderInfo { provider: CloudProvider::GoogleDrive, id: "google_drive", icon: "google", description: "Connect your Google Drive for cloud backup", mac_only: false },
        ProviderInfo { provider: CloudProvider::Dropbox, id: "dropbox", icon: "dropbox", description: "Sync projects to Dropbox", mac_only: false },
        ProviderInfo { provider: CloudProvider::OneDrive, id: "onedrive", icon: "microsoft", description: "Connect Microsoft OneDrive", mac_only: false },
        ProviderInfo { provider: CloudProvider::ICloudDrive, id: "icloud", icon: "apple", description: "Use iCloud Drive (macOS only)", mac_only: true },
        ProviderInfo { provider: CloudProvider::S3, id: "s3", icon: "aws", description: "S3-compatible object storage", mac_only: false },
        ProviderInfo { provider: CloudProvider::Gcs, id: "gcs", icon: "google", description: "Google Cloud Storage (S3-compatible)", mac_only: false },
        ProviderInfo { provider: CloudProvider::Azure, id: "azure", icon: "azure", description: "Azure Blob Storage (S3-compatible)", mac_only: false },
        ProviderInfo { provider: CloudProvider::Nas, id: "nas", icon: "server", description: "Connect via SMB, NFS, or WebDAV", mac_only: false },
    ]
}

/// Whether an OAuth provider can be used, as the provider list reports it.
#[derive(Debug, Clone, PartialEq, Eq)]
pub struct ProviderOAuthState {
    pub available: bool,
    pub unavailable_reason: Option<String>,
    pub missing_fields: Option<Vec<&'static str>>,
    pub setup_hint: Option<String>,
}

/// For an OAuth provider: available when configured completely; otherwise
/// the reason, the missing fields and a hint naming its variables; a provider
/// without configuration is reported as such.
pub fn provider_oauth_state(provider: CloudProvider, config: Option<&OAuthConfig>) -> (r: ProviderOAuthState)
    ensures
        match config {
            None => !r.available && (r.unavailable_reason matches Some(m) && m@ == "OAuth config missing"@)
                && r.missing_fields is None && r.setup_hint is None,
            Some(c) => {
                let missing = missing_oauth_fields(c.client_id@, c.client_secret@, c.redirect_uri@);
                let hint = (match provider {
                    CloudProvider::GoogleDrive => "GOOGLE_CLIENT_ID/GOOGLE_CLIENT_SECRET"@,
                    CloudProvider::Dropbox => "DROPBOX_CLIENT_ID/DROPBOX_CLIENT_SECRET"@,
                    CloudProvider::OneDrive => "ONEDRIVE_CLIENT_ID/ONEDRIVE_CLIENT_SECRET"@,
                    _ => "N/A"@,
                });
                &&& r.available == (missing.len() == 0)
                &&& r.available ==> r.unavailable_reason is None && r.missing_fields is None && r.setup_hint is None
                &&& !r.available ==> (r.unavailable_reason matches Some(m) && m@ == "Missing OAuth credentials. Set "@ + hint + "."@)
                &&& !r.available ==> (r.missing_fields matches Some(f) && field_views(f@) == missing)
                &&& !r.available ==> (r.setup_hint matches Some(h) && h@ == "Configure "@ + hint + " and restart the server."@)
            },
        },
{
    match config {
        None => ProviderOAuthState {
            available: false,
            unavailable_reason: Some("OAuth config missing".to_string()),
            missing_fields: None,
            setup_hint: None,
        },
        Some(c) => {
            let a = oauth_config_availability(provider, c);
            if a.available {
                ProviderOAuthState { available: true, unavailable_reason: None, missing_fields: None, setup_hint: None }
            } else {
                let mut reason: Vec<char> = Vec::new();
                push_str(&mut reason, "Missing OAuth credentials. Set ");
                push_str(&mut reason, a.env_hint);
                push_str(&mut reason, ".");
                let mut hint: Vec<char> = Vec::new();
                push_str(&mut hint, "Configure ");
                push_str(&mut hint, a.env_hint);
                push_str(&mut hint, " and restart the server.");
                ProviderOAuthState {
                    available: false,
                    unavailable_reason: Some(string_of(reason.as_slice())),
                    missing_fields: Some(a.missing_fields),
                    setup_hint: Some(string_of(hint.as_slice())),
                }
            }
        },
    }
}

/// The message when an OAuth client is not configured.
pub fn oauth_not_configured_message(provider: CloudProvider, env_hint: &str) -> (r: String)
    ensures
        r@ == "OAuth credentials not configured for "@ + provider.spec_display_name() + ". Set "@ + env_hint@ + " environment variables."@,
{
    let mut v: Vec<char> = Vec::new();
    push_str(&mut v, "OAuth credentials not configured for ");
    push_str(&mut v, provider.display_name());
    push_str(&mut v, ". Set ");
    push_str(&mut v, env_hint);
    push_str(&mut v, " environment variables.");
    string_of(v.as_slice())
}

/// OAuth states live ten minutes: one created before `now - 600` seconds
/// has expired.
pub fn oauth_state_expired(created_at: i64, now: i64) -> (r: bool)
    requires
        now >= i64::MIN + 600,
    ensures
        r == (created_at < now - 600),
{
    created_at < now - 600
}

/// Why an OAuth callback is refused before the code is exchanged.
#[derive(Debug, Clone, PartialEq, Eq)]
pub enum CallbackRefusal {
    /// "OAuth error: <error>"
    ProviderError(String),
    /// "Missing authorization code"
    MissingCode,
    /// "Missing state"
    MissingState,
    /// "Unknown provider"
    UnknownProvider,
}

/// A callback carries no error, a code and a state, for an OAuth provider.
pub fn oauth_callback_check(query: &OAuthCallback, provider_key: &str) -> (r: Result<(String, String, CloudProvider), CallbackRefusal>)
    ensures
        query.error matches Some(e) ==> (r matches Err(CallbackRefusal::ProviderError(m)) && m == e),
        query.error is None && query.code is None ==> r == Err::<(String, String, CloudProvider), CallbackRefusal>(CallbackRefusal::MissingCode),
        query.error is None && query.code is Some && query.state is None
            ==> r == Err::<(String, String, CloudProvider), CallbackRefusal>(CallbackRefusal::MissingState),
        query.error is None && query.code is Some && query.state is Some ==> match r {
            Ok((code, st, p)) => code == query.code->0 && st == query.state->0
                && Some(p) == (if provider_key@ == "google_drive"@ { Some(CloudProvider::GoogleDrive) }
                    else if provider_key@ == "dropbox"@ { Some(CloudProvider::Dropbox) }
                    else if provider_key@ == "onedrive"@ { Some(CloudProvider::OneDrive) }
                    else { None }),
            Err(e) => e == CallbackRefusal::UnknownProvider && !(provider_key@ == "google_drive"@
                || provider_key@ == "dropbox"@ || provider_key@ == "onedrive"@),
        },
{
    match &query.error {
        Some(e) => return Err(CallbackRefusal::ProviderError(e.clone())),
        None => {},
    }
    let code = match &query.code {
        Some(c) => c.clone(),
        None => return Err(CallbackRefusal::MissingCode),
    };
    let st = match &query.state {
        Some(s) => s.clone(),
        None => return Err(CallbackRefusal::MissingState),
    };
    match oauth_provider_from_key(provider_key) {
        Some(p) => Ok((code, st, p)),
        None => Err(CallbackRefusal::UnknownProvider),
    }
}

impl CallbackRefusal {
    pub fn message(&self) -> (r: String)
        ensures
            r@ == (match *self {
                CallbackRefusal::ProviderError(e) => "OAuth error: "@ + e@,
                CallbackRefusal::MissingCode => "Missing authorization code"@,
                CallbackRefusal::MissingState => "Missing state"@,
                CallbackRefusal::UnknownProvider => "Unknown provider"@,
            }),
    {
        match self {
            CallbackRefusal::ProviderError(e) => {
                let mut v: Vec<char> = Vec::new();
                push_str(&mut v, "OAuth error: ");
                push_str(&mut v, e.as_str());
                string_of(v.as_slice())
            },
            CallbackRefusal::MissingCode => "Missing authorization code".to_string(),
            CallbackRefusal::MissingState => "Missing state".to_string(),
            CallbackRefusal::UnknownProvider => "Unknown provider".to_string(),
        }
    }
}

/// A stored OAuth state must exist for this provider and must not have
/// expired (it is consumed either way).
pub fn check_oauth_state(stored: Option<(CloudProvider, i64)>, provider: CloudProvider, now: i64) -> (r: Result<(), &'static str>)
    requires
        now >= i64::MIN + 600,
    ensures
        match stored {
            Some((p, created)) => if p == provider {
                if created < now - 600 { r matches Err(e) && e@ == "OAuth state expired"@ } else { r is Ok }
            } else {
                r matches Err(e) && e@ == "Invalid OAuth state"@
            },
            None => r matches Err(e) && e@ == "Invalid OAuth state"@,
        },
{
    match stored {
        Some((p, created)) => {
            if p == provider {
                if oauth_state_expired(created, now) {
                    Err("OAuth state expired")
                } else {
                    Ok(())
                }
            } else {
                Err("Invalid OAuth state")
            }
        },
        None => Err("Invalid OAuth state"),
    }
}

/// Where the browser goes after connecting: `<frontend>/?storage_connected=<id>`.
pub fn storage_connected_redirect(frontend_base: &str, connection_id: &str) -> (r: String)
    ensures
        r@ == frontend_base@ + "/?storage_connected="@ + connection_id@,
{
    let mut v: Vec<char> = Vec::new();
    push_str(&mut v, frontend_base);
    push_str(&mut v, "/?storage_connected=");
    push_str(&mut v, connection_id);
    string_of(v.as_slice())
}

/// What the server does to exchange an authorisation code: the token
/// endpoint, the form it posts, and where the account's profile is read.
#[derive(Debug, Clone, PartialEq, Eq)]
pub struct OAuthExchangePlan {
    pub token_url: &'static str,
    pub form: Vec<(&'static str, String)>,
    pub profile_url: &'static str,
    /// Dropbox reads the profile with a POST of `{}`; the others with a GET.
    pub profile_by_post: bool,
}

pub open spec fn form_views(f: Seq<(&'static str, String)>) -> Seq<(Seq<char>, Seq<char>)> {
    Seq::new(f.len(), |i: int| (f[i].0@, f[i].1@))
}

/// Google Drive, Dropbox and OneDrive connect through OAuth.
pub open spec fn oauth_provider(p: CloudProvider) -> bool {
    p == CloudProvider::GoogleDrive || p == CloudProvider::Dropbox || p == CloudProvider::OneDrive
}

/// The exchange of a code needs the client's id and secret; only Google
/// Drive, Dropbox and OneDrive exchange codes.
pub fn oauth_exchange_plan(provider: CloudProvider, config: &OAuthConfig, code: &str) -> (r: Result<OAuthExchangePlan, &'static str>)
    ensures
        (config.client_id@.len() == 0 || config.client_secret@.len() == 0) ==> (r matches Err(e) && e@ == "OAuth credentials not configured"@),
        !(config.client_id@.len() == 0 || config.client_secret@.len() == 0) && !oauth_provider(provider)
            ==> (r matches Err(e) && e@ == "Provider does not support OAuth here"@),
        !(config.client_id@.len() == 0 || config.client_secret@.len() == 0) && oauth_provider(provider) ==> (r matches Ok(plan) && {
            &&& form_views(plan.form@) == seq![
                ("code"@, code@),
                ("client_id"@, config.client_id@),
                ("client_secret"@, config.client_secret@),
                ("redirect_uri"@, config.redirect_uri@),
                ("grant_type"@, "authorization_code"@),
            ]
            &&& plan.token_url@ == (match provider {
                CloudProvider::GoogleDrive => "https://oauth2.googleapis.com/token"@,
                CloudProvider::Dropbox => "https://api.dropboxapi.com/oauth2/token"@,
                _ => "https://login.microsoftonline.com/common/oauth2/v2.0/token"@,
            })
            &&& plan.profile_url@ == (match provider {
                CloudProvider::GoogleDrive => "https://www.googleapis.com/oauth2/v2/userinfo"@,
                CloudProvider::Dropbox => "https://api.dropboxapi.com/2/users/get_current_account"@,
                _ => "https://graph.microsoft.com/v1.0/me"@,
            })
            &&& plan.profile_by_post == (provider == CloudProvider::Dropbox)
        }),
{
    if config.client_id.unicode_len() == 0 || config.client_secret.unicode_len() == 0 {
        return Err("OAuth credentials not configured");
    }
    let (token_url, profile_url, profile_by_post): (&'static str, &'static str, bool) = match provider {
        CloudProvider::GoogleDrive => ("https://oauth2.googleapis.com/token", "https://www.googleapis.com/oauth2/v2/userinfo", false),
        CloudProvider::Dropbox => ("https://api.dropboxapi.com/oauth2/token", "https://api.dropboxapi.com/2/users/get_current_account", true),
        CloudProvider::OneDrive => ("https://login.microsoftonline.com/common/oauth2/v2.0/token", "https://graph.microsoft.com/v1.0/me", false),
        _ => return Err("Provider does not support OAuth here"),
    };
    let form: Vec<(&'static str, String)> = vec![
        ("code", code.to_string()),
        ("client_id", config.client_id.clone()),
        ("client_secret", config.client_secret.clone()),
        ("redirect_uri", config.redirect_uri.clone()),
        ("grant_type", "authorization_code".to_string()),
    ];
    assert(form_views(form@) =~= seq![
        ("code"@, code@),
        ("client_id"@, config.client_id@),
        ("client_secret"@, config.client_secret@),
        ("redirect_uri"@, config.redirect_uri@),
        ("grant_type"@, "authorization_code"@),
    ]);
    Ok(OAuthExchangePlan { token_url, form, profile_url, profile_by_post })
}

/// The account's e-mail from its profile: OneDrive gives `mail`, else the
/// user principal name; the others give `email`.
pub fn profile_email(provider: CloudProvider, email: Option<String>, mail: Option<String>, principal: Option<String>) -> (r: Option<String>)
    ensures
        provider == CloudProvider::OneDrive ==> r == (match mail { Some(m) => Some(m), None => principal }),
        provider != CloudProvider::OneDrive ==> r == email,
{
    match provider {
        CloudProvider::OneDrive => match mail {
            Some(m) => Some(m),
            None => principal,
        },
        _ => email,
    }
}

/// Why a storage connection cannot be added by hand.
pub open spec fn spec_add_storage(provider_key: Seq<char>, bucket: Option<Seq<char>>, endpoint: Option<Seq<char>>) -> Result<CloudProvider, Seq<char>> {
    let p = if provider_key == "s3"@ { Some(CloudProvider::S3) }
        else if provider_key == "gcs"@ { Some(CloudProvider::Gcs) }
        else if provider_key == "azure"@ { Some(CloudProvider::Azure) }
        else if provider_key == "nas"@ { Some(CloudProvider::Nas) }
        else if provider_key == "icloud"@ { Some(CloudProvider::ICloudDrive) }
        else { None };
    match p {
        None => Err("Use OAuth for this provider"@),
        Some(pr) => if (pr == CloudProvider::S3 || pr == CloudProvider::Gcs || pr == CloudProvider::Azure)
            && (match bucket { Some(b) => trim(b).len() == 0, None => true }) {
            Err("Bucket is required for this provider"@)
        } else if pr == CloudProvider::Nas && (match endpoint { Some(e) => trim(e).len() == 0, None => true }) {
            Err("Endpoint is required for NAS"@)
        } else {
            Ok(pr)
        },
    }
}

pub open spec fn opt_text(o: Option<String>) -> Option<Seq<char>> {
    match o { Some(s) => Some(s@), None => None }
}

/// A hand-added connection: its provider, its id `<provider>:<storage id of
/// the name>`, and its base path (`/TrueShot` by default).
pub fn add_storage_plan(body: &AddStorageRequest) -> (r: Result<(CloudProvider, String, String), &'static str>)
    ensures
        match r {
            Ok((p, id, base)) => spec_add_storage(body.provider@, opt_text(body.bucket), opt_text(body.endpoint)) == Ok::<CloudProvider, Seq<char>>(p)
                && id@ == body.provider@ + seq![':'] + spec_normalize_storage_id(body.name@)
                && base@ == (match body.base_path { Some(b) => b@, None => "/TrueShot"@ }),
            Err(e) => spec_add_storage(body.provider@, opt_text(body.bucket), opt_text(body.endpoint)) == Err::<CloudProvider, Seq<char>>(e@),
        },
{
    let key = body.provider.as_str();
    let p = if str_equal(key, "s3") { CloudProvider::S3 }
        else if str_equal(key, "gcs") { CloudProvider::Gcs }
        else if str_equal(key, "azure") { CloudProvider::Azure }
        else if str_equal(key, "nas") { CloudProvider::Nas }
        else if str_equal(key, "icloud") { CloudProvider::ICloudDrive }
        else { return Err("Use OAuth for this provider"); };
    let bucket_blank = match &body.bucket { Some(b) => blank(b.as_str()), None => true };
    if (p == CloudProvider::S3 || p == CloudProvider::Gcs || p == CloudProvider::Azure) && bucket_blank {
        return Err("Bucket is required for this provider");
    }
    let endpoint_blank = match &body.endpoint { Some(e) => blank(e.as_str()), None => true };
    if p == CloudProvider::Nas && endpoint_blank {
        return Err("Endpoint is required for NAS");
    }
    let mut id: Vec<char> = Vec::new();
    push_str(&mut id, key);
    id.push(':');
    let norm = normalize_storage_id(body.name.as_str());
    push_str(&mut id, norm.as_str());
    let base = match &body.base_path { Some(b) => b.clone(), None => "/TrueShot".to_string() };
    Ok((p, string_of(id.as_slice()), base))
}

/// Why a backup cannot start.
#[derive(Debug, Clone, Copy, PartialEq, Eq, Structural)]
pub enum BackupStartRefusal {
    /// "Project not found"
    ProjectNotFound,
    /// "remote_path requires storage_id"
    RemotePathWithoutStorage,
    /// "Storage connection not found"
    StorageNotFound,
}

/// A backup needs its project, a storage connection for a remote path, and
/// a known connection when one is named (`connection_found` is whether it is).
pub fn backup_start_check(project_exists: bool, request: &BackupStartRequest, connection_found: bool) -> (r: Result<(), BackupStartRefusal>)
    ensures
        !project_exists ==> r == Err::<(), BackupStartRefusal>(BackupStartRefusal::ProjectNotFound),
        project_exists && request.remote_path is Some && request.storage_id is None
            ==> r == Err::<(), BackupStartRefusal>(BackupStartRefusal::RemotePathWithoutStorage),
        project_exists && !(request.remote_path is Some && request.storage_id is None) && request.storage_id is Some && !connection_found
            ==> r == Err::<(), BackupStartRefusal>(BackupStartRefusal::StorageNotFound),
        project_exists && !(request.remote_path is Some && request.storage_id is None) && (request.storage_id is None || connection_found)
            ==> r is Ok,
{
    if !project_exists {
        return Err(BackupStartRefusal::ProjectNotFound);
    }
    if request.remote_path.is_some() && request.storage_id.is_none() {
        return Err(BackupStartRefusal::RemotePathWithoutStorage);
    }
    if request.storage_id.is_some() && !connection_found {
        return Err(BackupStartRefusal::StorageNotFound);
    }
    Ok(())
}

/// The remote path of a backup: the requested one, else, with a connection,
/// the default path below the connection's base path.
pub fn backup_remote_path(requested: Option<String>, connection_base: Option<&str>, project_id: &str, job_id: &str) -> (r: Option<String>)
    ensures
        requested is Some ==> r == requested,
        requested is None && connection_base is None ==> r is None,
        requested is None && connection_base is Some ==> (r matches Some(p)
            && p@ == spec_join_remote_path(connection_base->0@, "backups/"@ + project_id@ + "/"@ + job_id@ + ".tar.gz"@)),
{
    match requested {
        Some(p) => Some(p),
        None => match connection_base {
            Some(base) => Some(default_backup_remote_path(base, project_id, job_id)),
            None => None,
        },
    }
}

/// Where a backup's archive is written: `<backups>/<project>/<job>.tar.gz`.
pub fn backup_archive_path(backup_root: &str, project_id: &str, job_id: &str) -> (r: String)
    ensures
        r@ == path_join(path_join(backup_root@, project_id@), job_id@ + ".tar.gz"@),
{
    let root = chars_of(backup_root);
    let project = chars_of(project_id);
    let dir = join_path(root.as_slice(), project.as_slice());
    let mut name = chars_of(job_id);
    push_str(&mut name, ".tar.gz");
    let full = join_path(dir.as_slice(), name.as_slice());
    string_of(full.as_slice())
}

/// Why a restore cannot start.
#[derive(Debug, Clone, Copy, PartialEq, Eq, Structural)]
pub enum RestoreRefusal {
    /// "Backup job not found"
    JobNotFound,
    /// "Backup job is not completed"
    NotCompleted,
    /// "Backup archive missing"
    ArchiveMissing,
    /// "Storage connection not found"
    StorageNotFound,
    /// "Target project already exists"
    TargetExists,
}

/// Where a restore reads its archive from.
#[derive(Debug, Clone, Copy, PartialEq, Eq, Structural)]
pub enum ArchiveSource {
    /// The local archive is there.
    Local,
    /// It is downloaded from the job's storage connection first.
    Download,
}

/// What a restore knows of its source job.
#[derive(Debug, Clone, Copy, PartialEq, Eq, Structural)]
pub struct RestoreSourceFacts {
    pub job_found: bool,
    pub status: BackupJobStatus,
    pub has_archive_path: bool,
    pub archive_exists: bool,
    /// The job names both a storage connection and a remote path.
    pub has_remote: bool,
    pub connection_found: bool,
}

/// A restore needs a completed backup whose archive is on disk, or can be
/// downloaded from its storage connection.
pub fn restore_source(f: RestoreSourceFacts) -> (r: Result<ArchiveSource, RestoreRefusal>)
    ensures
        !f.job_found ==> r == Err::<ArchiveSource, RestoreRefusal>(RestoreRefusal::JobNotFound),
        f.job_found && f.status != BackupJobStatus::Completed ==> r == Err::<ArchiveSource, RestoreRefusal>(RestoreRefusal::NotCompleted),
        f.job_found && f.status == BackupJobStatus::Completed && !f.has_archive_path
            ==> r == Err::<ArchiveSource, RestoreRefusal>(RestoreRefusal::ArchiveMissing),
        f.job_found && f.status == BackupJobStatus::Completed && f.has_archive_path && f.archive_exists
            ==> r == Ok::<ArchiveSource, RestoreRefusal>(ArchiveSource::Local),
        f.job_found && f.status == BackupJobStatus::Completed && f.has_archive_path && !f.archive_exists && !f.has_remote
            ==> r == Err::<ArchiveSource, RestoreRefusal>(RestoreRefusal::ArchiveMissing),
        f.job_found && f.status == BackupJobStatus::Completed && f.has_archive_path && !f.archive_exists && f.has_remote
            ==> r == (if f.connection_found { Ok::<ArchiveSource, RestoreRefusal>(ArchiveSource::Download) } else { Err::<ArchiveSource, RestoreRefusal>(RestoreRefusal::StorageNotFound) }),
{
    if !f.job_found {
        return Err(RestoreRefusal::JobNotFound);
    }
    if f.status != BackupJobStatus::Completed {
        return Err(RestoreRefusal::NotCompleted);
    }
    if !f.has_archive_path {
        return Err(RestoreRefusal::ArchiveMissing);
    }
    if f.archive_exists {
        return Ok(ArchiveSource::Local);
    }
    if !f.has_remote {
        return Err(RestoreRefusal::ArchiveMissing);
    }
    if f.connection_found { Ok(ArchiveSource::Download) } else { Err(RestoreRefusal::StorageNotFound) }
}

/// A backup with a recorded digest is restored only when the archive's
/// digest equals it.
pub fn archive_integrity_ok(expected: Option<&str>, actual: &str) -> (r: bool)
    ensures
        r == (match expected { Some(e) => e@ == actual@, None => true }),
{
    match expected {
        Some(e) => str_equal(e, actual),
        None => true,
    }
}

/// A backup with a recorded digest is restored only when the lower-case hex
/// SHA-256 of the archive's bytes equals it.
pub fn archive_digest_ok(expected: Option<&str>, archive: &[u8]) -> (r: bool)
    ensures
        r == (match expected { Some(e) => e@ == hex_lower(sha256_of_bytes(archive@)), None => true }),
{
    match expected {
        Some(e) => {
            let actual = sha256_hex(archive);
            str_equal(e, actual.as_str())
        },
        None => true,
    }
}

/// A backup or restore job as it is listed and stored.
#[derive(Debug, Clone, PartialEq, Eq)]
pub struct BackupJob {
    pub id: String,
    pub job_type: BackupJobType,
    pub project_id: String,
    pub label: Option<String>,
    pub storage_id: Option<String>,
    pub remote_path: Option<String>,
    pub status: BackupJobStatus,
    /// RFC 3339 times.
    pub created_at: String,
    pub started_at: Option<String>,
    pub finished_at: Option<String>,
    pub archive_path: Option<String>,
    pub size_bytes: Option<u64>,
    pub sha256: Option<String>,
    pub error: Option<String>,
    pub restore_project_id: Option<String>,
}

/// The job that restores `source` into the project `target`: a pending
/// restore with the given id and creation time, carrying over the source's
/// project, label, storage connection, remote path, archive, size and digest.
pub fn restore_job(source: &BackupJob, target: String, id: String, now: String) -> (r: BackupJob)
    ensures
        r.id == id,
        r.job_type == BackupJobType::Restore,
        r.status == BackupJobStatus::Pending,
        r.project_id == source.project_id,
        r.label == source.label,
        r.storage_id == source.storage_id,
        r.remote_path == source.remote_path,
        r.created_at == now,
        r.started_at is None,
        r.finished_at is None,
        r.archive_path == source.archive_path,
        r.size_bytes == source.size_bytes,
        r.sha256 == source.sha256,
        r.error is None,
        r.restore_project_id == Some(target),
{
    BackupJob {
        id,
        job_type: BackupJobType::Restore,
        project_id: source.project_id.clone(),
        label: source.label.clone(),
        storage_id: source.storage_id.clone(),
        remote_path: source.remote_path.clone(),
        status: BackupJobStatus::Pending,
        created_at: now,
        started_at: None,
        finished_at: None,
        archive_path: source.archive_path.clone(),
        size_bytes: source.size_bytes,
        sha256: source.sha256.clone(),
        error: None,
        restore_project_id: Some(target),
    }
}

/// The ids of a job table.
pub open spec fn job_ids(jobs: Seq<BackupJob>) -> Seq<Seq<char>> {
    jobs.map_values(|j: BackupJob| j.id@)
}

/// A job table keyed by id: no id occurs twice.
pub open spec fn distinct_job_ids(jobs: Seq<BackupJob>) -> bool {
    forall|i: int, j: int| 0 <= i < j < jobs.len() ==> jobs[i].id@ != jobs[j].id@
}

/// Stores a job under its id: the job with that id is replaced in place, or
/// the job is added at the end when its id is new; no other job changes.
pub fn store_job(jobs: &mut Vec<BackupJob>, job: BackupJob)
    requires
        distinct_job_ids(old(jobs)@),
    ensures
        distinct_job_ids(final(jobs)@),
        (exists|k: int| 0 <= k < old(jobs)@.len() && old(jobs)@[k].id@ == job.id@) ==> (exists|k: int|
            0 <= k < old(jobs)@.len() && old(jobs)@[k].id@ == job.id@ && final(jobs)@ == old(jobs)@.update(k, job)),
        !(exists|k: int| 0 <= k < old(jobs)@.len() && old(jobs)@[k].id@ == job.id@) ==> final(jobs)@ == old(jobs)@.push(job),
{
    let mut i: usize = 0;
    while i < jobs.len()
        invariant
            i <= jobs@.len(),
            jobs@ == old(jobs)@,
            distinct_job_ids(jobs@),
            forall|k: int| 0 <= k < i ==> jobs@[k].id@ != job.id@,
        decreases jobs@.len() - i,
    {
        if str_equal(jobs[i].id.as_str(), job.id.as_str()) {
            let ghost before = jobs@;
            let ghost jid = job.id@;
            assert(before[i as int].id@ == jid);
            jobs.set(i, job);
            proof {
                assert forall|a: int, b: int| 0 <= a < b < jobs@.len() implies jobs@[a].id@ != jobs@[b].id@ by {
                    if a == i as int {
                        assert(before[b].id@ != before[i as int].id@);
                    } else if b == i as int {
                        assert(before[a].id@ != before[i as int].id@);
                    }
                }
            }
            return;
        }
        i = i + 1;
    }
    jobs.push(job);
}

/// The project a backup is restored into: the requested one, else the
/// backed-up project; it must not exist yet.
pub fn restore_target(requested: Option<String>, source_project: &str, target_exists: bool) -> (r: Result<String, RestoreRefusal>)
    ensures
        target_exists ==> r == Err::<String, RestoreRefusal>(RestoreRefusal::TargetExists),
        !target_exists ==> (r matches Ok(t) && t@ == (match requested { Some(q) => q@, None => source_project@ })),
{
    if target_exists {
        return Err(RestoreRefusal::TargetExists);
    }
    match requested {
        Some(q) => Ok(q),
        None => Ok(source_project.to_string()),
    }
}

/// A backup job moves from pending to running, and from running to completed
/// or failed; no other move is made.
pub open spec fn backup_step_allowed(from: BackupJobStatus, to: BackupJobStatus) -> bool {
    (from == BackupJobStatus::Pending && to == BackupJobStatus::Running)
        || (from == BackupJobStatus::Running && (to == BackupJobStatus::Completed || to == BackupJobStatus::Failed))
}

/// The next status of a backup job after its worker starts or finishes.
pub fn backup_job_next(current: BackupJobStatus, started: bool, succeeded: Option<bool>) -> (r: BackupJobStatus)
    requires
        started ==> current == BackupJobStatus::Pending,
        succeeded is Some ==> current == BackupJobStatus::Running,
        started != (succeeded is Some),
    ensures
        backup_step_allowed(current, r),
        started ==> r == BackupJobStatus::Running,
        succeeded == Some(true) ==> r == BackupJobStatus::Completed,
        succeeded == Some(false) ==> r == BackupJobStatus::Failed,
{
    if started {
        BackupJobStatus::Running
    } else {
        match succeeded {
            Some(true) => BackupJobStatus::Completed,
            _ => BackupJobStatus::Failed,
        }
    }
}
} // verus!
