//! Application configuration: its shape, its defaults, the rule that every
//! enabled target has an RTMP URL, and how the configuration store decides
//! where the configuration comes from when it opens.

use crate::text::{chars_of, push_str, range_eq, trim_bounds, trimmed};
use vstd::prelude::*;

verus! {

/// Listen addresses, written `ip:port`.
#[derive(Debug, Clone)]
pub struct ServerSettings {
    pub listen: String,
    pub health_listen: String,
    pub api_listen: String,
}

pub fn default_listen() -> (r: String)
    ensures
        r@ == "0.0.0.0:1935"@,
{
    "0.0.0.0:1935".to_owned()
}

pub fn default_health_listen() -> (r: String)
    ensures
        r@ == "127.0.0.1:8080"@,
{
    "127.0.0.1:8080".to_owned()
}

pub fn default_api_listen() -> (r: String)
    ensures
        r@ == "0.0.0.0:3000"@,
{
    "0.0.0.0:3000".to_owned()
}

impl Default for ServerSettings {
    fn default() -> (r: ServerSettings)
        ensures
            r.listen@ == "0.0.0.0:1935"@,
            r.health_listen@ == "127.0.0.1:8080"@,
            r.api_listen@ == "0.0.0.0:3000"@,
    {
        ServerSettings {
            listen: default_listen(),
            health_listen: default_health_listen(),
            api_listen: default_api_listen(),
        }
    }
}

/// Where going-live notifications go and what they say.
#[derive(Debug, Clone)]
pub struct NotificationSettings {
    pub discord_webhook: Option<String>,
    pub live_message: String,
    pub webhook_url: Option<String>,
}

pub fn default_live_message() -> (r: String)
    ensures
        r@ == "Stream is LIVE"@,
{
    "Stream is LIVE".to_owned()
}

impl Default for NotificationSettings {
    fn default() -> (r: NotificationSettings)
        ensures
            r.discord_webhook is None,
            r.live_message@ == "Stream is LIVE"@,
            r.webhook_url is None,
    {
        NotificationSettings { discord_webhook: None, live_message: default_live_message(), webhook_url: None }
    }
}

/// One RTMP destination that a published stream is relayed to.
#[derive(Debug, Clone)]
pub struct TargetConfig {
    pub name: String,
    pub url: String,
    pub stream_key: String,
    pub public_url: Option<String>,
    pub enabled: bool,
}

/// Targets are enabled unless the configuration says otherwise.
pub fn default_enabled() -> (r: bool)
    ensures
        r,
{
    true
}

/// The whole configuration.
#[derive(Debug, Clone)]
pub struct AppConfig {
    pub server: ServerSettings,
    pub notifications: NotificationSettings,
    pub targets: Vec<TargetConfig>,
}

impl Default for AppConfig {
    fn default() -> (r: AppConfig)
        ensures
            r.server.listen@ == "0.0.0.0:1935"@,
            r.server.health_listen@ == "127.0.0.1:8080"@,
            r.server.api_listen@ == "0.0.0.0:3000"@,
            r.notifications.discord_webhook is None,
            r.notifications.live_message@ == "Stream is LIVE"@,
            r.notifications.webhook_url is None,
            r.targets@.len() == 0,
    {
        AppConfig {
            server: ServerSettings::default(),
            notifications: NotificationSettings::default(),
            targets: Vec::new(),
        }
    }
}

/// Why a configuration was refused; each names the target at fault.
#[derive(Debug, Clone, PartialEq, Eq)]
pub enum ConfigError {
    /// An enabled target has an empty RTMP URL.
    EmptyUrl(String),
    /// An enabled target's URL starts with neither `rtmp://` nor `rtmps://`.
    InvalidUrl(String),
}

impl ConfigError {
    /// The reason, naming the target.
    pub fn message(&self) -> (r: String)
        ensures
            match self {
                ConfigError::EmptyUrl(name) => r@ == "Target '"@ + name@ + "' has an empty RTMP URL."@,
                ConfigError::InvalidUrl(name) => r@ == "Target '"@ + name@
                    + "' has an invalid URL. It must start with rtmp:// or rtmps://"@,
            },
    {
        let mut r = "Target '".to_owned();
        match self {
            ConfigError::EmptyUrl(name) => {
                push_str(&mut r, name.as_str());
                push_str(&mut r, "' has an empty RTMP URL.");
            },
            ConfigError::InvalidUrl(name) => {
                push_str(&mut r, name.as_str());
                push_str(&mut r, "' has an invalid URL. It must start with rtmp:// or rtmps://");
            },
        }
        r
    }
}

pub open spec fn starts_with(s: Seq<char>, prefix: Seq<char>) -> bool {
    prefix.len() <= s.len() && s.take(prefix.len() as int) == prefix
}

/// What is wrong with a target: 1 for an empty URL, 2 for a URL of another scheme.
pub open spec fn target_problem(t: TargetConfig) -> Option<int> {
    let url = crate::text::trim(t.url@);
    if !t.enabled {
        None
    } else if url.len() == 0 {
        Some(1)
    } else if !starts_with(url, "rtmp://"@) && !starts_with(url, "rtmps://"@) {
        Some(2)
    } else {
        None
    }
}

/// `e` reports `problem` of target `t`.
pub open spec fn reports(e: ConfigError, t: TargetConfig, problem: int) -> bool {
    match e {
        ConfigError::EmptyUrl(name) => problem == 1 && name@ == t.name@,
        ConfigError::InvalidUrl(name) => problem == 2 && name@ == t.name@,
    }
}

/// Target `i` is the first with a problem, and `e` reports it.
pub open spec fn first_problem_at(targets: Seq<TargetConfig>, i: int, e: ConfigError) -> bool {
    &&& 0 <= i < targets.len()
    &&& forall|j: int| 0 <= j < i ==> target_problem(#[trigger] targets[j]) is None
    &&& target_problem(targets[i]) matches Some(p) && reports(e, targets[i], p)
}

/// A configuration with no enabled target is valid: the stream is then only
/// ingested and previewed, and nothing is relayed. Disabled targets are never
/// checked, whatever their URLs.
pub proof fn ingest_only_configurations_are_valid(targets: Seq<TargetConfig>)
    requires
        forall|i: int| 0 <= i < targets.len() ==> !(#[trigger] targets[i]).enabled,
    ensures
        forall|i: int| 0 <= i < targets.len() ==> target_problem(#[trigger] targets[i]) is None,
{
}

fn has_prefix(v: &Vec<char>, from: usize, to: usize, prefix: &[char]) -> (r: bool)
    requires
        from <= to <= v.len(),
    ensures
        r == starts_with(v@.subrange(from as int, to as int), prefix@),
{
    if to - from < prefix.len() {
        return false;
    }
    let r = range_eq(v, from, from + prefix.len(), prefix);
    assert(v@.subrange(from as int, to as int).take(prefix@.len() as int) =~= v@.subrange(
        from as int,
        from + prefix@.len(),
    ));
    r
}

fn check_target(t: &TargetConfig) -> (r: Result<(), ConfigError>)
    ensures
        match target_problem(*t) {
            Some(p) => r matches Err(e) && reports(e, *t, p),
            None => r is Ok,
        },
{
    if !t.enabled {
        return Ok(());
    }
    let v = chars_of(t.url.as_str());
    let (a, b) = trim_bounds(&v, 0, v.len());
    assert(v@.subrange(0, v@.len() as int) =~= t.url@);
    if a == b {
        return Err(ConfigError::EmptyUrl(t.name.clone()));
    }
    let rtmp = "rtmp://".to_owned();
    let rtmps = "rtmps://".to_owned();
    let rtmp_chars = chars_of(rtmp.as_str());
    let rtmps_chars = chars_of(rtmps.as_str());
    if !has_prefix(&v, a, b, rtmp_chars.as_slice()) && !has_prefix(&v, a, b, rtmps_chars.as_slice()) {
        return Err(ConfigError::InvalidUrl(t.name.clone()));
    }
    Ok(())
}

impl AppConfig {
    /// Checks every enabled target's URL; a configuration with no enabled target
    /// is valid (the stream is then only ingested).
    pub fn validate(&self) -> (r: Result<(), ConfigError>)
        ensures
            r is Ok <==> forall|i: int|
                0 <= i < self.targets@.len() ==> target_problem(#[trigger] self.targets@[i]) is None,
            r matches Err(e) ==> exists|i: int| #[trigger] first_problem_at(self.targets@, i, e),
    {
        let mut k: usize = 0;
        while k < self.targets.len()
            invariant
                k <= self.targets@.len(),
                forall|j: int| 0 <= j < k ==> target_problem(#[trigger] self.targets@[j]) is None,
            decreases self.targets@.len() - k,
        {
            match check_target(&self.targets[k]) {
                Ok(()) => {},
                Err(e) => {
                    assert(first_problem_at(self.targets@, k as int, e));
                    return Err(e);
                },
            }
            k += 1;
        }
        Ok(())
    }
}

/// SQLite-backed configuration storage, known by the database path.
#[derive(Debug, Clone)]
pub struct ConfigStore {
    path: String,
}

/// The storage layout version written once the store is initialized.
pub const STORAGE_VERSION: &'static str = "1";

/// Where an opening store takes its configuration from: what the database
/// holds, else an existing legacy TOML file, else the defaults.
pub open spec fn source_for(stored_present: bool, is_toml: bool, toml_exists: bool) -> ConfigSource {
    if stored_present {
        ConfigSource::Stored
    } else if is_toml && toml_exists {
        ConfigSource::LegacyToml
    } else {
        ConfigSource::Defaults
    }
}

/// A legacy TOML file is a bootstrap: it is imported only while the database
/// holds no configuration, and once imported (and so stored), every later
/// opening reads the database, whatever the TOML file holds.
pub proof fn legacy_toml_is_imported_once(stored_present: bool, is_toml: bool, toml_exists: bool)
    ensures
        source_for(stored_present, is_toml, toml_exists) == ConfigSource::LegacyToml ==> !stored_present,
        source_for(true, is_toml, toml_exists) == ConfigSource::Stored,
{
}

/// Opening reads what is stored whenever something is; otherwise it imports
/// the legacy file only when the path names a TOML file that exists, and in
/// every other case starts from the defaults.
pub proof fn opening_chooses_stored_then_existing_toml_then_defaults(
    stored_present: bool,
    is_toml: bool,
    toml_exists: bool,
)
    ensures
        stored_present ==> source_for(stored_present, is_toml, toml_exists) == ConfigSource::Stored,
        source_for(stored_present, is_toml, toml_exists) == ConfigSource::LegacyToml ==> is_toml
            && toml_exists && !stored_present,
        !stored_present && !(is_toml && toml_exists) ==> source_for(stored_present, is_toml, toml_exists)
            == ConfigSource::Defaults,
        source_for(stored_present, is_toml, toml_exists) == ConfigSource::Stored ==> stored_present,
{
}

/// The extension of the last component of `path`, as `Path::extension` reads it.
pub uninterp spec fn path_extension(path: Seq<char>) -> Option<Seq<char>>;

/// `path` with its extension replaced by `extension`, as `Path::with_extension` makes it.
pub uninterp spec fn path_with_extension(path: Seq<char>, extension: Seq<char>) -> Seq<char>;

/// `std::path::Path::extension`, read back as text. The path comes from a
/// `&str`, so the extension is valid UTF-8 and the lossy conversion is exact;
/// the contract names the result [`path_extension`].
#[verifier::external_body]
fn extension_of(path: &str) -> (r: Option<String>)
    ensures
        crate::chat::opt_view(r) == path_extension(path@),
{
    std::path::Path::new(path).extension().map(|e| e.to_string_lossy().into_owned())
}

/// `std::path::Path::with_extension`, read back as text (exact for a path made
/// from `&str`); the contract names the result [`path_with_extension`]. Setting
/// an extension that holds a path separator panics, so such an extension is
/// ruled out.
#[verifier::external_body]
fn with_extension(path: &str, extension: &str) -> (r: String)
    requires
        forall|i: int| 0 <= i < extension@.len() ==> extension@[i] != '/' && extension@[i] != '\\',
    ensures
        r@ == path_with_extension(path@, extension@),
{
    std::path::Path::new(path).with_extension(extension).to_string_lossy().into_owned()
}

/// A configuration path names a legacy TOML file when its extension is `toml`.
pub open spec fn is_toml_path(config_path: Seq<char>) -> bool {
    path_extension(config_path) == Some("toml"@)
}

/// The database of a configuration path: the sibling `.sqlite3` file of a
/// legacy TOML file, else the path itself.
pub open spec fn database_path_spec(config_path: Seq<char>) -> Seq<char> {
    if is_toml_path(config_path) {
        path_with_extension(config_path, "sqlite3"@)
    } else {
        config_path
    }
}

/// Whether an extension is the legacy `toml` one.
pub fn is_toml_extension(extension: &Option<String>) -> (r: bool)
    ensures
        r == (crate::chat::opt_view(*extension) == Some("toml"@)),
{
    match extension {
        Some(e) => {
            let toml = "toml".to_owned();
            let r = *e == toml;
            r
        },
        None => false,
    }
}

/// Where the configuration comes from when the store opens.
#[derive(Debug, Clone, Copy, PartialEq, Eq, Structural)]
pub enum ConfigSource {
    /// Read the legacy TOML file, validate it, and save it to the database.
    LegacyToml,
    /// Use what the database holds.
    Stored,
    /// Save and use the default configuration.
    Defaults,
}

impl ConfigStore {
    /// A store for the database at `path`.
    pub fn new(path: String) -> (r: ConfigStore)
        ensures
            r.path_view() == path@,
    {
        ConfigStore { path }
    }

    pub closed spec fn path_view(&self) -> Seq<char> {
        self.path@
    }

    /// The database path.
    pub fn path(&self) -> (r: &str)
        ensures
            r@ == self.path_view(),
    {
        self.path.as_str()
    }

    /// Opening fails when a legacy TOML path is given and neither it nor its
    /// database exists.
    pub fn open_is_possible(is_toml: bool, toml_exists: bool, database_exists: bool) -> (r: bool)
        ensures
            r == !(is_toml && !toml_exists && !database_exists),
    {
        !(is_toml && !toml_exists && !database_exists)
    }

    /// The store for a configuration path, and whether that path names a
    /// legacy TOML file: such a file's database is its sibling `.sqlite3` file.
    pub fn for_config_path(config_path: &str) -> (r: (ConfigStore, bool))
        ensures
            r.1 == is_toml_path(config_path@),
            r.0.path_view() == database_path_spec(config_path@),
    {
        let extension = extension_of(config_path);
        let is_toml = is_toml_extension(&extension);
        if is_toml {
            proof {
                reveal_strlit("sqlite3");
            }
            (ConfigStore::new(with_extension(config_path, "sqlite3")), true)
        } else {
            (ConfigStore::new(config_path.to_owned()), false)
        }
    }

    /// Chooses the configuration source: what the database holds, else an
    /// existing legacy file, else the defaults.
    pub fn config_source(stored_present: bool, is_toml: bool, toml_exists: bool) -> (r: ConfigSource)
        ensures
            r == source_for(stored_present, is_toml, toml_exists),
    {
        if stored_present {
            ConfigSource::Stored
        } else if is_toml && toml_exists {
            ConfigSource::LegacyToml
        } else {
            ConfigSource::Defaults
        }
    }
}

} // verus!
