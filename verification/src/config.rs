//! Configuration (`config.toml`) and the directories that hold the
//! configuration, the database and the logs.

use vstd::prelude::*;

use directories::ProjectDirs;

use crate::text::{chars_of, concat2, string_from_chars};

verus! {

/// `ProjectDirs::from` takes the qualifier and the organization; they are
/// kept here as one reverse-domain string and split at its first `.`.
/// Changing it after a release moves existing users' configuration and data.
pub const APP_BUNDLE_PREFIX: &'static str = "com.amiiby";

pub const APP_APPLICATION: &'static str = "saddle-stitcher";

/// When this environment variable is set (and not empty), the configuration,
/// the data and the logs all live directly in the directory it names.
pub const HOME_ENV: &'static str = "SADDLE_STITCHER_HOME";

pub const CONFIG_FILE_NAME: &'static str = "config.toml";

pub const DB_FILE_NAME: &'static str = "saddle-stitcher.db";

pub const LOG_DIR_NAME: &'static str = "logs";

pub const LOCK_FILE_NAME: &'static str = "saddle-stitcher.lock";

/// Why the configuration could not be obtained.
#[derive(Debug, PartialEq, Eq)]
pub enum ConfigError {
    /// No directory for configuration and data could be found.
    NoHomeDir,
    /// The configuration file exists but could not be read.
    Read { path: String },
    /// The configuration file could not be parsed.
    Parse { path: String },
}

impl ConfigError {
    /// The description of this error.
    pub open spec fn spec_message(&self) -> Seq<char> {
        match self {
            ConfigError::NoHomeDir => "設定・データディレクトリを解決できませんでした (HOME が無い環境では SADDLE_STITCHER_HOME を設定してください)"@,
            ConfigError::Read { path } => "設定ファイルの読み込みに失敗しました: "@ + path@,
            ConfigError::Parse { path } => "設定ファイルの解析に失敗しました: "@ + path@,
        }
    }

    /// The description of this error.
    pub fn message(&self) -> (m: String)
        ensures
            m@ == self.spec_message(),
    {
        match self {
            ConfigError::NoHomeDir => String::from_str(
                "設定・データディレクトリを解決できませんでした (HOME が無い環境では SADDLE_STITCHER_HOME を設定してください)",
            ),
            ConfigError::Read { path } => concat2("設定ファイルの読み込みに失敗しました: ", path.as_str()),
            ConfigError::Parse { path } => concat2("設定ファイルの解析に失敗しました: ", path.as_str()),
        }
    }
}

/// The path that `std::path::Path::join` makes of `dir` and `name` on the
/// platform the program is built for.
pub uninterp spec fn joined_path(dir: Seq<char>, name: Seq<char>) -> Seq<char>;

/// A relative path of one ordinary component: not empty, neither `.` nor
/// `..`, and without a separator (`/`, `\`) or a drive colon (`:`), so that
/// joining it adjoins it and never replaces the directory.
pub open spec fn is_plain_file_name(name: Seq<char>) -> bool {
    &&& name.len() > 0
    &&& name != seq!['.']
    &&& name != seq!['.', '.']
    &&& forall|i: int| 0 <= i < name.len() ==> #[trigger] name[i] != '/' && name[i] != '\\' && name[i]
        != ':'
}

/// A Windows verbatim path (`\\?\...`), which `Path::join` normalizes.
pub open spec fn is_verbatim_path(dir: Seq<char>) -> bool {
    dir.len() >= 4 && dir.subrange(0, 4) == seq!['\\', '\\', '?', '\\']
}

/// `path` begins with `dir` and ends with `name`.
pub open spec fn adjoins(path: Seq<char>, dir: Seq<char>, name: Seq<char>) -> bool {
    &&& path.len() >= dir.len() + name.len()
    &&& path.subrange(0, dir.len() as int) == dir
    &&& path.subrange(path.len() - name.len(), path.len() as int) == name
}

/// `std::path::Path::join`: the path `name` inside the directory `dir`. The
/// result is named by the two arguments; where `name` is a plain file name
/// and `dir` is not a verbatim path, it begins with `dir` and ends with
/// `name` (how the platform separates them is not spelled out).
#[verifier::external_body]
fn path_join(dir: &str, name: &str) -> (path: String)
    ensures
        path@ == joined_path(dir@, name@),
        is_plain_file_name(name@) && !is_verbatim_path(dir@) ==> adjoins(path@, dir@, name@),
{
    std::path::Path::new(dir).join(name).to_string_lossy().into_owned()
}

#[verifier::external_type_specification]
#[verifier::external_body]
pub struct ExProjectDirs(directories::ProjectDirs);

/// The project path fragment that `directories` derives from a qualifier, an
/// organization and an application name on the platform the program is
/// built for (on Linux the trimmed, lower-cased application name; on macOS
/// the bundle identifier; on Windows `organization\\application`), as text.
pub uninterp spec fn project_path_for(
    qualifier: Seq<char>,
    organization: Seq<char>,
    application: Seq<char>,
) -> Seq<char>;

/// The project path fragment that `dirs` was made with, as text.
pub uninterp spec fn project_path_of(dirs: ProjectDirs) -> Seq<char>;

/// `directories::ProjectDirs::from`: the operating system's directories for
/// the project, or `None` when no home directory can be found. Whether one
/// is found depends on the environment, so that is not claimed; a value that
/// comes back holds the project path fragment derived from the three
/// arguments (the `project_path` field, which `ProjectDirs::project_path`
/// returns).
#[verifier::external_body]
fn project_dirs_from(qualifier: &str, organization: &str, application: &str) -> (dirs: Option<
    ProjectDirs,
>)
    ensures
        dirs matches Some(d) ==> project_path_of(d) == project_path_for(
            qualifier@,
            organization@,
            application@,
        ),
{
    ProjectDirs::from(qualifier, organization, application)
}

/// The configuration directory of `dirs`, as text.
pub uninterp spec fn project_config_dir_of(dirs: ProjectDirs) -> Seq<char>;

/// The local data directory of `dirs`, as text.
pub uninterp spec fn project_data_local_dir_of(dirs: ProjectDirs) -> Seq<char>;

/// `directories::ProjectDirs::config_dir`, as text (a path that is not valid
/// UTF-8 is converted with replacement characters). It reads a field that
/// `ProjectDirs::from` filled, so the text is named by `dirs`.
#[verifier::external_body]
fn project_config_dir(dirs: &ProjectDirs) -> (dir: String)
    ensures
        dir@ == project_config_dir_of(*dirs),
{
    dirs.config_dir().to_string_lossy().into_owned()
}

/// `directories::ProjectDirs::data_local_dir`, as text (a path that is not
/// valid UTF-8 is converted with replacement characters). It reads a field
/// that `ProjectDirs::from` filled, so the text is named by `dirs`.
#[verifier::external_body]
fn project_data_local_dir(dirs: &ProjectDirs) -> (dir: String)
    ensures
        dir@ == project_data_local_dir_of(*dirs),
{
    dirs.data_local_dir().to_string_lossy().into_owned()
}

/// `s` split at its first `.`: the text before and the text after it, or an
/// empty first part and all of `s` when it holds no `.`.
pub open spec fn split_at_first_dot(s: Seq<char>, parts: (Seq<char>, Seq<char>)) -> bool {
    if s.contains('.') {
        &&& s == parts.0 + seq!['.'] + parts.1
        &&& !parts.0.contains('.')
    } else {
        &&& parts.0 == Seq::<char>::empty()
        &&& parts.1 == s
    }
}

/// Splits a reverse-domain string such as `com.amiiby` into qualifier and
/// organization at its first `.`; without a `.` the qualifier is empty.
pub fn split_bundle_prefix(prefix: &str) -> (parts: (String, String))
    ensures
        split_at_first_dot(prefix@, (parts.0@, parts.1@)),
{
    let chars = chars_of(prefix);
    let mut i: usize = 0;
    while i < chars.len()
        invariant
            chars@ == prefix@,
            i <= chars.len(),
            forall|t: int| 0 <= t < i ==> chars@[t] != '.',
        decreases chars.len() - i,
    {
        if chars[i] == '.' {
            let before = string_from_chars(&chars, 0, i);
            let after = string_from_chars(&chars, i + 1, chars.len());
            proof {
                assert(chars@ =~= before@ + seq!['.'] + after@);
                assert(prefix@.contains('.'));
                assert(!before@.contains('.'));
            }
            return (before, after);
        }
        i += 1;
    }
    proof {
        assert(!prefix@.contains('.'));
    }
    (String::new(), String::from_str(prefix))
}

/// `APP_BUNDLE_PREFIX` splits into the qualifier `com` and the organization
/// `amiiby`.
proof fn lemma_bundle_prefix_parts(qualifier: Seq<char>, organization: Seq<char>)
    requires
        split_at_first_dot(APP_BUNDLE_PREFIX@, (qualifier, organization)),
    ensures
        qualifier == "com"@,
        organization == "amiiby"@,
{
    reveal_strlit("com.amiiby");
    reveal_strlit("com");
    reveal_strlit("amiiby");
    let s = APP_BUNDLE_PREFIX@;
    assert(s[3] == '.');
    assert(s.contains('.'));
    assert(s == qualifier + seq!['.'] + organization);
    if qualifier.len() < 3 {
        assert(s[qualifier.len() as int] == '.');
        assert(false);
    }
    if qualifier.len() > 3 {
        assert(qualifier[3] == s[3]);
        assert(qualifier.contains('.'));
        assert(false);
    }
    assert(qualifier.len() == 3);
    assert(qualifier[0] == s[0] && qualifier[1] == s[1] && qualifier[2] == s[2]);
    assert(qualifier =~= "com"@);
    assert forall|i: int| 0 <= i < organization.len() implies organization[i] == s[4 + i] by {
        assert(s[4 + i] == (qualifier + seq!['.'] + organization)[4 + i]);
    }
    assert(organization =~= s.subrange(4, 10));
    assert(organization =~= "amiiby"@);
}

/// Where the configuration file, the database and the logs live.
#[derive(Debug, PartialEq, Eq)]
pub struct AppDirs {
    pub config_dir: String,
    pub data_dir: String,
}

impl AppDirs {
    /// The directories of the application. `home` is the value of the
    /// `SADDLE_STITCHER_HOME` environment variable: when it is set and not
    /// empty, both directories are that directory. Otherwise they are the
    /// operating system's directories for the project, which may not exist
    /// (`NoHomeDir`).
    pub fn resolve(home: Option<String>) -> (r: Result<AppDirs, ConfigError>)
        ensures
            home is Some && home->0@.len() > 0 ==> (r matches Ok(dirs) && dirs.config_dir@
                == home->0@ && dirs.data_dir@ == home->0@),
            !(home is Some && home->0@.len() > 0) ==> (r matches Ok(dirs) ==> exists|p: ProjectDirs|
                #![trigger project_config_dir_of(p), project_data_local_dir_of(p)]
                {
                    &&& project_path_of(p) == project_path_for("com"@, "amiiby"@, APP_APPLICATION@)
                    &&& dirs.config_dir@ == project_config_dir_of(p)
                    &&& dirs.data_dir@ == project_data_local_dir_of(p)
                }),
            r matches Err(e) ==> e == ConfigError::NoHomeDir,
    {
        if let Some(h) = home {
            if !h.as_str().is_empty() {
                let data_dir = h.clone();
                return Ok(AppDirs { config_dir: h, data_dir });
            }
        }
        let (qualifier, organization) = split_bundle_prefix(APP_BUNDLE_PREFIX);
        proof {
            lemma_bundle_prefix_parts(qualifier@, organization@);
        }
        AppDirs::from_project(
            project_dirs_from(qualifier.as_str(), organization.as_str(), APP_APPLICATION),
        )
    }

    /// The directories of the application taken from the operating system's
    /// directories for the project: whenever there are some, the
    /// configuration directory and the local data directory of `project`;
    /// `NoHomeDir` only when there are none.
    pub fn from_project(project: Option<ProjectDirs>) -> (r: Result<AppDirs, ConfigError>)
        ensures
            match project {
                Some(p) => r matches Ok(dirs) && dirs.config_dir@ == project_config_dir_of(p)
                    && dirs.data_dir@ == project_data_local_dir_of(p),
                None => r matches Err(e) && e == ConfigError::NoHomeDir,
            },
    {
        match project {
            Some(dirs) => Ok(
                AppDirs {
                    config_dir: project_config_dir(&dirs),
                    data_dir: project_data_local_dir(&dirs),
                },
            ),
            None => Err(ConfigError::NoHomeDir),
        }
    }

    /// The configuration file: `config.toml` in the configuration directory.
    pub fn config_path(&self) -> (path: String)
        ensures
            path@ == joined_path(self.config_dir@, CONFIG_FILE_NAME@),
            !is_verbatim_path(self.config_dir@) ==> adjoins(path@, self.config_dir@, CONFIG_FILE_NAME@),
    {
        proof {
            reveal_strlit("config.toml");
        }
        path_join(self.config_dir.as_str(), CONFIG_FILE_NAME)
    }

    /// The database file: `saddle-stitcher.db` in the data directory.
    pub fn db_path(&self) -> (path: String)
        ensures
            path@ == joined_path(self.data_dir@, DB_FILE_NAME@),
            !is_verbatim_path(self.data_dir@) ==> adjoins(path@, self.data_dir@, DB_FILE_NAME@),
    {
        proof {
            reveal_strlit("saddle-stitcher.db");
        }
        path_join(self.data_dir.as_str(), DB_FILE_NAME)
    }

    /// The log directory: `logs` in the data directory.
    pub fn log_dir(&self) -> (path: String)
        ensures
            path@ == joined_path(self.data_dir@, LOG_DIR_NAME@),
            !is_verbatim_path(self.data_dir@) ==> adjoins(path@, self.data_dir@, LOG_DIR_NAME@),
    {
        proof {
            reveal_strlit("logs");
        }
        path_join(self.data_dir.as_str(), LOG_DIR_NAME)
    }

    /// The lock file that keeps a second tray instance from starting:
    /// `saddle-stitcher.lock` in the data directory.
    pub fn lock_path(&self) -> (path: String)
        ensures
            path@ == joined_path(self.data_dir@, LOCK_FILE_NAME@),
            !is_verbatim_path(self.data_dir@) ==> adjoins(path@, self.data_dir@, LOCK_FILE_NAME@),
    {
        proof {
            reveal_strlit("saddle-stitcher.lock");
        }
        path_join(self.data_dir.as_str(), LOCK_FILE_NAME)
    }
}

/// An IP address, by its bits in network order (as `Ipv4Addr::to_bits` and
/// `Ipv6Addr::to_bits` give them).
#[derive(Debug, Clone, Copy, PartialEq, Eq, Structural)]
pub enum IpAddress {
    V4(u32),
    V6(u128),
}

/// `127.0.0.1`.
pub const IPV4_LOOPBACK: u32 = 0x7f00_0001;

/// `::1`.
pub const IPV6_LOOPBACK: u128 = 1;

/// An IP address with a port.
#[derive(Debug, Clone, Copy, PartialEq, Eq, Structural)]
pub struct SocketAddress {
    pub ip: IpAddress,
    pub port: u16,
}

/// The `[server]` table.
#[derive(Debug, Clone, Copy, PartialEq, Eq, Structural)]
pub struct ServerConfig {
    pub bind: IpAddress,
    pub port: u16,
    /// The largest request body accepted, so that PDFs can be uploaded.
    pub max_upload_bytes: usize,
}

/// The default upload limit: 200 MiB.
pub const DEFAULT_MAX_UPLOAD_BYTES: usize = 209715200;

impl Default for ServerConfig {
    /// Listens on the loopback address only, port 3000; other hosts reach the
    /// server only when `bind` says so (`0.0.0.0`, say).
    fn default() -> (config: ServerConfig)
        ensures
            config.bind == IpAddress::V4(IPV4_LOOPBACK),
            config.port == 3000,
            config.max_upload_bytes == DEFAULT_MAX_UPLOAD_BYTES,
    {
        ServerConfig {
            bind: IpAddress::V4(IPV4_LOOPBACK),
            port: 3000,
            max_upload_bytes: DEFAULT_MAX_UPLOAD_BYTES,
        }
    }
}

impl ServerConfig {
    /// The address the server listens on.
    pub fn socket_addr(&self) -> (addr: SocketAddress)
        ensures
            addr == (SocketAddress { ip: self.bind, port: self.port }),
    {
        SocketAddress { ip: self.bind, port: self.port }
    }
}

/// Where the log goes.
#[derive(Debug, Clone, Copy, PartialEq, Eq, Structural)]
pub enum LogOutput {
    /// Standard output, for systemd or Docker to collect.
    Stdout,
    /// Daily rotated files under `AppDirs::log_dir`.
    File,
}

impl Default for LogOutput {
    fn default() -> (output: LogOutput)
        ensures
            output == LogOutput::Stdout,
    {
        LogOutput::Stdout
    }
}

/// The default log filter.
pub open spec fn default_log_filter() -> Seq<char> {
    "saddle_stitcher=debug,tower_http=debug"@
}

/// The `[log]` table.
#[derive(Debug, PartialEq, Eq)]
pub struct LogConfig {
    /// A `tracing_subscriber::EnvFilter` directive; `RUST_LOG` takes
    /// precedence when set.
    pub filter: String,
    pub output: LogOutput,
}

impl Default for LogConfig {
    fn default() -> (config: LogConfig)
        ensures
            config.filter@ == default_log_filter(),
            config.output == LogOutput::Stdout,
    {
        LogConfig {
            filter: String::from_str("saddle_stitcher=debug,tower_http=debug"),
            output: LogOutput::Stdout,
        }
    }
}

impl LogConfig {
    /// The defaults of a build that runs in the tray: the same filter, and
    /// the log written to files, since the tray detaches the console and
    /// output on it would reach no one.
    pub fn tray_default() -> (config: LogConfig)
        ensures
            config.filter@ == default_log_filter(),
            config.output == LogOutput::File,
    {
        LogConfig {
            filter: String::from_str("saddle_stitcher=debug,tower_http=debug"),
            output: LogOutput::File,
        }
    }
}

/// The whole configuration file.
#[derive(Debug, PartialEq, Eq)]
pub struct Config {
    pub server: ServerConfig,
    pub log: LogConfig,
}

impl Default for Config {
    /// The configuration used when `config.toml` does not exist.
    fn default() -> (config: Config)
        ensures
            config.server.bind == IpAddress::V4(IPV4_LOOPBACK),
            config.server.port == 3000,
            config.server.max_upload_bytes == DEFAULT_MAX_UPLOAD_BYTES,
            config.log.filter@ == default_log_filter(),
            config.log.output == LogOutput::Stdout,
    {
        Config { server: ServerConfig::default(), log: LogConfig::default() }
    }
}

impl Config {
    /// The configuration of a tray build when `config.toml` does not exist:
    /// the server defaults, and the tray's log defaults (files).
    pub fn tray_default() -> (config: Config)
        ensures
            config.server.bind == IpAddress::V4(IPV4_LOOPBACK),
            config.server.port == 3000,
            config.server.max_upload_bytes == DEFAULT_MAX_UPLOAD_BYTES,
            config.log.filter@ == default_log_filter(),
            config.log.output == LogOutput::File,
    {
        Config { server: ServerConfig::default(), log: LogConfig::tray_default() }
    }
}

} // verus!
