//! The configuration file: its sections, its two formats, and the paths it
//! names made absolute.
use vstd::prelude::*;
use vstd::string::*;
use crate::color::{ColorConfig, SerializeColorSettings, V1ColorConfig};
use crate::logging::LoggingConfig;
use crate::paths::{components, is_absolute, join, parent, parse_path, path_join, path_parent, render, render_parts, views};
use crate::strategy::{LinkingStrategy, MatchingStrategy, RegexStrategy};
use crate::text::str_eq;

verus! {

/// The name of the configuration file looked for in a directory.
pub const DEFAULT_CONFIG_FILE: &'static str = ".graft.toml";

/// The format of a configuration file.
#[derive(Debug, Clone, Copy, PartialEq, Eq, Hash, Structural)]
pub enum ConfigFileVersion {
    V1,
    V2,
}

/// A text or a number that names no configuration format.
#[derive(Debug, Clone, PartialEq, Eq)]
pub enum VersionError {
    UnsupportedVersion { version: i64 },
    UnsupportedVersionString { version: String },
}

impl Default for ConfigFileVersion {
    fn default() -> (r: Self)
        ensures
            r == ConfigFileVersion::V2,
    {
        ConfigFileVersion::V2
    }
}

impl ConfigFileVersion {
    /// The version a text names: `1`, `v1` or `V1`, and `2`, `v2` or `V2`.
    pub open spec fn spec_parse(s: Seq<char>) -> Option<ConfigFileVersion> {
        if s == "1"@ || s == "v1"@ || s == "V1"@ {
            Some(ConfigFileVersion::V1)
        } else if s == "2"@ || s == "v2"@ || s == "V2"@ {
            Some(ConfigFileVersion::V2)
        } else {
            None
        }
    }

    /// The number of the version.
    pub open spec fn spec_number(self) -> i64 {
        match self {
            ConfigFileVersion::V1 => 1,
            ConfigFileVersion::V2 => 2,
        }
    }

    /// The version's display name.
    pub open spec fn spec_name(self) -> Seq<char> {
        match self {
            ConfigFileVersion::V1 => "v1"@,
            ConfigFileVersion::V2 => "v2"@,
        }
    }

    /// Parses a version written as text.
    pub fn from_str(s: &str) -> (r: Result<ConfigFileVersion, VersionError>)
        ensures
            match r {
                Ok(v) => Self::spec_parse(s@) == Some(v),
                Err(e) => Self::spec_parse(s@) is None
                    && (e matches VersionError::UnsupportedVersionString { version } && version@ == s@),
            },
    {
        if str_eq(s, "1") || str_eq(s, "v1") || str_eq(s, "V1") {
            Ok(ConfigFileVersion::V1)
        } else if str_eq(s, "2") || str_eq(s, "v2") || str_eq(s, "V2") {
            Ok(ConfigFileVersion::V2)
        } else {
            Err(VersionError::UnsupportedVersionString { version: s.to_owned() })
        }
    }

    /// The version with the given number.
    pub fn try_from(value: i64) -> (r: Result<ConfigFileVersion, VersionError>)
        ensures
            value == 1 ==> r == Ok::<ConfigFileVersion, VersionError>(ConfigFileVersion::V1),
            value == 2 ==> r == Ok::<ConfigFileVersion, VersionError>(ConfigFileVersion::V2),
            value != 1 && value != 2 ==> r == Err::<ConfigFileVersion, VersionError>(VersionError::UnsupportedVersion { version: value }),
    {
        match value {
            1 => Ok(ConfigFileVersion::V1),
            2 => Ok(ConfigFileVersion::V2),
            _ => Err(VersionError::UnsupportedVersion { version: value }),
        }
    }

    /// The number of the version, as written to files.
    pub fn number(&self) -> (r: i64)
        ensures
            r == self.spec_number(),
    {
        match self {
            ConfigFileVersion::V1 => 1,
            ConfigFileVersion::V2 => 2,
        }
    }

    /// The version's display name: `v1` or `v2`.
    pub fn name(&self) -> (r: &'static str)
        ensures
            r@ == self.spec_name(),
    {
        match self {
            ConfigFileVersion::V1 => "v1",
            ConfigFileVersion::V2 => "v2",
        }
    }
}

/// The value of a configuration text's `version` key.
#[derive(Debug, Clone, PartialEq, Eq)]
pub enum VersionKey {
    Number(i64),
    Text(String),
    Other,
}

impl ConfigFileVersion {
    /// The format of a configuration text from its `version` key: the version
    /// the key names, or the current format when the key is missing or names
    /// no version.
    pub fn get_version(key: &Option<VersionKey>) -> (r: ConfigFileVersion)
        ensures
            r == (match key {
                Some(VersionKey::Number(n)) => if *n == 1 {
                    ConfigFileVersion::V1
                } else {
                    ConfigFileVersion::V2
                },
                Some(VersionKey::Text(t)) => match Self::spec_parse(t@) {
                    Some(v) => v,
                    None => ConfigFileVersion::V2,
                },
                _ => ConfigFileVersion::V2,
            }),
    {
        match key {
            Some(VersionKey::Number(n)) => match Self::try_from(*n) {
                Ok(v) => v,
                Err(_) => ConfigFileVersion::V2,
            },
            Some(VersionKey::Text(t)) => match Self::from_str(t.as_str()) {
                Ok(v) => v,
                Err(_) => ConfigFileVersion::V2,
            },
            _ => ConfigFileVersion::V2,
        }
    }
}

/// A version's number, and its display name, both read back as that version.
pub proof fn lemma_version_round_trip(v: ConfigFileVersion)
    ensures
        ConfigFileVersion::spec_parse(v.spec_name()) == Some(v),
{
    reveal_strlit("1");
    reveal_strlit("v1");
    reveal_strlit("V1");
    reveal_strlit("v2");
    match v {
        ConfigFileVersion::V1 => {},
        ConfigFileVersion::V2 => {
            assert("v2"@.len() != "1"@.len());
            assert("v2"@[1] != "v1"@[1]);
            assert("v2"@[0] != "V1"@[0]);
        },
    }
}

/// The file of ignore patterns and its comment character.
#[derive(Debug, Clone, PartialEq, Eq)]
pub struct Ignored {
    pub file: String,
    pub comment: char,
}

/// The file of override patterns and its comment character.
#[derive(Debug, Clone, PartialEq, Eq)]
pub struct Overrides {
    pub file: String,
    pub comment: char,
}

impl Default for Ignored {
    fn default() -> (r: Self)
        ensures
            r.file@ == ".graft-ignore"@,
            r.comment == '#',
    {
        Ignored { file: ".graft-ignore".to_owned(), comment: '#' }
    }
}

impl Default for Overrides {
    fn default() -> (r: Self)
        ensures
            r.file@ == ".graft-override"@,
            r.comment == '#',
    {
        Overrides { file: ".graft-override".to_owned(), comment: '#' }
    }
}

/// How packages are stowed.
#[derive(Debug, Clone, Copy, PartialEq, Eq, Hash, Structural)]
pub struct StowConfig {
    pub linking_strategy: LinkingStrategy,
    pub regex_strategy: RegexStrategy,
    pub matching_strategy: MatchingStrategy,
    pub printing_enabled: bool,
}

impl Default for StowConfig {
    fn default() -> (r: Self)
        ensures
            r.linking_strategy == LinkingStrategy::Short,
            r.regex_strategy == RegexStrategy::Rust,
            r.matching_strategy == MatchingStrategy::Combined,
            !r.printing_enabled,
    {
        StowConfig {
            linking_strategy: LinkingStrategy::Short,
            regex_strategy: RegexStrategy::Rust,
            matching_strategy: MatchingStrategy::Combined,
            printing_enabled: false,
        }
    }
}

/// The configuration, in the current format.
#[derive(Debug, Clone, PartialEq, Eq)]
pub struct Config {
    pub version: ConfigFileVersion,
    pub ignored: Ignored,
    pub logging: LoggingConfig,
    pub overrides: Overrides,
    pub color: ColorConfig,
    pub stow: StowConfig,
}

/// The configuration, in the first format.
#[derive(Debug, Clone, PartialEq, Eq)]
pub struct V1Config {
    pub version: ConfigFileVersion,
    pub ignored: Ignored,
    pub logging: LoggingConfig,
    pub overrides: Overrides,
    pub color: V1ColorConfig,
    pub stow: StowConfig,
}

impl Default for Config {
    fn default() -> (r: Self)
        ensures
            r.version == ConfigFileVersion::V2,
            r.ignored.file@ == ".graft-ignore"@ && r.ignored.comment == '#',
            r.overrides.file@ == ".graft-override"@ && r.overrides.comment == '#',
            r.color == ColorConfig::spec_default(),
            r.stow.linking_strategy == LinkingStrategy::Short,
            r.stow.regex_strategy == RegexStrategy::Rust,
            r.stow.matching_strategy == MatchingStrategy::Combined,
            !r.stow.printing_enabled,
            r.logging.file is None && r.logging.logging_path is None,
    {
        Config {
            version: ConfigFileVersion::V2,
            ignored: Ignored::default(),
            logging: LoggingConfig::default(),
            overrides: Overrides::default(),
            color: ColorConfig::default_config(),
            stow: StowConfig::default(),
        }
    }
}

impl Default for V1Config {
    fn default() -> (r: Self)
        ensures
            r.version == ConfigFileVersion::V1,
            r.ignored.file@ == ".graft-ignore"@ && r.ignored.comment == '#',
            r.overrides.file@ == ".graft-override"@ && r.overrides.comment == '#',
            r.color == V1ColorConfig::spec_default(),
            r.logging.file is None && r.logging.logging_path is None,
    {
        V1Config {
            version: ConfigFileVersion::V1,
            ignored: Ignored::default(),
            logging: LoggingConfig::default(),
            overrides: Overrides::default(),
            color: V1ColorConfig::default_config(),
            stow: StowConfig::default(),
        }
    }
}

/// `u` is `value`, of the first format, upgraded to the current one, as
/// [`Config::from_v1`] says.
pub open spec fn upgraded_from(value: V1Config, u: Config) -> bool {
    &&& u.version == ConfigFileVersion::V2
    &&& u.ignored == value.ignored
    &&& u.logging == value.logging
    &&& u.overrides == value.overrides
    &&& u.stow == value.stow
    &&& u.color == (ColorConfig { enabled: value.color.enabled, settings: SerializeColorSettings::spec_from_v1(value.color.settings) })
}

impl Config {
    /// Upgrades a configuration of the first format: everything is kept but
    /// the version, which becomes `V2`, and the colors, which are converted.
    pub fn from_v1(value: V1Config) -> (r: Config)
        ensures
            r.version == ConfigFileVersion::V2,
            r.ignored == value.ignored,
            r.logging == value.logging,
            r.overrides == value.overrides,
            r.stow == value.stow,
            r.color == (ColorConfig { enabled: value.color.enabled, settings: SerializeColorSettings::spec_from_v1(value.color.settings) }),
    {
        let color = ColorConfig::from_v1(&value.color);
        Config {
            version: ConfigFileVersion::V2,
            ignored: value.ignored,
            logging: value.logging,
            overrides: value.overrides,
            color,
            stow: value.stow,
        }
    }
}

/// Why a path naming the home directory could not be resolved.
#[derive(Debug, Clone, PartialEq, Eq)]
pub enum ResolveError {
    UnableToResolveDirectory(String),
    InvalidPath { path: String, message: String },
}

/// Why the configuration could not be read, resolved or written.
#[derive(Debug, Clone, PartialEq, Eq)]
pub enum ConfigError {
    FileReadError { file: String, message: String },
    TomlError { file: String, message: String },
    TomlWriteError { message: String },
    WriteError { message: String },
    MissingConfigFile,
    UnableToFindHomeDirectory,
    ResolveError { file: String, source: ResolveError },
}

/// The path starts with the component `~`.
pub open spec fn starts_with_home(p: Seq<char>) -> bool {
    &&& !is_absolute(p)
    &&& components(p).len() > 0
    &&& components(p)[0] == seq!['~']
}

/// `p` with a leading `~` component replaced by the home directory `home`.
pub open spec fn home_path(p: Seq<char>, home: Seq<char>) -> Seq<char> {
    if starts_with_home(p) {
        join(home, render(false, components(p).drop_first()))
    } else {
        p
    }
}

/// `p` when absolute, else `p` under `base`.
pub open spec fn anchored(p: Seq<char>, base: Seq<char>) -> Seq<char> {
    if is_absolute(p) {
        p
    } else {
        join(base, p)
    }
}

/// The directory of the configuration file, or the home directory when the
/// file's path has no parent.
pub open spec fn config_base(file_path: Seq<char>, home: Seq<char>) -> Seq<char> {
    match parent(file_path) {
        Some(d) => d,
        None => home,
    }
}

/// Replaces a leading `~` component of `path` by the home directory; fails
/// when the path starts with `~` and the home directory is unknown.
pub fn resolve_home_path(path: &str, home: Option<&str>) -> (r: Result<String, ResolveError>)
    ensures
        !starts_with_home(path@) ==> (r matches Ok(p) && p@ == path@),
        starts_with_home(path@) ==> match home {
            Some(h) => (r matches Ok(p) && p@ == home_path(path@, h@)),
            None => (r matches Err(ResolveError::UnableToResolveDirectory(p)) && p@ == path@),
        },
{
    let mut parsed = parse_path(path);
    proof {
        reveal_strlit("~");
        assert("~"@ =~= seq!['~']);
    }
    let starts = !parsed.absolute && parsed.parts.len() > 0 && str_eq(parsed.parts[0].as_str(), "~");
    proof {
        if parsed.parts.len() > 0 {
            assert(views(parsed.parts@)[0] == parsed.parts@[0]@);
        }
        assert(starts == starts_with_home(path@));
    }
    if !starts {
        return Ok(path.to_owned());
    }
    let h = match home {
        Some(h) => h,
        None => {
            return Err(ResolveError::UnableToResolveDirectory(path.to_owned()));
        },
    };
    let ghost before = parsed.parts@;
    parsed.parts.remove(0);
    assert(views(parsed.parts@) =~= views(before).drop_first());
    let rest = render_parts(false, &parsed.parts);
    Ok(path_join(h, rest.as_str()))
}

/// `p` when absolute, else `p` under `base`.
fn anchor(p: &str, base: &str) -> (r: String)
    ensures
        r@ == anchored(p@, base@),
{
    if p.unicode_len() > 0 && p.get_char(0) == '/' {
        p.to_owned()
    } else {
        path_join(base, p)
    }
}

/// The configuration read from `file_path` with the paths it names
/// resolved: `~` replaced by the home directory, the ignore file and the
/// logging path (the default log directory `log_dir` when none is given)
/// taken under the configuration file's directory when relative. Fails when
/// the home directory is unknown.
pub open spec fn spec_resolve_paths(config: Config, file_path: Seq<char>, home: Seq<char>, log_dir: Seq<char>) -> (Seq<char>, Seq<char>, Seq<char>) {
    let base = config_base(file_path, home);
    let ignored = home_path(anchored(home_path(config.ignored.file@, home), base), home);
    let logging = anchored(
        home_path(
            match config.logging.logging_path {
                Some(p) => p@,
                None => log_dir,
            },
            home,
        ),
        base,
    );
    let overrides = home_path(config.overrides.file@, home);
    (ignored, logging, overrides)
}

/// A path joined under an absolute base is absolute.
proof fn lemma_join_absolute(base: Seq<char>, name: Seq<char>)
    requires
        is_absolute(base),
    ensures
        is_absolute(join(base, name)),
{
    if base.last() == '/' {
        assert((base + name)[0] == base[0]);
    } else {
        assert((base + seq!['/'] + name)[0] == base[0]);
    }
}

/// With an absolute home directory, `home_path` leaves no leading `~`, and
/// leaves a path without one as it is.
proof fn lemma_home_path_expands(p: Seq<char>, home: Seq<char>)
    requires
        is_absolute(home),
    ensures
        !starts_with_home(home_path(p, home)),
        !starts_with_home(p) ==> home_path(p, home) == p,
{
    if starts_with_home(p) {
        lemma_join_absolute(home, render(false, components(p).drop_first()));
    }
}

/// The paths a configuration names are resolved against the home directory:
/// when the home directory is an absolute path, none of the paths
/// `resolve_paths` gives back starts with `~` (the ignore file and the
/// override file always; the logging path when the configuration file's
/// own path is absolute), and a path that named no `~` is kept as it was
/// for the override file.
pub proof fn lemma_resolved_paths_have_no_tilde(config: Config, file_path: Seq<char>, home: Seq<char>, log_dir: Seq<char>)
    requires
        is_absolute(home),
    ensures
        !starts_with_home(spec_resolve_paths(config, file_path, home, log_dir).0),
        !starts_with_home(spec_resolve_paths(config, file_path, home, log_dir).2),
        !starts_with_home(config.overrides.file@) ==> spec_resolve_paths(config, file_path, home, log_dir).2
            == config.overrides.file@,
        is_absolute(file_path) ==> !starts_with_home(spec_resolve_paths(config, file_path, home, log_dir).1),
{
    let base = config_base(file_path, home);
    let ig = anchored(home_path(config.ignored.file@, home), base);
    lemma_home_path_expands(ig, home);
    lemma_home_path_expands(config.overrides.file@, home);
    let lp = match config.logging.logging_path {
        Some(p) => p@,
        None => log_dir,
    };
    lemma_home_path_expands(lp, home);
    if is_absolute(file_path) {
        let y = home_path(lp, home);
        if !is_absolute(y) {
            assert(is_absolute(base));
            lemma_join_absolute(base, y);
        }
    }
}

impl Config {
    /// Resolves the paths of a configuration read from `file_path`; see
    /// [`spec_resolve_paths`]. Everything else is kept.
    pub fn resolve_paths(self, file_path: &str, home: Option<&str>, log_dir: &str) -> (r: Result<Config, ConfigError>)
        ensures
            home is None ==> r == Err::<Config, ConfigError>(ConfigError::UnableToFindHomeDirectory),
            home matches Some(h) ==> (r matches Ok(c) && {
                let paths = spec_resolve_paths(self, file_path@, h@, log_dir@);
                &&& c.ignored.file@ == paths.0
                &&& c.logging.logging_path matches Some(lp) && lp@ == paths.1
                &&& c.overrides.file@ == paths.2
                &&& c.version == self.version
                &&& c.ignored.comment == self.ignored.comment
                &&& c.overrides.comment == self.overrides.comment
                &&& c.color == self.color
                &&& c.stow == self.stow
                &&& c.logging == (LoggingConfig { logging_path: c.logging.logging_path, ..self.logging })
            }),
    {
        let home = match home {
            Some(h) => h,
            None => {
                return Err(ConfigError::UnableToFindHomeDirectory);
            },
        };
        let base = match path_parent(file_path) {
            Some(d) => d,
            None => home.to_owned(),
        };
        let mut config = self;
        let i1 = match resolve_home_path(config.ignored.file.as_str(), Some(home)) {
            Ok(p) => p,
            Err(source) => {
                return Err(ConfigError::ResolveError { file: file_path.to_owned(), source });
            },
        };
        let i2 = anchor(i1.as_str(), base.as_str());
        let i3 = match resolve_home_path(i2.as_str(), Some(home)) {
            Ok(p) => p,
            Err(source) => {
                return Err(ConfigError::ResolveError { file: i2, source });
            },
        };
        config.ignored.file = i3;
        let l0 = match &config.logging.logging_path {
            Some(p) => p.clone(),
            None => log_dir.to_owned(),
        };
        let l1 = match resolve_home_path(l0.as_str(), Some(home)) {
            Ok(p) => p,
            Err(source) => {
                return Err(ConfigError::ResolveError { file: l0, source });
            },
        };
        config.logging.logging_path = Some(anchor(l1.as_str(), base.as_str()));
        let o1 = match resolve_home_path(config.overrides.file.as_str(), Some(home)) {
            Ok(p) => p,
            Err(source) => {
                return Err(ConfigError::ResolveError { file: config.overrides.file.clone(), source });
            },
        };
        config.overrides.file = o1;
        Ok(config)
    }
}

/// The system the program runs on, as far as the place of the
/// configuration files goes.
#[derive(Debug, Clone, Copy, PartialEq, Eq, Structural)]
pub enum Platform {
    MacOs,
    Linux,
    Windows,
}

/// An environment value that is set: present and not empty.
pub open spec fn set_value(v: Option<String>) -> Option<Seq<char>> {
    match v {
        Some(s) => if s@.len() > 0 {
            Some(s@)
        } else {
            None
        },
        None => None,
    }
}

/// The directory of the configuration files: `GRAFT_CONFIG_DIR` when it is
/// set; on Windows `%APPDATA%\graft`; elsewhere `$XDG_CONFIG_HOME/graft`
/// when that is set, else under the home directory
/// `Library/Application Support/graft` on macOS and `.config/graft` on
/// Linux; `None` when none of the values it needs is set.
pub open spec fn spec_config_dir(
    platform: Platform,
    graft_config_dir: Option<String>,
    xdg_config_home: Option<String>,
    appdata: Option<String>,
    home: Option<String>,
) -> Option<Seq<char>> {
    match set_value(graft_config_dir) {
        Some(g) => Some(g),
        None => match platform {
            Platform::Windows => match set_value(appdata) {
                Some(a) => Some(join(a, "graft"@)),
                None => None,
            },
            _ => match set_value(xdg_config_home) {
                Some(x) => Some(join(x, "graft"@)),
                None => match set_value(home) {
                    Some(h) => Some(
                        join(
                            h,
                            if platform == Platform::MacOs {
                                "Library/Application Support/graft"@
                            } else {
                                ".config/graft"@
                            },
                        ),
                    ),
                    None => None,
                },
            },
        },
    }
}

fn set_text(v: &Option<String>) -> (r: Option<&str>)
    ensures
        match r {
            Some(s) => set_value(*v) == Some(s@),
            None => set_value(*v) is None,
        },
{
    match v {
        Some(s) => if s.unicode_len() > 0 {
            Some(s.as_str())
        } else {
            None
        },
        None => None,
    }
}

/// The directory of the configuration files on `platform`, from the values
/// of `GRAFT_CONFIG_DIR`, `XDG_CONFIG_HOME` and `APPDATA` and the home
/// directory (see [`spec_config_dir`]).
pub fn config_dir(
    platform: Platform,
    graft_config_dir: Option<String>,
    xdg_config_home: Option<String>,
    appdata: Option<String>,
    home: Option<String>,
) -> (r: Option<String>)
    ensures
        match r {
            Some(d) => spec_config_dir(platform, graft_config_dir, xdg_config_home, appdata, home) == Some(d@),
            None => spec_config_dir(platform, graft_config_dir, xdg_config_home, appdata, home) is None,
        },
{
    if let Some(g) = set_text(&graft_config_dir) {
        return Some(g.to_owned());
    }
    match platform {
        Platform::Windows => match set_text(&appdata) {
            Some(a) => Some(path_join(a, "graft")),
            None => None,
        },
        _ => match set_text(&xdg_config_home) {
            Some(x) => Some(path_join(x, "graft")),
            None => match set_text(&home) {
                Some(h) => {
                    let sub = match platform {
                        Platform::MacOs => "Library/Application Support/graft",
                        _ => ".config/graft",
                    };
                    Some(path_join(h, sub))
                },
                None => None,
            },
        },
    }
}

/// A configuration file as parsed, in the format it was written in.
#[derive(Debug, Clone, PartialEq, Eq)]
pub enum ParsedConfig {
    V1(V1Config),
    V2(Config),
}

/// A configuration to write out, in one format or the other.
#[derive(Debug, Clone, PartialEq, Eq)]
pub enum ConfigToWrite {
    Current(Config),
    First(V1Config),
}

/// The configuration that an export writes of a parsed file: one of the
/// first format as it was read, or upgraded to the current format when
/// `upgrade` is asked; one of the current format as it was read.
pub fn config_to_print(parsed: ParsedConfig, upgrade: bool) -> (r: ConfigToWrite)
    ensures
        match parsed {
            ParsedConfig::V2(c) => r == ConfigToWrite::Current(c),
            ParsedConfig::V1(c) => if upgrade {
                r matches ConfigToWrite::Current(u) && upgraded_from(c, u)
            } else {
                r == ConfigToWrite::First(c)
            },
        },
{
    match parsed {
        ParsedConfig::V2(c) => ConfigToWrite::Current(c),
        ParsedConfig::V1(c) => if upgrade {
            ConfigToWrite::Current(Config::from_v1(c))
        } else {
            ConfigToWrite::First(c)
        },
    }
}

/// What an upgrade rewrites a parsed file with: nothing for a file of the
/// current format, which is left alone; the upgraded configuration for one
/// of the first format.
pub fn config_to_upgrade(parsed: ParsedConfig) -> (r: Option<Config>)
    ensures
        match parsed {
            ParsedConfig::V2(_) => r is None,
            ParsedConfig::V1(c) => r matches Some(u) && upgraded_from(c, u),
        },
{
    match parsed {
        ParsedConfig::V2(_) => None,
        ParsedConfig::V1(c) => Some(Config::from_v1(c)),
    }
}

} // verus!
