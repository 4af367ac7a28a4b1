use graftfs::app_configuration::{default_ignore_patterns, AppConfiguration, FileReader, ReadRecorder};
use graftfs::color::{
    default_arrow_color, default_create_color, default_link_color, default_list_color, default_remove_color,
    default_source_color, default_target_color, default_unlink_color, Color, ColorConfig, ColorSettings,
    SerializeColorSettings, V1ColorConfig,
};
use graftfs::color_support::{ColorSupport, TextSegment};
use graftfs::command::{get_item_name, Command};
use graftfs::command_builder::CommandBuilder;
use graftfs::command_error::CommandError;
use graftfs::config::{
    config_dir, config_to_print, config_to_upgrade, resolve_home_path, Config, ConfigError, ConfigFileVersion, ConfigToWrite,
    ParsedConfig, Platform, ResolveError, V1Config, VersionError, VersionKey,
};
use graftfs::dist::{default_dist_directory, dist_arguments, manpage_file_name, with_nushell, Configuration};
use graftfs::ignore_file::{parse_line, read_items, split_lines, trim_str};
use graftfs::logging::{
    default_color_support, default_max_log_files, ConsoleLoggingStream, LoggerSettings, LoggingConfig, LoggingFormat,
    LoggingLevel, RotationType,
};
use graftfs::operation::CommandOperationImpl;
use graftfs::paths::{parse_path, path_file_name, path_join, path_parent, path_rooted_remainder, paths_equal};
use graftfs::regex::RegexMatcher;
use graftfs::shell::Shell;
use graftfs::strategy::{LinkingStrategy, MatchingStrategy, RegexStrategy};
use std::collections::BTreeMap;

fn line(v: &[TextSegment]) -> String {
    v.iter().map(|s| s.text.as_str()).collect()
}

#[test]
fn item_names() {
    assert_eq!(get_item_name("/stow/pkg/dot-bashrc", &Some("dot-".to_string())).unwrap(), ".bashrc");
    assert_eq!(get_item_name("/stow/pkg/dot-bashrc", &None).unwrap(), "dot-bashrc");
    assert_eq!(get_item_name("/stow/pkg/bashrc", &Some("dot-".to_string())).unwrap(), "bashrc");
    assert_eq!(get_item_name("bashrc", &Some(String::new())).unwrap(), ".bashrc");
    assert_eq!(get_item_name("/stow/pkg/dir/", &None).unwrap(), "dir");
    match get_item_name("/", &None) {
        Err(CommandError::InvalidStowItem { item }) => assert_eq!(item, "/"),
        other => panic!("Expected InvalidStowItem, got {other:?}"),
    }
    assert!(get_item_name("/stow/..", &None).is_err());
}

#[test]
fn path_reading() {
    let p = parse_path("/a//b/./c/");
    assert!(p.absolute);
    assert_eq!(p.parts, vec!["a", "b", "c"]);
    let q = parse_path("./x/../y");
    assert!(!q.absolute);
    assert_eq!(q.parts, vec![".", "x", "..", "y"]);
    assert!(paths_equal("/a/b/", "/a//b"));
    assert!(!paths_equal("/a/b", "a/b"));
    assert_eq!(path_file_name("/a/b.txt"), Some("b.txt".to_string()));
    assert_eq!(path_file_name("/a/.."), None);
    assert_eq!(path_join("/a", "b"), "/a/b");
    assert_eq!(path_join("/a/", "b"), "/a/b");
    assert_eq!(path_join("", "b"), "b");
    assert_eq!(path_parent("/a/b"), Some("/a".to_string()));
    assert_eq!(path_parent("/a"), Some("/".to_string()));
    assert_eq!(path_parent("a"), Some(String::new()));
    assert_eq!(path_parent("/"), None);
    assert_eq!(path_rooted_remainder("/stow/pkg/README", "/stow/pkg"), Some("/README".to_string()));
    assert_eq!(path_rooted_remainder("/stow/pkg", "/stow/pkg"), Some("/".to_string()));
    assert_eq!(path_rooted_remainder("/other/README", "/stow/pkg"), None);
}

#[test]
fn pattern_file_lines() {
    assert_eq!(split_lines("a\r\nb\n\nc\r"), vec!["a", "b", "", "c\r"]);
    assert_eq!(split_lines("a\n"), vec!["a"]);
    assert!(split_lines("").is_empty());
    assert_eq!(trim_str("  \t x y \u{3000}"), "x y");
    assert_eq!(parse_line('#', "foo # comment"), "foo");
    assert_eq!(parse_line('#', "foo\\#bar # c"), "foo\\#bar");
    assert_eq!(parse_line('#', "a\\\\#b"), "a\\\\");
    assert_eq!(parse_line(';', "  x;y"), "x");
    assert_eq!(read_items("# heading\n  x  \n\n y#z\n   # only a comment\n", '#'), vec!["x", "y"]);
}

#[test]
fn default_ignore_list() {
    let d = default_ignore_patterns();
    assert_eq!(d.len(), 18);
    assert_eq!(d[0], "RCS");
    assert_eq!(d[3], "\\.\\#.+");
    assert_eq!(d[17], "^/.DS_Store");
}

#[test]
fn config_versions() {
    for s in ["1", "v1", "V1"] {
        assert_eq!(ConfigFileVersion::from_str(s).unwrap(), ConfigFileVersion::V1);
    }
    for s in ["2", "v2", "V2"] {
        assert_eq!(ConfigFileVersion::from_str(s).unwrap(), ConfigFileVersion::V2);
    }
    match ConfigFileVersion::from_str("invalid") {
        Err(VersionError::UnsupportedVersionString { version }) => assert_eq!(version, "invalid"),
        other => panic!("Unexpected result {other:?}"),
    }
    assert_eq!(ConfigFileVersion::try_from(1).unwrap(), ConfigFileVersion::V1);
    assert_eq!(ConfigFileVersion::try_from(2).unwrap(), ConfigFileVersion::V2);
    assert_eq!(ConfigFileVersion::try_from(-1), Err(VersionError::UnsupportedVersion { version: -1 }));
    assert_eq!(ConfigFileVersion::V1.name(), "v1");
    assert_eq!(ConfigFileVersion::get_version(&Some(VersionKey::Number(1))), ConfigFileVersion::V1);
    assert_eq!(ConfigFileVersion::get_version(&Some(VersionKey::Number(7))), ConfigFileVersion::V2);
    assert_eq!(ConfigFileVersion::get_version(&Some(VersionKey::Text("V1".to_string()))), ConfigFileVersion::V1);
    assert_eq!(ConfigFileVersion::get_version(&Some(VersionKey::Other)), ConfigFileVersion::V2);
    assert_eq!(ConfigFileVersion::get_version(&None), ConfigFileVersion::V2);
    assert_eq!(ConfigFileVersion::V2.number(), 2);
}

#[test]
fn home_paths() {
    assert_eq!(resolve_home_path("~/x/y", Some("/home/u")).unwrap(), "/home/u/x/y");
    assert_eq!(resolve_home_path("~", Some("/home/u")).unwrap(), "/home/u/");
    assert_eq!(resolve_home_path("a/~", Some("/home/u")).unwrap(), "a/~");
    assert_eq!(resolve_home_path("~user/x", Some("/home/u")).unwrap(), "~user/x");
    assert_eq!(
        resolve_home_path("~/x", None),
        Err(ResolveError::UnableToResolveDirectory("~/x".to_string()))
    );
}

#[test]
fn config_paths_resolved() {
    let mut config = Config::default();
    config.logging.logging_path = None;
    let resolved = config.resolve_paths("/etc/graft/.graft.toml", Some("/home/u"), "~/logs").unwrap();
    assert_eq!(resolved.ignored.file, "/etc/graft/.graft-ignore");
    assert_eq!(resolved.logging.logging_path, Some("/home/u/logs".to_string()));
    assert_eq!(resolved.overrides.file, ".graft-override");
    assert_eq!(resolved.version, ConfigFileVersion::V2);
    let mut config = Config::default();
    config.ignored.file = "~/ignore".to_string();
    config.logging.logging_path = Some("logs".to_string());
    let resolved = config.resolve_paths(".graft.toml", Some("/home/u"), "/var/log").unwrap();
    assert_eq!(resolved.ignored.file, "/home/u/ignore");
    assert_eq!(resolved.logging.logging_path, Some("logs".to_string()));
    assert_eq!(Config::default().resolve_paths("/x", None, "/l"), Err(ConfigError::UnableToFindHomeDirectory));
}

#[test]
fn upgrade_from_first_format() {
    let v1 = V1Config::default();
    let config = Config::from_v1(v1.clone());
    assert_eq!(config.version, ConfigFileVersion::V2);
    assert_eq!(config.ignored, v1.ignored);
    assert_eq!(config.stow, v1.stow);
    assert_eq!(config.color, ColorConfig::from_v1(&V1ColorConfig::default_config()));
    assert!(config.color.enabled);
    assert_eq!(config.color.settings.link.link, v1.color.settings.link);
    assert_eq!(config.color.settings.unlink.target, v1.color.settings.target);
    assert_eq!(config.color.settings.link.colon, None);
}

struct Files(BTreeMap<String, Result<String, String>>);

impl FileReader for Files {
    fn file_exists(&self, path: &str) -> bool {
        self.0.contains_key(path)
    }

    fn read_to_string(&self, path: &str) -> Result<String, String> {
        self.0.get(path).cloned().unwrap_or_else(|| Err("missing".to_string()))
    }
}

#[test]
fn configuration_in_use() {
    let mut files = BTreeMap::new();
    files.insert("/work/.graft-ignore".to_string(), Ok("# ignore\n\\.git\nbuild # output\n".to_string()));
    // The override file is not placed under the search path: it is read where it is named.
    files.insert(".graft-override".to_string(), Ok(".*rc\n".to_string()));
    let app = AppConfiguration::load_configuration(
        Config::default(),
        Some("/work/.graft.toml"),
        "/work",
        vec!["tmp".to_string(), "build".to_string()],
        vec![],
        true,
        &mut ReadRecorder::new(Files(files)),
    )
    .unwrap();
    assert_eq!(app.ignored, vec!["tmp", "build", "^/.graft-ignore", "^/.graft.toml", "\\.git"]);
    assert_eq!(app.overrides, vec![".*rc"]);
    assert_eq!(app.config().ignored.file, "/work/.graft-ignore");
    assert!(!app.config().color.enabled);
    assert!(!app.config().logging.color_support);
    assert_eq!(app.color_support(), ColorSupport::Uncolored);
    assert_eq!(app.linking_strategy(), LinkingStrategy::Short);
}

#[test]
fn configuration_without_pattern_files() {
    let app = AppConfiguration::load_configuration(
        Config::default(),
        None,
        "/work",
        vec![],
        vec![],
        false,
        &mut ReadRecorder::new(Files(BTreeMap::new())),
    )
    .unwrap();
    assert_eq!(app.ignored.len(), 19);
    assert_eq!(app.ignored[0], "^/.graft-ignore");
    assert_eq!(app.ignored[1], "RCS");
    assert!(app.overrides.is_empty());
    assert!(app.config().color.enabled);
    let colored = app.color_support_for(true);
    assert_eq!(colored, ColorSupport::Colored(ColorSettings::default_colors()));
    assert_eq!(app.color_support_for(false), ColorSupport::Uncolored);
}

#[test]
fn unreadable_pattern_file() {
    let mut files = BTreeMap::new();
    files.insert("/work/.graft-ignore".to_string(), Err("denied".to_string()));
    let r = AppConfiguration::load_configuration(Config::default(), None, "/work", vec![], vec![], false, &mut ReadRecorder::new(Files(files)));
    match r {
        Err(ConfigError::FileReadError { file, message }) => {
            assert_eq!(file, "/work/.graft-ignore");
            assert_eq!(message, "denied");
        }
        _ => panic!("Expected FileReadError"),
    }
}

#[test]
fn builders_keep_patterns_once() {
    let command = CommandBuilder::new()
        .with_target("/t".to_string())
        .with_packages(vec!["/p".to_string()])
        .stow()
        .with_ignored(vec!["a".to_string(), "b".to_string(), "a".to_string()])
        .with_ignored_item("b".to_string())
        .with_ignored_item("c".to_string())
        .with_strategies(graftfs::stow_data::StowStrategies {
            linking: LinkingStrategy::Full,
            regex: RegexStrategy::Rust,
            matching: MatchingStrategy::Individual,
        })
        .build()
        .unwrap();
    match command {
        Command::Stow(c) => {
            assert_eq!(c.data.options.filter.ignored.len(), 3);
            assert_eq!(c.data.options.linking_strategy, LinkingStrategy::Full);
            assert_eq!(c.operation, CommandOperationImpl::Default);
        }
        _ => panic!("Expected a stow"),
    }
}

#[test]
fn simulated_stow_keeps_overrides() {
    let command = CommandBuilder::new()
        .with_target("/t".to_string())
        .with_packages(vec!["/p".to_string()])
        .stow()
        .with_overrides(vec![".*".to_string()])
        .simulate(ColorSupport::Uncolored)
        .build()
        .unwrap();
    match command {
        Command::Stow(c) => {
            assert!(c.data.options.filter.overrides.iter().any(|m| m.accepts("/t/file.rc")));
            assert_eq!(c.operation, CommandOperationImpl::Simulated(ColorSupport::Uncolored));
        }
        _ => panic!("Expected a stow"),
    }
}

#[test]
fn stow_keeps_overrides() {
    let command = CommandBuilder::new()
        .with_target("/t".to_string())
        .with_packages(vec!["/p".to_string()])
        .stow()
        .with_overrides(vec![".*".to_string()])
        .command()
        .build()
        .unwrap();
    match command {
        Command::Stow(c) => assert!(c.data.options.filter.overrides.iter().any(|m| m.accepts("/t/file.rc"))),
        _ => panic!("Expected a stow"),
    }
}

#[test]
fn restow_and_list_builders() {
    let command = CommandBuilder::new()
        .simulate(ColorSupport::Uncolored)
        .with_target("/t".to_string())
        .with_packages(vec!["/p".to_string()])
        .with_dot_file_prefix(Some("dot-".to_string()))
        .restow()
        .build()
        .unwrap();
    match command {
        Command::Restow(c) => {
            assert_eq!(c.data.unstow.target, "/t");
            assert_eq!(c.data.stow.packages, vec!["/p"]);
            assert_eq!(c.data.unstow.dot_file_prefix, Some("dot-".to_string()));
        }
        _ => panic!("Expected a restow"),
    }
    let settings = ColorSettings::default_colors();
    let command = CommandBuilder::new()
        .list()
        .with_target("/t".to_string())
        .with_packages(vec!["/p".to_string()])
        .with_color_support(ColorSupport::Colored(settings))
        .build()
        .unwrap();
    match command {
        Command::List(c) => assert_eq!(c.data.color_support, ColorSupport::Colored(settings)),
        _ => panic!("Expected a list"),
    }
    assert!(CommandBuilder::new().list().build().is_err());
    assert!(CommandBuilder::new().unstow().with_target("/t".to_string()).build().is_err());
}

#[test]
fn strategy_names_read_back() {
    for s in [RegexStrategy::Rust, RegexStrategy::Pcre2] {
        assert_eq!(RegexStrategy::from_str(s.name()).unwrap(), s);
        assert_eq!(RegexStrategy::from_str(&s.name().to_uppercase()).unwrap(), s);
    }
    for s in [MatchingStrategy::Individual, MatchingStrategy::Combined] {
        assert_eq!(MatchingStrategy::from_str(s.name()).unwrap(), s);
    }
    for s in [LinkingStrategy::Short, LinkingStrategy::Full] {
        assert_eq!(LinkingStrategy::from_str(s.name()).unwrap(), s);
    }
    assert!(RegexStrategy::from_str("perl").is_err());
    assert_eq!(RegexStrategy::try_from(1).unwrap(), RegexStrategy::Pcre2);
}

#[test]
fn logging_names_read_back() {
    for l in [LoggingLevel::Off, LoggingLevel::Trace, LoggingLevel::Debug, LoggingLevel::Info, LoggingLevel::Warn, LoggingLevel::Error] {
        assert_eq!(LoggingLevel::from_str(l.name()).unwrap(), l);
        assert_eq!(LoggingLevel::from_str(l.display_name()).unwrap(), l);
        assert_eq!(LoggingLevel::try_from(l.number()).unwrap(), l);
    }
    assert_eq!(LoggingLevel::from_str("WARN").unwrap(), LoggingLevel::Warn);
    assert_eq!(ConsoleLoggingStream::from_str("STDOUT").unwrap(), ConsoleLoggingStream::Stdout);
    assert_eq!(ConsoleLoggingStream::try_from(2).unwrap(), ConsoleLoggingStream::Stderr);
    assert!(ConsoleLoggingStream::try_from(-1).is_err());
    assert!(ConsoleLoggingStream::from_str("invalid").is_err());
    assert_eq!(LoggingFormat::Json.display_name(), "Json");
}

#[test]
fn logging_settings() {
    let config = LoggingConfig::default();
    assert_eq!(config.level, LoggingLevel::Warn);
    assert_eq!(config.rotation, None);
    assert_eq!(config.max_log_files, default_max_log_files());
    assert_eq!(default_max_log_files(), None);
    assert!(default_color_support());
    assert_eq!(config.logger_settings(Some(LoggingLevel::Off), None, None), None);
    assert_eq!(
        config.logger_settings(Some(LoggingLevel::Debug), Some(LoggingFormat::Json), None),
        Some(LoggerSettings {
            level: LoggingLevel::Debug,
            format: LoggingFormat::Json,
            stream: ConsoleLoggingStream::Stderr,
        })
    );
    assert!(config.console_color_support(true));
    assert!(!config.console_color_support(false));
    assert_eq!(LoggingConfig::get_log_path("/logs", "sub"), "/logs/sub");
    assert_eq!(LoggingConfig::get_log_path("/logs", "/abs"), "/abs");
    assert_eq!(LoggingConfig::try_make_log_path("app/graft.log", "/logs", true), "/logs/app");
    assert_eq!(LoggingConfig::try_make_log_path("app/graft.log", "/logs", false), "/logs");
    assert_eq!(LoggingConfig::try_make_log_path("/", "/logs", true), "/logs");
    assert_eq!(LoggingConfig::get_file_path("rel", Some("/cwd")), Some("/cwd/rel".to_string()));
    assert_eq!(LoggingConfig::get_file_path("/abs", None), Some("/abs".to_string()));
    assert_eq!(LoggingConfig::get_file_path("rel", None), None);
    assert_eq!(LoggingConfig::log_file_name("/var/log/app.log"), "app.log");
    assert_eq!(LoggingConfig::log_file_name("/"), "graft.log");
}

#[test]
fn shells() {
    assert_eq!(Shell::Bash.file_name("graft"), "graft.bash");
    assert_eq!(Shell::Fish.file_name("graft"), "graft.fish");
    assert_eq!(Shell::Elvish.file_name("graft"), "graft.elv");
    assert_eq!(Shell::PowerShell.file_name("graft"), "_graft.ps1");
    assert_eq!(Shell::Zsh.file_name("graft"), "_graft");
    assert_eq!(Shell::Nushell.file_name("graft"), "graft.nu");
    assert_eq!(Shell::from_value("nu"), Some(Shell::Nushell));
    assert_eq!(Shell::from_value("Bash"), None);
    for s in Shell::value_variants() {
        assert_eq!(Shell::from_value(s.name()), Some(s));
    }
}

#[test]
fn dist_settings() {
    let args = dist_arguments(false, &vec!["nushell".to_string()], Configuration::Release);
    assert_eq!(args, vec!["--feature nushell", "--release"]);
    assert!(with_nushell(&args));
    let args = dist_arguments(true, &vec!["x".to_string()], Configuration::Debug);
    assert_eq!(args, vec!["--all-features", "--debug"]);
    assert!(with_nushell(&args));
    assert!(!with_nushell(&dist_arguments(false, &vec![], Configuration::Release)));
    assert_eq!(default_dist_directory("/p/xtask"), Some("/p/target/dist".to_string()));
    assert_eq!(manpage_file_name("stow"), "graft-stow.1");
}

#[test]
fn output_lines() {
    let plain = ColorSupport::Uncolored;
    assert_eq!(line(&plain.link_text("/s/a", "/t/a")), "LINK: /s/a => /t/a");
    assert_eq!(line(&plain.unlink_text("/t/a")), "UNLINK: /t/a");
    assert_eq!(line(&plain.remove_text("/t/a")), "RM: /t/a");
    assert_eq!(line(&plain.create_text("/t/d")), "MKDIR: /t/d");
    assert_eq!(
        line(&plain.simulation_text()),
        "\nNote: Running in simulation mode.  The file system isn't being modified"
    );
    assert!(plain.link_text("a", "b").iter().all(|s| s.color.is_none()));
    let colored = ColorSupport::Colored(ColorSettings::default_colors());
    let segments = colored.list_text("a", "b");
    assert_eq!(segments[0].color, Some(ColorSettings::default_colors().list.link));
    assert_eq!(colored.name(), "Colored");
    assert_eq!(plain.name(), "None");
}

#[test]
fn matchers() {
    assert!(RegexMatcher::try_create_matcher(RegexStrategy::Rust, "(").is_none());
    let m = RegexMatcher::try_create_matcher(RegexStrategy::Rust, "a.c").unwrap();
    assert!(m.accepts("abc"));
    assert!(!m.accepts("abcd"));
    assert_eq!(m.shortest_match("xxabc"), Some(5));
    let p = RegexMatcher::try_create_matcher(RegexStrategy::Pcre2, "^/README.*").unwrap();
    assert!(p.accepts("/README.md"));
    assert!(!p.accepts("/docs/README.md"));
    let combined = RegexMatcher::try_create_combined_matcher(RegexStrategy::Rust, vec!["x".to_string(), "y".to_string()]).unwrap();
    assert!(combined.accepts("y"));
}

#[test]
fn color_settings_round_trip() {
    let s = ColorSettings::default_colors();
    assert_eq!(s.to_serialized().to_settings(), s);
    assert_eq!(SerializeColorSettings::default_colors().to_settings(), s);
    assert_eq!(ColorConfig::new(s, true).color_settings(), s);
}

#[test]
fn list_builder_back_to_file_system_mode() {
    let command = CommandBuilder::new()
        .list()
        .with_target("/t".to_string())
        .with_packages(vec!["/p".to_string()])
        .with_color_support(ColorSupport::Uncolored)
        .simulate(ColorSupport::Uncolored)
        .command()
        .build()
        .unwrap();
    match command {
        Command::List(c) => {
            assert_eq!(c.operation, CommandOperationImpl::Default);
            assert_eq!(c.data.color_support, ColorSupport::Uncolored);
            assert_eq!(c.data.target, "/t");
        }
        _ => panic!("Expected a list"),
    }
}

#[test]
fn default_named_colors() {
    assert_eq!(default_link_color(), Color::Green);
    assert_eq!(default_unlink_color(), Color::Red);
    assert_eq!(default_list_color(), Color::Cyan);
    assert_eq!(default_remove_color(), Color::Red);
    assert_eq!(default_create_color(), Color::Green);
    assert_eq!(default_arrow_color(), Color::Blue);
    assert_eq!(default_source_color(), Color::Yellow);
    assert_eq!(default_target_color(), Color::Magenta);
}

#[test]
fn configuration_directory() {
    let s = |v: &str| Some(v.to_string());
    assert_eq!(config_dir(Platform::Linux, s("/g"), s("/x"), None, s("/h")), s("/g"));
    assert_eq!(config_dir(Platform::Linux, s(""), s("/x"), None, s("/h")), s("/x/graft"));
    assert_eq!(config_dir(Platform::Linux, None, None, None, s("/h")), s("/h/.config/graft"));
    assert_eq!(config_dir(Platform::MacOs, None, None, None, s("/h")), s("/h/Library/Application Support/graft"));
    assert_eq!(config_dir(Platform::MacOs, None, s("/x"), None, s("/h")), s("/x/graft"));
    assert_eq!(config_dir(Platform::Windows, None, s("/x"), s("/a"), s("/h")), s("/a/graft"));
    assert_eq!(config_dir(Platform::Windows, None, None, None, s("/h")), None);
    assert_eq!(config_dir(Platform::Linux, None, None, None, None), None);
}

#[test]
fn level_parse_ignores_case() {
    assert_eq!(LoggingLevel::from_str("WARN").unwrap(), LoggingLevel::from_str("warn").unwrap());
    assert_eq!(LoggingLevel::from_str("DeBuG").unwrap(), LoggingLevel::Debug);
}

#[test]
fn configuration_to_write() {
    match config_to_print(ParsedConfig::V1(V1Config::default()), false) {
        ConfigToWrite::First(c) => assert_eq!(c, V1Config::default()),
        ConfigToWrite::Current(_) => panic!("Expected the first format"),
    }
    match config_to_print(ParsedConfig::V1(V1Config::default()), true) {
        ConfigToWrite::Current(c) => {
            assert_eq!(c.version, ConfigFileVersion::V2);
            assert_eq!(c, Config::from_v1(V1Config::default()));
        }
        ConfigToWrite::First(_) => panic!("Expected the current format"),
    }
    match config_to_print(ParsedConfig::V2(Config::default()), true) {
        ConfigToWrite::Current(c) => assert_eq!(c, Config::default()),
        ConfigToWrite::First(_) => panic!("Expected the current format"),
    }
    assert!(config_to_upgrade(ParsedConfig::V2(Config::default())).is_none());
    assert_eq!(config_to_upgrade(ParsedConfig::V1(V1Config::default())), Some(Config::from_v1(V1Config::default())));
}
