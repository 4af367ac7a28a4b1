//! The configuration in use: the configuration file's settings with its paths
//! placed, and the ignore and override patterns gathered from the command
//! line, the pattern files and the built-in list.
use vstd::prelude::*;
use vstd::string::*;
use crate::color_support::ColorSupport;
use crate::command_builder::{dedup, insert_unique, push_unique, unique_strings};
use crate::config::{anchored, Config, ConfigError};
use crate::ignore_file::{file_items, read_items};
use crate::logging::{color_level_on, ConsoleLoggingStream, LoggingConfig};
use crate::paths::{file_name, path_file_name, path_join, views};
use crate::strategy::LinkingStrategy;

verus! {

/// Patterns ignored when there is no ignore file: version-control files,
/// editor backups, and a few files at the top of a package.
pub open spec fn default_ignore() -> Seq<Seq<char>> {
    seq![
        "RCS"@, ".+,v"@, "CVS"@, "\\.\\#.+"@, "\\.cvsignore"@, "\\.svn"@, "_darcs"@, "\\.hg"@,
        "\\.git"@, "\\.gitignore"@, "\\.gitmodules"@, "\\.jj"@, ".+~"@, "\\#.*\\#"@,
        "^/README.*"@, "^/LICENSE.*"@, "^/COPYING"@, "^/.DS_Store"@,
    ]
}

/// The built-in ignore patterns.
pub fn default_ignore_patterns() -> (r: Vec<String>)
    ensures
        views(r@) == default_ignore(),
{
    let v: Vec<String> = vec![
        "RCS".to_owned(), ".+,v".to_owned(), "CVS".to_owned(), "\\.\\#.+".to_owned(),
        "\\.cvsignore".to_owned(), "\\.svn".to_owned(), "_darcs".to_owned(), "\\.hg".to_owned(),
        "\\.git".to_owned(), "\\.gitignore".to_owned(), "\\.gitmodules".to_owned(), "\\.jj".to_owned(),
        ".+~".to_owned(), "\\#.*\\#".to_owned(), "^/README.*".to_owned(), "^/LICENSE.*".to_owned(),
        "^/COPYING".to_owned(), "^/.DS_Store".to_owned(),
    ];
    assert(views(v@) =~= default_ignore());
    v
}

/// The pattern that ignores a file at the top of a package: `^/` and the
/// file name of `path`.
pub open spec fn file_pattern(path: Option<Seq<char>>) -> Option<Seq<char>> {
    match path {
        Some(p) => match file_name(p) {
            Some(n) => Some("^/"@ + n),
            None => None,
        },
        None => None,
    }
}

/// The one element of an option, or nothing.
pub open spec fn option_items(o: Option<Seq<char>>) -> Seq<Seq<char>> {
    match o {
        Some(x) => seq![x],
        None => Seq::empty(),
    }
}

/// The path as characters.
pub open spec fn str_option(o: Option<&str>) -> Option<Seq<char>> {
    match o {
        Some(s) => Some(s@),
        None => None,
    }
}

/// The text as characters.
pub open spec fn text_view(o: Option<String>) -> Option<Seq<char>> {
    match o {
        Some(s) => Some(s@),
        None => None,
    }
}

/// The ignore patterns the files give: the patterns of the ignore file's own
/// name and of the configuration file's name, then the ignore file's patterns
/// (`text`), or the built-in list when there is no ignore file.
pub open spec fn ignore_items(config: Config, config_file: Option<Seq<char>>, text: Option<Seq<char>>) -> Seq<Seq<char>> {
    option_items(file_pattern(Some(config.ignored.file@))) + option_items(file_pattern(config_file)) + match text {
        Some(t) => file_items(t, config.ignored.comment),
        None => default_ignore(),
    }
}

/// The override patterns the override file (`text`, if it exists) gives.
pub open spec fn override_items(config: Config, text: Option<Seq<char>>) -> Seq<Seq<char>> {
    match text {
        Some(t) => file_items(t, config.overrides.comment),
        None => Seq::empty(),
    }
}

/// The configuration with its paths placed under `search_path` and colors
/// turned off when `no_color` is set.
pub open spec fn placed(config: Config, search_path: Seq<char>, no_color: bool, c: Config) -> bool {
    &&& c.ignored.file@ == anchored(config.ignored.file@, search_path)
    &&& c.ignored.comment == config.ignored.comment
    &&& match config.logging.logging_path {
        Some(lp) => c.logging.logging_path matches Some(x) && x@ == anchored(lp@, search_path),
        None => c.logging.logging_path is None,
    }
    &&& c.logging == (LoggingConfig {
        logging_path: c.logging.logging_path,
        color_support: !no_color && config.logging.color_support,
        ..config.logging
    })
    &&& c.color.enabled == (!no_color && config.color.enabled)
    &&& c.color.settings == config.color.settings
    &&& c.version == config.version
    &&& c.overrides == config.overrides
    &&& c.stow == config.stow
}

/// Reads the files the configuration names.
pub trait FileReader {
    /// Whether something exists at `path`.
    fn file_exists(&self, path: &str) -> bool;

    /// The text of the file at `path`, or the system's message.
    fn read_to_string(&self, path: &str) -> Result<String, String>;
}

/// One question put to a [`FileReader`], with the answer it got.
pub enum FileRead {
    Exists { path: Seq<char>, answer: bool },
    Text { path: Seq<char>, answer: Result<String, String> },
}

/// A [`FileReader`] together with the list of every question put to it so
/// far, with its answer.
pub struct ReadRecorder<R> {
    inner: R,
    trail: Ghost<Seq<FileRead>>,
}

impl<R: FileReader> ReadRecorder<R> {
    /// Everything asked so far, in order, with its answers.
    pub closed spec fn reads(&self) -> Seq<FileRead> {
        self.trail@
    }

    /// The reader that is recorded.
    pub closed spec fn reader(&self) -> R {
        self.inner
    }

    /// Starts recording on `inner`, with nothing asked yet.
    pub fn new(inner: R) -> (r: Self)
        ensures
            r.reads() == Seq::<FileRead>::empty(),
            r.reader() == inner,
    {
        ReadRecorder { inner, trail: Ghost(Seq::empty()) }
    }

    /// The reader that was recorded.
    pub fn into_inner(self) -> (r: R)
        ensures
            r == self.reader(),
    {
        self.inner
    }

    fn file_exists(&mut self, path: &str) -> (r: bool)
        ensures
            final(self).reads() == old(self).reads().push(FileRead::Exists { path: path@, answer: r }),
    {
        let r = self.inner.file_exists(path);
        proof {
            self.trail@ = self.trail@.push(FileRead::Exists { path: path@, answer: r });
        }
        r
    }

    fn read_to_string(&mut self, path: &str) -> (r: Result<String, String>)
        ensures
            final(self).reads() == old(self).reads().push(FileRead::Text { path: path@, answer: r }),
    {
        let r = self.inner.read_to_string(path);
        proof {
            self.trail@ = self.trail@.push(FileRead::Text { path: path@, answer: r });
        }
        r
    }
}

/// What a read of the pattern file at `path` asks, given what it gave: it
/// asks whether the file exists, and only then reads it.
pub open spec fn pattern_reads(path: Seq<char>, r: Result<Option<String>, ConfigError>) -> Seq<FileRead> {
    match r {
        Ok(None) => seq![FileRead::Exists { path, answer: false }],
        Ok(Some(t)) => seq![FileRead::Exists { path, answer: true }, FileRead::Text { path, answer: Ok(t) }],
        Err(ConfigError::FileReadError { message, .. }) => seq![
            FileRead::Exists { path, answer: true },
            FileRead::Text { path, answer: Err(message) },
        ],
        Err(_) => Seq::empty(),
    }
}

/// The configuration in use.
pub struct AppConfiguration {
    config: Config,
    pub ignored: Vec<String>,
    pub overrides: Vec<String>,
}

/// `^/` and the file name of `path`, if it has one.
fn build_file_pattern(path: Option<&str>) -> (r: Option<String>)
    ensures
        match r {
            Some(x) => file_pattern(str_option(path)) == Some(x@),
            None => file_pattern(str_option(path)) is None,
        },
{
    match path {
        Some(p) => match path_file_name(p) {
            Some(n) => {
                let mut out = "^/".to_owned();
                out.append(n.as_str());
                Some(out)
            },
            None => None,
        },
        None => None,
    }
}

/// Adds each of `items` to `out`, unless it is there already.
fn extend_unique(out: &mut Vec<String>, items: Vec<String>)
    ensures
        views(final(out)@) == dedup_onto(views(old(out)@), views(items@)),
{
    let mut i: usize = 0;
    while i < items.len()
        invariant
            i <= items@.len(),
            views(out@) == dedup_onto(views(old(out)@), views(items@).take(i as int)),
        decreases items.len() - i,
    {
        proof {
            let t = views(items@).take(i + 1);
            assert(t.drop_last() =~= views(items@).take(i as int));
            assert(t.last() == items@[i as int]@);
        }
        push_unique(out, items[i].clone());
        i = i + 1;
    }
    assert(views(items@).take(items.len() as int) =~= views(items@));
}

/// `base` with each of `items` added in turn, unless it is there already.
pub open spec fn dedup_onto(base: Seq<Seq<char>>, items: Seq<Seq<char>>) -> Seq<Seq<char>>
    decreases items.len(),
{
    if items.len() == 0 {
        base
    } else {
        insert_unique(dedup_onto(base, items.drop_last()), items.last())
    }
}

/// Adding items one by one to the repetition-free form of a list gives the
/// repetition-free form of the longer list.
pub proof fn lemma_dedup_onto(a: Seq<Seq<char>>, b: Seq<Seq<char>>)
    ensures
        dedup_onto(dedup(a), b) == dedup(a + b),
    decreases b.len(),
{
    if b.len() == 0 {
        assert(a + b =~= a);
    } else {
        lemma_dedup_onto(a, b.drop_last());
        assert((a + b).drop_last() =~= a + b.drop_last());
        assert((a + b).last() == b.last());
    }
}

impl AppConfiguration {
    /// The configuration file's settings in use.
    pub closed spec fn spec_config(&self) -> Config {
        self.config
    }

    /// The ignore patterns in use.
    pub closed spec fn ignored_patterns(&self) -> Seq<Seq<char>> {
        views(self.ignored@)
    }

    /// The override patterns in use.
    pub closed spec fn override_patterns(&self) -> Seq<Seq<char>> {
        views(self.overrides@)
    }

    /// Places the configuration's relative ignore file and logging path under
    /// `search_path`, and turns colors off when `no_color` is set.
    pub fn place_config(config: Config, search_path: &str, no_color: bool) -> (r: Config)
        ensures
            placed(config, search_path@, no_color, r),
    {
        let mut config = config;
        let f = config.ignored.file.as_str();
        if !(f.unicode_len() > 0 && f.get_char(0) == '/') {
            config.ignored.file = path_join(search_path, f);
        }
        let lp = match &config.logging.logging_path {
            Some(p) => if p.unicode_len() > 0 && p.get_char(0) == '/' {
                Some(p.clone())
            } else {
                Some(path_join(search_path, p.as_str()))
            },
            None => None,
        };
        config.logging.logging_path = lp;
        config.logging.color_support = !no_color && config.logging.color_support;
        config.color.enabled = !no_color && config.color.enabled;
        config
    }

    /// The configuration in use, from a placed configuration, the patterns of
    /// the command line, and the texts of the ignore and override files
    /// (`None` where the file does not exist). Each list of patterns holds
    /// every pattern once, in the order first given.
    pub fn assemble(
        config: Config,
        config_file: Option<&str>,
        ignored: Vec<String>,
        overrides: Vec<String>,
        ignore_text: Option<String>,
        override_text: Option<String>,
    ) -> (r: AppConfiguration)
        ensures
            r.spec_config() == config,
            r.ignored_patterns() == dedup(views(ignored@) + ignore_items(
                config,
                str_option(config_file),
                text_view(ignore_text),
            )),
            r.override_patterns() == dedup(views(overrides@) + override_items(config, text_view(override_text))),
    {
        let ghost cf = match config_file { Some(p) => Some(p@), None => None::<Seq<char>> };
        let mut items: Vec<String> = Vec::new();
        match build_file_pattern(Some(config.ignored.file.as_str())) {
            Some(p) => items.push(p),
            None => {},
        }
        match build_file_pattern(config_file) {
            Some(p) => items.push(p),
            None => {},
        }
        let ghost head = views(items@);
        assert(head =~= option_items(file_pattern(Some(config.ignored.file@))) + option_items(file_pattern(cf)));
        let mut rest = match &ignore_text {
            Some(t) => read_items(t.as_str(), config.ignored.comment),
            None => default_ignore_patterns(),
        };
        let ghost rv = views(rest@);
        items.append(&mut rest);
        assert(views(items@) =~= head + rv);
        let ghost iv = views(ignored@);
        let mut out = unique_strings(ignored);
        extend_unique(&mut out, items);
        proof {
            lemma_dedup_onto(iv, head + rv);
        }
        let ghost ov = views(overrides@);
        let mut out_o = unique_strings(overrides);
        let o_items = match &override_text {
            Some(t) => read_items(t.as_str(), config.overrides.comment),
            None => Vec::new(),
        };
        let ghost oi = views(o_items@);
        assert(oi =~= override_items(config, text_view(override_text)));
        extend_unique(&mut out_o, o_items);
        proof {
            lemma_dedup_onto(ov, oi);
        }
        AppConfiguration { config, ignored: out, overrides: out_o }
    }
}

/// How a load of the configuration failed, `pc` being the placed
/// configuration: the ignore file could not be read, and nothing more was
/// asked; or it was read (or found missing), and then the override file
/// could not be read. The error names the file that could not be read.
pub open spec fn load_failed(pc: Config, e: ConfigError, before: Seq<FileRead>, after: Seq<FileRead>) -> bool {
    e matches ConfigError::FileReadError { file, .. } && {
        ||| file@ == pc.ignored.file@ && after == before + pattern_reads(pc.ignored.file@, Err(e))
        ||| file@ == pc.overrides.file@ && exists|ti: Option<String>|
            #![trigger pattern_reads(pc.ignored.file@, Ok(ti))]
            after == before + pattern_reads(pc.ignored.file@, Ok(ti)) + pattern_reads(pc.overrides.file@, Err(e))
    }
}

/// The text of the pattern file at `path`: `None` when nothing exists there,
/// a `FileReadError` when it cannot be read.
fn read_pattern_text<R: FileReader>(path: &str, reader: &mut ReadRecorder<R>) -> (r: Result<Option<String>, ConfigError>)
    ensures
        r matches Err(e) ==> (e matches ConfigError::FileReadError { file, .. } && file@ == path@),
        final(reader).reads() == old(reader).reads() + pattern_reads(path@, r),
{
    if !reader.file_exists(path) {
        return Ok(None);
    }
    match reader.read_to_string(path) {
        Ok(t) => Ok(Some(t)),
        Err(message) => Err(ConfigError::FileReadError { file: path.to_owned(), message }),
    }
}

impl AppConfiguration {
    /// Loads the configuration in use: places the configuration's paths
    /// under `search_path` (see [`AppConfiguration::place_config`]), then
    /// reads the ignore and override files it names through `reader` and
    /// gathers the patterns (see [`AppConfiguration::assemble`]). Fails with
    /// `FileReadError` when a pattern file exists but cannot be read.
    pub fn load_configuration<R: FileReader>(
        config: Config,
        config_file: Option<&str>,
        search_path: &str,
        ignored: Vec<String>,
        overrides: Vec<String>,
        no_color: bool,
        reader: &mut ReadRecorder<R>,
    ) -> (r: Result<AppConfiguration, ConfigError>)
        ensures
            match r {
                Ok(a) => {
                    &&& placed(config, search_path@, no_color, a.spec_config())
                    &&& exists|ti: Option<String>, to: Option<String>|
                        #![trigger pattern_reads(a.spec_config().ignored.file@, Ok(ti)), pattern_reads(a.spec_config().overrides.file@, Ok(to))]
                        {
                            &&& final(reader).reads() == old(reader).reads() + pattern_reads(a.spec_config().ignored.file@, Ok(ti))
                                + pattern_reads(a.spec_config().overrides.file@, Ok(to))
                            &&& a.ignored_patterns() == dedup(views(ignored@) + ignore_items(
                                a.spec_config(),
                                str_option(config_file),
                                text_view(ti),
                            ))
                            &&& a.override_patterns() == dedup(views(overrides@) + override_items(a.spec_config(), text_view(to)))
                        }
                },
                Err(e) => exists|pc: Config|
                    #![trigger placed(config, search_path@, no_color, pc)]
                    placed(config, search_path@, no_color, pc) && load_failed(pc, e, old(reader).reads(), final(reader).reads()),
            },
    {
        let placed_config = Self::place_config(config, search_path, no_color);
        let ghost pc = placed_config;
        let ghost start = reader.reads();
        let ignore_read = read_pattern_text(placed_config.ignored.file.as_str(), reader);
        let ignore_text = match ignore_read {
            Ok(t) => t,
            Err(e) => {
                proof {
                    assert(placed(config, search_path@, no_color, pc));
                    assert(load_failed(pc, e, start, reader.reads()));
                }
                return Err(e);
            },
        };
        let ghost after_ignore = reader.reads();
        let override_read = read_pattern_text(placed_config.overrides.file.as_str(), reader);
        let override_text = match override_read {
            Ok(t) => t,
            Err(e) => {
                proof {
                    assert(after_ignore == start + pattern_reads(pc.ignored.file@, Ok(ignore_text)));
                    assert(reader.reads() == start + pattern_reads(pc.ignored.file@, Ok(ignore_text))
                        + pattern_reads(pc.overrides.file@, Err(e)));
                    assert(placed(config, search_path@, no_color, pc));
                    assert(load_failed(pc, e, start, reader.reads()));
                }
                return Err(e);
            },
        };
        let ghost it = text_view(ignore_text);
        let ghost ot = text_view(override_text);
        let ghost cf = match config_file { Some(p) => Some(p@), None => None::<Seq<char>> };
        let ghost iv = views(ignored@);
        let ghost ov = views(overrides@);
        let a = Self::assemble(placed_config, config_file, ignored, overrides, ignore_text, override_text);
        assert(a.ignored_patterns() == dedup(iv + ignore_items(a.spec_config(), cf, it)));
        assert(a.override_patterns() == dedup(ov + override_items(a.spec_config(), ot)));
        assert(reader.reads() == old(reader).reads() + pattern_reads(a.spec_config().ignored.file@, Ok(ignore_text))
            + pattern_reads(a.spec_config().overrides.file@, Ok(override_text)));
        Ok(a)
    }

    /// The configuration file's settings in use.
    pub fn config(&self) -> (r: &Config)
        ensures
            *r == self.spec_config(),
    {
        &self.config
    }

    /// The linking strategy of the configuration.
    pub fn linking_strategy(&self) -> (r: LinkingStrategy)
        ensures
            r == self.spec_config().stow.linking_strategy,
    {
        self.config.stow.linking_strategy
    }

    /// Colored output, with the configured colors, when colors are enabled
    /// and standard output supports them; uncolored otherwise.
    pub fn color_support_for(&self, stdout_supports_color: bool) -> (r: ColorSupport)
        ensures
            self.spec_config().color.enabled && stdout_supports_color ==> r == ColorSupport::Colored(
                self.spec_config().color.settings.spec_to_settings(),
            ),
            !(self.spec_config().color.enabled && stdout_supports_color) ==> r == ColorSupport::Uncolored,
    {
        if self.config.color.enabled && stdout_supports_color {
            ColorSupport::Colored(self.config.color.color_settings())
        } else {
            ColorSupport::Uncolored
        }
    }

    /// [`AppConfiguration::color_support_for`], asking the terminal of
    /// standard output whether it supports colors.
    pub fn color_support(&self) -> (r: ColorSupport)
        ensures
            !self.spec_config().color.enabled ==> r == ColorSupport::Uncolored,
            r matches ColorSupport::Colored(s) ==> s == self.spec_config().color.settings.spec_to_settings(),
    {
        if self.config.color.enabled {
            let supported = color_level_on(ConsoleLoggingStream::Stdout).is_some();
            self.color_support_for(supported)
        } else {
            ColorSupport::Uncolored
        }
    }
}

} // verus!
