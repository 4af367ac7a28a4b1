//! Logging settings: level, console stream, file rotation and format, and
//! where log files go.
use vstd::prelude::*;
use vstd::string::*;
use crate::text::{ascii_lower, eq_ignore_ascii_case, eq_ignore_ascii_case_spec, lemma_eq_ignore_ascii_case_same};
use crate::paths::{file_name, is_absolute, join, parent, path_file_name, path_join, path_parent};
use tracing::level_filters::LevelFilter;
use supports_color::ColorLevel;
use tracing_appender::rolling::Rotation;

verus! {

/// How much is logged.
#[derive(Debug, Clone, Copy, PartialEq, Eq, Hash, PartialOrd, Ord, Structural)]
pub enum LoggingLevel {
    Off,
    Trace,
    Debug,
    Info,
    Warn,
    Error,
}

/// A text or a number that names no logging level.
#[derive(Debug, Clone, PartialEq, Eq)]
pub enum LevelError {
    InvalidLevel(i64),
    InvalidLevelString(String),
}

impl Default for LoggingLevel {
    fn default() -> (r: Self)
        ensures
            r == LoggingLevel::Warn,
    {
        LoggingLevel::Warn
    }
}

impl LoggingLevel {
    /// The name written for the value in configuration files.
    pub open spec fn spec_name(self) -> Seq<char> {
        match self {
            LoggingLevel::Off => "off"@,
            LoggingLevel::Trace => "trace"@,
            LoggingLevel::Debug => "debug"@,
            LoggingLevel::Info => "info"@,
            LoggingLevel::Warn => "warn"@,
            LoggingLevel::Error => "error"@,
        }
    }

    /// The text the value is displayed as.
    pub open spec fn spec_display(self) -> Seq<char> {
        match self {
            LoggingLevel::Off => "Off"@,
            LoggingLevel::Trace => "Trace"@,
            LoggingLevel::Debug => "Debug"@,
            LoggingLevel::Info => "Info"@,
            LoggingLevel::Warn => "Warn"@,
            LoggingLevel::Error => "Error"@,
        }
    }

    /// The number of the level, from 0 (off) to 5 (error).
    pub open spec fn spec_number(self) -> i64 {
        match self {
            LoggingLevel::Off => 0,
            LoggingLevel::Trace => 1,
            LoggingLevel::Debug => 2,
            LoggingLevel::Info => 3,
            LoggingLevel::Warn => 4,
            LoggingLevel::Error => 5,
        }
    }

    /// The value a text names, compared without ASCII case.
    pub open spec fn spec_parse(s: Seq<char>) -> Option<LoggingLevel> {
        if eq_ignore_ascii_case_spec(s, "off"@) {
            Some(LoggingLevel::Off)
        } else if eq_ignore_ascii_case_spec(s, "trace"@) {
            Some(LoggingLevel::Trace)
        } else if eq_ignore_ascii_case_spec(s, "debug"@) {
            Some(LoggingLevel::Debug)
        } else if eq_ignore_ascii_case_spec(s, "info"@) {
            Some(LoggingLevel::Info)
        } else if eq_ignore_ascii_case_spec(s, "warn"@) {
            Some(LoggingLevel::Warn)
        } else if eq_ignore_ascii_case_spec(s, "error"@) {
            Some(LoggingLevel::Error)
        } else {
            None
        }
    }

    /// The value with the given number.
    pub open spec fn spec_from_number(value: i64) -> Option<LoggingLevel> {
        if value == 0 {
            Some(LoggingLevel::Off)
        } else if value == 1 {
            Some(LoggingLevel::Trace)
        } else if value == 2 {
            Some(LoggingLevel::Debug)
        } else if value == 3 {
            Some(LoggingLevel::Info)
        } else if value == 4 {
            Some(LoggingLevel::Warn)
        } else if value == 5 {
            Some(LoggingLevel::Error)
        } else {
            None
        }
    }

    /// Parses a name without regard to ASCII case.
    pub fn from_str(s: &str) -> (r: Result<LoggingLevel, LevelError>)
        ensures
            match r {
                Ok(v) => Self::spec_parse(s@) == Some(v),
                Err(e) => Self::spec_parse(s@) is None && (e matches LevelError::InvalidLevelString(t) && t@ == s@),
            },
    {
        if eq_ignore_ascii_case(s, "off") {
            Ok(LoggingLevel::Off)
        } else if eq_ignore_ascii_case(s, "trace") {
            Ok(LoggingLevel::Trace)
        } else if eq_ignore_ascii_case(s, "debug") {
            Ok(LoggingLevel::Debug)
        } else if eq_ignore_ascii_case(s, "info") {
            Ok(LoggingLevel::Info)
        } else if eq_ignore_ascii_case(s, "warn") {
            Ok(LoggingLevel::Warn)
        } else if eq_ignore_ascii_case(s, "error") {
            Ok(LoggingLevel::Error)
        } else {
            Err(LevelError::InvalidLevelString(s.to_owned()))
        }
    }

    /// The value with the given number.
    pub fn try_from(value: i64) -> (r: Result<LoggingLevel, LevelError>)
        ensures
            match r {
                Ok(v) => Self::spec_from_number(value) == Some(v),
                Err(e) => Self::spec_from_number(value) is None && e == LevelError::InvalidLevel(value),
            },
    {
        match value {
            0 => Ok(LoggingLevel::Off),
            1 => Ok(LoggingLevel::Trace),
            2 => Ok(LoggingLevel::Debug),
            3 => Ok(LoggingLevel::Info),
            4 => Ok(LoggingLevel::Warn),
            5 => Ok(LoggingLevel::Error),
            _ => Err(LevelError::InvalidLevel(value)),
        }
    }

    /// The name written for the value in configuration files.
    pub fn name(&self) -> (r: &'static str)
        ensures
            r@ == self.spec_name(),
    {
        match self {
            LoggingLevel::Off => "off",
            LoggingLevel::Trace => "trace",
            LoggingLevel::Debug => "debug",
            LoggingLevel::Info => "info",
            LoggingLevel::Warn => "warn",
            LoggingLevel::Error => "error",
        }
    }

    /// The text the value is displayed as.
    pub fn display_name(&self) -> (r: &'static str)
        ensures
            r@ == self.spec_display(),
    {
        match self {
            LoggingLevel::Off => "Off",
            LoggingLevel::Trace => "Trace",
            LoggingLevel::Debug => "Debug",
            LoggingLevel::Info => "Info",
            LoggingLevel::Warn => "Warn",
            LoggingLevel::Error => "Error",
        }
    }

    /// The number of the value.
    pub fn number(&self) -> (r: i64)
        ensures
            r == self.spec_number(),
    {
        match self {
            LoggingLevel::Off => 0,
            LoggingLevel::Trace => 1,
            LoggingLevel::Debug => 2,
            LoggingLevel::Info => 3,
            LoggingLevel::Warn => 4,
            LoggingLevel::Error => 5,
        }
    }
}

/// Parsing a logging level ignores ASCII case: two texts that differ only
/// in the case of their letters (such as `WARN` and `warn`) give the same
/// result.
pub proof fn lemma_logging_level_parse_ignores_case(s: Seq<char>, t: Seq<char>)
    requires
        eq_ignore_ascii_case_spec(s, t),
    ensures
        LoggingLevel::spec_parse(s) == LoggingLevel::spec_parse(t),
{
    lemma_eq_ignore_ascii_case_same(s, t, "off"@);
    lemma_eq_ignore_ascii_case_same(s, t, "trace"@);
    lemma_eq_ignore_ascii_case_same(s, t, "debug"@);
    lemma_eq_ignore_ascii_case_same(s, t, "info"@);
    lemma_eq_ignore_ascii_case_same(s, t, "warn"@);
    lemma_eq_ignore_ascii_case_same(s, t, "error"@);
}

/// Reading the written name of a logging level gives the value back, whatever the case of its letters.
pub proof fn lemma_logging_level_name_round_trip(v: LoggingLevel, s: Seq<char>)
    requires
        eq_ignore_ascii_case_spec(s, v.spec_name()),
    ensures
        LoggingLevel::spec_parse(s) == Some(v),
{
    reveal_strlit("off");
    reveal_strlit("trace");
    reveal_strlit("debug");
    reveal_strlit("info");
    reveal_strlit("warn");
    reveal_strlit("error");
    match v {
        LoggingLevel::Off => {
        },
        LoggingLevel::Trace => {
            assert(!eq_ignore_ascii_case_spec(s, "off"@));
        },
        LoggingLevel::Debug => {
            assert(!eq_ignore_ascii_case_spec(s, "off"@));
            assert(ascii_lower(s[0]) == ascii_lower("debug"@[0]));
            assert(ascii_lower("debug"@[0]) != ascii_lower("trace"@[0]));
        },
        LoggingLevel::Info => {
            assert(!eq_ignore_ascii_case_spec(s, "off"@));
            assert(!eq_ignore_ascii_case_spec(s, "trace"@));
            assert(!eq_ignore_ascii_case_spec(s, "debug"@));
        },
        LoggingLevel::Warn => {
            assert(!eq_ignore_ascii_case_spec(s, "off"@));
            assert(!eq_ignore_ascii_case_spec(s, "trace"@));
            assert(!eq_ignore_ascii_case_spec(s, "debug"@));
            assert(ascii_lower(s[0]) == ascii_lower("warn"@[0]));
            assert(ascii_lower("warn"@[0]) != ascii_lower("info"@[0]));
        },
        LoggingLevel::Error => {
            assert(!eq_ignore_ascii_case_spec(s, "off"@));
            assert(ascii_lower(s[0]) == ascii_lower("error"@[0]));
            assert(ascii_lower("error"@[0]) != ascii_lower("trace"@[0]));
            assert(ascii_lower(s[0]) == ascii_lower("error"@[0]));
            assert(ascii_lower("error"@[0]) != ascii_lower("debug"@[0]));
            assert(!eq_ignore_ascii_case_spec(s, "info"@));
            assert(!eq_ignore_ascii_case_spec(s, "warn"@));
        },
    }
}

/// The number of a logging level gives the value back.
pub proof fn lemma_logging_level_number_round_trip(v: LoggingLevel)
    ensures
        LoggingLevel::spec_from_number(v.spec_number()) == Some(v),
{
}

/// Where console logs go.
#[derive(Debug, Clone, Copy, PartialEq, Eq, Hash, PartialOrd, Ord, Structural)]
pub enum ConsoleLoggingStream {
    Stdout,
    Stderr,
}

/// A text or a number that names no console stream.
#[derive(Debug, Clone, PartialEq, Eq)]
pub enum ConsoleLoggingStreamError {
    InvalidStream(i64),
    InvalidStreamString(String),
}

impl Default for ConsoleLoggingStream {
    fn default() -> (r: Self)
        ensures
            r == ConsoleLoggingStream::Stderr,
    {
        ConsoleLoggingStream::Stderr
    }
}

impl ConsoleLoggingStream {
    /// The name written for the value in configuration files.
    pub open spec fn spec_name(self) -> Seq<char> {
        match self {
            ConsoleLoggingStream::Stdout => "stdout"@,
            ConsoleLoggingStream::Stderr => "stderr"@,
        }
    }

    /// The text the value is displayed as.
    pub open spec fn spec_display(self) -> Seq<char> {
        match self {
            ConsoleLoggingStream::Stdout => "stdout"@,
            ConsoleLoggingStream::Stderr => "stderr"@,
        }
    }

    /// The number of the stream: 1 for standard output, 2 for standard error.
    pub open spec fn spec_number(self) -> i64 {
        match self {
            ConsoleLoggingStream::Stdout => 1,
            ConsoleLoggingStream::Stderr => 2,
        }
    }

    /// The value a text names, compared without ASCII case.
    pub open spec fn spec_parse(s: Seq<char>) -> Option<ConsoleLoggingStream> {
        if eq_ignore_ascii_case_spec(s, "stdout"@) {
            Some(ConsoleLoggingStream::Stdout)
        } else if eq_ignore_ascii_case_spec(s, "stderr"@) {
            Some(ConsoleLoggingStream::Stderr)
        } else {
            None
        }
    }

    /// The value with the given number.
    pub open spec fn spec_from_number(value: i64) -> Option<ConsoleLoggingStream> {
        if value == 1 {
            Some(ConsoleLoggingStream::Stdout)
        } else if value == 2 {
            Some(ConsoleLoggingStream::Stderr)
        } else {
            None
        }
    }

    /// Parses a name without regard to ASCII case.
    pub fn from_str(s: &str) -> (r: Result<ConsoleLoggingStream, ConsoleLoggingStreamError>)
        ensures
            match r {
                Ok(v) => Self::spec_parse(s@) == Some(v),
                Err(e) => Self::spec_parse(s@) is None && (e matches ConsoleLoggingStreamError::InvalidStreamString(t) && t@ == s@),
            },
    {
        if eq_ignore_ascii_case(s, "stdout") {
            Ok(ConsoleLoggingStream::Stdout)
        } else if eq_ignore_ascii_case(s, "stderr") {
            Ok(ConsoleLoggingStream::Stderr)
        } else {
            Err(ConsoleLoggingStreamError::InvalidStreamString(s.to_owned()))
        }
    }

    /// The value with the given number.
    pub fn try_from(value: i64) -> (r: Result<ConsoleLoggingStream, ConsoleLoggingStreamError>)
        ensures
            match r {
                Ok(v) => Self::spec_from_number(value) == Some(v),
                Err(e) => Self::spec_from_number(value) is None && e == ConsoleLoggingStreamError::InvalidStream(value),
            },
    {
        match value {
            1 => Ok(ConsoleLoggingStream::Stdout),
            2 => Ok(ConsoleLoggingStream::Stderr),
            _ => Err(ConsoleLoggingStreamError::InvalidStream(value)),
        }
    }

    /// The name written for the value in configuration files.
    pub fn name(&self) -> (r: &'static str)
        ensures
            r@ == self.spec_name(),
    {
        match self {
            ConsoleLoggingStream::Stdout => "stdout",
            ConsoleLoggingStream::Stderr => "stderr",
        }
    }

    /// The text the value is displayed as.
    pub fn display_name(&self) -> (r: &'static str)
        ensures
            r@ == self.spec_display(),
    {
        match self {
            ConsoleLoggingStream::Stdout => "stdout",
            ConsoleLoggingStream::Stderr => "stderr",
        }
    }

    /// The number of the value.
    pub fn number(&self) -> (r: i64)
        ensures
            r == self.spec_number(),
    {
        match self {
            ConsoleLoggingStream::Stdout => 1,
            ConsoleLoggingStream::Stderr => 2,
        }
    }
}

/// Reading the written name of a console logging stream gives the value back, whatever the case of its letters.
pub proof fn lemma_console_logging_stream_name_round_trip(v: ConsoleLoggingStream, s: Seq<char>)
    requires
        eq_ignore_ascii_case_spec(s, v.spec_name()),
    ensures
        ConsoleLoggingStream::spec_parse(s) == Some(v),
{
    reveal_strlit("stdout");
    reveal_strlit("stderr");
    match v {
        ConsoleLoggingStream::Stdout => {
        },
        ConsoleLoggingStream::Stderr => {
            assert(ascii_lower(s[3]) == ascii_lower("stderr"@[3]));
            assert(ascii_lower("stderr"@[3]) != ascii_lower("stdout"@[3]));
        },
    }
}

/// The number of a console logging stream gives the value back.
pub proof fn lemma_console_logging_stream_number_round_trip(v: ConsoleLoggingStream)
    ensures
        ConsoleLoggingStream::spec_from_number(v.spec_number()) == Some(v),
{
}

/// How often the log file is rotated.
#[derive(Debug, Clone, Copy, PartialEq, Eq, Hash, PartialOrd, Ord, Structural)]
pub enum RotationType {
    Hourly,
    Daily,
}

/// A text or a number that names no rotation.
#[derive(Debug, Clone, PartialEq, Eq)]
pub enum RotationError {
    InvalidRotationType(i64),
    InvalidRotationTypeString(String),
}

impl Default for RotationType {
    fn default() -> (r: Self)
        ensures
            r == RotationType::Daily,
    {
        RotationType::Daily
    }
}

impl RotationType {
    /// The name written for the value in configuration files.
    pub open spec fn spec_name(self) -> Seq<char> {
        match self {
            RotationType::Hourly => "hourly"@,
            RotationType::Daily => "daily"@,
        }
    }

    /// The text the value is displayed as.
    pub open spec fn spec_display(self) -> Seq<char> {
        match self {
            RotationType::Hourly => "Hourly"@,
            RotationType::Daily => "Daily"@,
        }
    }

    /// The number of the rotation: 1 for hourly, 2 for daily.
    pub open spec fn spec_number(self) -> i64 {
        match self {
            RotationType::Hourly => 1,
            RotationType::Daily => 2,
        }
    }

    /// The value a text names, compared without ASCII case.
    pub open spec fn spec_parse(s: Seq<char>) -> Option<RotationType> {
        if eq_ignore_ascii_case_spec(s, "hourly"@) {
            Some(RotationType::Hourly)
        } else if eq_ignore_ascii_case_spec(s, "daily"@) {
            Some(RotationType::Daily)
        } else {
            None
        }
    }

    /// The value with the given number.
    pub open spec fn spec_from_number(value: i64) -> Option<RotationType> {
        if value == 1 {
            Some(RotationType::Hourly)
        } else if value == 2 {
            Some(RotationType::Daily)
        } else {
            None
        }
    }

    /// Parses a name without regard to ASCII case.
    pub fn from_str(s: &str) -> (r: Result<RotationType, RotationError>)
        ensures
            match r {
                Ok(v) => Self::spec_parse(s@) == Some(v),
                Err(e) => Self::spec_parse(s@) is None && (e matches RotationError::InvalidRotationTypeString(t) && t@ == s@),
            },
    {
        if eq_ignore_ascii_case(s, "hourly") {
            Ok(RotationType::Hourly)
        } else if eq_ignore_ascii_case(s, "daily") {
            Ok(RotationType::Daily)
        } else {
            Err(RotationError::InvalidRotationTypeString(s.to_owned()))
        }
    }

    /// The value with the given number.
    pub fn try_from(value: i64) -> (r: Result<RotationType, RotationError>)
        ensures
            match r {
                Ok(v) => Self::spec_from_number(value) == Some(v),
                Err(e) => Self::spec_from_number(value) is None && e == RotationError::InvalidRotationType(value),
            },
    {
        match value {
            1 => Ok(RotationType::Hourly),
            2 => Ok(RotationType::Daily),
            _ => Err(RotationError::InvalidRotationType(value)),
        }
    }

    /// The name written for the value in configuration files.
    pub fn name(&self) -> (r: &'static str)
        ensures
            r@ == self.spec_name(),
    {
        match self {
            RotationType::Hourly => "hourly",
            RotationType::Daily => "daily",
        }
    }

    /// The text the value is displayed as.
    pub fn display_name(&self) -> (r: &'static str)
        ensures
            r@ == self.spec_display(),
    {
        match self {
            RotationType::Hourly => "Hourly",
            RotationType::Daily => "Daily",
        }
    }

    /// The number of the value.
    pub fn number(&self) -> (r: i64)
        ensures
            r == self.spec_number(),
    {
        match self {
            RotationType::Hourly => 1,
            RotationType::Daily => 2,
        }
    }
}

/// Reading the written name of a rotation type gives the value back, whatever the case of its letters.
pub proof fn lemma_rotation_type_name_round_trip(v: RotationType, s: Seq<char>)
    requires
        eq_ignore_ascii_case_spec(s, v.spec_name()),
    ensures
        RotationType::spec_parse(s) == Some(v),
{
    reveal_strlit("hourly");
    reveal_strlit("daily");
    match v {
        RotationType::Hourly => {
        },
        RotationType::Daily => {
            assert(!eq_ignore_ascii_case_spec(s, "hourly"@));
        },
    }
}

/// The number of a rotation type gives the value back.
pub proof fn lemma_rotation_type_number_round_trip(v: RotationType)
    ensures
        RotationType::spec_from_number(v.spec_number()) == Some(v),
{
}

/// How log lines are formatted.
#[derive(Debug, Clone, Copy, PartialEq, Eq, Hash, PartialOrd, Ord, Structural)]
pub enum LoggingFormat {
    Compact,
    Pretty,
    Json,
}

/// A text or a number that names no log format.
#[derive(Debug, Clone, PartialEq, Eq)]
pub enum FormatError {
    InvalidFormatType(i64),
    InvalidFormatTypeString(String),
}

impl Default for LoggingFormat {
    fn default() -> (r: Self)
        ensures
            r == LoggingFormat::Compact,
    {
        LoggingFormat::Compact
    }
}

impl LoggingFormat {
    /// The name written for the value in configuration files.
    pub open spec fn spec_name(self) -> Seq<char> {
        match self {
            LoggingFormat::Compact => "compact"@,
            LoggingFormat::Pretty => "pretty"@,
            LoggingFormat::Json => "json"@,
        }
    }

    /// The text the value is displayed as.
    pub open spec fn spec_display(self) -> Seq<char> {
        match self {
            LoggingFormat::Compact => "Compact"@,
            LoggingFormat::Pretty => "Pretty"@,
            LoggingFormat::Json => "Json"@,
        }
    }

    /// The number of the format: 1 compact, 2 pretty, 3 JSON.
    pub open spec fn spec_number(self) -> i64 {
        match self {
            LoggingFormat::Compact => 1,
            LoggingFormat::Pretty => 2,
            LoggingFormat::Json => 3,
        }
    }

    /// The value a text names, compared without ASCII case.
    pub open spec fn spec_parse(s: Seq<char>) -> Option<LoggingFormat> {
        if eq_ignore_ascii_case_spec(s, "compact"@) {
            Some(LoggingFormat::Compact)
        } else if eq_ignore_ascii_case_spec(s, "pretty"@) {
            Some(LoggingFormat::Pretty)
        } else if eq_ignore_ascii_case_spec(s, "json"@) {
            Some(LoggingFormat::Json)
        } else {
            None
        }
    }

    /// The value with the given number.
    pub open spec fn spec_from_number(value: i64) -> Option<LoggingFormat> {
        if value == 1 {
            Some(LoggingFormat::Compact)
        } else if value == 2 {
            Some(LoggingFormat::Pretty)
        } else if value == 3 {
            Some(LoggingFormat::Json)
        } else {
            None
        }
    }

    /// Parses a name without regard to ASCII case.
    pub fn from_str(s: &str) -> (r: Result<LoggingFormat, FormatError>)
        ensures
            match r {
                Ok(v) => Self::spec_parse(s@) == Some(v),
                Err(e) => Self::spec_parse(s@) is None && (e matches FormatError::InvalidFormatTypeString(t) && t@ == s@),
            },
    {
        if eq_ignore_ascii_case(s, "compact") {
            Ok(LoggingFormat::Compact)
        } else if eq_ignore_ascii_case(s, "pretty") {
            Ok(LoggingFormat::Pretty)
        } else if eq_ignore_ascii_case(s, "json") {
            Ok(LoggingFormat::Json)
        } else {
            Err(FormatError::InvalidFormatTypeString(s.to_owned()))
        }
    }

    /// The value with the given number.
    pub fn try_from(value: i64) -> (r: Result<LoggingFormat, FormatError>)
        ensures
            match r {
                Ok(v) => Self::spec_from_number(value) == Some(v),
                Err(e) => Self::spec_from_number(value) is None && e == FormatError::InvalidFormatType(value),
            },
    {
        match value {
            1 => Ok(LoggingFormat::Compact),
            2 => Ok(LoggingFormat::Pretty),
            3 => Ok(LoggingFormat::Json),
            _ => Err(FormatError::InvalidFormatType(value)),
        }
    }

    /// The name written for the value in configuration files.
    pub fn name(&self) -> (r: &'static str)
        ensures
            r@ == self.spec_name(),
    {
        match self {
            LoggingFormat::Compact => "compact",
            LoggingFormat::Pretty => "pretty",
            LoggingFormat::Json => "json",
        }
    }

    /// The text the value is displayed as.
    pub fn display_name(&self) -> (r: &'static str)
        ensures
            r@ == self.spec_display(),
    {
        match self {
            LoggingFormat::Compact => "Compact",
            LoggingFormat::Pretty => "Pretty",
            LoggingFormat::Json => "Json",
        }
    }

    /// The number of the value.
    pub fn number(&self) -> (r: i64)
        ensures
            r == self.spec_number(),
    {
        match self {
            LoggingFormat::Compact => 1,
            LoggingFormat::Pretty => 2,
            LoggingFormat::Json => 3,
        }
    }
}

/// Reading the written name of a logging format gives the value back, whatever the case of its letters.
pub proof fn lemma_logging_format_name_round_trip(v: LoggingFormat, s: Seq<char>)
    requires
        eq_ignore_ascii_case_spec(s, v.spec_name()),
    ensures
        LoggingFormat::spec_parse(s) == Some(v),
{
    reveal_strlit("compact");
    reveal_strlit("pretty");
    reveal_strlit("json");
    match v {
        LoggingFormat::Compact => {
        },
        LoggingFormat::Pretty => {
            assert(!eq_ignore_ascii_case_spec(s, "compact"@));
        },
        LoggingFormat::Json => {
            assert(!eq_ignore_ascii_case_spec(s, "compact"@));
            assert(!eq_ignore_ascii_case_spec(s, "pretty"@));
        },
    }
}

/// The number of a logging format gives the value back.
pub proof fn lemma_logging_format_number_round_trip(v: LoggingFormat)
    ensures
        LoggingFormat::spec_from_number(v.spec_number()) == Some(v),
{
}

#[verifier::external_type_specification]
#[verifier::external_body]
pub struct ExLevelFilter(LevelFilter);

#[verifier::external_type_specification]
#[verifier::external_body]
pub struct ExColorLevel(ColorLevel);

#[verifier::external_type_specification]
#[verifier::external_body]
pub struct ExRotation(Rotation);

impl RotationType {
    /// The `tracing_appender` rotation of the same name: `Rotation::HOURLY`
    /// or `Rotation::DAILY`. Nothing is stated of the result: the rotation
    /// is a value of `tracing_appender` that Verus does not see into.
    #[verifier::external_body]
    pub fn to_rotation(self) -> Rotation {
        match self {
            RotationType::Hourly => Rotation::HOURLY,
            RotationType::Daily => Rotation::DAILY,
        }
    }
}

/// `supports_color::on` for the stream: the colors its terminal supports, if
/// any. The answer depends on the terminal and the environment; nothing is
/// stated of it.
#[verifier::external_body]
pub(crate) fn color_level_on(stream: ConsoleLoggingStream) -> Option<ColorLevel> {
    match stream {
        ConsoleLoggingStream::Stdout => supports_color::on(supports_color::Stream::Stdout),
        ConsoleLoggingStream::Stderr => supports_color::on(supports_color::Stream::Stderr),
    }
}

impl LoggingLevel {
    /// The `tracing` filter of the same name: `LevelFilter::OFF`, `TRACE`,
    /// `DEBUG`, `INFO`, `WARN` or `ERROR`. Nothing is stated of the result:
    /// the filter is a value of `tracing` that Verus does not see into.
    #[verifier::external_body]
    pub fn to_level_filter(self) -> LevelFilter {
        match self {
            LoggingLevel::Off => LevelFilter::OFF,
            LoggingLevel::Trace => LevelFilter::TRACE,
            LoggingLevel::Debug => LevelFilter::DEBUG,
            LoggingLevel::Info => LevelFilter::INFO,
            LoggingLevel::Warn => LevelFilter::WARN,
            LoggingLevel::Error => LevelFilter::ERROR,
        }
    }
}

/// The name of the log file when its path has none.
pub const DEFAULT_LOG_FILE: &'static str = "graft.log";

/// How many rotated log files are kept unless configured: no limit.
pub fn default_max_log_files() -> (r: Option<usize>)
    ensures
        r is None,
{
    None
}

/// Whether console logs are colored unless configured.
pub fn default_color_support() -> (r: bool)
    ensures
        r,
{
    true
}

/// The logging section of the configuration.
#[derive(Debug, Clone, PartialEq, Eq)]
pub struct LoggingConfig {
    pub level: LoggingLevel,
    pub stream: ConsoleLoggingStream,
    pub format: LoggingFormat,
    pub rotation: Option<RotationType>,
    pub file: Option<String>,
    pub logging_path: Option<String>,
    pub max_log_files: Option<usize>,
    pub color_support: bool,
}

impl Default for LoggingConfig {
    fn default() -> (r: Self)
        ensures
            r.level == LoggingLevel::Warn,
            r.stream == ConsoleLoggingStream::Stderr,
            r.format == LoggingFormat::Compact,
            r.rotation is None,
            r.file is None,
            r.logging_path is None,
            r.max_log_files is None,
            r.color_support,
    {
        LoggingConfig {
            level: LoggingLevel::default(),
            stream: ConsoleLoggingStream::default(),
            format: LoggingFormat::default(),
            rotation: None,
            file: None,
            logging_path: None,
            max_log_files: default_max_log_files(),
            color_support: default_color_support(),
        }
    }
}

/// The level, format and stream a logger is set up with.
#[derive(Debug, Clone, Copy, PartialEq, Eq, Structural)]
pub struct LoggerSettings {
    pub level: LoggingLevel,
    pub format: LoggingFormat,
    pub stream: ConsoleLoggingStream,
}

/// `o`, or `d` when `o` is `None`.
pub open spec fn or_else<T>(o: Option<T>, d: T) -> T {
    match o {
        Some(v) => v,
        None => d,
    }
}

/// The directory of the log file: the parent of `path`, taken under `root`
/// when it is relative.
pub open spec fn spec_log_directory(path: Seq<char>, root: Seq<char>) -> Option<Seq<char>> {
    match parent(path) {
        Some(d) => Some(if is_absolute(d) { d } else { join(root, d) }),
        None => None,
    }
}

impl LoggingConfig {
    /// The settings of the logger to set up, each override taking the place
    /// of the configured value; `None` when the level is `Off`, as no logger
    /// is set up then.
    pub fn logger_settings(
        &self,
        override_level: Option<LoggingLevel>,
        override_format: Option<LoggingFormat>,
        override_stream: Option<ConsoleLoggingStream>,
    ) -> (r: Option<LoggerSettings>)
        ensures
            or_else(override_level, self.level) == LoggingLevel::Off ==> r is None,
            or_else(override_level, self.level) != LoggingLevel::Off ==> r == Some(LoggerSettings {
                level: or_else(override_level, self.level),
                format: or_else(override_format, self.format),
                stream: or_else(override_stream, self.stream),
            }),
    {
        let level = match override_level {
            Some(l) => l,
            None => self.level,
        };
        let format = match override_format {
            Some(f) => f,
            None => self.format,
        };
        if level == LoggingLevel::Off {
            return None;
        }
        let stream = match override_stream {
            Some(s) => s,
            None => self.stream,
        };
        Some(LoggerSettings { level, format, stream })
    }

    /// Whether console logs are colored: when configured so and the stream
    /// supports colors.
    pub fn console_color_support(&self, stream_supports_color: bool) -> (r: bool)
        ensures
            r == (self.color_support && stream_supports_color),
    {
        self.color_support && stream_supports_color
    }

    /// Whether console logs on `stream` are colored: when configured so and
    /// the terminal of the stream supports colors.
    pub fn stream_color_support(&self, stream: ConsoleLoggingStream) -> (r: bool)
        ensures
            !self.color_support ==> !r,
    {
        self.color_support && color_level_on(stream).is_some()
    }

    /// `dir` when it is absolute, else `dir` under `root`.
    pub fn get_log_path(root: &str, dir: &str) -> (r: String)
        ensures
            r@ == (if is_absolute(dir@) { dir@ } else { join(root@, dir@) }),
    {
        if dir.unicode_len() > 0 && dir.get_char(0) == '/' {
            dir.to_owned()
        } else {
            path_join(root, dir)
        }
    }

    /// The directory for the log file `path`: its parent, taken under `root`
    /// when relative; `None` when `path` has no parent.
    pub fn log_directory(path: &str, root: &str) -> (r: Option<String>)
        ensures
            match r {
                Some(d) => spec_log_directory(path@, root@) == Some(d@),
                None => spec_log_directory(path@, root@) is None,
            },
    {
        match path_parent(path) {
            Some(d) => Some(Self::get_log_path(root, d.as_str())),
            None => None,
        }
    }

    /// The directory log files are written to: the log directory of `path`
    /// under `dir` when there is one and `created` (it could be created),
    /// else `dir`.
    pub fn try_make_log_path(path: &str, dir: &str, created: bool) -> (r: String)
        ensures
            r@ == (match spec_log_directory(path@, dir@) {
                Some(d) => if created { d } else { dir@ },
                None => dir@,
            }),
    {
        match Self::log_directory(path, dir) {
            Some(d) => if created {
                d
            } else {
                dir.to_owned()
            },
            None => dir.to_owned(),
        }
    }

    /// The configured logging path made absolute: kept when absolute, taken
    /// under the current directory otherwise (`None` when that is unknown).
    pub fn get_file_path(p: &str, current_dir: Option<&str>) -> (r: Option<String>)
        ensures
            is_absolute(p@) ==> (r matches Some(x) && x@ == p@),
            !is_absolute(p@) ==> match current_dir {
                Some(c) => (r matches Some(x) && x@ == join(c@, p@)),
                None => r is None,
            },
    {
        if p.unicode_len() > 0 && p.get_char(0) == '/' {
            Some(p.to_owned())
        } else {
            match current_dir {
                Some(c) => Some(path_join(c, p)),
                None => None,
            }
        }
    }

    /// The name of the log file: the file name of `path`, or `graft.log`.
    pub fn log_file_name(path: &str) -> (r: String)
        ensures
            r@ == (match file_name(path@) {
                Some(n) => n,
                None => DEFAULT_LOG_FILE@,
            }),
    {
        match path_file_name(path) {
            Some(n) => n,
            None => DEFAULT_LOG_FILE.to_owned(),
        }
    }
}

} // verus!
