//! Colors of the console output and their configuration.
//!
//! `Color` holds the same values as the terminal library's color type; the
//! program converts between the two where it prints.
use vstd::prelude::*;

verus! {

/// A terminal color.
#[derive(Debug, Clone, Copy, PartialEq, Eq, Hash, Structural)]
pub enum Color {
    Reset,
    Black,
    DarkGrey,
    Red,
    DarkRed,
    Green,
    DarkGreen,
    Yellow,
    DarkYellow,
    Blue,
    DarkBlue,
    Magenta,
    DarkMagenta,
    Cyan,
    DarkCyan,
    White,
    Grey,
    Rgb { r: u8, g: u8, b: u8 },
    AnsiValue(u8),
}

/// The color of an optional setting, or the default when it is unset.
pub open spec fn or_default(c: Option<Color>, default: Color) -> Color {
    match c {
        Some(x) => x,
        None => default,
    }
}

fn unwrap_color(c: Option<Color>, default: Color) -> (r: Color)
    ensures
        r == or_default(c, default),
{
    match c {
        Some(x) => x,
        None => default,
    }
}

/// The default color for `link` text.
pub open spec fn spec_default_link_color() -> Color {
    Color::Green
}

/// The default color for `link` text.
pub fn default_link_color() -> (c: Color)
    ensures
        c == spec_default_link_color(),
{
    Color::Green
}

/// The default color for `unlink` text.
pub open spec fn spec_default_unlink_color() -> Color {
    Color::Red
}

/// The default color for `unlink` text.
pub fn default_unlink_color() -> (c: Color)
    ensures
        c == spec_default_unlink_color(),
{
    Color::Red
}

/// The default color for `list` text.
pub open spec fn spec_default_list_color() -> Color {
    Color::Cyan
}

/// The default color for `list` text.
pub fn default_list_color() -> (c: Color)
    ensures
        c == spec_default_list_color(),
{
    Color::Cyan
}

/// The default color for `remove` text.
pub open spec fn spec_default_remove_color() -> Color {
    Color::Red
}

/// The default color for `remove` text.
pub fn default_remove_color() -> (c: Color)
    ensures
        c == spec_default_remove_color(),
{
    Color::Red
}

/// The default color for `create` text.
pub open spec fn spec_default_create_color() -> Color {
    Color::Green
}

/// The default color for `create` text.
pub fn default_create_color() -> (c: Color)
    ensures
        c == spec_default_create_color(),
{
    Color::Green
}

/// The default color for `arrow` text.
pub open spec fn spec_default_arrow_color() -> Color {
    Color::Blue
}

/// The default color for `arrow` text.
pub fn default_arrow_color() -> (c: Color)
    ensures
        c == spec_default_arrow_color(),
{
    Color::Blue
}

/// The default color for `source` text.
pub open spec fn spec_default_source_color() -> Color {
    Color::Yellow
}

/// The default color for `source` text.
pub fn default_source_color() -> (c: Color)
    ensures
        c == spec_default_source_color(),
{
    Color::Yellow
}

/// The default color for `target` text.
pub open spec fn spec_default_target_color() -> Color {
    Color::Magenta
}

/// The default color for `target` text.
pub fn default_target_color() -> (c: Color)
    ensures
        c == spec_default_target_color(),
{
    Color::Magenta
}

/// The default color for `note` text.
pub open spec fn spec_default_note_color() -> Color {
    Color::Rgb { r: 245, g: 169, b: 127 }
}

/// The default color for `note` text.
pub fn default_note_color() -> (c: Color)
    ensures
        c == spec_default_note_color(),
{
    Color::Rgb { r: 245, g: 169, b: 127 }
}

/// The default color for the colon after a label: the terminal's own color.
pub open spec fn spec_default_colon_color() -> Color {
    Color::Reset
}

/// The default color for the colon after a label.
pub fn default_colon_color() -> (c: Color)
    ensures
        c == spec_default_colon_color(),
{
    Color::Reset
}

/// Colors of the parts of a `link` line.
#[derive(Debug, Clone, Copy, PartialEq, Eq, Hash, Structural)]
pub struct LinkConfig {
    pub link: Color,
    pub colon: Color,
    pub source: Color,
    pub arrow: Color,
    pub target: Color,
}

/// Colors of the parts of a `link` line as written in a configuration
/// file, where each may be left out.
#[derive(Debug, Clone, Copy, PartialEq, Eq, Hash, Structural)]
pub struct SerializeLinkConfig {
    pub link: Option<Color>,
    pub colon: Option<Color>,
    pub source: Option<Color>,
    pub arrow: Option<Color>,
    pub target: Option<Color>,
}

impl LinkConfig {
    /// The built-in colors.
    pub open spec fn spec_default() -> Self {
        LinkConfig { link: spec_default_link_color(), colon: spec_default_colon_color(), source: spec_default_source_color(), arrow: spec_default_arrow_color(), target: spec_default_target_color() }
    }

    /// The settings with every color given.
    pub open spec fn spec_to_serialized(self) -> SerializeLinkConfig {
        SerializeLinkConfig { link: Some(self.link), colon: Some(self.colon), source: Some(self.source), arrow: Some(self.arrow), target: Some(self.target) }
    }

    /// The built-in colors.
    pub fn default_colors() -> (r: Self)
        ensures
            r == Self::spec_default(),
    {
        LinkConfig { link: default_link_color(), colon: default_colon_color(), source: default_source_color(), arrow: default_arrow_color(), target: default_target_color() }
    }

    /// The settings with every color given.
    pub fn to_serialized(&self) -> (r: SerializeLinkConfig)
        ensures
            r == self.spec_to_serialized(),
    {
        SerializeLinkConfig { link: Some(self.link), colon: Some(self.colon), source: Some(self.source), arrow: Some(self.arrow), target: Some(self.target) }
    }
}

impl SerializeLinkConfig {
    /// The colors, with the built-in color for each one left out.
    pub open spec fn spec_to_config(self) -> LinkConfig {
        LinkConfig { link: or_default(self.link, spec_default_link_color()), colon: or_default(self.colon, spec_default_colon_color()), source: or_default(self.source, spec_default_source_color()), arrow: or_default(self.arrow, spec_default_arrow_color()), target: or_default(self.target, spec_default_target_color()) }
    }

    /// Every color given, with its built-in value.
    pub open spec fn spec_default() -> Self {
        SerializeLinkConfig { link: Some(spec_default_link_color()), colon: Some(spec_default_colon_color()), source: Some(spec_default_source_color()), arrow: Some(spec_default_arrow_color()), target: Some(spec_default_target_color()) }
    }

    /// Every color given, with its built-in value.
    pub fn default_colors() -> (r: Self)
        ensures
            r == Self::spec_default(),
    {
        LinkConfig::default_colors().to_serialized()
    }

    /// The colors, with the built-in color for each one left out.
    pub fn to_config(&self) -> (r: LinkConfig)
        ensures
            r == self.spec_to_config(),
    {
        LinkConfig { link: unwrap_color(self.link, default_link_color()), colon: unwrap_color(self.colon, default_colon_color()), source: unwrap_color(self.source, default_source_color()), arrow: unwrap_color(self.arrow, default_arrow_color()), target: unwrap_color(self.target, default_target_color()) }
    }
}

/// Colors of the parts of a `list` line.
#[derive(Debug, Clone, Copy, PartialEq, Eq, Hash, Structural)]
pub struct ListConfig {
    pub link: Color,
    pub colon: Color,
    pub source: Color,
    pub arrow: Color,
    pub target: Color,
}

/// Colors of the parts of a `list` line as written in a configuration
/// file, where each may be left out.
#[derive(Debug, Clone, Copy, PartialEq, Eq, Hash, Structural)]
pub struct SerializeListConfig {
    pub link: Option<Color>,
    pub colon: Option<Color>,
    pub source: Option<Color>,
    pub arrow: Option<Color>,
    pub target: Option<Color>,
}

impl ListConfig {
    /// The built-in colors.
    pub open spec fn spec_default() -> Self {
        ListConfig { link: spec_default_list_color(), colon: spec_default_colon_color(), source: spec_default_source_color(), arrow: spec_default_arrow_color(), target: spec_default_target_color() }
    }

    /// The settings with every color given.
    pub open spec fn spec_to_serialized(self) -> SerializeListConfig {
        SerializeListConfig { link: Some(self.link), colon: Some(self.colon), source: Some(self.source), arrow: Some(self.arrow), target: Some(self.target) }
    }

    /// The built-in colors.
    pub fn default_colors() -> (r: Self)
        ensures
            r == Self::spec_default(),
    {
        ListConfig { link: default_list_color(), colon: default_colon_color(), source: default_source_color(), arrow: default_arrow_color(), target: default_target_color() }
    }

    /// The settings with every color given.
    pub fn to_serialized(&self) -> (r: SerializeListConfig)
        ensures
            r == self.spec_to_serialized(),
    {
        SerializeListConfig { link: Some(self.link), colon: Some(self.colon), source: Some(self.source), arrow: Some(self.arrow), target: Some(self.target) }
    }
}

impl SerializeListConfig {
    /// The colors, with the built-in color for each one left out.
    pub open spec fn spec_to_config(self) -> ListConfig {
        ListConfig { link: or_default(self.link, spec_default_list_color()), colon: or_default(self.colon, spec_default_colon_color()), source: or_default(self.source, spec_default_source_color()), arrow: or_default(self.arrow, spec_default_arrow_color()), target: or_default(self.target, spec_default_target_color()) }
    }

    /// Every color given, with its built-in value.
    pub open spec fn spec_default() -> Self {
        SerializeListConfig { link: Some(spec_default_list_color()), colon: Some(spec_default_colon_color()), source: Some(spec_default_source_color()), arrow: Some(spec_default_arrow_color()), target: Some(spec_default_target_color()) }
    }

    /// Every color given, with its built-in value.
    pub fn default_colors() -> (r: Self)
        ensures
            r == Self::spec_default(),
    {
        ListConfig::default_colors().to_serialized()
    }

    /// The colors, with the built-in color for each one left out.
    pub fn to_config(&self) -> (r: ListConfig)
        ensures
            r == self.spec_to_config(),
    {
        ListConfig { link: unwrap_color(self.link, default_list_color()), colon: unwrap_color(self.colon, default_colon_color()), source: unwrap_color(self.source, default_source_color()), arrow: unwrap_color(self.arrow, default_arrow_color()), target: unwrap_color(self.target, default_target_color()) }
    }
}

/// Colors of the parts of a `unlink` line.
#[derive(Debug, Clone, Copy, PartialEq, Eq, Hash, Structural)]
pub struct UnlinkConfig {
    pub unlink: Color,
    pub colon: Color,
    pub target: Color,
}

/// Colors of the parts of a `unlink` line as written in a configuration
/// file, where each may be left out.
#[derive(Debug, Clone, Copy, PartialEq, Eq, Hash, Structural)]
pub struct SerializeUnlinkConfig {
    pub unlink: Option<Color>,
    pub colon: Option<Color>,
    pub target: Option<Color>,
}

impl UnlinkConfig {
    /// The built-in colors.
    pub open spec fn spec_default() -> Self {
        UnlinkConfig { unlink: spec_default_unlink_color(), colon: spec_default_colon_color(), target: spec_default_target_color() }
    }

    /// The settings with every color given.
    pub open spec fn spec_to_serialized(self) -> SerializeUnlinkConfig {
        SerializeUnlinkConfig { unlink: Some(self.unlink), colon: Some(self.colon), target: Some(self.target) }
    }

    /// The built-in colors.
    pub fn default_colors() -> (r: Self)
        ensures
            r == Self::spec_default(),
    {
        UnlinkConfig { unlink: default_unlink_color(), colon: default_colon_color(), target: default_target_color() }
    }

    /// The settings with every color given.
    pub fn to_serialized(&self) -> (r: SerializeUnlinkConfig)
        ensures
            r == self.spec_to_serialized(),
    {
        SerializeUnlinkConfig { unlink: Some(self.unlink), colon: Some(self.colon), target: Some(self.target) }
    }
}

impl SerializeUnlinkConfig {
    /// The colors, with the built-in color for each one left out.
    pub open spec fn spec_to_config(self) -> UnlinkConfig {
        UnlinkConfig { unlink: or_default(self.unlink, spec_default_unlink_color()), colon: or_default(self.colon, spec_default_colon_color()), target: or_default(self.target, spec_default_target_color()) }
    }

    /// Every color given, with its built-in value.
    pub open spec fn spec_default() -> Self {
        SerializeUnlinkConfig { unlink: Some(spec_default_unlink_color()), colon: Some(spec_default_colon_color()), target: Some(spec_default_target_color()) }
    }

    /// Every color given, with its built-in value.
    pub fn default_colors() -> (r: Self)
        ensures
            r == Self::spec_default(),
    {
        UnlinkConfig::default_colors().to_serialized()
    }

    /// The colors, with the built-in color for each one left out.
    pub fn to_config(&self) -> (r: UnlinkConfig)
        ensures
            r == self.spec_to_config(),
    {
        UnlinkConfig { unlink: unwrap_color(self.unlink, default_unlink_color()), colon: unwrap_color(self.colon, default_colon_color()), target: unwrap_color(self.target, default_target_color()) }
    }
}

/// Colors of the parts of a `remove` line.
#[derive(Debug, Clone, Copy, PartialEq, Eq, Hash, Structural)]
pub struct RemoveConfig {
    pub remove: Color,
    pub colon: Color,
    pub target: Color,
}

/// Colors of the parts of a `remove` line as written in a configuration
/// file, where each may be left out.
#[derive(Debug, Clone, Copy, PartialEq, Eq, Hash, Structural)]
pub struct SerializeRemoveConfig {
    pub remove: Option<Color>,
    pub colon: Option<Color>,
    pub target: Option<Color>,
}

impl RemoveConfig {
    /// The built-in colors.
    pub open spec fn spec_default() -> Self {
        RemoveConfig { remove: spec_default_remove_color(), colon: spec_default_colon_color(), target: spec_default_target_color() }
    }

    /// The settings with every color given.
    pub open spec fn spec_to_serialized(self) -> SerializeRemoveConfig {
        SerializeRemoveConfig { remove: Some(self.remove), colon: Some(self.colon), target: Some(self.target) }
    }

    /// The built-in colors.
    pub fn default_colors() -> (r: Self)
        ensures
            r == Self::spec_default(),
    {
        RemoveConfig { remove: default_remove_color(), colon: default_colon_color(), target: default_target_color() }
    }

    /// The settings with every color given.
    pub fn to_serialized(&self) -> (r: SerializeRemoveConfig)
        ensures
            r == self.spec_to_serialized(),
    {
        SerializeRemoveConfig { remove: Some(self.remove), colon: Some(self.colon), target: Some(self.target) }
    }
}

impl SerializeRemoveConfig {
    /// The colors, with the built-in color for each one left out.
    pub open spec fn spec_to_config(self) -> RemoveConfig {
        RemoveConfig { remove: or_default(self.remove, spec_default_remove_color()), colon: or_default(self.colon, spec_default_colon_color()), target: or_default(self.target, spec_default_target_color()) }
    }

    /// Every color given, with its built-in value.
    pub open spec fn spec_default() -> Self {
        SerializeRemoveConfig { remove: Some(spec_default_remove_color()), colon: Some(spec_default_colon_color()), target: Some(spec_default_target_color()) }
    }

    /// Every color given, with its built-in value.
    pub fn default_colors() -> (r: Self)
        ensures
            r == Self::spec_default(),
    {
        RemoveConfig::default_colors().to_serialized()
    }

    /// The colors, with the built-in color for each one left out.
    pub fn to_config(&self) -> (r: RemoveConfig)
        ensures
            r == self.spec_to_config(),
    {
        RemoveConfig { remove: unwrap_color(self.remove, default_remove_color()), colon: unwrap_color(self.colon, default_colon_color()), target: unwrap_color(self.target, default_target_color()) }
    }
}

/// Colors of the parts of a `create` line.
#[derive(Debug, Clone, Copy, PartialEq, Eq, Hash, Structural)]
pub struct CreateConfig {
    pub create: Color,
    pub colon: Color,
    pub target: Color,
}

/// Colors of the parts of a `create` line as written in a configuration
/// file, where each may be left out.
#[derive(Debug, Clone, Copy, PartialEq, Eq, Hash, Structural)]
pub struct SerializeCreateConfig {
    pub create: Option<Color>,
    pub colon: Option<Color>,
    pub target: Option<Color>,
}

impl CreateConfig {
    /// The built-in colors.
    pub open spec fn spec_default() -> Self {
        CreateConfig { create: spec_default_create_color(), colon: spec_default_colon_color(), target: spec_default_target_color() }
    }

    /// The settings with every color given.
    pub open spec fn spec_to_serialized(self) -> SerializeCreateConfig {
        SerializeCreateConfig { create: Some(self.create), colon: Some(self.colon), target: Some(self.target) }
    }

    /// The built-in colors.
    pub fn default_colors() -> (r: Self)
        ensures
            r == Self::spec_default(),
    {
        CreateConfig { create: default_create_color(), colon: default_colon_color(), target: default_target_color() }
    }

    /// The settings with every color given.
    pub fn to_serialized(&self) -> (r: SerializeCreateConfig)
        ensures
            r == self.spec_to_serialized(),
    {
        SerializeCreateConfig { create: Some(self.create), colon: Some(self.colon), target: Some(self.target) }
    }
}

impl SerializeCreateConfig {
    /// The colors, with the built-in color for each one left out.
    pub open spec fn spec_to_config(self) -> CreateConfig {
        CreateConfig { create: or_default(self.create, spec_default_create_color()), colon: or_default(self.colon, spec_default_colon_color()), target: or_default(self.target, spec_default_target_color()) }
    }

    /// Every color given, with its built-in value.
    pub open spec fn spec_default() -> Self {
        SerializeCreateConfig { create: Some(spec_default_create_color()), colon: Some(spec_default_colon_color()), target: Some(spec_default_target_color()) }
    }

    /// Every color given, with its built-in value.
    pub fn default_colors() -> (r: Self)
        ensures
            r == Self::spec_default(),
    {
        CreateConfig::default_colors().to_serialized()
    }

    /// The colors, with the built-in color for each one left out.
    pub fn to_config(&self) -> (r: CreateConfig)
        ensures
            r == self.spec_to_config(),
    {
        CreateConfig { create: unwrap_color(self.create, default_create_color()), colon: unwrap_color(self.colon, default_colon_color()), target: unwrap_color(self.target, default_target_color()) }
    }
}

/// Colors of the parts of a `simulation` line.
#[derive(Debug, Clone, Copy, PartialEq, Eq, Hash, Structural)]
pub struct SimulationConfig {
    pub note: Color,
    pub colon: Color,
    pub text: Color,
}

/// Colors of the parts of a `simulation` line as written in a configuration
/// file, where each may be left out.
#[derive(Debug, Clone, Copy, PartialEq, Eq, Hash, Structural)]
pub struct SerializeSimulationConfig {
    pub note: Option<Color>,
    pub colon: Option<Color>,
    pub text: Option<Color>,
}

impl SimulationConfig {
    /// The built-in colors.
    pub open spec fn spec_default() -> Self {
        SimulationConfig { note: spec_default_note_color(), colon: spec_default_note_color(), text: spec_default_note_color() }
    }

    /// The settings with every color given.
    pub open spec fn spec_to_serialized(self) -> SerializeSimulationConfig {
        SerializeSimulationConfig { note: Some(self.note), colon: Some(self.colon), text: Some(self.text) }
    }

    /// The built-in colors.
    pub fn default_colors() -> (r: Self)
        ensures
            r == Self::spec_default(),
    {
        SimulationConfig { note: default_note_color(), colon: default_note_color(), text: default_note_color() }
    }

    /// The settings with every color given.
    pub fn to_serialized(&self) -> (r: SerializeSimulationConfig)
        ensures
            r == self.spec_to_serialized(),
    {
        SerializeSimulationConfig { note: Some(self.note), colon: Some(self.colon), text: Some(self.text) }
    }
}

impl SerializeSimulationConfig {
    /// The colors, with the built-in color for each one left out.
    pub open spec fn spec_to_config(self) -> SimulationConfig {
        SimulationConfig { note: or_default(self.note, spec_default_note_color()), colon: or_default(self.colon, spec_default_note_color()), text: or_default(self.text, spec_default_note_color()) }
    }

    /// Every color given, with its built-in value.
    pub open spec fn spec_default() -> Self {
        SerializeSimulationConfig { note: Some(spec_default_note_color()), colon: Some(spec_default_note_color()), text: Some(spec_default_note_color()) }
    }

    /// Every color given, with its built-in value.
    pub fn default_colors() -> (r: Self)
        ensures
            r == Self::spec_default(),
    {
        SimulationConfig::default_colors().to_serialized()
    }

    /// The colors, with the built-in color for each one left out.
    pub fn to_config(&self) -> (r: SimulationConfig)
        ensures
            r == self.spec_to_config(),
    {
        SimulationConfig { note: unwrap_color(self.note, default_note_color()), colon: unwrap_color(self.colon, default_note_color()), text: unwrap_color(self.text, default_note_color()) }
    }
}

/// The colors of every kind of output line.
#[derive(Debug, Clone, Copy, PartialEq, Eq, Hash, Structural)]
pub struct ColorSettings {
    pub link: LinkConfig,
    pub unlink: UnlinkConfig,
    pub list: ListConfig,
    pub remove: RemoveConfig,
    pub create: CreateConfig,
    pub simulation: SimulationConfig,
}

/// The colors of every kind of output line as written in a configuration file.
#[derive(Debug, Clone, Copy, PartialEq, Eq, Hash, Structural)]
pub struct SerializeColorSettings {
    pub link: SerializeLinkConfig,
    pub unlink: SerializeUnlinkConfig,
    pub list: SerializeListConfig,
    pub remove: SerializeRemoveConfig,
    pub create: SerializeCreateConfig,
    pub simulation: SerializeSimulationConfig,
}

/// The colors of the first configuration file format: one color per kind of
/// line, and shared colors for arrows, sources and targets.
#[derive(Debug, Clone, Copy, PartialEq, Eq, Hash, Structural)]
pub struct V1SerializeColorSettings {
    pub link: Option<Color>,
    pub unlink: Option<Color>,
    pub list: Option<Color>,
    pub remove: Option<Color>,
    pub create: Option<Color>,
    pub arrow: Option<Color>,
    pub source: Option<Color>,
    pub target: Option<Color>,
}

impl ColorSettings {
    /// The built-in colors.
    pub open spec fn spec_default() -> Self {
        ColorSettings {
            link: LinkConfig::spec_default(),
            unlink: UnlinkConfig::spec_default(),
            list: ListConfig::spec_default(),
            remove: RemoveConfig::spec_default(),
            create: CreateConfig::spec_default(),
            simulation: SimulationConfig::spec_default(),
        }
    }

    /// The settings with every color given.
    pub open spec fn spec_to_serialized(self) -> SerializeColorSettings {
        SerializeColorSettings {
            link: self.link.spec_to_serialized(),
            unlink: self.unlink.spec_to_serialized(),
            list: self.list.spec_to_serialized(),
            remove: self.remove.spec_to_serialized(),
            create: self.create.spec_to_serialized(),
            simulation: self.simulation.spec_to_serialized(),
        }
    }

    /// The built-in colors.
    pub fn default_colors() -> (r: Self)
        ensures
            r == Self::spec_default(),
    {
        ColorSettings {
            link: LinkConfig::default_colors(),
            unlink: UnlinkConfig::default_colors(),
            list: ListConfig::default_colors(),
            remove: RemoveConfig::default_colors(),
            create: CreateConfig::default_colors(),
            simulation: SimulationConfig::default_colors(),
        }
    }

    /// The settings with every color given.
    pub fn to_serialized(&self) -> (r: SerializeColorSettings)
        ensures
            r == self.spec_to_serialized(),
    {
        SerializeColorSettings {
            link: self.link.to_serialized(),
            unlink: self.unlink.to_serialized(),
            list: self.list.to_serialized(),
            remove: self.remove.to_serialized(),
            create: self.create.to_serialized(),
            simulation: self.simulation.to_serialized(),
        }
    }
}

impl SerializeColorSettings {
    /// Every color given, with its built-in value.
    pub open spec fn spec_default() -> Self {
        SerializeColorSettings {
            link: SerializeLinkConfig::spec_default(),
            unlink: SerializeUnlinkConfig::spec_default(),
            list: SerializeListConfig::spec_default(),
            remove: SerializeRemoveConfig::spec_default(),
            create: SerializeCreateConfig::spec_default(),
            simulation: SerializeSimulationConfig::spec_default(),
        }
    }

    /// The colors, with the built-in color for each one left out.
    pub open spec fn spec_to_settings(self) -> ColorSettings {
        ColorSettings {
            link: self.link.spec_to_config(),
            unlink: self.unlink.spec_to_config(),
            list: self.list.spec_to_config(),
            remove: self.remove.spec_to_config(),
            create: self.create.spec_to_config(),
            simulation: self.simulation.spec_to_config(),
        }
    }

    /// Every color given, with its built-in value.
    pub fn default_colors() -> (r: Self)
        ensures
            r == Self::spec_default(),
    {
        SerializeColorSettings {
            link: SerializeLinkConfig::default_colors(),
            unlink: SerializeUnlinkConfig::default_colors(),
            list: SerializeListConfig::default_colors(),
            remove: SerializeRemoveConfig::default_colors(),
            create: SerializeCreateConfig::default_colors(),
            simulation: SerializeSimulationConfig::default_colors(),
        }
    }

    /// The colors, with the built-in color for each one left out.
    pub fn to_settings(&self) -> (r: ColorSettings)
        ensures
            r == self.spec_to_settings(),
    {
        ColorSettings {
            link: self.link.to_config(),
            unlink: self.unlink.to_config(),
            list: self.list.to_config(),
            remove: self.remove.to_config(),
            create: self.create.to_config(),
            simulation: self.simulation.to_config(),
        }
    }

    /// The same colors in the first file format's terms: each line kind gets
    /// its own color, arrows, sources and targets share theirs, colons take
    /// the terminal's color and the simulation note its built-in colors.
    pub open spec fn spec_from_v1(v: V1SerializeColorSettings) -> Self {
        SerializeColorSettings {
            link: SerializeLinkConfig { link: v.link, colon: None, source: v.source, arrow: v.arrow, target: v.target },
            unlink: SerializeUnlinkConfig { unlink: v.unlink, colon: None, target: v.target },
            list: SerializeListConfig { link: v.list, colon: None, source: v.source, arrow: v.arrow, target: v.target },
            remove: SerializeRemoveConfig { remove: v.remove, colon: None, target: v.target },
            create: SerializeCreateConfig { create: v.create, colon: None, target: v.target },
            simulation: SerializeSimulationConfig::spec_default(),
        }
    }

    /// Converts the colors of the first file format.
    pub fn from_v1(v: &V1SerializeColorSettings) -> (r: Self)
        ensures
            r == Self::spec_from_v1(*v),
    {
        SerializeColorSettings {
            link: SerializeLinkConfig { link: v.link, colon: None, source: v.source, arrow: v.arrow, target: v.target },
            unlink: SerializeUnlinkConfig { unlink: v.unlink, colon: None, target: v.target },
            list: SerializeListConfig { link: v.list, colon: None, source: v.source, arrow: v.arrow, target: v.target },
            remove: SerializeRemoveConfig { remove: v.remove, colon: None, target: v.target },
            create: SerializeCreateConfig { create: v.create, colon: None, target: v.target },
            simulation: SerializeSimulationConfig::default_colors(),
        }
    }
}

impl V1SerializeColorSettings {
    /// The built-in colors of the first file format.
    pub open spec fn spec_default() -> Self {
        V1SerializeColorSettings {
            link: Some(spec_default_link_color()),
            unlink: Some(spec_default_unlink_color()),
            list: Some(spec_default_list_color()),
            remove: Some(spec_default_remove_color()),
            create: Some(spec_default_create_color()),
            arrow: Some(spec_default_arrow_color()),
            source: Some(spec_default_source_color()),
            target: Some(spec_default_target_color()),
        }
    }

    /// The built-in colors of the first file format.
    pub fn default_colors() -> (r: Self)
        ensures
            r == Self::spec_default(),
    {
        V1SerializeColorSettings {
            link: Some(default_link_color()),
            unlink: Some(default_unlink_color()),
            list: Some(default_list_color()),
            remove: Some(default_remove_color()),
            create: Some(default_create_color()),
            arrow: Some(default_arrow_color()),
            source: Some(default_source_color()),
            target: Some(default_target_color()),
        }
    }
}

/// Whether colored output is wanted, and with which colors.
#[derive(Debug, Clone, Copy, PartialEq, Eq, Hash, Structural)]
pub struct ColorConfig {
    pub enabled: bool,
    pub settings: SerializeColorSettings,
}

/// The color section of the first configuration file format.
#[derive(Debug, Clone, Copy, PartialEq, Eq, Hash, Structural)]
pub struct V1ColorConfig {
    pub enabled: bool,
    pub settings: V1SerializeColorSettings,
}

impl ColorConfig {
    /// Colors on, with the built-in colors.
    pub open spec fn spec_default() -> Self {
        ColorConfig { enabled: true, settings: SerializeColorSettings::spec_default() }
    }

    /// Colors on, with the built-in colors.
    pub fn default_config() -> (r: Self)
        ensures
            r == Self::spec_default(),
    {
        ColorConfig { enabled: true, settings: SerializeColorSettings::default_colors() }
    }

    /// The colors in use, with built-in colors where the file gave none.
    pub fn color_settings(&self) -> (r: ColorSettings)
        ensures
            r == self.settings.spec_to_settings(),
    {
        self.settings.to_settings()
    }

    /// A configuration holding the given colors.
    pub fn new(settings: ColorSettings, enabled: bool) -> (r: Self)
        ensures
            r == (ColorConfig { enabled, settings: settings.spec_to_serialized() }),
    {
        ColorConfig { enabled, settings: settings.to_serialized() }
    }

    /// Converts the color section of the first file format.
    pub fn from_v1(v: &V1ColorConfig) -> (r: Self)
        ensures
            r == (ColorConfig { enabled: v.enabled, settings: SerializeColorSettings::spec_from_v1(v.settings) }),
    {
        ColorConfig { enabled: v.enabled, settings: SerializeColorSettings::from_v1(&v.settings) }
    }
}

impl V1ColorConfig {
    /// Colors on, with the first format's built-in colors.
    pub open spec fn spec_default() -> Self {
        V1ColorConfig { enabled: true, settings: V1SerializeColorSettings::spec_default() }
    }

    /// Colors on, with the first format's built-in colors.
    pub fn default_config() -> (r: Self)
        ensures
            r == Self::spec_default(),
    {
        V1ColorConfig { enabled: true, settings: V1SerializeColorSettings::default_colors() }
    }
}

impl Default for LinkConfig {
    fn default() -> (r: Self)
        ensures
            r == Self::spec_default(),
    {
        Self::default_colors()
    }
}

impl Default for SerializeLinkConfig {
    fn default() -> (r: Self)
        ensures
            r == Self::spec_default(),
    {
        Self::default_colors()
    }
}

impl Default for ListConfig {
    fn default() -> (r: Self)
        ensures
            r == Self::spec_default(),
    {
        Self::default_colors()
    }
}

impl Default for SerializeListConfig {
    fn default() -> (r: Self)
        ensures
            r == Self::spec_default(),
    {
        Self::default_colors()
    }
}

impl Default for UnlinkConfig {
    fn default() -> (r: Self)
        ensures
            r == Self::spec_default(),
    {
        Self::default_colors()
    }
}

impl Default for SerializeUnlinkConfig {
    fn default() -> (r: Self)
        ensures
            r == Self::spec_default(),
    {
        Self::default_colors()
    }
}

impl Default for RemoveConfig {
    fn default() -> (r: Self)
        ensures
            r == Self::spec_default(),
    {
        Self::default_colors()
    }
}

impl Default for SerializeRemoveConfig {
    fn default() -> (r: Self)
        ensures
            r == Self::spec_default(),
    {
        Self::default_colors()
    }
}

impl Default for CreateConfig {
    fn default() -> (r: Self)
        ensures
            r == Self::spec_default(),
    {
        Self::default_colors()
    }
}

impl Default for SerializeCreateConfig {
    fn default() -> (r: Self)
        ensures
            r == Self::spec_default(),
    {
        Self::default_colors()
    }
}

impl Default for SimulationConfig {
    fn default() -> (r: Self)
        ensures
            r == Self::spec_default(),
    {
        Self::default_colors()
    }
}

impl Default for SerializeSimulationConfig {
    fn default() -> (r: Self)
        ensures
            r == Self::spec_default(),
    {
        Self::default_colors()
    }
}

impl Default for ColorSettings {
    fn default() -> (r: Self)
        ensures
            r == Self::spec_default(),
    {
        Self::default_colors()
    }
}

impl Default for SerializeColorSettings {
    fn default() -> (r: Self)
        ensures
            r == Self::spec_default(),
    {
        Self::default_colors()
    }
}

impl Default for V1SerializeColorSettings {
    fn default() -> (r: Self)
        ensures
            r == Self::spec_default(),
    {
        Self::default_colors()
    }
}

impl Default for ColorConfig {
    fn default() -> (r: Self)
        ensures
            r == Self::spec_default(),
    {
        Self::default_config()
    }
}

impl Default for V1ColorConfig {
    fn default() -> (r: Self)
        ensures
            r == Self::spec_default(),
    {
        Self::default_config()
    }
}

/// Every color setting written out and read back gives the same colors.
pub proof fn lemma_settings_round_trip(s: ColorSettings)
    ensures
        s.spec_to_serialized().spec_to_settings() == s,
{
}

/// A configuration made from colors hands the same colors back.
pub proof fn lemma_color_config_keeps_settings(s: ColorSettings, enabled: bool)
    ensures
        (ColorConfig { enabled, settings: s.spec_to_serialized() }).settings.spec_to_settings() == s,
{
}

/// The built-in file settings give the built-in colors.
pub proof fn lemma_default_settings_agree()
    ensures
        SerializeColorSettings::spec_default().spec_to_settings() == ColorSettings::spec_default(),
{
}

} // verus!
