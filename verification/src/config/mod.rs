//! Color and icon configuration, with overrides from a configuration file
//! and from the `RCDIR` environment variable.
//!
//! `Config::view` gives the configuration as mathematical values; every
//! operation that changes a configuration states the new view in terms of
//! the old one.

pub mod defaults;
pub mod env_overrides;
pub mod file_reader;
pub mod style;

use vstd::prelude::*;
use crate::color::{FC_GREEN, FC_CYAN, FC_RED, FC_BROWN, FC_DARK_GREY, FC_LIGHT_BLUE, FC_LIGHT_GREEN, FC_LIGHT_RED, FC_YELLOW, FC_WHITE};
use crate::command_line::SizeFormat;
use crate::environment_provider::EnvironmentProvider;
use crate::icon_mapping::{NF_COD_FILE_SYMLINK_DIR, NF_CUSTOM_FOLDER, NF_FA_EXTERNAL_LINK, NF_FA_FILE, NF_MD_CLOUD_CHECK, NF_MD_CLOUD_OUTLINE, NF_MD_PIN};
use crate::keyed::{StrMap, U32Map};
use crate::text::str_eq;
use self::env_overrides::{apply_segments, apply_lines, file_path_for, lines_fit, value_fits};
use self::file_reader::{ConfigFileError, ReadView};
use self::defaults::{
    init_extension_colors_view, init_file_attr_colors_view, init_extension_icons_view,
    init_well_known_dir_icons_view,
};

verus! {

/// Name of the environment variable holding user overrides.
pub const RCDIR_ENV_VAR_NAME: &'static str = "RCDIR";

/// Display items whose color can be configured.
#[derive(Debug, Clone, Copy, PartialEq, Eq, Structural, Hash)]
pub enum Attribute {
    Default,
    Date,
    Time,
    FileAttributePresent,
    FileAttributeNotPresent,
    Size,
    Directory,
    Information,
    InformationHighlight,
    SeparatorLine,
    Error,
    Owner,
    Stream,
    CloudStatusCloudOnly,
    CloudStatusLocallyAvailable,
    CloudStatusAlwaysLocallyAvailable,
    TreeConnector,
}

/// Position of an attribute in `Attribute::ALL` and in the color table.
pub open spec fn attr_index(a: Attribute) -> int {
    match a {
        Attribute::Default => 0,
        Attribute::Date => 1,
        Attribute::Time => 2,
        Attribute::FileAttributePresent => 3,
        Attribute::FileAttributeNotPresent => 4,
        Attribute::Size => 5,
        Attribute::Directory => 6,
        Attribute::Information => 7,
        Attribute::InformationHighlight => 8,
        Attribute::SeparatorLine => 9,
        Attribute::Error => 10,
        Attribute::Owner => 11,
        Attribute::Stream => 12,
        Attribute::CloudStatusCloudOnly => 13,
        Attribute::CloudStatusLocallyAvailable => 14,
        Attribute::CloudStatusAlwaysLocallyAvailable => 15,
        Attribute::TreeConnector => 16,
    }
}

/// Display name of an attribute (the marker name used in color strings).
pub open spec fn attr_name(a: Attribute) -> Seq<char> {
    match a {
        Attribute::Default => "Default"@,
        Attribute::Date => "Date"@,
        Attribute::Time => "Time"@,
        Attribute::FileAttributePresent => "FileAttributePresent"@,
        Attribute::FileAttributeNotPresent => "FileAttributeNotPresent"@,
        Attribute::Size => "Size"@,
        Attribute::Directory => "Directory"@,
        Attribute::Information => "Information"@,
        Attribute::InformationHighlight => "InformationHighlight"@,
        Attribute::SeparatorLine => "SeparatorLine"@,
        Attribute::Error => "Error"@,
        Attribute::Owner => "Owner"@,
        Attribute::Stream => "Stream"@,
        Attribute::CloudStatusCloudOnly => "CloudStatusCloudOnly"@,
        Attribute::CloudStatusLocallyAvailable => "CloudStatusLocallyAvailable"@,
        Attribute::CloudStatusAlwaysLocallyAvailable => "CloudStatusAlwaysLocallyAvailable"@,
        Attribute::TreeConnector => "TreeConnector"@,
    }
}

/// Attribute whose display name is exactly `name` (case-sensitive).
pub open spec fn attr_from_name(name: Seq<char>) -> Option<Attribute> {
    if name == "Default"@ {
        Some(Attribute::Default)
    } else if name == "Date"@ {
        Some(Attribute::Date)
    } else if name == "Time"@ {
        Some(Attribute::Time)
    } else if name == "FileAttributePresent"@ {
        Some(Attribute::FileAttributePresent)
    } else if name == "FileAttributeNotPresent"@ {
        Some(Attribute::FileAttributeNotPresent)
    } else if name == "Size"@ {
        Some(Attribute::Size)
    } else if name == "Directory"@ {
        Some(Attribute::Directory)
    } else if name == "Information"@ {
        Some(Attribute::Information)
    } else if name == "InformationHighlight"@ {
        Some(Attribute::InformationHighlight)
    } else if name == "SeparatorLine"@ {
        Some(Attribute::SeparatorLine)
    } else if name == "Error"@ {
        Some(Attribute::Error)
    } else if name == "Owner"@ {
        Some(Attribute::Owner)
    } else if name == "Stream"@ {
        Some(Attribute::Stream)
    } else if name == "CloudStatusCloudOnly"@ {
        Some(Attribute::CloudStatusCloudOnly)
    } else if name == "CloudStatusLocallyAvailable"@ {
        Some(Attribute::CloudStatusLocallyAvailable)
    } else if name == "CloudStatusAlwaysLocallyAvailable"@ {
        Some(Attribute::CloudStatusAlwaysLocallyAvailable)
    } else if name == "TreeConnector"@ {
        Some(Attribute::TreeConnector)
    } else {
        None
    }
}

/// One-character key of an attribute in the environment variable.
pub open spec fn attr_env_key(a: Attribute) -> Option<char> {
    match a {
        Attribute::Date => Some('D'),
        Attribute::Time => Some('T'),
        Attribute::FileAttributePresent => Some('A'),
        Attribute::FileAttributeNotPresent => Some('-'),
        Attribute::Size => Some('S'),
        Attribute::Directory => Some('R'),
        Attribute::Information => Some('I'),
        Attribute::InformationHighlight => Some('H'),
        Attribute::Error => Some('E'),
        Attribute::Default => Some('F'),
        Attribute::Owner => Some('O'),
        Attribute::Stream => Some('M'),
        Attribute::TreeConnector => Some('C'),
        _ => None,
    }
}

/// Attribute whose environment key is `c`.
pub open spec fn attr_for_env_key(c: char) -> Option<Attribute> {
    if c == 'F' {
        Some(Attribute::Default)
    } else if c == 'D' {
        Some(Attribute::Date)
    } else if c == 'T' {
        Some(Attribute::Time)
    } else if c == 'A' {
        Some(Attribute::FileAttributePresent)
    } else if c == '-' {
        Some(Attribute::FileAttributeNotPresent)
    } else if c == 'S' {
        Some(Attribute::Size)
    } else if c == 'R' {
        Some(Attribute::Directory)
    } else if c == 'I' {
        Some(Attribute::Information)
    } else if c == 'H' {
        Some(Attribute::InformationHighlight)
    } else if c == 'E' {
        Some(Attribute::Error)
    } else if c == 'O' {
        Some(Attribute::Owner)
    } else if c == 'M' {
        Some(Attribute::Stream)
    } else if c == 'C' {
        Some(Attribute::TreeConnector)
    } else {
        None
    }
}

impl Attribute {
    pub const COUNT: usize = 17;

    /// All attributes in index order.
    pub const ALL: [Attribute; 17] = [
        Attribute::Default,
        Attribute::Date,
        Attribute::Time,
        Attribute::FileAttributePresent,
        Attribute::FileAttributeNotPresent,
        Attribute::Size,
        Attribute::Directory,
        Attribute::Information,
        Attribute::InformationHighlight,
        Attribute::SeparatorLine,
        Attribute::Error,
        Attribute::Owner,
        Attribute::Stream,
        Attribute::CloudStatusCloudOnly,
        Attribute::CloudStatusLocallyAvailable,
        Attribute::CloudStatusAlwaysLocallyAvailable,
        Attribute::TreeConnector,
    ];

    /// Position of this attribute in the color table.
    pub fn index(&self) -> (r: usize)
        ensures
            r == attr_index(*self),
    {
        match self {
            Attribute::Default => 0,
            Attribute::Date => 1,
            Attribute::Time => 2,
            Attribute::FileAttributePresent => 3,
            Attribute::FileAttributeNotPresent => 4,
            Attribute::Size => 5,
            Attribute::Directory => 6,
            Attribute::Information => 7,
            Attribute::InformationHighlight => 8,
            Attribute::SeparatorLine => 9,
            Attribute::Error => 10,
            Attribute::Owner => 11,
            Attribute::Stream => 12,
            Attribute::CloudStatusCloudOnly => 13,
            Attribute::CloudStatusLocallyAvailable => 14,
            Attribute::CloudStatusAlwaysLocallyAvailable => 15,
            Attribute::TreeConnector => 16,
        }
    }

    /// Attribute by its display name (case-sensitive).
    pub fn from_name(name: &str) -> (r: Option<Attribute>)
        ensures
            r == attr_from_name(name@),
    {
        if str_eq(name, "Default") {
            Some(Attribute::Default)
        } else if str_eq(name, "Date") {
            Some(Attribute::Date)
        } else if str_eq(name, "Time") {
            Some(Attribute::Time)
        } else if str_eq(name, "FileAttributePresent") {
            Some(Attribute::FileAttributePresent)
        } else if str_eq(name, "FileAttributeNotPresent") {
            Some(Attribute::FileAttributeNotPresent)
        } else if str_eq(name, "Size") {
            Some(Attribute::Size)
        } else if str_eq(name, "Directory") {
            Some(Attribute::Directory)
        } else if str_eq(name, "Information") {
            Some(Attribute::Information)
        } else if str_eq(name, "InformationHighlight") {
            Some(Attribute::InformationHighlight)
        } else if str_eq(name, "SeparatorLine") {
            Some(Attribute::SeparatorLine)
        } else if str_eq(name, "Error") {
            Some(Attribute::Error)
        } else if str_eq(name, "Owner") {
            Some(Attribute::Owner)
        } else if str_eq(name, "Stream") {
            Some(Attribute::Stream)
        } else if str_eq(name, "CloudStatusCloudOnly") {
            Some(Attribute::CloudStatusCloudOnly)
        } else if str_eq(name, "CloudStatusLocallyAvailable") {
            Some(Attribute::CloudStatusLocallyAvailable)
        } else if str_eq(name, "CloudStatusAlwaysLocallyAvailable") {
            Some(Attribute::CloudStatusAlwaysLocallyAvailable)
        } else if str_eq(name, "TreeConnector") {
            Some(Attribute::TreeConnector)
        } else {
            None
        }
    }

    /// Display name of this attribute.
    pub fn name(&self) -> (r: &'static str)
        ensures
            r@ == attr_name(*self),
    {
        match self {
            Attribute::Default => "Default",
            Attribute::Date => "Date",
            Attribute::Time => "Time",
            Attribute::FileAttributePresent => "FileAttributePresent",
            Attribute::FileAttributeNotPresent => "FileAttributeNotPresent",
            Attribute::Size => "Size",
            Attribute::Directory => "Directory",
            Attribute::Information => "Information",
            Attribute::InformationHighlight => "InformationHighlight",
            Attribute::SeparatorLine => "SeparatorLine",
            Attribute::Error => "Error",
            Attribute::Owner => "Owner",
            Attribute::Stream => "Stream",
            Attribute::CloudStatusCloudOnly => "CloudStatusCloudOnly",
            Attribute::CloudStatusLocallyAvailable => "CloudStatusLocallyAvailable",
            Attribute::CloudStatusAlwaysLocallyAvailable => "CloudStatusAlwaysLocallyAvailable",
            Attribute::TreeConnector => "TreeConnector",
        }
    }

    /// One-character key of this attribute in the environment variable.
    pub fn env_key(&self) -> (r: Option<char>)
        ensures
            r == attr_env_key(*self),
    {
        match self {
            Attribute::Date => Some('D'),
            Attribute::Time => Some('T'),
            Attribute::FileAttributePresent => Some('A'),
            Attribute::FileAttributeNotPresent => Some('-'),
            Attribute::Size => Some('S'),
            Attribute::Directory => Some('R'),
            Attribute::Information => Some('I'),
            Attribute::InformationHighlight => Some('H'),
            Attribute::Error => Some('E'),
            Attribute::Default => Some('F'),
            Attribute::Owner => Some('O'),
            Attribute::Stream => Some('M'),
            Attribute::TreeConnector => Some('C'),
            _ => None,
        }
    }
}

/// Names and attributes correspond one to one: looking up the name of an
/// attribute gives back that attribute.
pub proof fn lemma_attribute_name_roundtrip(a: Attribute)
    ensures
        attr_from_name(attr_name(a)) == Some(a),
{
    reveal_strlit("Default");
    reveal_strlit("Date");
    reveal_strlit("Time");
    reveal_strlit("FileAttributePresent");
    reveal_strlit("FileAttributeNotPresent");
    reveal_strlit("Size");
    reveal_strlit("Directory");
    reveal_strlit("Information");
    reveal_strlit("InformationHighlight");
    reveal_strlit("SeparatorLine");
    reveal_strlit("Error");
    reveal_strlit("Owner");
    reveal_strlit("Stream");
    reveal_strlit("CloudStatusCloudOnly");
    reveal_strlit("CloudStatusLocallyAvailable");
    reveal_strlit("CloudStatusAlwaysLocallyAvailable");
    reveal_strlit("TreeConnector");
    let s = attr_name(a);
    assert("Default"@.len() == 7 && "Default"@[0] == 'D');
    assert("Date"@.len() == 4 && "Date"@[0] == 'D');
    assert("Time"@.len() == 4 && "Time"@[0] == 'T');
    assert("FileAttributePresent"@.len() == 20 && "FileAttributePresent"@[0] == 'F');
    assert("FileAttributeNotPresent"@.len() == 23 && "FileAttributeNotPresent"@[0] == 'F');
    assert("Size"@.len() == 4 && "Size"@[0] == 'S');
    assert("Directory"@.len() == 9 && "Directory"@[0] == 'D');
    assert("Information"@.len() == 11 && "Information"@[0] == 'I');
    assert("InformationHighlight"@.len() == 20 && "InformationHighlight"@[0] == 'I');
    assert("SeparatorLine"@.len() == 13 && "SeparatorLine"@[0] == 'S');
    assert("Error"@.len() == 5 && "Error"@[0] == 'E');
    assert("Owner"@.len() == 5 && "Owner"@[0] == 'O');
    assert("Stream"@.len() == 6 && "Stream"@[0] == 'S');
    assert("CloudStatusCloudOnly"@.len() == 20 && "CloudStatusCloudOnly"@[0] == 'C');
    assert("CloudStatusLocallyAvailable"@.len() == 27 && "CloudStatusLocallyAvailable"@[0] == 'C');
    assert("CloudStatusAlwaysLocallyAvailable"@.len() == 33 && "CloudStatusAlwaysLocallyAvailable"@[0] == 'C');
    assert("TreeConnector"@.len() == 13 && "TreeConnector"@[0] == 'T');
}

/// Environment keys and attributes correspond: an attribute with a key is
/// the one found for that key.
pub proof fn lemma_env_key_roundtrip(a: Attribute)
    ensures
        attr_env_key(a) matches Some(c) ==> attr_for_env_key(c) == Some(a),
{
}

/// Where a configured value came from.
#[derive(Debug, Clone, Copy, PartialEq, Eq, Structural)]
pub enum AttributeSource {
    Default,
    ConfigFile,
    Environment,
}

/// Color and source of a file-attribute color.
#[derive(Debug, Clone, Copy, PartialEq, Eq, Structural)]
pub struct FileAttrStyle {
    pub attr: u16,
    pub source: AttributeSource,
}

/// A problem found while parsing an override entry.
#[derive(Debug, Clone)]
pub struct ErrorInfo {
    pub message: String,
    pub entry: String,
    pub invalid_text: String,
    /// Byte offset of `invalid_text` within `entry`.
    pub invalid_text_offset: usize,
    pub source_file_path: String,
    /// 1-based line in the configuration file; 0 for the environment.
    pub line_number: usize,
}

/// An error as mathematical values.
pub struct ErrorView {
    pub message: Seq<char>,
    pub entry: Seq<char>,
    pub invalid_text: Seq<char>,
    pub offset: nat,
    pub path: Seq<char>,
    pub line: nat,
}

impl ErrorInfo {
    pub open spec fn view(&self) -> ErrorView {
        ErrorView {
            message: self.message@,
            entry: self.entry@,
            invalid_text: self.invalid_text@,
            offset: self.invalid_text_offset as nat,
            path: self.source_file_path@,
            line: self.line_number as nat,
        }
    }

    /// An error with no file path and line 0.
    pub fn new(message: String, entry: String, invalid_text: String, invalid_text_offset: usize) -> (r: Self)
        ensures
            r@ == (ErrorView {
                message: message@,
                entry: entry@,
                invalid_text: invalid_text@,
                offset: invalid_text_offset as nat,
                path: Seq::empty(),
                line: 0,
            }),
    {
        ErrorInfo {
            message,
            entry,
            invalid_text,
            invalid_text_offset,
            source_file_path: String::new(),
            line_number: 0,
        }
    }
}

/// Errors collected while parsing one source.
#[derive(Debug, Clone)]
pub struct ValidationResult {
    pub errors: Vec<ErrorInfo>,
}

/// The errors of a result as mathematical values.
pub open spec fn errors_view(v: Seq<ErrorInfo>) -> Seq<ErrorView> {
    v.map_values(|e: ErrorInfo| e@)
}

impl ValidationResult {
    pub open spec fn view(&self) -> Seq<ErrorView> {
        errors_view(self.errors@)
    }

    /// An empty result.
    pub fn new() -> (r: Self)
        ensures
            r@.len() == 0,
    {
        ValidationResult { errors: Vec::new() }
    }

    /// Whether any error was recorded.
    pub fn has_issues(&self) -> (r: bool)
        ensures
            r == (self@.len() > 0),
    {
        self.errors.len() != 0
    }
}

impl Default for ValidationResult {
    fn default() -> (r: Self)
        ensures
            r@.len() == 0,
    {
        ValidationResult::new()
    }
}

/// Resolved color and icon for one file entry.
#[derive(Debug, Clone, Copy, PartialEq, Eq)]
pub struct FileDisplayStyle {
    /// Resolved console attribute word.
    pub text_attr: u16,
    /// Resolved icon; `None` when there is no icon.
    pub icon_code_point: Option<char>,
    /// The icon was explicitly configured as empty.
    pub icon_suppressed: bool,
}

/// Number of boolean switches that the overrides can set.
pub const SWITCH_COUNT: usize = 9;

/// The configuration as mathematical values.  `switches` and
/// `switch_sources` are in the order: wide listing, bare listing, recurse,
/// performance timer, multi-threading, owner, streams, icons, tree.
pub struct ConfigView {
    pub attributes: Seq<u16>,
    pub attribute_sources: Seq<AttributeSource>,
    pub extension_colors: Map<Seq<char>, u16>,
    pub extension_sources: Map<Seq<char>, AttributeSource>,
    pub file_attr_colors: Map<u32, FileAttrStyle>,
    pub extension_icons: Map<Seq<char>, char>,
    pub extension_icon_sources: Map<Seq<char>, AttributeSource>,
    pub well_known_dir_icons: Map<Seq<char>, char>,
    pub well_known_dir_icon_sources: Map<Seq<char>, AttributeSource>,
    pub file_attr_icons: Map<u32, char>,
    pub icon_directory_default: char,
    pub icon_file_default: char,
    pub icon_symlink: char,
    pub icon_junction: char,
    pub icon_cloud_only: char,
    pub icon_locally_available: char,
    pub icon_always_local: char,
    pub switches: Seq<Option<bool>>,
    pub switch_sources: Seq<AttributeSource>,
    pub max_depth: Option<i32>,
    pub tree_indent: Option<i32>,
    pub size_format: Option<SizeFormat>,
    pub max_depth_source: AttributeSource,
    pub tree_indent_source: AttributeSource,
    pub size_format_source: AttributeSource,
    pub env_errors: Seq<ErrorView>,
    pub file_errors: Seq<ErrorView>,
    pub config_file_path: Seq<char>,
    pub config_file_loaded: bool,
    pub current_source: AttributeSource,
}

/// Display colors, file-type tables, icons and switch defaults.
pub struct Config {
    /// Display item colors, indexed by `Attribute::index`.
    pub attributes: [u16; 17],
    /// Source of each display item color.
    pub attribute_sources: [AttributeSource; 17],
    /// Extension (lowercase, with leading dot) to color.
    pub extension_colors: StrMap<u16>,
    pub extension_sources: StrMap<AttributeSource>,
    /// File-attribute flag to color and source.
    pub file_attr_colors: U32Map<FileAttrStyle>,
    /// Extension (lowercase, with leading dot) to icon; '\0' means no icon.
    pub extension_icons: StrMap<char>,
    pub extension_icon_sources: StrMap<AttributeSource>,
    /// Well-known directory name (lowercase) to icon; '\0' means no icon.
    pub well_known_dir_icons: StrMap<char>,
    pub well_known_dir_icon_sources: StrMap<AttributeSource>,
    /// File-attribute flag to icon; '\0' means no icon.
    pub file_attr_icons: U32Map<char>,
    pub icon_directory_default: char,
    pub icon_file_default: char,
    pub icon_symlink: char,
    pub icon_junction: char,
    pub icon_cloud_only: char,
    pub icon_locally_available: char,
    pub icon_always_local: char,
    pub icons: Option<bool>,
    pub wide_listing: Option<bool>,
    pub bare_listing: Option<bool>,
    pub recurse: Option<bool>,
    pub perf_timer: Option<bool>,
    pub multi_threaded: Option<bool>,
    pub show_owner: Option<bool>,
    pub show_streams: Option<bool>,
    pub tree: Option<bool>,
    pub max_depth: Option<i32>,
    pub tree_indent: Option<i32>,
    pub size_format: Option<SizeFormat>,
    /// Errors of the last environment-variable parse.
    pub last_parse_result: ValidationResult,
    pub config_file_path: String,
    pub config_file_loaded: bool,
    /// Errors of the last configuration-file parse.
    pub config_file_parse_result: ValidationResult,
    /// Source of each switch, in the order of `ConfigView::switches`.
    pub switch_sources: [AttributeSource; 9],
    pub max_depth_source: AttributeSource,
    pub tree_indent_source: AttributeSource,
    pub size_format_source: AttributeSource,
    /// Source tagged onto values set by the pass in progress.
    pub current_source: AttributeSource,
}

/// The configuration produced by `Config::new`.
pub open spec fn new_config_view() -> ConfigView {
    ConfigView {
        attributes: Seq::new(17, |i: int| 0u16),
        attribute_sources: Seq::new(17, |i: int| AttributeSource::Default),
        extension_colors: Map::empty(),
        extension_sources: Map::empty(),
        file_attr_colors: Map::empty(),
        extension_icons: Map::empty(),
        extension_icon_sources: Map::empty(),
        well_known_dir_icons: Map::empty(),
        well_known_dir_icon_sources: Map::empty(),
        file_attr_icons: Map::empty(),
        icon_directory_default: NF_CUSTOM_FOLDER,
        icon_file_default: NF_FA_FILE,
        icon_symlink: NF_COD_FILE_SYMLINK_DIR,
        icon_junction: NF_FA_EXTERNAL_LINK,
        icon_cloud_only: NF_MD_CLOUD_OUTLINE,
        icon_locally_available: NF_MD_CLOUD_CHECK,
        icon_always_local: NF_MD_PIN,
        switches: Seq::new(9, |i: int| None::<bool>),
        switch_sources: Seq::new(9, |i: int| AttributeSource::Default),
        max_depth: None,
        tree_indent: None,
        size_format: None,
        max_depth_source: AttributeSource::Default,
        tree_indent_source: AttributeSource::Default,
        size_format_source: AttributeSource::Default,
        env_errors: Seq::empty(),
        file_errors: Seq::empty(),
        config_file_path: Seq::empty(),
        config_file_loaded: false,
        current_source: AttributeSource::Environment,
    }
}

/// Default display colors, with `default_attr` for the default item.
pub open spec fn default_attributes(default_attr: u16) -> Seq<u16> {
    seq![
        default_attr,
        FC_RED,
        FC_BROWN,
        FC_CYAN,
        FC_DARK_GREY,
        FC_YELLOW,
        FC_LIGHT_BLUE,
        FC_CYAN,
        FC_WHITE,
        FC_LIGHT_BLUE,
        FC_LIGHT_RED,
        FC_GREEN,
        FC_DARK_GREY,
        FC_LIGHT_BLUE,
        FC_LIGHT_GREEN,
        FC_LIGHT_GREEN,
        FC_DARK_GREY,
    ]
}

/// The configuration after the built-in defaults are installed: default
/// display colors, the default extension colors (added to what is there),
/// and freshly seeded file-attribute colors and icon tables.
pub open spec fn with_defaults(m: ConfigView, default_attr: u16) -> ConfigView {
    ConfigView {
        attributes: default_attributes(default_attr),
        extension_colors: init_extension_colors_view(m.extension_colors),
        extension_sources: init_extension_colors_view_sources(m.extension_sources),
        file_attr_colors: init_file_attr_colors_view(),
        extension_icons: init_extension_icons_view(),
        extension_icon_sources: init_extension_icon_sources_view(),
        well_known_dir_icons: init_well_known_dir_icons_view(),
        well_known_dir_icon_sources: init_well_known_dir_icon_sources_view(),
        ..m
    }
}

pub use self::defaults::{
    init_extension_colors_view_sources, init_extension_icon_sources_view,
    init_well_known_dir_icon_sources_view,
};

/// The configuration file path derived from the user profile directory,
/// and the outcome of loading it.
pub open spec fn load_config_file_view(m: ConfigView, user_profile: Option<Seq<char>>, read: spec_fn(Seq<char>) -> ReadView) -> ConfigView {
    let cleared = ConfigView {
        file_errors: Seq::empty(),
        config_file_loaded: false,
        config_file_path: Seq::empty(),
        ..m
    };
    match user_profile {
        None => cleared,
        Some(up) => {
            let path = file_path_for(up);
            let c2 = ConfigView { config_file_path: path, ..cleared };
            match read(path) {
                ReadView::Lines(lines) => apply_lines(
                    ConfigView {
                        config_file_loaded: true,
                        current_source: AttributeSource::ConfigFile,
                        ..c2
                    },
                    lines,
                    path,
                ),
                ReadView::NotFound => c2,
                ReadView::Failed(msg) => ConfigView {
                    file_errors: seq![
                        ErrorView {
                            message: msg,
                            entry: path,
                            invalid_text: Seq::empty(),
                            offset: 0,
                            path: Seq::empty(),
                            line: 0,
                        },
                    ],
                    ..c2
                },
            }
        },
    }
}

/// The configuration after the environment-variable pass: earlier
/// environment errors are dropped, and the variable's entries, if it is set,
/// are applied with the environment as their source.
pub open spec fn env_pass_view(m: ConfigView, value: Option<Seq<char>>) -> ConfigView {
    let m1 = ConfigView {
        env_errors: Seq::empty(),
        current_source: AttributeSource::Environment,
        ..m
    };
    match value {
        None => m1,
        Some(v) => apply_segments(m1, v),
    }
}

impl Config {
    /// The configuration as mathematical values.
    pub open spec fn view(&self) -> ConfigView {
        ConfigView {
            attributes: self.attributes@,
            attribute_sources: self.attribute_sources@,
            extension_colors: self.extension_colors@,
            extension_sources: self.extension_sources@,
            file_attr_colors: self.file_attr_colors@,
            extension_icons: self.extension_icons@,
            extension_icon_sources: self.extension_icon_sources@,
            well_known_dir_icons: self.well_known_dir_icons@,
            well_known_dir_icon_sources: self.well_known_dir_icon_sources@,
            file_attr_icons: self.file_attr_icons@,
            icon_directory_default: self.icon_directory_default,
            icon_file_default: self.icon_file_default,
            icon_symlink: self.icon_symlink,
            icon_junction: self.icon_junction,
            icon_cloud_only: self.icon_cloud_only,
            icon_locally_available: self.icon_locally_available,
            icon_always_local: self.icon_always_local,
            switches: seq![
                self.wide_listing,
                self.bare_listing,
                self.recurse,
                self.perf_timer,
                self.multi_threaded,
                self.show_owner,
                self.show_streams,
                self.icons,
                self.tree,
            ],
            switch_sources: self.switch_sources@,
            max_depth: self.max_depth,
            tree_indent: self.tree_indent,
            size_format: self.size_format,
            max_depth_source: self.max_depth_source,
            tree_indent_source: self.tree_indent_source,
            size_format_source: self.size_format_source,
            env_errors: self.last_parse_result@,
            file_errors: self.config_file_parse_result@,
            config_file_path: self.config_file_path@,
            config_file_loaded: self.config_file_loaded,
            current_source: self.current_source,
        }
    }

    /// A configuration with no defaults installed.
    pub fn new() -> (c: Self)
        ensures
            c@ == new_config_view(),
    {
        let c = Config {
            attributes: [0u16; 17],
            attribute_sources: [AttributeSource::Default; 17],
            extension_colors: StrMap::new(),
            extension_sources: StrMap::new(),
            file_attr_colors: U32Map::new(),
            extension_icons: StrMap::new(),
            extension_icon_sources: StrMap::new(),
            well_known_dir_icons: StrMap::new(),
            well_known_dir_icon_sources: StrMap::new(),
            file_attr_icons: U32Map::new(),
            icon_directory_default: NF_CUSTOM_FOLDER,
            icon_file_default: NF_FA_FILE,
            icon_symlink: NF_COD_FILE_SYMLINK_DIR,
            icon_junction: NF_FA_EXTERNAL_LINK,
            icon_cloud_only: NF_MD_CLOUD_OUTLINE,
            icon_locally_available: NF_MD_CLOUD_CHECK,
            icon_always_local: NF_MD_PIN,
            icons: None,
            wide_listing: None,
            bare_listing: None,
            recurse: None,
            perf_timer: None,
            multi_threaded: None,
            show_owner: None,
            show_streams: None,
            tree: None,
            max_depth: None,
            tree_indent: None,
            size_format: None,
            last_parse_result: ValidationResult::new(),
            config_file_path: String::new(),
            config_file_loaded: false,
            config_file_parse_result: ValidationResult::new(),
            switch_sources: [AttributeSource::Default; 9],
            max_depth_source: AttributeSource::Default,
            tree_indent_source: AttributeSource::Default,
            size_format_source: AttributeSource::Default,
            current_source: AttributeSource::Environment,
        };
        assert(c.attributes@ =~= new_config_view().attributes);
        assert(c.attribute_sources@ =~= new_config_view().attribute_sources);
        assert(c.switch_sources@ =~= new_config_view().switch_sources);
        assert(c@.switches =~= new_config_view().switches);
        assert(c@.env_errors =~= Seq::<ErrorView>::empty());
        assert(c@.file_errors =~= Seq::<ErrorView>::empty());
        assert(c@ =~= new_config_view());
        c
    }

    /// Installs the default display colors.
    fn set_default_attributes(&mut self, default_attr: u16)
        ensures
            final(self)@ == (ConfigView { attributes: default_attributes(default_attr), ..old(self)@ }),
    {
        self.attributes = [
            default_attr,
            FC_RED,
            FC_BROWN,
            FC_CYAN,
            FC_DARK_GREY,
            FC_YELLOW,
            FC_LIGHT_BLUE,
            FC_CYAN,
            FC_WHITE,
            FC_LIGHT_BLUE,
            FC_LIGHT_RED,
            FC_GREEN,
            FC_DARK_GREY,
            FC_LIGHT_BLUE,
            FC_LIGHT_GREEN,
            FC_LIGHT_GREEN,
            FC_DARK_GREY,
        ];
        assert(self.attributes@ =~= default_attributes(default_attr));
        assert(self@ =~= ConfigView { attributes: default_attributes(default_attr), ..old(self)@ });
    }

    /// Installs every built-in default, loads the configuration file named
    /// by the provider's `USERPROFILE`, then applies the provider's `RCDIR`
    /// variable, so that the environment overrides the file and the file
    /// overrides the defaults.
    pub fn initialize_with_provider<P: EnvironmentProvider>(&mut self, default_attr: u16, provider: &P)
        requires
            value_fits(provider.env_var(RCDIR_ENV_VAR_NAME@)),
            forall|p: Seq<char>| lines_fit(#[trigger] provider.config_file(p)),
        ensures
            final(self)@ == env_pass_view(
                load_config_file_view(
                    with_defaults(old(self)@, default_attr),
                    provider.env_var("USERPROFILE"@),
                    |p: Seq<char>| provider.config_file(p),
                ),
                provider.env_var(RCDIR_ENV_VAR_NAME@),
            ),
    {
        self.set_default_attributes(default_attr);
        self.initialize_extension_colors();
        self.initialize_file_attr_colors();
        self.initialize_extension_icons();
        self.initialize_well_known_dir_icons();
        proof {
            assert(self@ =~= with_defaults(old(self)@, default_attr));
        }
        self.load_config_file(provider);
        self.apply_user_color_overrides(provider);
    }

    /// Configuration-file errors of the last load.
    pub fn validate_config_file(&self) -> (r: &ValidationResult)
        ensures
            r@ == self@.file_errors,
    {
        &self.config_file_parse_result
    }

    /// Whether the configuration file was found and read.
    pub fn is_config_file_loaded(&self) -> (r: bool)
        ensures
            r == self@.config_file_loaded,
    {
        self.config_file_loaded
    }

    /// Environment-variable errors of the last parse.
    pub fn validate_environment_variable(&self) -> (r: &ValidationResult)
        ensures
            r@ == self@.env_errors,
    {
        &self.last_parse_result
    }
}

} // verus!
