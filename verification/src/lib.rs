//! Colorized directory-listing core: configuration, command-line parsing,
//! color handling and profile alias-block management.

pub mod text;
pub mod keyed;
pub mod ehm;
pub mod color;
pub mod ansi_codes;
pub mod file_info;
pub mod file_attribute_map;
pub mod cloud_status;
pub mod listing_totals;
pub mod results_displayer;
pub mod alias_types;
pub mod profile_file_manager;
pub mod alias_block_generator;
pub mod alias_manager;
pub mod directory_info;
pub mod directory_lister;
pub mod console;
pub mod file_comparator;
pub mod nerd_font_detector;
pub mod mask_grouper;
pub mod path_ellipsis;
pub mod drive_info;
pub mod profile_path_resolver;
pub mod icon_mapping;
pub mod command_line;
pub mod config;
pub mod environment_provider;
pub mod tree_walk;
