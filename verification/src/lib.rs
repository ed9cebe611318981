//! Adaptation layer between a language-server protocol data model and the
//! Kakoune editor's plain-text command surface: coordinate translation,
//! symbol-list formatting, language resolution by file extension, safe
//! quoting for editor commands, and the pure part of session cleanup.

pub mod config;
pub mod language;
pub mod pathname;
pub mod quoting;
pub mod range;
pub mod session;
pub mod symbols;
pub mod text;

pub use config::Config;
pub use config::LanguageConfig;
pub use language::LanguageTable;
pub use language::extension_to_language_id_map;
pub use language::path_to_language_id;
pub use pathname::ext_as_str;
pub use quoting::editor_escape;
pub use quoting::editor_quote;
pub use range::Position;
pub use range::Range;
pub use range::lsp_range_to_kakoune;
pub use session::cleanup_paths;
pub use session::join_path;
pub use session::temp_dir_path;
pub use symbols::Location;
pub use symbols::SymbolFormatError;
pub use symbols::SymbolInformation;
pub use symbols::format_symbol_information;
