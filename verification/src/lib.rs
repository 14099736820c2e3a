//! A lightweight internationalization helper: nested translation trees,
//! key-path lookup with a fallback language, and a validated
//! language-switch protocol.

pub mod config;
pub mod cookie;
pub mod parse;
pub mod session;
pub mod text;
pub mod tree;

pub use config::I18n;
pub use config::I18nConfig;
pub use config::StorageType;
pub use tree::TranslationTree;
