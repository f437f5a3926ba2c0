//! Core logic of the Moyu desktop companion: the Fenbi image pipeline and its
//! cache, the settings model, vocabulary bookkeeping, text decoding and the
//! window geometry rules.

pub mod text;
pub mod image_cache;
pub mod png_rgba;
pub mod edge_background;
pub mod web_url;
pub mod fenbi_image;
pub mod settings;
pub mod window_layout;
pub mod vocabulary;
pub mod text_decoding;
pub mod mental_math;
pub mod pdf_progress;
pub mod content_script;
pub mod commands;
