//! MDrust: document-to-Markdown conversion logic.
//!
//! The modules here hold the logic of the converter: format detection,
//! word counting, the Markdown that each input format turns into, the
//! preview and export documents, the conversion queue of the desktop
//! interface, and the user-interface strings.

pub mod text;
pub mod utils;
pub mod ocr;
pub mod converters;
pub mod preview;
pub mod xml;
pub mod i18n;
pub mod cpu;
pub mod archive;
pub mod export;
pub mod options;
pub mod batch;
pub mod queue;
