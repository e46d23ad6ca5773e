//! Export of Markdown to other formats: HTML and DOCX.

pub mod md_to_html;
pub mod md_to_docx;
