//! Markdown to HTML export: comrak's rendering, optionally wrapped in a
//! self-contained HTML5 document with an embedded stylesheet.

use vstd::prelude::*;
use crate::utils::OutputFormat;

verus! {

/// The stylesheet embedded in exported HTML documents.
pub const STYLESHEET: &'static str = r##"
:root {
    --bg: #ffffff;
    --text: #1a1a2e;
    --heading: #16213e;
    --link: #0f3460;
    --code-bg: #f4f4f8;
    --border: #e0e0e6;
    --quote-border: #0f3460;
    --table-stripe: #f8f8fc;
}

@media (prefers-color-scheme: dark) {
    :root {
        --bg: #1a1a2e;
        --text: #e0e0e6;
        --heading: #e8e8f0;
        --link: #6c9bff;
        --code-bg: #252540;
        --border: #3a3a5c;
        --quote-border: #6c9bff;
        --table-stripe: #22223a;
    }
}

* { margin: 0; padding: 0; box-sizing: border-box; }

body {
    font-family: -apple-system, BlinkMacSystemFont, "Segoe UI", Roboto, "Helvetica Neue", Arial, sans-serif;
    font-size: 16px;
    line-height: 1.7;
    color: var(--text);
    background: var(--bg);
    max-width: 820px;
    margin: 0 auto;
    padding: 2rem 1.5rem;
}

article { max-width: 100%; }

h1, h2, h3, h4, h5, h6 {
    color: var(--heading);
    margin-top: 1.8em;
    margin-bottom: 0.6em;
    line-height: 1.3;
}

h1 { font-size: 2em; border-bottom: 2px solid var(--border); padding-bottom: 0.3em; }
h2 { font-size: 1.6em; border-bottom: 1px solid var(--border); padding-bottom: 0.25em; }
h3 { font-size: 1.3em; }
h4 { font-size: 1.1em; }

p { margin-bottom: 1em; }

a { color: var(--link); text-decoration: none; }
a:hover { text-decoration: underline; }

code {
    font-family: "JetBrains Mono", "Fira Code", "Cascadia Code", Consolas, monospace;
    font-size: 0.88em;
    background: var(--code-bg);
    padding: 0.15em 0.4em;
    border-radius: 4px;
}

pre {
    background: var(--code-bg);
    padding: 1em 1.2em;
    border-radius: 8px;
    overflow-x: auto;
    margin-bottom: 1em;
    line-height: 1.5;
}

pre code {
    background: none;
    padding: 0;
    font-size: 0.85em;
}

blockquote {
    border-left: 4px solid var(--quote-border);
    padding: 0.5em 1em;
    margin: 1em 0;
    color: var(--text);
    opacity: 0.85;
}

table {
    border-collapse: collapse;
    width: 100%;
    margin-bottom: 1em;
}

th, td {
    border: 1px solid var(--border);
    padding: 0.6em 0.9em;
    text-align: left;
}

th { background: var(--code-bg); font-weight: 600; }

tr:nth-child(even) { background: var(--table-stripe); }

ul, ol { margin: 0.5em 0 1em 1.5em; }

li { margin-bottom: 0.3em; }

hr { border: none; border-top: 1px solid var(--border); margin: 2em 0; }

img { max-width: 100%; height: auto; border-radius: 6px; }

del { opacity: 0.6; }

input[type="checkbox"] {
    margin-right: 0.5em;
    accent-color: var(--link);
}
"##;

/// The start of an exported document, before the stylesheet.
pub const EXPORT_HEAD: &'static str = "<!DOCTYPE html>\n<html lang=\"en\">\n<head>\n<meta charset=\"UTF-8\">\n<meta name=\"viewport\" content=\"width=device-width, initial-scale=1.0\">\n<title>MDrust Export</title>\n<style>\n";

/// Between the stylesheet and the body.
pub const EXPORT_MIDDLE: &'static str = "\n</style>\n</head>\n<body>\n<article>\n";

/// The end of an exported document, after the body.
pub const EXPORT_TAIL: &'static str = "\n</article>\n</body>\n</html>";

/// What `comrak::markdown_to_html` gives with the export options:
/// strikethrough, tables, autolinks, task lists, superscript, footnotes and
/// description lists on, hard breaks off, GitHub-style code block languages.
pub uninterp spec fn comrak_export_html(markdown: Seq<char>) -> Seq<char>;

/// `comrak::markdown_to_html` with the export options (see
/// `comrak_export_html`). The contract names the result.
#[verifier::external_body]
fn render_export_html(markdown: &str) -> (r: String)
    ensures
        r@ == comrak_export_html(markdown@),
{
    let mut options = comrak::Options::default();
    options.extension.strikethrough = true;
    options.extension.table = true;
    options.extension.autolink = true;
    options.extension.tasklist = true;
    options.extension.superscript = true;
    options.extension.footnotes = true;
    options.extension.description_lists = true;
    options.render.hardbreaks = false;
    options.render.github_pre_lang = true;
    comrak::markdown_to_html(markdown, &options)
}

/// Whether an export is a whole document, and whether it embeds the
/// stylesheet; formats other than HTML export as a whole styled document.
pub open spec fn html_export_flags(format: OutputFormat) -> (bool, bool) {
    match format {
        OutputFormat::Html { standalone, include_css } => (standalone, include_css),
        _ => (true, true),
    }
}

/// The exported HTML: comrak's rendering alone, or wrapped in a document
/// with the stylesheet when asked for.
pub open spec fn exported_html(markdown: Seq<char>, format: OutputFormat) -> Seq<char> {
    let (standalone, include_css) = html_export_flags(format);
    let body = comrak_export_html(markdown);
    if !standalone {
        body
    } else {
        EXPORT_HEAD@ + (if include_css { STYLESHEET@ } else { Seq::empty() }) + EXPORT_MIDDLE@ + body + EXPORT_TAIL@
    }
}

/// Convert Markdown text to HTML: a whole HTML5 document with embedded CSS
/// when the format asks for one (and for non-HTML formats), else the body.
pub fn markdown_to_html(markdown: &str, format: &OutputFormat) -> (r: String)
    ensures
        r@ == exported_html(markdown@, *format),
{
    let (standalone, include_css) = match format {
        OutputFormat::Html { standalone, include_css } => (*standalone, *include_css),
        _ => (true, true),
    };
    let body_html = render_export_html(markdown);
    if !standalone {
        return body_html;
    }
    let mut html = String::new();
    html.append(EXPORT_HEAD);
    if include_css {
        html.append(STYLESHEET);
    }
    html.append(EXPORT_MIDDLE);
    html.append(body_html.as_str());
    html.append(EXPORT_TAIL);
    html
}

} // verus!
