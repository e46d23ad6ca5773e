//! HTML preview of Markdown: a complete page with its own stylesheet and
//! script, diagrams and escaping.

use vstd::prelude::*;
use vstd::string::*;
use crate::text::{
    trim, trim_chars, chars_of, push_chars, push_char, push_decimal, decimal, replace_all, replace_str, string_from_chars, is_alphanumeric_char, char_is_alphanumeric, has_prefix,
    starts_with_at,
};

verus! {

/// Part 1 of the preview page template.
pub const PREVIEW_PART_1: &'static str = r##"<!DOCTYPE html>
<html lang="en">
<head>
<meta charset="UTF-8">
<meta name="viewport" content="width=device-width, initial-scale=1.0">
<title>"##;

/// Part 2 of the preview page template.
pub const PREVIEW_PART_2: &'static str = r##"</title>

<!-- KaTeX CSS -->
<link rel="stylesheet" href="https://cdn.jsdelivr.net/npm/katex@0.16.9/dist/katex.min.css">

<!-- highlight.js CSS (GitHub-inspired light theme, with dark override) -->
<link rel="stylesheet" href="https://cdnjs.cloudflare.com/ajax/libs/highlight.js/11.9.0/styles/github.min.css" id="hljs-light-theme">
<link rel="stylesheet" href="https://cdnjs.cloudflare.com/ajax/libs/highlight.js/11.9.0/styles/github-dark.min.css" id="hljs-dark-theme" disabled>

<style>
"##;

/// Part 3 of the preview page template.
pub const PREVIEW_PART_3: &'static str = r##"
</style>
</head>
<body class=""##;

/// Part 4 of the preview page template.
pub const PREVIEW_PART_4: &'static str = r##"">
<div class="md-container" id="md-container">
<div class="md-content">
"##;

/// Part 5 of the preview page template.
pub const PREVIEW_PART_5: &'static str = r##"
</div>
</div>

<!-- Floating toolbar -->
<div class="toolbar" id="toolbar">
  <button class="tb-btn" id="btn-theme" title="Toggle theme">🌓</button>
  <button class="tb-btn" id="btn-font-up" title="Increase font size">A+</button>
  <button class="tb-btn" id="btn-font-down" title="Decrease font size">A−</button>
  <button class="tb-btn" id="btn-line-height" title="Toggle line height">≡</button>
  <button class="tb-btn" id="btn-width" title="Toggle width">↔</button>
</div>

<!-- highlight.js -->
<script src="https://cdnjs.cloudflare.com/ajax/libs/highlight.js/11.9.0/highlight.min.js"></script>

<!-- KaTeX -->
<script src="https://cdn.jsdelivr.net/npm/katex@0.16.9/dist/katex.min.js"></script>
<script src="https://cdn.jsdelivr.net/npm/katex@0.16.9/dist/contrib/auto-render.min.js"></script>

<!-- Mermaid -->
<script src="https://cdn.jsdelivr.net/npm/mermaid@10/dist/mermaid.min.js"></script>

<script>
"##;

/// Part 6 of the preview page template.
pub const PREVIEW_PART_6: &'static str = r##"
</script>
</body>
</html>"##;

/// The preview stylesheet; `FONT_SIZE_PLACEHOLDER` stands for the font size.
pub const PREVIEW_CSS: &'static str = r##"
/* ── Reset & Base ─────────────────────────────────────────────────────── */
*, *::before, *::after {
  box-sizing: border-box;
  margin: 0;
  padding: 0;
}

:root {
  --font-size: FONT_SIZE_PLACEHOLDERpx;
  --line-height: 1.7;
  --content-width: 800px;
  --transition-speed: 0.3s;

  /* Light theme (default) */
  --bg: #ffffff;
  --bg-secondary: #f6f8fa;
  --bg-code: #f6f8fa;
  --bg-inline-code: #f0f0f0;
  --bg-toolbar: rgba(255,255,255,0.85);
  --text: #1d1d1f;
  --text-secondary: #6e6e73;
  --heading: #1d1d1f;
  --link: #0071e3;
  --link-hover: #0058b0;
  --border: #d2d2d7;
  --border-h2: #d2d2d7;
  --blockquote-border: #0071e3;
  --blockquote-bg: #f0f5ff;
  --table-header-bg: #f6f8fa;
  --table-stripe: #fafafa;
  --mermaid-bg: #ffffff;
  --code-text: #24292e;
  --shadow: 0 1px 3px rgba(0,0,0,0.08);
}

body.dark {
  --bg: #0d0d0d;
  --bg-secondary: #1a1a1a;
  --bg-code: #1e1e1e;
  --bg-inline-code: #2d2d2d;
  --bg-toolbar: rgba(30,30,30,0.9);
  --text: #f5f5f7;
  --text-secondary: #a1a1a6;
  --heading: #f5f5f7;
  --link: #4da3ff;
  --link-hover: #7bb8ff;
  --border: #3a3a3c;
  --border-h2: #3a3a3c;
  --blockquote-border: #4da3ff;
  --blockquote-bg: #1a2233;
  --table-header-bg: #1e1e1e;
  --table-stripe: #141414;
  --mermaid-bg: #1e1e1e;
  --code-text: #e6edf3;
  --shadow: 0 1px 3px rgba(0,0,0,0.4);
}

html {
  -webkit-font-smoothing: antialiased;
  -moz-osx-font-smoothing: grayscale;
  text-rendering: optimizeLegibility;
}

body {
  font-family: -apple-system, BlinkMacSystemFont, 'Segoe UI', Roboto,
    'Helvetica Neue', Arial, sans-serif;
  font-size: var(--font-size);
  line-height: var(--line-height);
  color: var(--text);
  background-color: var(--bg);
  transition: background-color var(--transition-speed) ease,
              color var(--transition-speed) ease;
  padding: 0;
  margin: 0;
}

/* ── Layout ───────────────────────────────────────────────────────────── */
.md-container {
  max-width: var(--content-width);
  margin: 0 auto;
  padding: 2rem 1.5rem 6rem;
  transition: max-width var(--transition-speed) ease;
}

.md-content {
  word-wrap: break-word;
  overflow-wrap: break-word;
}

/* ── Headings ─────────────────────────────────────────────────────────── */
h1, h2, h3, h4, h5, h6 {
  font-weight: 700;
  color: var(--heading);
  line-height: 1.25;
  margin-top: 2em;
  margin-bottom: 0.6em;
  transition: color var(--transition-speed) ease;
}

h1 {
  font-size: 2em;
  letter-spacing: -0.02em;
  margin-top: 0;
  padding-bottom: 0.3em;
}

h2 {
  font-size: 1.5em;
  letter-spacing: -0.01em;
  padding-bottom: 0.3em;
  border-bottom: 1px solid var(--border-h2);
  transition: border-color var(--transition-speed) ease;
}

h3 {
  font-size: 1.25em;
}

h4 {
  font-size: 1.1em;
}

h5, h6 {
  font-size: 1em;
}

/* ── Paragraphs ───────────────────────────────────────────────────────── */
p {
  margin-bottom: 1.2em;
}

/* ── Links ────────────────────────────────────────────────────────────── */
a {
  color: var(--link);
  text-decoration: none;
  transition: color 0.2s ease;
}

a:hover {
  color: var(--link-hover);
  text-decoration: underline;
}

/* ── Images ───────────────────────────────────────────────────────────── */
img {
  max-width: 100%;
  height: auto;
  border-radius: 8px;
  display: block;
  margin: 1.5em auto;
  box-shadow: var(--shadow);
}

/* ── Inline Code ──────────────────────────────────────────────────────── */
code {
  font-family: 'SF Mono', 'Fira Code', 'Fira Mono', 'Roboto Mono',
    'Courier New', monospace;
  font-size: 0.875em;
}

p > code, li > code, td > code {
  background: var(--bg-inline-code);
  padding: 2px 6px;
  border-radius: 4px;
  transition: background var(--transition-speed) ease;
}

/* ── Code Blocks ──────────────────────────────────────────────────────── */
pre {
  background: var(--bg-code);
  border-radius: 12px;
  padding: 16px;
  overflow-x: auto;
  margin: 1.2em 0;
  transition: background var(--transition-speed) ease;
}

pre code {
  background: none;
  padding: 0;
  border-radius: 0;
  font-size: 0.85em;
  line-height: 1.6;
  color: var(--code-text);
}

/* ── Blockquotes ──────────────────────────────────────────────────────── */
blockquote {
  border-left: 4px solid var(--blockquote-border);
  background: var(--blockquote-bg);
  padding: 0.8em 1.2em;
  margin: 1.2em 0;
  border-radius: 0 8px 8px 0;
  font-style: italic;
  color: var(--text-secondary);
  transition: border-color var(--transition-speed) ease,
              background var(--transition-speed) ease,
              color var(--transition-speed) ease;
}

blockquote p {
  margin-bottom: 0;
}

blockquote blockquote {
  margin-top: 0.8em;
}

/* ── Lists ────────────────────────────────────────────────────────────── */
ul, ol {
  padding-left: 1.8em;
  margin-bottom: 1.2em;
}

li {
  margin-bottom: 0.4em;
}

li > ul, li > ol {
  margin-bottom: 0;
  margin-top: 0.3em;
}

/* ── Tables ───────────────────────────────────────────────────────────── */
table {
  width: 100%;
  border-collapse: collapse;
  margin: 1.5em 0;
  font-size: 0.92em;
  overflow-x: auto;
  display: block;
}

thead {
  background: var(--table-header-bg);
  transition: background var(--transition-speed) ease;
}

th {
  font-weight: 600;
  text-align: left;
  padding: 10px 14px;
  border-bottom: 2px solid var(--border);
  color: var(--heading);
  transition: border-color var(--transition-speed) ease,
              color var(--transition-speed) ease;
}

td {
  padding: 10px 14px;
  border-bottom: 1px solid var(--border);
  transition: border-color var(--transition-speed) ease;
}

tbody tr:nth-child(even) {
  background: var(--table-stripe);
  transition: background var(--transition-speed) ease;
}

/* ── Horizontal Rule ──────────────────────────────────────────────────── */
hr {
  border: none;
  height: 1px;
  background: var(--border);
  margin: 2.5em 0;
  transition: background var(--transition-speed) ease;
}

/* ── KaTeX ────────────────────────────────────────────────────────────── */
.katex-display {
  margin: 1.2em 0;
  overflow-x: auto;
  overflow-y: hidden;
}

/* ── Mermaid ──────────────────────────────────────────────────────────── */
.mermaid {
  text-align: center;
  margin: 1.5em 0;
  padding: 1em;
  background: var(--mermaid-bg);
  border-radius: 12px;
  overflow-x: auto;
  transition: background var(--transition-speed) ease;
}

body.dark .mermaid {
  filter: invert(0.85) hue-rotate(180deg);
}

/* ── Task Lists ───────────────────────────────────────────────────────── */
.task-list-item {
  list-style-type: none;
  margin-left: -1.5em;
}

.task-list-item input[type="checkbox"] {
  margin-right: 0.5em;
  transform: scale(1.1);
  accent-color: var(--link);
}

/* ── Footnotes ────────────────────────────────────────────────────────── */
.footnote-definition {
  font-size: 0.9em;
  margin-bottom: 0.8em;
}

/* ── Toolbar ──────────────────────────────────────────────────────────── */
.toolbar {
  position: fixed;
  bottom: 1.5rem;
  right: 1.5rem;
  display: flex;
  gap: 6px;
  padding: 6px;
  background: var(--bg-toolbar);
  backdrop-filter: blur(12px);
  -webkit-backdrop-filter: blur(12px);
  border: 1px solid var(--border);
  border-radius: 14px;
  box-shadow: 0 4px 20px rgba(0,0,0,0.12);
  z-index: 9999;
  transition: background var(--transition-speed) ease,
              border-color var(--transition-speed) ease,
              box-shadow var(--transition-speed) ease;
}

.tb-btn {
  display: inline-flex;
  align-items: center;
  justify-content: center;
  width: 36px;
  height: 36px;
  border: none;
  border-radius: 10px;
  background: transparent;
  color: var(--text);
  font-size: 14px;
  cursor: pointer;
  transition: background 0.2s ease, color 0.2s ease, transform 0.15s ease;
  user-select: none;
  -webkit-user-select: none;
  line-height: 1;
}

.tb-btn:hover {
  background: var(--bg-inline-code);
  transform: scale(1.08);
}

.tb-btn:active {
  transform: scale(0.95);
}

/* ── Selection ────────────────────────────────────────────────────────── */
::selection {
  background: rgba(0,113,227,0.2);
  color: inherit;
}

body.dark ::selection {
  background: rgba(77,163,255,0.25);
}

/* ── Scrollbar ────────────────────────────────────────────────────────── */
::-webkit-scrollbar {
  width: 8px;
  height: 8px;
}

::-webkit-scrollbar-track {
  background: transparent;
}

::-webkit-scrollbar-thumb {
  background: var(--border);
  border-radius: 4px;
}

::-webkit-scrollbar-thumb:hover {
  background: var(--text-secondary);
}

/* ── Print ────────────────────────────────────────────────────────────── */
@media print {
  body {
    background: #fff;
    color: #000;
  }

  .toolbar {
    display: none !important;
  }

  .md-container {
    max-width: 100%;
    padding: 0;
  }

  a {
    color: #000;
    text-decoration: underline;
  }

  pre, blockquote, table, .mermaid {
    break-inside: avoid;
  }

  pre {
    border: 1px solid #ccc;
  }
}

/* ── Responsive ───────────────────────────────────────────────────────── */
@media (max-width: 640px) {
  .md-container {
    padding: 1rem 0.75rem 5rem;
  }

  h1 { font-size: 1.6em; }
  h2 { font-size: 1.3em; }
  h3 { font-size: 1.1em; }

  pre {
    border-radius: 8px;
    padding: 12px;
  }

  .toolbar {
    bottom: 0.75rem;
    right: 0.75rem;
    gap: 4px;
    padding: 4px;
  }

  .tb-btn {
    width: 32px;
    height: 32px;
    font-size: 12px;
  }
}
"##;

/// The preview script: highlighting, math, diagrams and the reader toolbar.
pub const PREVIEW_JS: &'static str = r##"
(function() {
  'use strict';

  // ── Replace FONT_SIZE_PLACEHOLDER with the actual size ──────────────
  // (The Rust code puts the real value into the CSS var already, but we
  //  keep a JS-side reference for the +/- buttons.)
  var root = document.documentElement;
  var currentFontSize = parseFloat(getComputedStyle(root).getPropertyValue('--font-size'));

  // ── highlight.js ────────────────────────────────────────────────────
  if (typeof hljs !== 'undefined') {
    hljs.highlightAll();
  }

  // ── KaTeX auto-render ──────────────────────────────────────────────
  function renderKatex() {
    if (typeof renderMathInElement !== 'undefined') {
      renderMathInElement(document.querySelector('.md-content'), {
        delimiters: [
          {left: '$$', right: '$$', display: true},
          {left: '$',  right: '$',  display: false},
          {left: '\\(', right: '\\)', display: false},
          {left: '\\[', right: '\\]', display: true}
        ],
        throwOnError: false
      });
    }
  }
  renderKatex();

  // ── Mermaid ─────────────────────────────────────────────────────────
  function initMermaid() {
    if (typeof mermaid !== 'undefined') {
      var isDark = document.body.classList.contains('dark');
      mermaid.initialize({
        startOnLoad: false,
        theme: isDark ? 'dark' : 'default',
        securityLevel: 'loose',
        fontFamily: '-apple-system, BlinkMacSystemFont, "Segoe UI", Roboto, "Helvetica Neue", Arial, sans-serif'
      });
      mermaid.run({ querySelector: '.mermaid' });
    }
  }
  initMermaid();

  // ── Theme toggle ───────────────────────────────────────────────────
  var btnTheme = document.getElementById('btn-theme');
  btnTheme.addEventListener('click', function() {
    var body = document.body;
    var isNowDark = body.classList.toggle('dark');
    body.classList.toggle('light', !isNowDark);

    // Swap hljs theme stylesheets
    var lightSheet = document.getElementById('hljs-light-theme');
    var darkSheet  = document.getElementById('hljs-dark-theme');
    if (lightSheet && darkSheet) {
      lightSheet.disabled = isNowDark;
      darkSheet.disabled  = !isNowDark;
    }

    // Re-init mermaid with correct theme
    if (typeof mermaid !== 'undefined') {
      var mermaidDivs = document.querySelectorAll('.mermaid');
      mermaidDivs.forEach(function(div) {
        // Remove the processed diagram so mermaid can re-render
        div.removeAttribute('data-processed');
        div.innerHTML = div.getAttribute('data-original') || div.textContent;
      });
      mermaid.initialize({
        startOnLoad: false,
        theme: isNowDark ? 'dark' : 'default',
        securityLevel: 'loose',
        fontFamily: '-apple-system, BlinkMacSystemFont, "Segoe UI", Roboto, "Helvetica Neue", Arial, sans-serif'
      });
      mermaid.run({ querySelector: '.mermaid' });
    }
  });

  // ── Font size +/- ──────────────────────────────────────────────────
  var btnFontUp   = document.getElementById('btn-font-up');
  var btnFontDown = document.getElementById('btn-font-down');

  btnFontUp.addEventListener('click', function() {
    currentFontSize = Math.min(currentFontSize + 2, 32);
    root.style.setProperty('--font-size', currentFontSize + 'px');
  });

  btnFontDown.addEventListener('click', function() {
    currentFontSize = Math.max(currentFontSize - 2, 10);
    root.style.setProperty('--font-size', currentFontSize + 'px');
  });

  // ── Line height toggle ─────────────────────────────────────────────
  var lineHeights = [1.5, 1.7, 2.0];
  var lhIndex = 1; // default 1.7
  var btnLH = document.getElementById('btn-line-height');

  btnLH.addEventListener('click', function() {
    lhIndex = (lhIndex + 1) % lineHeights.length;
    root.style.setProperty('--line-height', lineHeights[lhIndex]);
  });

  // ── Width toggle ───────────────────────────────────────────────────
  var widths = [680, 800, 920];
  var wIndex = 1; // default 800
  var btnWidth = document.getElementById('btn-width');

  btnWidth.addEventListener('click', function() {
    wIndex = (wIndex + 1) % widths.length;
    root.style.setProperty('--content-width', widths[wIndex] + 'px');
  });

  // ── Store original mermaid source for re-render on theme switch ────
  document.querySelectorAll('.mermaid').forEach(function(div) {
    div.setAttribute('data-original', div.textContent);
  });

})();
"##;

/// What `comrak::markdown_to_html` gives for a text with default options.
pub uninterp spec fn comrak_default_html(markdown: Seq<char>) -> Seq<char>;

/// `comrak::markdown_to_html` with `comrak::Options::default()`: CommonMark
/// rendered to HTML. The contract names the result; it does not restate it.
#[verifier::external_body]
fn render_markdown_default(markdown: &str) -> (r: String)
    ensures
        r@ == comrak_default_html(markdown@),
{
    comrak::markdown_to_html(markdown, &comrak::Options::default())
}

// ── Escaping ──────────────────────────────────────────────────────────────

/// The escaped form of one character: `&`, `<`, `>` and `"` become
/// entities, every other character stays.
pub open spec fn escape_char(c: char) -> Seq<char> {
    if c == '&' {
        seq!['&', 'a', 'm', 'p', ';']
    } else if c == '<' {
        seq!['&', 'l', 't', ';']
    } else if c == '>' {
        seq!['&', 'g', 't', ';']
    } else if c == '"' {
        seq!['&', 'q', 'u', 'o', 't', ';']
    } else {
        seq![c]
    }
}

/// Minimal HTML escaping: each character in its escaped form.
pub open spec fn html_escape_spec(s: Seq<char>) -> Seq<char>
    decreases s.len(),
{
    if s.len() == 0 {
        Seq::empty()
    } else {
        html_escape_spec(s.drop_last()) + escape_char(s.last())
    }
}

/// Minimal HTML entity decoding: `&amp;`, `&lt;`, `&gt;`, `&quot;` and
/// `&#39;` are each decoded once, from left to right; what a decoded
/// entity gives is not read again.
pub open spec fn html_unescape_spec(s: Seq<char>) -> Seq<char>
    decreases s.len(),
{
    if s.len() == 0 {
        Seq::empty()
    } else if has_prefix(s, seq!['&', 'a', 'm', 'p', ';']) {
        seq!['&'] + html_unescape_spec(s.skip(5))
    } else if has_prefix(s, seq!['&', 'l', 't', ';']) {
        seq!['<'] + html_unescape_spec(s.skip(4))
    } else if has_prefix(s, seq!['&', 'g', 't', ';']) {
        seq!['>'] + html_unescape_spec(s.skip(4))
    } else if has_prefix(s, seq!['&', 'q', 'u', 'o', 't', ';']) {
        seq!['"'] + html_unescape_spec(s.skip(6))
    } else if has_prefix(s, seq!['&', '#', '3', '9', ';']) {
        seq!['\''] + html_unescape_spec(s.skip(5))
    } else {
        seq![s[0]] + html_unescape_spec(s.drop_first())
    }
}

proof fn lemma_escape_first(s: Seq<char>)
    requires
        s.len() > 0,
    ensures
        html_escape_spec(s) == escape_char(s[0]) + html_escape_spec(s.drop_first()),
    decreases s.len(),
{
    if s.len() == 1 {
        assert(s.drop_first() =~= Seq::<char>::empty());
        assert(s.drop_last() =~= Seq::<char>::empty());
        assert(html_escape_spec(s) =~= escape_char(s[0]) + html_escape_spec(s.drop_first()));
    } else {
        lemma_escape_first(s.drop_last());
        assert(s.drop_last().drop_first() =~= s.drop_first().drop_last());
        assert(s.drop_first().last() == s.last());
        assert(html_escape_spec(s) =~= escape_char(s[0]) + html_escape_spec(s.drop_first()));
    }
}

proof fn lemma_not_prefix(s: Seq<char>, p: Seq<char>, k: int)
    requires
        0 <= k < p.len(),
        k < s.len(),
        s[k] != p[k],
    ensures
        !has_prefix(s, p),
{
    if has_prefix(s, p) {
        assert(s.take(p.len() as int)[k] == s[k]);
    }
}

/// Unescaping an escaped text gives the text back.
pub proof fn law_unescape_undoes_escape(s: Seq<char>)
    ensures
        html_unescape_spec(html_escape_spec(s)) == s,
    decreases s.len(),
{
    if s.len() > 0 {
        let t = s.drop_first();
        lemma_escape_first(s);
        law_unescape_undoes_escape(t);
        let c = s[0];
        let e = escape_char(c);
        let r = html_escape_spec(t);
        let x = e + r;
        assert(x.skip(e.len() as int) =~= r);
        assert(x.take(e.len() as int) =~= e);
        assert(s =~= seq![c] + t);
        if c == '&' {
            assert(has_prefix(x, seq!['&', 'a', 'm', 'p', ';']));
        } else if c == '<' {
            lemma_not_prefix(x, seq!['&', 'a', 'm', 'p', ';'], 1);
            assert(has_prefix(x, seq!['&', 'l', 't', ';']));
        } else if c == '>' {
            lemma_not_prefix(x, seq!['&', 'a', 'm', 'p', ';'], 1);
            lemma_not_prefix(x, seq!['&', 'l', 't', ';'], 1);
            assert(has_prefix(x, seq!['&', 'g', 't', ';']));
        } else if c == '"' {
            lemma_not_prefix(x, seq!['&', 'a', 'm', 'p', ';'], 1);
            lemma_not_prefix(x, seq!['&', 'l', 't', ';'], 1);
            lemma_not_prefix(x, seq!['&', 'g', 't', ';'], 1);
            assert(has_prefix(x, seq!['&', 'q', 'u', 'o', 't', ';']));
        } else {
            lemma_not_prefix(x, seq!['&', 'a', 'm', 'p', ';'], 0);
            lemma_not_prefix(x, seq!['&', 'l', 't', ';'], 0);
            lemma_not_prefix(x, seq!['&', 'g', 't', ';'], 0);
            lemma_not_prefix(x, seq!['&', 'q', 'u', 'o', 't', ';'], 0);
            lemma_not_prefix(x, seq!['&', '#', '3', '9', ';'], 0);
            assert(x.drop_first() =~= r);
        }
    }
}

/// Minimal HTML escaping for the title.
pub fn html_escape(s: &str) -> (r: String)
    ensures
        r@ == html_escape_spec(s@),
{
    proof {
        reveal_strlit("&amp;");
        reveal_strlit("&lt;");
        reveal_strlit("&gt;");
        reveal_strlit("&quot;");
        assert("&amp;"@ =~= seq!['&', 'a', 'm', 'p', ';']);
        assert("&lt;"@ =~= seq!['&', 'l', 't', ';']);
        assert("&gt;"@ =~= seq!['&', 'g', 't', ';']);
        assert("&quot;"@ =~= seq!['&', 'q', 'u', 'o', 't', ';']);
    }
    let cs = chars_of(s);
    let mut out = String::new();
    let mut i: usize = 0;
    while i < cs.len()
        invariant
            i <= cs@.len(),
            cs@ == s@,
            "&amp;"@ == seq!['&', 'a', 'm', 'p', ';'],
            "&lt;"@ == seq!['&', 'l', 't', ';'],
            "&gt;"@ == seq!['&', 'g', 't', ';'],
            "&quot;"@ == seq!['&', 'q', 'u', 'o', 't', ';'],
            out@ == html_escape_spec(cs@.take(i as int)),
        decreases cs@.len() - i,
    {
        assert(cs@.take(i + 1).drop_last() =~= cs@.take(i as int));
        assert(cs@.take(i + 1).last() == cs@[i as int]);
        let c = cs[i];
        if c == '&' {
            out.append("&amp;");
        } else if c == '<' {
            out.append("&lt;");
        } else if c == '>' {
            out.append("&gt;");
        } else if c == '"' {
            out.append("&quot;");
        } else {
            push_char(&mut out, c);
        }
        i = i + 1;
    }
    assert(cs@.take(cs@.len() as int) =~= cs@);
    out
}

/// Minimal HTML entity decoding for the entities a Markdown renderer emits
/// inside code blocks.
pub fn html_unescape(s: &str) -> (r: String)
    ensures
        r@ == html_unescape_spec(s@),
{
    let v = chars_of(s);
    let w = unescape_chars(v.as_slice());
    string_from_chars(w.as_slice())
}

fn unescape_chars(s: &[char]) -> (r: Vec<char>)
    ensures
        r@ == html_unescape_spec(s@),
{
    proof {
        reveal_strlit("&amp;");
        reveal_strlit("&lt;");
        reveal_strlit("&gt;");
        reveal_strlit("&quot;");
        reveal_strlit("&#39;");
        assert("&amp;"@ =~= seq!['&', 'a', 'm', 'p', ';']);
        assert("&lt;"@ =~= seq!['&', 'l', 't', ';']);
        assert("&gt;"@ =~= seq!['&', 'g', 't', ';']);
        assert("&quot;"@ =~= seq!['&', 'q', 'u', 'o', 't', ';']);
        assert("&#39;"@ =~= seq!['&', '#', '3', '9', ';']);
    }
    let amp = chars_of("&amp;");
    let lt = chars_of("&lt;");
    let gt = chars_of("&gt;");
    let quot = chars_of("&quot;");
    let apos = chars_of("&#39;");
    let mut out: Vec<char> = Vec::new();
    let mut i: usize = 0;
    assert(s@.skip(0) =~= s@);
    while i < s.len()
        invariant
            i <= s@.len(),
            amp@ == seq!['&', 'a', 'm', 'p', ';'],
            lt@ == seq!['&', 'l', 't', ';'],
            gt@ == seq!['&', 'g', 't', ';'],
            quot@ == seq!['&', 'q', 'u', 'o', 't', ';'],
            apos@ == seq!['&', '#', '3', '9', ';'],
            out@ + html_unescape_spec(s@.skip(i as int)) == html_unescape_spec(s@),
        decreases s@.len() - i,
    {
        let ghost rest = s@.skip(i as int);
        let ghost before = out@;
        if starts_with_at(s, i, amp.as_slice()) {
            out.push('&');
            assert(rest.skip(5) =~= s@.skip(i + 5));
            i = i + 5;
        } else if starts_with_at(s, i, lt.as_slice()) {
            out.push('<');
            assert(rest.skip(4) =~= s@.skip(i + 4));
            i = i + 4;
        } else if starts_with_at(s, i, gt.as_slice()) {
            out.push('>');
            assert(rest.skip(4) =~= s@.skip(i + 4));
            i = i + 4;
        } else if starts_with_at(s, i, quot.as_slice()) {
            out.push('"');
            assert(rest.skip(6) =~= s@.skip(i + 6));
            i = i + 6;
        } else if starts_with_at(s, i, apos.as_slice()) {
            out.push('\'');
            assert(rest.skip(5) =~= s@.skip(i + 5));
            i = i + 5;
        } else {
            out.push(s[i]);
            assert(rest.drop_first() =~= s@.skip(i + 1));
            i = i + 1;
        }
        assert(out@ + html_unescape_spec(s@.skip(i as int)) =~= before + html_unescape_spec(rest));
    }
    assert(s@.skip(i as int) =~= Seq::<char>::empty());
    assert(out@ + Seq::<char>::empty() =~= out@);
    out
}

// ── Diagram blocks ────────────────────────────────────────────────────────

/// Opening of a code block tagged as a diagram, as the Markdown renderer writes it.
pub const MERMAID_OPEN: &'static str = "<pre><code class=\"language-mermaid\">";

/// Closing of a code block.
pub const MERMAID_CLOSE: &'static str = "</code></pre>";

/// Whether the bytes `b` begin with `p`.
pub open spec fn bytes_prefix(b: Seq<u8>, p: Seq<u8>) -> bool {
    p.len() <= b.len() && b.take(p.len() as int) == p
}

/// The opening of a diagram code block, as characters.
pub open spec fn mermaid_open() -> Seq<char> {
    MERMAID_OPEN@
}

/// The closing of a code block, as characters.
pub open spec fn mermaid_close() -> Seq<char> {
    MERMAID_CLOSE@
}

/// The text before the first block closing in `s`, and the text after that
/// closing (empty when there is none).
pub open spec fn scan_to_close(s: Seq<char>) -> (Seq<char>, Seq<char>)
    decreases s.len(),
{
    if s.len() == 0 {
        (Seq::empty(), Seq::empty())
    } else if has_prefix(s, mermaid_close()) {
        (Seq::empty(), s.skip(mermaid_close().len() as int))
    } else {
        let r = scan_to_close(s.drop_first());
        (seq![s[0]] + r.0, r.1)
    }
}

pub proof fn lemma_scan_len(s: Seq<char>)
    ensures
        scan_to_close(s).1.len() <= s.len(),
    decreases s.len(),
{
    if s.len() > 0 && !has_prefix(s, mermaid_close()) {
        lemma_scan_len(s.drop_first());
    }
}

/// The HTML with every diagram code block turned into a diagram element
/// whose text is the block's content, entity-decoded and trimmed. Text
/// outside such blocks is copied unchanged.
pub open spec fn mermaid_blocks(s: Seq<char>) -> Seq<char>
    decreases s.len(),
{
    let open = mermaid_open();
    if s.len() == 0 {
        Seq::empty()
    } else if open.len() > 0 && has_prefix(s, open) {
        let rest = s.skip(open.len() as int);
        let sc = scan_to_close(rest);
        proof {
            lemma_scan_len(rest);
        }
        "<div class=\"mermaid\">"@ + trim(html_unescape_spec(sc.0)) + "</div>"@ + mermaid_blocks(sc.1)
    } else {
        seq![s[0]] + mermaid_blocks(s.drop_first())
    }
}

proof fn lemma_no_open_copies(s: Seq<char>)
    requires
        forall|i: int| 0 <= i < s.len() ==> !has_prefix(#[trigger] s.skip(i), mermaid_open()),
    ensures
        mermaid_blocks(s) == s,
    decreases s.len(),
{
    if s.len() > 0 {
        let t = s.drop_first();
        assert(s.skip(0) =~= s);
        assert forall|i: int| 0 <= i < t.len() implies !has_prefix(#[trigger] t.skip(i), mermaid_open()) by {
            assert(t.skip(i) =~= s.skip(i + 1));
        }
        lemma_no_open_copies(t);
        assert(s =~= seq![s[0]] + t);
    }
}

/// HTML in which no diagram code block opens comes back unchanged from
/// `convert_mermaid_blocks`.
pub proof fn law_html_without_diagrams_unchanged(html: Seq<char>)
    requires
        forall|i: int| 0 <= i < html.len() ==> !has_prefix(#[trigger] html.skip(i), mermaid_open()),
    ensures
        mermaid_blocks(html) == html,
{
    lemma_no_open_copies(html);
}

/// Whether `bytes[pos..]` begins with `prefix`.
pub fn starts_with(bytes: &[u8], pos: usize, prefix: &[u8]) -> (r: bool)
    ensures
        r == (pos <= bytes@.len() && bytes_prefix(bytes@.skip(pos as int), prefix@)),
{
    if pos > bytes.len() || prefix.len() > bytes.len() - pos {
        return false;
    }
    let mut k: usize = 0;
    while k < prefix.len()
        invariant
            k <= prefix@.len(),
            pos + prefix@.len() <= bytes@.len(),
            bytes@.len() == bytes.len(),
            forall|j: int| 0 <= j < k ==> bytes@[pos + j] == prefix@[j],
        decreases prefix@.len() - k,
    {
        if bytes[pos + k] != prefix[k] {
            assert(bytes@.skip(pos as int).take(prefix@.len() as int)[k as int] != prefix@[k as int]);
            return false;
        }
        k = k + 1;
    }
    assert(bytes@.skip(pos as int).take(prefix@.len() as int) =~= prefix@);
    true
}

/// Convert diagram code blocks produced by the Markdown renderer into
/// diagram elements that the page script renders.
pub fn convert_mermaid_blocks(html: &str) -> (r: String)
    ensures
        r@ == mermaid_blocks(html@),
{
    let cs = chars_of(html);
    let open = chars_of(MERMAID_OPEN);
    let close = chars_of(MERMAID_CLOSE);
    let mut result = String::new();
    let mut i: usize = 0;
    assert(cs@.skip(0) =~= cs@);
    while i < cs.len()
        invariant
            i <= cs@.len(),
            cs@ == html@,
            open@ == mermaid_open(),
            close@ == mermaid_close(),
            result@ + mermaid_blocks(cs@.skip(i as int)) == mermaid_blocks(cs@),
        decreases cs@.len() - i,
    {
        let ghost rest_i = cs@.skip(i as int);
        if open.len() > 0 && starts_with_at(cs.as_slice(), i, open.as_slice()) {
            let ghost before = result@;
            i = i + open.len();
            assert(rest_i.skip(open@.len() as int) =~= cs@.skip(i as int));
            let ghost start = i;
            let mut content: Vec<char> = Vec::new();
            assert(cs@.subrange(start as int, i as int) =~= Seq::<char>::empty());
            while i < cs.len() && !starts_with_at(cs.as_slice(), i, close.as_slice())
                invariant
                    start <= i <= cs@.len(),
                    close@ == mermaid_close(),
                    scan_to_close(cs@.skip(start as int)) == (
                        cs@.subrange(start as int, i as int) + scan_to_close(cs@.skip(i as int)).0,
                        scan_to_close(cs@.skip(i as int)).1,
                    ),
                    content@ == cs@.subrange(start as int, i as int),
                decreases cs@.len() - i,
            {
                let ghost sub = cs@.subrange(start as int, i as int);
                content.push(cs[i]);
                assert(cs@.skip(i as int).drop_first() =~= cs@.skip(i + 1));
                assert(cs@.subrange(start as int, i + 1) =~= sub.push(cs@[i as int]));
                assert(sub + (seq![cs@[i as int]] + scan_to_close(cs@.skip(i + 1)).0)
                    =~= sub.push(cs@[i as int]) + scan_to_close(cs@.skip(i + 1)).0);
                i = i + 1;
            }
            let ghost sc = scan_to_close(cs@.skip(start as int));
            if starts_with_at(cs.as_slice(), i, close.as_slice()) {
                assert(cs@.skip(i as int).skip(close@.len() as int) =~= cs@.skip(i + close@.len()));
                i = i + close.len();
            } else {
                assert(cs@.skip(i as int) =~= Seq::<char>::empty());
                assert(sc.0 =~= cs@.subrange(start as int, i as int));
            }
            let decoded = unescape_chars(content.as_slice());
            let trimmed = trim_chars(decoded.as_slice());
            result.append("<div class=\"mermaid\">");
            push_chars(&mut result, trimmed.as_slice());
            result.append("</div>");
            assert(has_prefix(rest_i, mermaid_open()));
            assert(sc.1 == cs@.skip(i as int));
            assert(trimmed@ == trim(html_unescape_spec(sc.0)));
            assert(mermaid_blocks(rest_i) == "<div class=\"mermaid\">"@ + trim(html_unescape_spec(sc.0)) + "</div>"@
                + mermaid_blocks(sc.1));
            assert(result@ + mermaid_blocks(cs@.skip(i as int)) =~= before + mermaid_blocks(rest_i));
        } else {
            push_char(&mut result, cs[i]);
            assert(rest_i.drop_first() =~= cs@.skip(i + 1));
            i = i + 1;
        }
    }
    assert(cs@.skip(i as int) =~= Seq::<char>::empty());
    result
}

// ── Preview page ──────────────────────────────────────────────────────────

/// The preview page for a Markdown text, with the given title, theme and
/// base font size.
pub open spec fn preview_html(markdown: Seq<char>, title: Seq<char>, dark_theme: bool, font_size: u16) -> Seq<char> {
    PREVIEW_PART_1@ + html_escape_spec(title) + PREVIEW_PART_2@
        + replace_all(PREVIEW_CSS@, "FONT_SIZE_PLACEHOLDER"@, decimal(font_size as nat))
        + PREVIEW_PART_3@ + (if dark_theme { "dark"@ } else { "light"@ }) + PREVIEW_PART_4@
        + mermaid_blocks(comrak_default_html(markdown)) + PREVIEW_PART_5@ + PREVIEW_JS@
        + PREVIEW_PART_6@
}

/// Generate a complete HTML5 preview document from Markdown source.
pub fn generate_preview_html(markdown: &str, title: &str, dark_theme: bool, font_size: u16) -> (r: String)
    ensures
        r@ == preview_html(markdown@, title@, dark_theme, font_size),
{
    let body_class = if dark_theme { "dark" } else { "light" };
    let rendered_html = render_markdown_default(markdown);
    let processed_html = convert_mermaid_blocks(rendered_html.as_str());
    let escaped_title = html_escape(title);
    let mut size = String::new();
    push_decimal(&mut size, font_size as u128);
    proof {
        reveal_strlit("FONT_SIZE_PLACEHOLDER");
    }
    let css_with_font = replace_str(PREVIEW_CSS, "FONT_SIZE_PLACEHOLDER", size.as_str());
    let mut out = String::from_str(PREVIEW_PART_1);
    out.append(escaped_title.as_str());
    out.append(PREVIEW_PART_2);
    out.append(css_with_font.as_str());
    out.append(PREVIEW_PART_3);
    out.append(body_class);
    out.append(PREVIEW_PART_4);
    out.append(processed_html.as_str());
    out.append(PREVIEW_PART_5);
    out.append(PREVIEW_JS);
    out.append(PREVIEW_PART_6);
    out
}

/// The name of the temporary file a preview is written to: the title with
/// every character that is not alphanumeric, `-` or `_` replaced by `_`,
/// followed by `_preview.html`.
pub open spec fn preview_file_name_spec(title: Seq<char>) -> Seq<char> {
    title.map_values(|c: char| if is_alphanumeric_char(c) || c == '-' || c == '_' { c } else { '_' })
        + "_preview.html"@
}

/// The file name under which the preview of a document with this title is saved.
pub fn preview_file_name(title: &str) -> (r: String)
    ensures
        r@ == preview_file_name_spec(title@),
{
    let cs = chars_of(title);
    let mut out = String::new();
    let mut i: usize = 0;
    while i < cs.len()
        invariant
            i <= cs@.len(),
            cs@ == title@,
            out@ == cs@.take(i as int).map_values(
                |c: char| if is_alphanumeric_char(c) || c == '-' || c == '_' { c } else { '_' },
            ),
        decreases cs@.len() - i,
    {
        let c = cs[i];
        let keep = char_is_alphanumeric(c) || c == '-' || c == '_';
        push_char(&mut out, if keep { c } else { '_' });
        assert(cs@.take(i + 1) =~= cs@.take(i as int).push(c));
        assert(cs@.take(i + 1).map_values(
            |c: char| if is_alphanumeric_char(c) || c == '-' || c == '_' { c } else { '_' },
        ) =~= cs@.take(i as int).map_values(
            |c: char| if is_alphanumeric_char(c) || c == '-' || c == '_' { c } else { '_' },
        ).push(if keep { c } else { '_' }));
        i = i + 1;
    }
    assert(cs@.take(cs@.len() as int) =~= cs@);
    out.append("_preview.html");
    out
}

} // verus!
