use mdrust::cpu::{CpuFeatures, SimdLevel};
use mdrust::preview::{convert_mermaid_blocks, generate_preview_html, html_escape};
use mdrust::utils::{count_words, count_words_accurate};

fn no_features() -> CpuFeatures {
    CpuFeatures {
        sse41: false,
        sse42: false,
        avx: false,
        avx2: false,
        avx512f: false,
        avx512bw: false,
        avx512vl: false,
        neon: false,
    }
}

#[test]
fn test_summary_not_empty() {
    let f = no_features();
    let summary = f.summary();
    assert!(!summary.is_empty());
    let g = CpuFeatures { avx2: true, sse42: true, sse41: true, ..no_features() };
    assert!(!g.summary().is_empty());
}

#[test]
fn test_simd_level_ordering() {
    assert!(SimdLevel::Avx512 > SimdLevel::Avx2);
    assert!(SimdLevel::Avx2 > SimdLevel::Avx);
    assert!(SimdLevel::Avx > SimdLevel::Sse42);
    assert!(SimdLevel::Sse42 > SimdLevel::Sse41);
    assert!(SimdLevel::Sse41 > SimdLevel::Scalar);
}

#[test]
fn test_generate_preview_light() {
    let html = generate_preview_html("# Hello", "Test", false, 16);
    assert!(html.contains(r#"class="light""#));
    assert!(html.contains("<title>Test</title>"));
    assert!(html.contains("hljs.highlightAll"));
    assert!(html.contains("katex"));
    assert!(html.contains("mermaid"));
}

#[test]
fn test_generate_preview_dark() {
    let html = generate_preview_html("# Hello", "Test", true, 18);
    assert!(html.contains(r#"class="dark""#));
    assert!(html.contains("--font-size: 18px"));
}

#[test]
fn test_html_escape() {
    assert_eq!(html_escape("A&B<C>D"), "A&amp;B&lt;C&gt;D");
}

#[test]
fn test_mermaid_conversion() {
    let input = r#"<pre><code class="language-mermaid">graph TD; A--&gt;B</code></pre>"#;
    let result = convert_mermaid_blocks(input);
    assert!(result.contains(r#"<div class="mermaid">"#));
    assert!(result.contains("graph TD; A-->B"));
    assert!(!result.contains("<pre>"));
}

#[test]
fn test_mermaid_no_match() {
    let input = r#"<pre><code class="language-rust">fn main() {}</code></pre>"#;
    let result = convert_mermaid_blocks(input);
    assert_eq!(result, input);
}

#[test]
fn test_count_words_empty() {
    assert_eq!(count_words(""), 0);
}

#[test]
fn test_count_words_single() {
    assert_eq!(count_words("hello"), 1);
}

#[test]
fn test_count_words_two() {
    assert_eq!(count_words("hello world"), 2);
}

#[test]
fn test_count_words_extra_spaces() {
    assert_eq!(count_words("  hello   world  "), 2);
}

#[test]
fn test_count_words_newlines() {
    assert_eq!(count_words("hello\nworld\nfoo"), 3);
}

#[test]
fn test_count_words_tabs() {
    assert_eq!(count_words("hello\tworld"), 2);
}

#[test]
fn test_count_words_mixed_whitespace() {
    assert_eq!(count_words("  hello  \n  world  \t  foo  "), 3);
}

#[test]
fn test_count_words_long_text() {
    let text = "word ".repeat(200);
    assert_eq!(count_words(&text), 200);
}

#[test]
fn test_count_words_matches_accurate() {
    let texts: Vec<String> = vec![
        "".to_string(),
        "hello".to_string(),
        "hello world".to_string(),
        "  hello   world  ".to_string(),
        "one\ntwo\nthree".to_string(),
        "word ".repeat(100),
        "# Heading\n\nParagraph with **bold** text.\n\n- item 1\n- item 2".to_string(),
    ];
    for text in &texts {
        let fast = count_words(text);
        let accurate = count_words_accurate(text);
        assert_eq!(fast, accurate, "Mismatch for: {:?}", &text[..text.len().min(50)]);
    }
}
