use mdrust::batch::{batch_output_format, combined_file_name, combined_markdown, combined_output, output_file_name, parallel_jobs, source_name};
use mdrust::converters::pdf::text_to_markdown_with_meta;
use mdrust::cpu::{CpuFeatures, SimdLevel, TargetArch};
use mdrust::export::md_to_docx::{build_document, markdown_to_docx, markdown_to_paragraphs, RunPiece};
use mdrust::export::md_to_html::markdown_to_html;
use mdrust::i18n::{I18n, Language};
use mdrust::ocr::{postprocess_to_markdown, tesseract_lang_arg, OcrEngineStatus, OcrLanguage};
use mdrust::preview::{convert_mermaid_blocks, html_escape, html_unescape, preview_file_name};
use mdrust::utils::{count_words, count_words_accurate, OutputFormat};

fn flags() -> CpuFeatures {
    CpuFeatures {
        sse41: true,
        sse42: true,
        avx: true,
        avx2: true,
        avx512f: false,
        avx512bw: false,
        avx512vl: false,
        neon: false,
    }
}

#[test]
fn cpu_levels_and_reports() {
    let f = flags();
    assert_eq!(f.simd_level(), SimdLevel::Avx2);
    assert_eq!(f.simd_label(), "AVX2");
    assert_eq!(f.summary(), "AVX2 | AVX | SSE4.2 | SSE4.1");
    let report = f.detailed_report(TargetArch::X86_64);
    assert!(report.starts_with("SIMD Level: AVX2\n\nx86_64 Features:\n  SSE4.1:     Yes\n"));
    assert!(report.contains("  AVX-512 F:  No\n"));
    assert!(report.ends_with("  Word counting (bytecount) \u{2014} 256-bit SIMD"));
    let arm = CpuFeatures { neon: true, ..CpuFeatures { sse41: false, sse42: false, avx: false, avx2: false, ..f } };
    assert_eq!(arm.simd_label(), "NEON");
    assert_eq!(arm.detailed_report(TargetArch::Aarch64).lines().nth(2), Some("AArch64 Features:"));
    let none = CpuFeatures { neon: false, ..arm };
    assert_eq!(none.summary(), "No SIMD");
    assert_eq!(none.simd_level().label(), "Scalar");
    assert_eq!(
        none.detailed_report(TargetArch::Other),
        "SIMD Level: Scalar\n\n\nSIMD-accelerated operations:\n  No SIMD acceleration available \u{2014} using scalar fallback"
    );
}

#[test]
fn translations() {
    let mut t = I18n::default();
    assert_eq!(t.language(), Language::En);
    assert_eq!(t.t("actions"), "Actions");
    assert_eq!(t.t("no_such_key"), "no_such_key");
    assert_eq!(t.lang_label(), "EN");
    t.set_language(Language::Ru);
    assert_eq!(t.lang_label(), "RU");
    assert_eq!(t.t("clear"), "\u{041e}\u{0447}\u{0438}\u{0441}\u{0442}\u{0438}\u{0442}\u{044c}");
    assert_eq!(I18n::new(Language::Zh).convert(), "\u{8f6c}\u{6362}");
    assert_eq!(I18n::new(Language::Zh).app_title(), "MDrust");
    assert_eq!(Language::Zh.display_name(), "\u{4e2d}\u{6587}");
    assert!(I18n::new(Language::Ru) == I18n::new(Language::Ru));
}

#[test]
fn batch_names_and_combined_output() {
    let sources = vec![
        ("dir/a.pdf".to_string(), "A".to_string()),
        ("b.txt".to_string(), "B".to_string()),
    ];
    assert_eq!(combined_markdown(&sources, false), "# Source: a.pdf\n\nA\n\n---\n\n# Source: b.txt\n\nB");
    assert_eq!(combined_markdown(&sources, true), "## Source: a.pdf\n\nA\n\n---\n\n## Source: b.txt\n\nB");
    assert_eq!(combined_markdown(&vec![], false), "");
    assert_eq!(source_name("x/y/z.docx"), "z.docx");
    assert_eq!(source_name(""), "unknown");
    assert_eq!(output_file_name("dir/report.pdf", "md"), "report.md");
    assert_eq!(output_file_name("", "html"), "output.html");
    assert_eq!(combined_file_name("docx"), "combined_output.docx");
    assert_eq!(parallel_jobs(0), 1);
    assert_eq!(parallel_jobs(8), 8);
}

#[test]
fn html_export() {
    let body = markdown_to_html("# Hi", &OutputFormat::Html { standalone: false, include_css: false });
    assert_eq!(body, "<h1>Hi</h1>\n");
    let bare = markdown_to_html("# Hi", &OutputFormat::Html { standalone: true, include_css: false });
    assert!(bare.starts_with("<!DOCTYPE html>\n<html lang=\"en\">"));
    assert!(bare.contains("<style>\n\n</style>"));
    assert!(bare.contains("<article>\n<h1>Hi</h1>\n\n</article>"));
    assert!(bare.ends_with("</html>"));
    let styled = markdown_to_html("~~x~~", &OutputFormat::Docx);
    assert!(styled.contains(":root {"));
    assert!(styled.contains("<del>x</del>"));
}

#[test]
fn docx_export_paragraphs() {
    let paras = markdown_to_paragraphs("# Head\n\nSome **bold** text\n\n- a\n- b\n\n---\n", Some("T"));
    assert_eq!(paras.len(), 6);
    assert_eq!(paras[0].runs[0].size, Some(56));
    assert!(paras[0].runs[0].bold);
    assert_eq!(paras[1].runs[0].size, Some(48));
    assert_eq!(paras[1].spacing_after, Some(160));
    assert_eq!(paras[2].runs.len(), 3);
    assert!(paras[2].runs[1].bold);
    assert!(!paras[2].runs[2].bold);
    assert_eq!(paras[2].spacing_after, Some(80));
    assert_eq!(paras[3].indent_left, Some(360));
    assert_eq!(paras[4].indent_left, Some(360));
    match &paras[5].runs[0].piece {
        RunPiece::Text(t) => assert_eq!(t, &"\u{2500}".repeat(40)),
        RunPiece::Break => panic!("rule is text"),
    }
    let code = markdown_to_paragraphs("```\nlet x = 1;\n```\n", None);
    assert_eq!(code.len(), 1);
    assert!(code[0].runs[0].mono);
    assert_eq!(code[0].indent_left, Some(360));
    let table = markdown_to_paragraphs("| a | b |\n|---|---|\n| 1 | 2 |\n", None);
    match &table[0].runs[0].piece {
        RunPiece::Text(t) => assert_eq!(t, "a\tb"),
        RunPiece::Break => panic!("header is text"),
    }
    match &table[0].runs[2].piece {
        RunPiece::Text(t) => assert_eq!(t, "1\t2"),
        RunPiece::Break => panic!("body is text"),
    }
    let bytes = markdown_to_docx("# Title\n\nBody", Some("Doc")).unwrap();
    assert_eq!(&bytes[0..4], b"PK\x03\x04");
    assert_eq!(&bytes[30..35], b"word/");
}

#[test]
fn pdf_text_headings() {
    let (md, title, words) = text_to_markdown_with_meta("Title Here\nbody text.\n\nAnother");
    assert_eq!(md, "## Title Here\nbody text.\n\n## Another\n");
    assert_eq!(title, Some("Title Here".to_string()));
    assert_eq!(words, 5);
}

#[test]
fn ocr_helpers() {
    assert_eq!(postprocess_to_markdown("a\r\n\r\n\r\n\r\nb\r"), "a\n\nb");
    assert_eq!(tesseract_lang_arg(&[OcrLanguage::Eng, OcrLanguage::ChiSim]), "eng+chi_sim");
    assert_eq!(OcrLanguage::Rus.display_name(), "Russian");
    assert_eq!(OcrEngineStatus::from_availability(true, false).status_label(), "OCR: ocrs (English)");
}

#[test]
fn escaping_round_trip() {
    let s = "a<b>&\"c\" 'd'";
    assert_eq!(html_unescape(&html_escape(s)), s);
}

fn paragraph_texts(doc: &docx_rs::Docx) -> Vec<String> {
    let mut out = Vec::new();
    for child in &doc.document.children {
        if let docx_rs::DocumentChild::Paragraph(p) = child {
            let mut text = String::new();
            for pc in &p.children {
                if let docx_rs::ParagraphChild::Run(r) = pc {
                    for rc in &r.children {
                        if let docx_rs::RunChild::Text(t) = rc {
                            text.push_str(&t.text);
                        }
                    }
                }
            }
            out.push(text);
        }
    }
    out
}

#[test]
fn docx_document_holds_model_paragraphs() {
    let md = "# Head\n\nSome **bold** text\n\n- a\n- b\n";
    let doc = build_document(md, Some("T"));
    let model = markdown_to_paragraphs(md, Some("T"));
    let texts = paragraph_texts(&doc);
    assert_eq!(texts.len(), model.len());
    assert_eq!(texts[0], "T");
    assert_eq!(texts[1], "Head");
    assert_eq!(texts[2], "Some bold text");
}

#[test]
fn docx_bytes_read_back() {
    let bytes = markdown_to_docx("# Title\n\nBody text", Some("Doc")).unwrap();
    let doc = docx_rs::read_docx(&bytes).unwrap();
    let texts: Vec<String> = paragraph_texts(&doc).into_iter().filter(|t| !t.is_empty()).collect();
    assert_eq!(texts, vec!["Doc".to_string(), "Title".to_string(), "Body text".to_string()]);
}

fn result_in(md: &str, format: OutputFormat) -> mdrust::converters::ConversionResult {
    let mut r = mdrust::converters::ConversionResult::from_markdown_no_recount(
        md.to_string(),
        mdrust::converters::DocumentMetadata::default(),
    );
    r.output_format = format;
    r
}

#[test]
fn combined_output_per_format() {
    let md = OutputFormat::Markdown { split_pages: false, optimize_for_llm: true };
    let results = vec![("d/a.pdf".to_string(), result_in("A", md)), ("b.txt".to_string(), result_in("B", md))];
    match combined_output(&results).unwrap() {
        (name, mdrust::converters::SavedContent::Text(t)) => {
            assert_eq!(name, "combined_output.md");
            assert_eq!(t, "# Source: a.pdf\n\nA\n\n---\n\n# Source: b.txt\n\nB");
        }
        _ => panic!("text expected"),
    }
    let html = OutputFormat::Html { standalone: false, include_css: false };
    let results = vec![("a.pdf".to_string(), result_in("A", html))];
    match combined_output(&results).unwrap() {
        (name, mdrust::converters::SavedContent::Text(t)) => {
            assert_eq!(name, "combined_output.html");
            assert!(t.contains("<h2>Source: a.pdf</h2>"));
        }
        _ => panic!("text expected"),
    }
    let results = vec![("a.pdf".to_string(), result_in("A", OutputFormat::Docx))];
    match combined_output(&results).unwrap() {
        (name, mdrust::converters::SavedContent::Bytes(b)) => {
            assert_eq!(name, "combined_output.docx");
            assert_eq!(&b[0..2], b"PK");
        }
        _ => panic!("bytes expected"),
    }
    assert_eq!(batch_output_format(&vec![]), OutputFormat::default());
}

#[test]
fn preview_file_names() {
    assert_eq!(preview_file_name("My Doc: v1"), "My_Doc__v1_preview.html");
    assert_eq!(preview_file_name("r\u{e9}sum\u{e9}-2_x"), "r\u{e9}sum\u{e9}-2_x_preview.html");
}

#[test]
fn unescape_decodes_each_entity_once() {
    assert_eq!(html_unescape("&amp;lt;"), "&lt;");
    assert_eq!(html_unescape("a &lt;b&gt; &quot;c&quot; &#39;d&#39; &amp;"), "a <b> \"c\" 'd' &");
    for s in ["A&B<C>D", "&lt;", "&amp;amp;", "plain", "x\"y'z", "\u{e9}&\u{4e2d}"] {
        assert_eq!(html_unescape(&html_escape(s)), s);
    }
}

#[test]
fn mermaid_keeps_other_text_unchanged() {
    let html = "<p>caf\u{e9} \u{4e2d}\u{6587}</p><pre><code class=\"language-rust\">x</code></pre>";
    assert_eq!(convert_mermaid_blocks(html), html);
    let with = "<p>\u{e9}</p><pre><code class=\"language-mermaid\">A --&gt; \u{e9}\n</code></pre>";
    assert_eq!(convert_mermaid_blocks(with), "<p>\u{e9}</p><div class=\"mermaid\">A --> \u{e9}</div>");
}

#[test]
fn long_text_words_split_on_unicode_whitespace() {
    let text = "a\u{3000}".repeat(100);
    assert_eq!(count_words(&text), 100);
    assert_eq!(count_words(&text), count_words_accurate(&text));
    let ascii = "word ".repeat(100);
    assert_eq!(count_words(&ascii), 100);
}

#[test]
fn chinese_about_label_and_language_state() {
    assert_eq!(I18n::new(Language::Zh).about(), "\u{5173}\u{4e8e}");
    assert!(I18n::new(Language::Zh).about().chars().all(|c| !('\u{400}'..='\u{4ff}').contains(&c)));
    let mut i = I18n::new(Language::Ru);
    i.set_language(Language::Zh);
    assert!(i == I18n::new(Language::Zh));
    assert!(I18n::new(Language::En) != I18n::new(Language::Ru));
    i.set_language(Language::En);
    i.set_language(Language::Ru);
    assert!(i.language() == Language::Ru);
    assert!(i == I18n::new(Language::Ru));
}
