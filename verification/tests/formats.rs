use mdrust::utils::{detect_format, format_size, is_supported, InputFormat, OutputFormat};
use mdrust::options::{parse_ocr_langs, parse_output_format};
use mdrust::ocr::OcrLanguage;
use mdrust::converters::csv::CsvConverter;
use mdrust::converters::{get_converter, Converter, DocumentConverter};

#[test]
fn format_size_matches_float_formatting() {
    let samples: Vec<u64> = vec![
        0, 1, 512, 1023, 1024, 1025, 1152, 1536, 2047, 2048, 10_000, 1_048_575, 1_048_576, 1_572_864,
        1_153_434, 5_000_000, 1_073_741_823, 1_073_741_824, 1_610_612_736, 123_456_789_012,
        u64::MAX,
    ];
    for b in samples {
        let expected = if b >= 1_073_741_824 {
            format!("{:.2} GB", b as f64 / 1_073_741_824.0)
        } else if b >= 1_048_576 {
            format!("{:.2} MB", b as f64 / 1_048_576.0)
        } else if b >= 1024 {
            format!("{:.2} KB", b as f64 / 1024.0)
        } else {
            format!("{} B", b)
        };
        assert_eq!(format_size(b), expected, "bytes = {}", b);
    }
}

#[test]
fn format_size_plain_bytes() {
    assert_eq!(format_size(0), "0 B");
    assert_eq!(format_size(1023), "1023 B");
    assert_eq!(format_size(1024), "1.00 KB");
}

#[test]
fn detect_format_ignores_case() {
    assert_eq!(detect_format("report.PDF"), InputFormat::Pdf);
    assert_eq!(detect_format("a/b/c.Docx"), InputFormat::Docx);
    assert_eq!(detect_format("notes.md"), InputFormat::Markdown);
    assert_eq!(detect_format("data.tsv"), InputFormat::Tsv);
    assert_eq!(detect_format("photo.jpeg"), InputFormat::Image);
    assert_eq!(detect_format("archive"), InputFormat::Unknown);
    assert!(is_supported("x.zip"));
    assert!(!is_supported("x.exe"));
}

#[test]
fn converter_exists_exactly_for_supported_files() {
    for p in ["a.pdf", "a.odt", "a.rtf", "a.tsv", "a.png", "a.unknown", "noext"] {
        assert_eq!(get_converter(p).is_some(), is_supported(p), "path {}", p);
    }
    match get_converter("a.rtf") {
        Some(Converter::Txt(_)) => {}
        _ => panic!("rtf goes to the text converter"),
    }
}

#[test]
fn output_format_names() {
    assert_eq!(parse_output_format("HTML"), OutputFormat::Html { standalone: true, include_css: true });
    assert_eq!(parse_output_format("htm"), OutputFormat::Html { standalone: true, include_css: true });
    assert_eq!(parse_output_format("Word"), OutputFormat::Docx);
    assert_eq!(parse_output_format("doc"), OutputFormat::Docx);
    assert_eq!(parse_output_format("json"), OutputFormat::Json { structured: true, include_metadata: true });
    assert_eq!(parse_output_format("md"), OutputFormat::Markdown { split_pages: false, optimize_for_llm: true });
    assert_eq!(parse_output_format("whatever"), OutputFormat::default());
    assert_eq!(OutputFormat::Docx.extension(), "docx");
    assert_eq!(OutputFormat::Html { standalone: false, include_css: false }.label(), "HTML (.html)");
}

#[test]
fn ocr_language_codes() {
    let codes = vec!["rus".to_string(), "xx".to_string(), "chi".to_string()];
    assert_eq!(parse_ocr_langs(&codes), vec![OcrLanguage::Rus, OcrLanguage::ChiSim]);
    let none = vec!["de".to_string()];
    assert_eq!(parse_ocr_langs(&none), vec![OcrLanguage::Eng]);
    assert_eq!(parse_ocr_langs(&[]), vec![OcrLanguage::Eng]);
}

#[test]
fn input_format_names() {
    assert_eq!(InputFormat::Pdf.name(), "PDF");
    assert_eq!(detect_format("x.xlsx").name(), "XLSX");
}

#[test]
fn converters_accept_their_own_files() {
    let c = CsvConverter::new();
    assert_eq!(c.format(), InputFormat::Csv);
    assert!(c.can_convert("data/table.csv"));
    assert!(!c.can_convert("data/table.tsv"));
    let g = mdrust::converters::get_converter("deck.PPTX").unwrap();
    assert_eq!(g.format(), InputFormat::Pptx);
    assert!(g.can_convert("other.pptx"));
    let t = mdrust::converters::get_converter("notes.md").unwrap();
    assert!(!t.can_convert("notes.md"));
}
