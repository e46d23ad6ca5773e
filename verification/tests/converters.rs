use std::io::Write;

use lopdf::content::{Content, Operation};
use lopdf::{Dictionary, Document, Object, Stream};

use mdrust::converters::csv::extract_csv_to_markdown;
use mdrust::converters::docx::{extract_docx_to_markdown, parse_docx_xml};
use mdrust::converters::html::{extract_html_to_markdown, extract_xml_to_markdown, xml_to_markdown};
use mdrust::converters::json_conv::extract_json_to_markdown;
use mdrust::converters::pdf::convert_pdf;
use mdrust::converters::pptx::{extract_pptx_to_markdown, parse_pptx_slide_xml};
use mdrust::converters::txt::{
    convert_rtf, extract_plain_text_to_markdown, extract_txt_to_markdown, odt_content_to_markdown, txt_to_markdown,
};
use mdrust::converters::xlsx::{extract_xlsx_to_markdown, sheet_to_markdown, SheetData};
use mdrust::converters::zip_conv::{escape_pipe, extract_zip_to_markdown, lang_hint};
use mdrust::converters::{ConversionResult, ConvertError, DocumentMetadata};
use mdrust::utils::{format_size, InputFormat};

fn zip_of(entries: &[(&str, &[u8])]) -> Vec<u8> {
    let mut w = zip::ZipWriter::new(std::io::Cursor::new(Vec::new()));
    let opts = zip::write::SimpleFileOptions::default();
    for (name, data) in entries {
        if name.ends_with('/') {
            w.add_directory(*name, opts).unwrap();
        } else {
            w.start_file(*name, opts).unwrap();
            w.write_all(data).unwrap();
        }
    }
    w.finish().unwrap().into_inner()
}

fn only_chunk(r: &ConversionResult) -> &str {
    assert_eq!(r.content.len(), 1);
    assert_eq!(r.content[0].page_number, 1);
    assert_eq!(r.content[0].label, "Full document");
    &r.content[0].data
}

#[test]
fn xml_outline_levels() {
    let md = xml_to_markdown("<root><item><name>Widget</name><price>3</price></item></root>");
    assert_eq!(md, "# root\n\n## item\n\n**name:** Widget\n**price:** 3\n");
}

#[test]
fn xml_file_result() {
    let r = extract_xml_to_markdown("a/data.xml", b"<a>x y</a>", 10).unwrap();
    assert_eq!(only_chunk(&r), "# a\n\nx y\n");
    assert_eq!(r.metadata.title, None);
    assert_eq!(r.metadata.word_count, 4);
    assert_eq!(r.metadata.source_format, InputFormat::Xml);
    assert!(matches!(extract_xml_to_markdown("a.xml", &[0xff, 0xfe], 2), Err(ConvertError::NotUtf8)));
}

#[test]
fn docx_body_paragraphs() {
    let xml = [
        "<w:document xmlns:w=\"w\"><w:body>",
        "<w:p><w:pPr><w:pStyle w:val=\"Heading2\"></w:pStyle></w:pPr><w:r><w:t>Intro</w:t></w:r></w:p>",
        "<w:p><w:r><w:t>a</w:t><w:tab/><w:t>b</w:t><w:br/><w:t>c</w:t></w:r></w:p>",
        "<w:p><w:r><w:t>x</w:t></w:r><w:i/></w:p>",
        "<w:p><w:r><w:t>   </w:t></w:r></w:p>",
        "<w:p><w:r><w:t>plain</w:t></w:r></w:p>",
        "</w:body></w:document>",
    ]
    .join("");
    assert_eq!(parse_docx_xml(&xml), "## Intro\n\na\tb\nc\n\n*x*\n\nplain\n\n");
}

#[test]
fn docx_heading_level_too_large_is_plain() {
    let xml = "<w:p><w:pPr><w:pStyle w:val=\"Heading99999999999\"></w:pStyle></w:pPr><w:r><w:t>T</w:t></w:r></w:p>";
    assert_eq!(parse_docx_xml(xml), "T\n\n");
}

#[test]
fn docx_file_from_docx_rs() {
    let doc = docx_rs::Docx::new()
        .add_paragraph(docx_rs::Paragraph::new().add_run(docx_rs::Run::new().add_text("First line")))
        .add_paragraph(docx_rs::Paragraph::new().add_run(docx_rs::Run::new().add_text("Second")));
    let mut buf = std::io::Cursor::new(Vec::new());
    doc.build().pack(&mut buf).unwrap();
    let bytes = buf.into_inner();
    let check = docx_rs::read_docx(&bytes).map(|_| ()).map_err(|e| e.to_string());
    let r = extract_docx_to_markdown("letter.docx", &bytes, check, bytes.len() as u64).unwrap();
    let md = only_chunk(&r);
    assert!(md.contains("First line\n\n"));
    assert!(md.contains("Second\n\n"));
    assert_eq!(r.metadata.source_format, InputFormat::Docx);
    assert_eq!(r.metadata.word_count, 3);
    let bad = docx_rs::read_docx(b"not a zip").map(|_| ()).map_err(|e| e.to_string());
    assert!(bad.is_err());
    assert!(matches!(extract_docx_to_markdown("x.docx", b"not a zip", bad, 9), Err(ConvertError::Docx(_))));
}

#[test]
fn slide_text_and_placeholder() {
    let xml = "<p:sld xmlns:p=\"p\" xmlns:a=\"a\"><p:sp><a:p><a:r><a:t>Hello</a:t></a:r><a:r><a:t> there</a:t></a:r></a:p></p:sp></p:sld>";
    assert_eq!(parse_pptx_slide_xml(xml, 3), "# Slide 3\n\nHellothere\n");
    assert_eq!(parse_pptx_slide_xml("<p:sld xmlns:p=\"p\"></p:sld>", 12), "# Slide 12\n\n*No text content on this slide*\n");
}

fn slide(text: &str) -> String {
    format!("<p:sld xmlns:p=\"p\" xmlns:a=\"a\"><p:sp><a:p><a:r><a:t>{}</a:t></a:r></a:p></p:sp></p:sld>", text)
}

#[test]
fn pptx_slides_in_number_order() {
    let s10 = slide("ten");
    let s2 = slide("two");
    let s1 = slide("one");
    let bytes = zip_of(&[
        ("ppt/slides/slide10.xml", s10.as_bytes()),
        ("ppt/presentation.xml", b"<p/>"),
        ("ppt/slides/slide2.xml", s2.as_bytes()),
        ("ppt/slides/slide1.xml", s1.as_bytes()),
    ]);
    let r = extract_pptx_to_markdown("deck.pptx", &bytes, 100).unwrap();
    assert_eq!(r.content.len(), 3);
    assert_eq!(r.content[0].data, "# Slide 1\n\none\n");
    assert_eq!(r.content[1].data, "# Slide 2\n\ntwo\n");
    assert_eq!(r.content[2].data, "# Slide 3\n\nten\n");
    assert_eq!(r.content[2].label, "Slide 3");
    assert_eq!(r.content[1].page_number, 2);
    assert_eq!(r.metadata.page_count, 3);
    assert_eq!(r.metadata.title, Some("Slide 1".to_string()));
    assert_eq!(r.metadata.word_count, 12);
    assert_eq!(r.full_markdown(), "# Slide 1\n\none\n\n\n---\n\n# Slide 2\n\ntwo\n\n\n---\n\n# Slide 3\n\nten\n");
}

#[test]
fn pptx_not_a_zip() {
    assert!(matches!(extract_pptx_to_markdown("d.pptx", b"nope", 4), Err(ConvertError::Zip(_))));
}

#[test]
fn odt_paragraphs_and_headings() {
    let xml = "<o:doc xmlns:o=\"o\" xmlns:text=\"t\"><text:h><text:span>Head</text:span></text:h><text:p><text:span>Para one</text:span></text:p><text:p>bare</text:p></o:doc>";
    assert_eq!(odt_content_to_markdown(xml), "## Head\nPara one\n");
    let bytes = zip_of(&[("mimetype", b"application/vnd.oasis.opendocument.text"), ("content.xml", xml.as_bytes())]);
    let r = extract_txt_to_markdown("notes.odt", &bytes, 5).unwrap();
    assert_eq!(only_chunk(&r), "## Head\nPara one\n");
    assert_eq!(r.metadata.source_format, InputFormat::Odt);
    let empty = zip_of(&[("other.xml", b"<a/>")]);
    let r2 = extract_txt_to_markdown("e.odt", &empty, 5).unwrap();
    assert_eq!(only_chunk(&r2), "*Could not extract ODT content*\n");
}

#[test]
fn plain_text_headings() {
    assert_eq!(
        txt_to_markdown("INTRODUCTION\nSome text here that is long.\n\nShort line\n"),
        "## INTRODUCTION\nSome text here that is long.\n\n### Short line\n"
    );
    let r = extract_txt_to_markdown("readme.md", b"# Title\nbody", 12).unwrap();
    assert_eq!(only_chunk(&r), "# Title\nbody");
    assert_eq!(r.metadata.title, Some("Title".to_string()));
    assert_eq!(r.metadata.word_count, 3);
    assert!(matches!(extract_txt_to_markdown("x.txt", &[0xc3], 1), Err(ConvertError::NotUtf8)));
}

#[test]
fn rtf_control_words_removed() {
    assert_eq!(convert_rtf(r"{\rtf1\ansi Hello\par World}").unwrap(), "### HelloWorld\n");
    let r = extract_txt_to_markdown("a.rtf", br"{\rtf1 Plain text.}", 3).unwrap();
    assert_eq!(only_chunk(&r), "Plain text.\n");
}

#[test]
fn csv_table() {
    let r = extract_csv_to_markdown("dir/people.csv", b"name,age\nAnn,30\nBob|X,4\n", 20).unwrap();
    assert_eq!(
        only_chunk(&r),
        "# people\n\n| name | age |\n| --- | --- |\n| Ann | 30 |\n| Bob\\|X | 4 |\n\n*2 rows total*\n"
    );
    assert_eq!(r.metadata.title, Some("people".to_string()));
    assert_eq!(r.metadata.source_format, InputFormat::Csv);
}

#[test]
fn tsv_and_empty_and_broken_csv() {
    let r = extract_csv_to_markdown("t.tsv", b"a\tb\n1\t2\n", 8).unwrap();
    assert_eq!(only_chunk(&r), "# t\n\n| a | b |\n| --- | --- |\n| 1 | 2 |\n\n*1 rows total*\n");
    assert_eq!(r.metadata.source_format, InputFormat::Tsv);
    let e = extract_csv_to_markdown("e.csv", b"", 0).unwrap();
    assert_eq!(only_chunk(&e), "*Empty CSV file*\n");
    assert_eq!(e.metadata.word_count, 3);
    assert!(matches!(extract_csv_to_markdown("b.csv", b"a,b\n1,2,3\n", 9), Err(ConvertError::Csv(_))));
}

#[test]
fn json_with_table() {
    let raw = r#"[{"b":1,"a":"x|y"},{"a":null,"c":[1,2]}]"#;
    let v: serde_json::Value = serde_json::from_str(raw).unwrap();
    let pretty = serde_json::to_string_pretty(&v).unwrap();
    let r = extract_json_to_markdown("items.json", raw.as_bytes(), 40).unwrap();
    let expected = format!(
        "# items\n\n```json\n{}\n```\n\n## Tabular View\n\n| a | b |\n| --- | --- |\n| x\\|y | 1 |\n|  |  |\n\n*2 rows total*\n",
        pretty
    );
    assert_eq!(only_chunk(&r), expected);
}

#[test]
fn json_without_table_and_errors() {
    let r = extract_json_to_markdown("o.json", br#"{"k": [1, 2]}"#, 10).unwrap();
    let v: serde_json::Value = serde_json::from_str(r#"{"k": [1, 2]}"#).unwrap();
    assert_eq!(only_chunk(&r), format!("# o\n\n```json\n{}\n```\n\n", serde_json::to_string_pretty(&v).unwrap()));
    let mixed = extract_json_to_markdown("m.json", b"[1, {\"a\": 2}]", 10).unwrap();
    assert!(!only_chunk(&mixed).contains("Tabular View"));
    assert!(matches!(extract_json_to_markdown("bad.json", b"{oops", 5), Err(ConvertError::Json(_))));
}

#[test]
fn html_title_and_body() {
    let r = extract_html_to_markdown(
        "page.html",
        b"<html><body><h1>Title</h1><p>Hello <b>world</b></p><script>var x;</script></body></html>",
        80,
    )
    .unwrap();
    let md = only_chunk(&r).to_string();
    assert!(md.contains("**world**"));
    assert!(!md.contains("var x"));
    assert_eq!(r.metadata.title, Some("Title".to_string()));
    assert_eq!(r.metadata.source_format, InputFormat::Html);
}

#[test]
fn sheet_table_skips_empty_rows() {
    let sheet = SheetData {
        name: "S1".to_string(),
        highest: (2, 3),
        cells: vec![
            (1, 1, "Name".to_string()),
            (2, 1, "Qty".to_string()),
            (1, 3, " Bolt ".to_string()),
            (2, 3, "4".to_string()),
        ],
    };
    assert_eq!(sheet_to_markdown(&sheet), "## S1\n\n| Name | Qty |\n| --- | --- |\n| Bolt | 4 |\n\n");
    let empty = SheetData { name: "E".to_string(), highest: (0, 0), cells: vec![] };
    assert_eq!(sheet_to_markdown(&empty), "## E\n\n*Empty sheet*\n\n");
    let blank = SheetData { name: "B".to_string(), highest: (1, 1), cells: vec![(1, 1, "   ".to_string())] };
    assert_eq!(sheet_to_markdown(&blank), "## B\n\n*Empty sheet*\n\n");
}

#[test]
fn xlsx_workbook_from_umya() {
    let mut book = umya_spreadsheet::new_file();
    {
        let sheet = book.sheet_mut(0).unwrap();
        sheet.cell_mut("A1").set_value("Item");
        sheet.cell_mut("B1").set_value("Count");
        sheet.cell_mut("A2").set_value("Nut");
        sheet.cell_mut("B2").set_value("7");
    }
    let mut bytes: Vec<u8> = Vec::new();
    umya_spreadsheet::writer::xlsx::write_writer(&book, std::io::Cursor::new(&mut bytes)).unwrap();
    let r = extract_xlsx_to_markdown("book.xlsx", read_workbook(&bytes), bytes.len() as u64).unwrap();
    let md = only_chunk(&r);
    assert!(md.contains("| Item | Count |\n| --- | --- |\n| Nut | 7 |\n"));
    assert_eq!(r.metadata.page_count, 1);
    assert!(matches!(extract_xlsx_to_markdown("x.xlsx", read_workbook(b"junk"), 4), Err(ConvertError::Xlsx(_))));
    let empty = extract_xlsx_to_markdown("e.xlsx", Ok(vec![]), 4).unwrap();
    assert_eq!(empty.metadata.page_count, 0);
    let msg = extract_xlsx_to_markdown("e.xlsx", Err("bad".to_string()), 4);
    assert!(matches!(msg, Err(ConvertError::Xlsx(m)) if m == "bad"));
}

#[test]
fn zip_index_and_text_files() {
    let bytes = zip_of(&[
        ("a.txt", b"hello world"),
        ("dir/", b""),
        ("b.PNG", b"abc"),
        ("x|y.md", b"# hi"),
    ]);
    let r = extract_zip_to_markdown("in/arch.zip", &bytes, 1234).unwrap();
    let expected = [
        "# arch\n\n## Statistics\n\n- **Total entries**: 4\n- **Files** (non-directory): 3\n",
        "- **Total uncompressed size**: 18 B\n- **Archive size**: ",
        &format_size(1234),
        "\n",
        "\n### File Types\n\n| Extension | Count |\n| --- | --- |\n| txt | 1 |\n| png | 1 |\n| md | 1 |\n\n",
        "## Archive Contents\n\n| # | Name | Size |\n| --- | --- | --- |\n",
        "| 1 | a.txt | 11 B |\n| 2 | dir/ | - |\n| 3 | b.PNG | 3 B |\n| 4 | x\\|y.md | 4 B |\n\n",
        "## File: `a.txt`\n\n```\nhello world\n```\n\n",
        "## File: `x|y.md`\n\n```markdown\n# hi\n```\n\n",
        "*2 text file(s) extracted*\n",
    ]
    .join("");
    assert_eq!(only_chunk(&r), expected);
    assert_eq!(r.metadata.title, Some("arch".to_string()));
}

#[test]
fn zip_counts_sorted_and_long_text_cut() {
    let long = "x".repeat(60_000);
    let bytes = zip_of(&[("one.csv", b"a"), ("t1.txt", b"a"), ("t2.txt", long.as_bytes())]);
    let r = extract_zip_to_markdown("z.zip", &bytes, 10).unwrap();
    let md = only_chunk(&r);
    assert!(md.contains("| txt | 2 |\n| csv | 1 |\n"));
    let cut = format!("```\n{}\n\n*... (truncated)*\n```", "x".repeat(50_000));
    assert!(md.contains(&cut));
    let fits = format!("{}{}zz", "x".repeat(49_998), "\u{e9}");
    let good = zip_of(&[("s.txt", fits.as_bytes())]);
    let ok = extract_zip_to_markdown("ok.zip", &good, 1).unwrap();
    assert!(only_chunk(&ok).contains(&format!("{}\u{e9}\n\n*... (truncated)*", "x".repeat(49_998))));
    let splits = format!("{}{}zz", "x".repeat(49_999), "\u{e9}");
    let bad = zip_of(&[("s.txt", splits.as_bytes())]);
    let cut_before = extract_zip_to_markdown("b.zip", &bad, 1).unwrap();
    assert!(only_chunk(&cut_before).contains(&format!("```\n{}\n\n*... (truncated)*\n```", "x".repeat(49_999))));
    let euros = zip_of(&[("a.txt", "\u{20ac}".repeat(20_000).as_bytes())]);
    let e = extract_zip_to_markdown("e.zip", &euros, 1).unwrap();
    assert!(only_chunk(&e).contains(&format!("## File: `a.txt`\n\n```\n{}\n\n*... (truncated)*\n```", "\u{20ac}".repeat(16_666))));
}

#[test]
fn zip_helpers() {
    assert_eq!(escape_pipe("a|b|c"), "a\\|b\\|c");
    assert_eq!(lang_hint("htm"), "html");
    assert_eq!(lang_hint("markdown"), "markdown");
    assert_eq!(lang_hint("txt"), "");
}

#[test]
fn single_chunk_results() {
    let meta = DocumentMetadata { word_count: 99, ..DocumentMetadata::default() };
    let r = ConversionResult::from_markdown("one two  three".to_string(), meta.clone());
    assert_eq!(r.metadata.word_count, 3);
    let r2 = ConversionResult::from_markdown_no_recount("one two".to_string(), meta);
    assert_eq!(r2.metadata.word_count, 99);
    let pages = ConversionResult::from_pages(
        vec![("a b".to_string(), "P1".to_string()), ("c".to_string(), "P2".to_string())],
        DocumentMetadata::default(),
    );
    assert_eq!(pages.metadata.word_count, 3);
    assert_eq!(pages.metadata.page_count, 2);
    assert_eq!(pages.full_markdown(), "a b\n\n---\n\nc");
    let files = pages.page_files();
    assert_eq!(files[1].0, "page_2.md");
    assert_eq!(files[1].1, "c");
}

fn one_page_pdf(text: &str) -> Vec<u8> {
    let mut doc = Document::with_version("1.5");
    let pages_id = doc.new_object_id();
    let mut font = Dictionary::new();
    font.set("Type", "Font");
    font.set("Subtype", "Type1");
    font.set("BaseFont", "Courier");
    let font_id = doc.add_object(font);
    let mut fonts = Dictionary::new();
    fonts.set("F1", font_id);
    let mut resources = Dictionary::new();
    resources.set("Font", fonts);
    let resources_id = doc.add_object(resources);
    let content = Content {
        operations: vec![
            Operation::new("BT", vec![]),
            Operation::new("Tf", vec!["F1".into(), 48.into()]),
            Operation::new("Td", vec![100.into(), 600.into()]),
            Operation::new("Tj", vec![Object::string_literal(text)]),
            Operation::new("ET", vec![]),
        ],
    };
    let content_id = doc.add_object(Stream::new(Dictionary::new(), content.encode().unwrap()));
    let mut page = Dictionary::new();
    page.set("Type", "Page");
    page.set("Parent", pages_id);
    page.set("Contents", content_id);
    let page_id = doc.add_object(page);
    let mut pages = Dictionary::new();
    pages.set("Type", "Pages");
    pages.set("Kids", vec![Object::from(page_id)]);
    pages.set("Count", 1);
    pages.set("Resources", resources_id);
    pages.set("MediaBox", vec![0.into(), 0.into(), 595.into(), 842.into()]);
    doc.objects.insert(pages_id, Object::Dictionary(pages));
    let mut catalog = Dictionary::new();
    catalog.set("Type", "Catalog");
    catalog.set("Pages", pages_id);
    let catalog_id = doc.add_object(catalog);
    doc.trailer.set("Root", catalog_id);
    let mut buf = Vec::new();
    doc.save_to(&mut buf).unwrap();
    buf
}

#[test]
fn pdf_falls_back_to_page_text() {
    let data = one_page_pdf("Hello World");
    let r = convert_pdf("doc.pdf", data.len() as u64, None, lopdf_pages(&data)).unwrap();
    assert_eq!(r.metadata.page_count, 1);
    assert!(only_chunk(&r).contains("Hello World"));
    assert_eq!(r.metadata.source_format, InputFormat::Pdf);
}

#[test]
fn pdf_prefers_primary_text_and_counts_pages() {
    let data = one_page_pdf("Hello World");
    let r = convert_pdf("doc.pdf", 7, Some("Intro\nsome words here.".to_string()), lopdf_pages(&data)).unwrap();
    assert_eq!(r.metadata.page_count, 1);
    assert_eq!(only_chunk(&r), "## Intro\nsome words here.\n");
    assert_eq!(r.metadata.title.as_deref(), Some("Intro"));
    assert_eq!(r.metadata.word_count, 4);
    assert_eq!(r.metadata.file_size_bytes, 7);
}

#[test]
fn pdf_unloadable_counts_one_page() {
    let r = convert_pdf("x.pdf", 9, Some("plain text.".to_string()), lopdf_pages(b"not a pdf")).unwrap();
    assert_eq!(r.metadata.page_count, 1);
    assert_eq!(only_chunk(&r), "plain text.\n");
}

#[test]
fn pdf_unreadable_and_blank_errors() {
    match convert_pdf("x.pdf", 9, None, lopdf_pages(b"not a pdf")) {
        Err(ConvertError::Pdf(m)) => assert!(m.starts_with("Failed to extract text from PDF: x.pdf.")),
        other => panic!("unexpected: {:?}", other.is_ok()),
    }
    match convert_pdf("x.pdf", 9, Some("  \n ".to_string()), None) {
        Err(ConvertError::Pdf(m)) => assert!(m.starts_with("Failed to extract text from PDF")),
        other => panic!("unexpected: {:?}", other.is_ok()),
    }
}

#[test]
fn plain_text_and_markdown_files() {
    let r = extract_plain_text_to_markdown("notes.txt", b"TITLE\n\nsome text here.", 23).unwrap();
    assert_eq!(only_chunk(&r), "## TITLE\n\nsome text here.\n");
    assert_eq!(r.metadata.title, None);
    assert_eq!(r.metadata.source_format, InputFormat::Txt);
    let r = extract_plain_text_to_markdown("doc.md", b"# Head\n\nbody", 14).unwrap();
    assert_eq!(only_chunk(&r), "# Head\n\nbody");
    assert_eq!(r.metadata.title.as_deref(), Some("Head"));
    assert_eq!(r.metadata.word_count, 3);
    assert!(matches!(extract_plain_text_to_markdown("bad.txt", &[0xff, 0xfe], 2), Err(ConvertError::NotUtf8)));
}

fn lopdf_pages(data: &[u8]) -> Option<Vec<Option<String>>> {
    let doc = lopdf::Document::load_mem(data).ok()?;
    let pages = doc.get_pages();
    Some(pages.keys().map(|p| doc.extract_text(&[*p]).ok()).collect())
}

fn read_workbook(data: &[u8]) -> Result<Vec<SheetData>, String> {
    let book = umya_spreadsheet::reader::xlsx::read_reader(std::io::Cursor::new(data), true).map_err(|e| e.to_string())?;
    Ok(book
        .sheet_collection()
        .iter()
        .map(|s| SheetData {
            name: s.name().to_string(),
            highest: s.highest_column_and_row(),
            cells: s
                .cells_sorted()
                .iter()
                .map(|c| (c.coordinate().col_num(), c.coordinate().row_num(), c.value().to_string()))
                .collect(),
        })
        .collect())
}

#[test]
fn pdf_page_texts_joined() {
    let r = convert_pdf("p.pdf", 3, None, Some(vec![Some("One".to_string()), None, Some("Two".to_string())])).unwrap();
    assert_eq!(r.metadata.page_count, 3);
    assert_eq!(only_chunk(&r), "## One\nTwo\n");
}

#[test]
fn docx_headings_from_empty_style_and_bold_runs() {
    let xml = r#"<w:p><w:pPr><w:pStyle w:val="Heading2"/></w:pPr><w:r><w:t>Intro</w:t></w:r></w:p><w:p><w:r><w:t>Body</w:t></w:r></w:p>"#;
    assert_eq!(parse_docx_xml(xml), "## Intro\n\nBody\n\n");
    let bold = r#"<w:p><w:r><w:rPr><w:b/></w:rPr><w:t>Bold</w:t></w:r></w:p>"#;
    assert_eq!(parse_docx_xml(bold), "**Bold**\n\n");
    let two = r#"<w:p><w:r><w:rPr><w:i/></w:rPr><w:t>A</w:t></w:r></w:p><w:p><w:r><w:t>B</w:t></w:r></w:p>"#;
    assert_eq!(parse_docx_xml(two), "*A*\n\nB\n\n");
}
