use mdrust::batch::total_word_count;
use mdrust::converters::{ConversionResult, DocumentMetadata};
use mdrust::i18n::{I18n, Language};
use mdrust::ocr::OcrLanguage;
use mdrust::options::selected_ocr_languages;
use mdrust::queue::{AppState, ConversionQueue, ConvertMessage, FileEntry, FileStatus};
use mdrust::utils::{detect_format, format_icon, with_extension, InputFormat};

fn done(path: &str, md: &str) -> ConvertMessage {
    ConvertMessage::FileDone { path: path.to_string(), markdown: md.to_string() }
}

fn failed(path: &str, error: &str) -> ConvertMessage {
    ConvertMessage::FileFailed { path: path.to_string(), error: error.to_string() }
}

#[test]
fn queue_adds_supported_files_once() {
    let mut q = ConversionQueue::new();
    q.add_file("docs/report.pdf", 1200);
    q.add_file("docs/notes.xyz", 10);
    q.add_file("docs/report.pdf", 1200);
    q.add_file("docs/table.CSV", 50);
    assert_eq!(q.files.len(), 2);
    assert_eq!(q.files[0].path, "docs/report.pdf");
    assert_eq!(q.files[0].name, "report.pdf");
    assert_eq!(q.files[0].format, "PDF");
    assert_eq!(q.files[0].file_size, 1200);
    assert!(matches!(q.files[0].status, FileStatus::Pending));
    assert_eq!(q.files[1].format, "CSV");
    assert_eq!(q.files[1].name, "table.CSV");
}

#[test]
fn queue_start_resets_progress() {
    let mut q = ConversionQueue::new();
    assert!(q.start_conversion().is_none());
    assert!(matches!(q.state, AppState::Idle));
    q.add_file("a.txt", 1);
    q.add_file("b.md", 2);
    let paths = q.start_conversion().unwrap();
    assert_eq!(paths, vec!["a.txt".to_string(), "b.md".to_string()]);
    assert!(matches!(q.state, AppState::Converting));
    assert_eq!(q.progress_total, 2);
    assert_eq!(q.progress_done, 0);
}

#[test]
fn queue_reports_update_progress_and_preview() {
    let i18n = I18n::new(Language::En);
    let mut q = ConversionQueue::new();
    q.add_file("a.txt", 1);
    q.add_file("b.txt", 2);
    q.add_file("c.txt", 3);
    q.start_conversion().unwrap();
    q.receive(done("b.txt", "# B"), &i18n);
    assert_eq!(q.progress_done, 1);
    assert_eq!(q.preview_text, "# B");
    assert!(matches!(q.files[1].status, FileStatus::Completed));
    q.receive(failed("a.txt", "bad bytes"), &i18n);
    assert!(matches!(&q.files[0].status, FileStatus::Failed(e) if e == "bad bytes"));
    q.receive(done("c.txt", "# C"), &i18n);
    assert_eq!(q.preview_text, "# B");
    assert_eq!(q.last_results.len(), 2);
    assert_eq!(q.progress_done, 3);
    q.receive(ConvertMessage::BatchComplete, &i18n);
    assert!(matches!(q.state, AppState::Completed));
    assert_eq!(q.notification.as_deref(), Some("Completed: 2/3"));
}

#[test]
fn queue_batch_without_results_is_an_error() {
    let i18n = I18n::new(Language::En);
    let mut q = ConversionQueue::new();
    q.add_file("a.txt", 1);
    q.start_conversion().unwrap();
    q.receive(failed("a.txt", "no"), &i18n);
    q.receive(ConvertMessage::BatchComplete, &i18n);
    assert!(matches!(&q.state, AppState::Error(e) if e == "Error"));
    assert_eq!(q.notification.as_deref(), Some("Error: 0/1"));
}

#[test]
fn queue_batch_error_message() {
    let i18n = I18n::new(Language::En);
    let mut q = ConversionQueue::new();
    q.receive(ConvertMessage::BatchError("disk full".to_string()), &i18n);
    assert!(matches!(&q.state, AppState::Error(e) if e == "disk full"));
    assert_eq!(q.notification.as_deref(), Some("Error: disk full"));
}

#[test]
fn queue_report_for_unknown_path_changes_no_status() {
    let i18n = I18n::new(Language::En);
    let mut q = ConversionQueue::new();
    q.add_file("a.txt", 1);
    q.receive(done("z.txt", "x"), &i18n);
    assert!(matches!(q.files[0].status, FileStatus::Pending));
    assert_eq!(q.progress_done, 1);
}

#[test]
fn file_status_labels() {
    assert_eq!(FileStatus::Pending.label(), "Pending");
    assert_eq!(FileStatus::Converting(500).label(), "Converting");
    assert_eq!(FileStatus::Completed.label(), "Done");
    assert_eq!(FileStatus::Failed("x".to_string()).label(), "Failed");
    assert_eq!(FileStatus::Skipped("y".to_string()).label(), "Skipped");
}

#[test]
fn pending_entry_without_file_name() {
    let e = FileEntry::pending("..", 0);
    assert_eq!(e.name, "?");
    assert_eq!(e.format, "Unknown");
}

#[test]
fn ticked_ocr_languages() {
    assert_eq!(selected_ocr_languages(false, false, false), vec![OcrLanguage::Eng]);
    assert_eq!(selected_ocr_languages(false, true, true), vec![OcrLanguage::Rus, OcrLanguage::ChiSim]);
    assert_eq!(
        selected_ocr_languages(true, true, true),
        vec![OcrLanguage::Eng, OcrLanguage::Rus, OcrLanguage::ChiSim]
    );
}

#[test]
fn format_icons() {
    assert_eq!(format_icon(&InputFormat::Pdf), "\u{1f4d3}");
    assert_eq!(format_icon(&InputFormat::Tsv), "\u{1f4c9}");
    assert_eq!(format_icon(&InputFormat::Markdown), "\u{1f4c4}");
}

fn with_words(n: usize) -> ConversionResult {
    let mut m = DocumentMetadata::default();
    m.word_count = n;
    ConversionResult::from_markdown_no_recount(String::new(), m)
}

#[test]
fn word_totals() {
    assert_eq!(total_word_count(&vec![]), Some(0));
    assert_eq!(total_word_count(&vec![with_words(3), with_words(4)]), Some(7));
    assert_eq!(total_word_count(&vec![with_words(usize::MAX), with_words(1)]), None);
}

#[test]
fn path_rules() {
    assert_eq!(detect_format("dir/sub/file.PDF"), InputFormat::Pdf);
    assert_eq!(detect_format("dir.pdf/"), InputFormat::Pdf);
    assert_eq!(detect_format("dir/."), InputFormat::Unknown);
    assert_eq!(detect_format(".csv"), InputFormat::Unknown);
    assert_eq!(detect_format("archive.tar.zip"), InputFormat::Zip);
    assert_eq!(detect_format("a/b/.."), InputFormat::Unknown);
    assert_eq!(mdrust::batch::output_file_name("x/archive.tar.gz", "md"), "archive.tar.md");
    assert_eq!(mdrust::batch::output_file_name(".bashrc", "md"), ".bashrc.md");
    assert_eq!(mdrust::batch::output_file_name("/", "md"), "output.md");
    assert_eq!(mdrust::batch::source_name("a/b/c.txt//"), "c.txt");
}

#[test]
fn extension_replacement() {
    assert_eq!(with_extension("dir/report.pdf", "md"), "dir/report.md");
    assert_eq!(with_extension("dir/archive.tar.gz", "html"), "dir/archive.tar.html");
    assert_eq!(with_extension("notes", "md"), "notes.md");
    assert_eq!(with_extension(".bashrc", "md"), ".bashrc.md");
    assert_eq!(with_extension("dir/file.txt/", "md"), "dir/file.md");
    assert_eq!(with_extension("a.txt", ""), "a");
    assert_eq!(with_extension("/", "md"), "/");
    assert_eq!(with_extension("x/..", "md"), "x/..");
}
