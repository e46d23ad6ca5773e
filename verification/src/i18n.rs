//! User-interface strings in English, Russian and Chinese.

use vstd::prelude::*;
use crate::text::str_eq;

verus! {

/// Supported UI languages.
#[derive(Debug, Clone, Copy, PartialEq, Eq, Structural, Hash)]
pub enum Language {
    En,
    Ru,
    Zh,
}

/// The name of a language, written in that language.
pub open spec fn language_name(l: Language) -> Seq<char> {
    match l {
        Language::En => "English"@,
        Language::Ru => "\u{0420}\u{0443}\u{0441}\u{0441}\u{043a}\u{0438}\u{0439}"@,
        Language::Zh => "\u{4e2d}\u{6587}"@,
    }
}

impl Language {
    /// The name of the language, written in that language (its display form).
    pub fn display_name(&self) -> (r: &'static str)
        ensures
            r@ == language_name(*self),
    {
        match self {
            Language::En => "English",
            Language::Ru => "\u{0420}\u{0443}\u{0441}\u{0441}\u{043a}\u{0438}\u{0439}",
            Language::Zh => "\u{4e2d}\u{6587}",
        }
    }
}

/// Every translated user-interface string.
#[derive(Debug, Clone, Copy, PartialEq, Eq, Structural)]
pub enum UiText {
    Subtitle,
    Actions,
    FileQueue,
    AddFiles,
    AddFolder,
    Clear,
    Convert,
    Threads,
    Output,
    OutputDir,
    OutputFormat,
    CombinedOutput,
    Preview,
    OpenInBrowser,
    Settings,
    LanguageLabel,
    OcrLanguages,
    ReadyStatus,
    Converting,
    Completed,
    Error,
    FilesConverted,
    DropFilesHere,
    OrClickAdd,
    Metadata,
    Rendered,
    RawMd,
    MarkdownPreview,
    Save,
    SaveAll,
    Theme,
    Dark,
    Light,
    FontSize,
    NoFilesInQueue,
    FilesInQueue,
    TotalWords,
    ConversionTime,
    Speed,
    TesseractNotFound,
    OcrEngine,
    SupportedFormats,
    Editor,
    Viewer,
    Copy,
    WordCount,
    FailedFiles,
    About,
    Version,
    SelectOcrLanguages,
}

/// The translation of each user-interface string into each language.
pub open spec fn ui_text(k: UiText, lang: Language) -> Seq<char> {
    match k {
        UiText::Subtitle => match lang {
            Language::En => "Multi-threaded Document \u{2192} Markdown Converter"@,
            Language::Ru => "\u{041c}\u{043d}\u{043e}\u{0433}\u{043e}\u{043f}\u{043e}\u{0442}\u{043e}\u{0447}\u{043d}\u{044b}\u{0439} \u{043a}\u{043e}\u{043d}\u{0432}\u{0435}\u{0440}\u{0442}\u{0435}\u{0440} \u{0434}\u{043e}\u{043a}\u{0443}\u{043c}\u{0435}\u{043d}\u{0442}\u{043e}\u{0432} \u{2192} Markdown"@,
            Language::Zh => "\u{591a}\u{7ebf}\u{7a0b}\u{6587}\u{6863}\u{8f6c} Markdown \u{8f6c}\u{6362}\u{5668}"@,
        },
        UiText::Actions => match lang {
            Language::En => "Actions"@,
            Language::Ru => "\u{0414}\u{0435}\u{0439}\u{0441}\u{0442}\u{0432}\u{0438}\u{044f}"@,
            Language::Zh => "\u{64cd}\u{4f5c}"@,
        },
        UiText::FileQueue => match lang {
            Language::En => "File Queue"@,
            Language::Ru => "\u{041e}\u{0447}\u{0435}\u{0440}\u{0435}\u{0434}\u{044c} \u{0444}\u{0430}\u{0439}\u{043b}\u{043e}\u{0432}"@,
            Language::Zh => "\u{6587}\u{4ef6}\u{961f}\u{5217}"@,
        },
        UiText::AddFiles => match lang {
            Language::En => "Add Files"@,
            Language::Ru => "\u{0414}\u{043e}\u{0431}\u{0430}\u{0432}\u{0438}\u{0442}\u{044c} \u{0444}\u{0430}\u{0439}\u{043b}\u{044b}"@,
            Language::Zh => "\u{6dfb}\u{52a0}\u{6587}\u{4ef6}"@,
        },
        UiText::AddFolder => match lang {
            Language::En => "Add Folder"@,
            Language::Ru => "\u{0414}\u{043e}\u{0431}\u{0430}\u{0432}\u{0438}\u{0442}\u{044c} \u{043f}\u{0430}\u{043f}\u{043a}\u{0443}"@,
            Language::Zh => "\u{6dfb}\u{52a0}\u{6587}\u{4ef6}\u{5939}"@,
        },
        UiText::Clear => match lang {
            Language::En => "Clear"@,
            Language::Ru => "\u{041e}\u{0447}\u{0438}\u{0441}\u{0442}\u{0438}\u{0442}\u{044c}"@,
            Language::Zh => "\u{6e05}\u{7a7a}"@,
        },
        UiText::Convert => match lang {
            Language::En => "Convert"@,
            Language::Ru => "\u{041a}\u{043e}\u{043d}\u{0432}\u{0435}\u{0440}\u{0442}\u{0438}\u{0440}\u{043e}\u{0432}\u{0430}\u{0442}\u{044c}"@,
            Language::Zh => "\u{8f6c}\u{6362}"@,
        },
        UiText::Threads => match lang {
            Language::En => "Threads"@,
            Language::Ru => "\u{041f}\u{043e}\u{0442}\u{043e}\u{043a}\u{0438}"@,
            Language::Zh => "\u{7ebf}\u{7a0b}\u{6570}"@,
        },
        UiText::Output => match lang {
            Language::En => "Output"@,
            Language::Ru => "\u{0412}\u{044b}\u{0432}\u{043e}\u{0434}"@,
            Language::Zh => "\u{8f93}\u{51fa}"@,
        },
        UiText::OutputDir => match lang {
            Language::En => "Output Dir"@,
            Language::Ru => "\u{0412}\u{044b}\u{0445}\u{043e}\u{0434}\u{043d}\u{0430}\u{044f} \u{043f}\u{0430}\u{043f}\u{043a}\u{0430}"@,
            Language::Zh => "\u{8f93}\u{51fa}\u{76ee}\u{5f55}"@,
        },
        UiText::OutputFormat => match lang {
            Language::En => "Output Format"@,
            Language::Ru => "\u{0424}\u{043e}\u{0440}\u{043c}\u{0430}\u{0442} \u{0432}\u{044b}\u{0432}\u{043e}\u{0434}\u{0430}"@,
            Language::Zh => "\u{8f93}\u{51fa}\u{683c}\u{5f0f}"@,
        },
        UiText::CombinedOutput => match lang {
            Language::En => "Combined output"@,
            Language::Ru => "\u{041e}\u{0431}\u{044a}\u{0435}\u{0434}\u{0438}\u{043d}\u{0451}\u{043d}\u{043d}\u{044b}\u{0439} \u{0432}\u{044b}\u{0432}\u{043e}\u{0434}"@,
            Language::Zh => "\u{5408}\u{5e76}\u{8f93}\u{51fa}"@,
        },
        UiText::Preview => match lang {
            Language::En => "Preview"@,
            Language::Ru => "\u{041f}\u{0440}\u{0435}\u{0434}\u{043f}\u{0440}\u{043e}\u{0441}\u{043c}\u{043e}\u{0442}\u{0440}"@,
            Language::Zh => "\u{9884}\u{89c8}"@,
        },
        UiText::OpenInBrowser => match lang {
            Language::En => "Open in Browser"@,
            Language::Ru => "\u{041e}\u{0442}\u{043a}\u{0440}\u{044b}\u{0442}\u{044c} \u{0432} \u{0431}\u{0440}\u{0430}\u{0443}\u{0437}\u{0435}\u{0440}\u{0435}"@,
            Language::Zh => "\u{5728}\u{6d4f}\u{89c8}\u{5668}\u{4e2d}\u{6253}\u{5f00}"@,
        },
        UiText::Settings => match lang {
            Language::En => "Settings"@,
            Language::Ru => "\u{041d}\u{0430}\u{0441}\u{0442}\u{0440}\u{043e}\u{0439}\u{043a}\u{0438}"@,
            Language::Zh => "\u{8bbe}\u{7f6e}"@,
        },
        UiText::LanguageLabel => match lang {
            Language::En => "Language"@,
            Language::Ru => "\u{042f}\u{0437}\u{044b}\u{043a}"@,
            Language::Zh => "\u{8bed}\u{8a00}"@,
        },
        UiText::OcrLanguages => match lang {
            Language::En => "OCR Languages"@,
            Language::Ru => "\u{042f}\u{0437}\u{044b}\u{043a}\u{0438} OCR"@,
            Language::Zh => "OCR \u{8bed}\u{8a00}"@,
        },
        UiText::ReadyStatus => match lang {
            Language::En => "Ready \u{2014} Drop files or click Add Files"@,
            Language::Ru => "\u{0413}\u{043e}\u{0442}\u{043e}\u{0432} \u{2014} \u{041f}\u{0435}\u{0440}\u{0435}\u{0442}\u{0430}\u{0449}\u{0438}\u{0442}\u{0435} \u{0444}\u{0430}\u{0439}\u{043b}\u{044b} \u{0438}\u{043b}\u{0438} \u{043d}\u{0430}\u{0436}\u{043c}\u{0438}\u{0442}\u{0435} \u{0414}\u{043e}\u{0431}\u{0430}\u{0432}\u{0438}\u{0442}\u{044c}"@,
            Language::Zh => "\u{5c31}\u{7eea} \u{2014} \u{62d6}\u{653e}\u{6587}\u{4ef6}\u{6216}\u{70b9}\u{51fb}\u{6dfb}\u{52a0}\u{6587}\u{4ef6}"@,
        },
        UiText::Converting => match lang {
            Language::En => "Converting..."@,
            Language::Ru => "\u{041a}\u{043e}\u{043d}\u{0432}\u{0435}\u{0440}\u{0442}\u{0430}\u{0446}\u{0438}\u{044f}..."@,
            Language::Zh => "\u{8f6c}\u{6362}\u{4e2d}..."@,
        },
        UiText::Completed => match lang {
            Language::En => "Completed"@,
            Language::Ru => "\u{0417}\u{0430}\u{0432}\u{0435}\u{0440}\u{0448}\u{0435}\u{043d}\u{043e}"@,
            Language::Zh => "\u{5b8c}\u{6210}"@,
        },
        UiText::Error => match lang {
            Language::En => "Error"@,
            Language::Ru => "\u{041e}\u{0448}\u{0438}\u{0431}\u{043a}\u{0430}"@,
            Language::Zh => "\u{9519}\u{8bef}"@,
        },
        UiText::FilesConverted => match lang {
            Language::En => "files converted"@,
            Language::Ru => "\u{0444}\u{0430}\u{0439}\u{043b}\u{043e}\u{0432} \u{043a}\u{043e}\u{043d}\u{0432}\u{0435}\u{0440}\u{0442}\u{0438}\u{0440}\u{043e}\u{0432}\u{0430}\u{043d}\u{043e}"@,
            Language::Zh => "\u{4e2a}\u{6587}\u{4ef6}\u{5df2}\u{8f6c}\u{6362}"@,
        },
        UiText::DropFilesHere => match lang {
            Language::En => "Drop files here"@,
            Language::Ru => "\u{041f}\u{0435}\u{0440}\u{0435}\u{0442}\u{0430}\u{0449}\u{0438}\u{0442}\u{0435} \u{0444}\u{0430}\u{0439}\u{043b}\u{044b} \u{0441}\u{044e}\u{0434}\u{0430}"@,
            Language::Zh => "\u{62d6}\u{653e}\u{6587}\u{4ef6}\u{5230}\u{6b64}\u{5904}"@,
        },
        UiText::OrClickAdd => match lang {
            Language::En => "or click Add Files"@,
            Language::Ru => "\u{0438}\u{043b}\u{0438} \u{043d}\u{0430}\u{0436}\u{043c}\u{0438}\u{0442}\u{0435} \u{0414}\u{043e}\u{0431}\u{0430}\u{0432}\u{0438}\u{0442}\u{044c} \u{0444}\u{0430}\u{0439}\u{043b}\u{044b}"@,
            Language::Zh => "\u{6216}\u{70b9}\u{51fb}\u{6dfb}\u{52a0}\u{6587}\u{4ef6}"@,
        },
        UiText::Metadata => match lang {
            Language::En => "Metadata"@,
            Language::Ru => "\u{041c}\u{0435}\u{0442}\u{0430}\u{0434}\u{0430}\u{043d}\u{043d}\u{044b}\u{0435}"@,
            Language::Zh => "\u{5143}\u{6570}\u{636e}"@,
        },
        UiText::Rendered => match lang {
            Language::En => "Rendered"@,
            Language::Ru => "\u{0420}\u{0435}\u{043d}\u{0434}\u{0435}\u{0440}"@,
            Language::Zh => "\u{6e32}\u{67d3}"@,
        },
        UiText::RawMd => match lang {
            Language::En => "Raw MD"@,
            Language::Ru => "\u{0418}\u{0441}\u{0445}\u{043e}\u{0434}\u{043d}\u{044b}\u{0439} MD"@,
            Language::Zh => "\u{539f}\u{59cb} MD"@,
        },
        UiText::MarkdownPreview => match lang {
            Language::En => "Markdown preview will appear here\nafter conversion"@,
            Language::Ru => "\u{041f}\u{0440}\u{0435}\u{0434}\u{043f}\u{0440}\u{043e}\u{0441}\u{043c}\u{043e}\u{0442}\u{0440} Markdown \u{043f}\u{043e}\u{044f}\u{0432}\u{0438}\u{0442}\u{0441}\u{044f} \u{0437}\u{0434}\u{0435}\u{0441}\u{044c}\n\u{043f}\u{043e}\u{0441}\u{043b}\u{0435} \u{043a}\u{043e}\u{043d}\u{0432}\u{0435}\u{0440}\u{0442}\u{0430}\u{0446}\u{0438}\u{0438}"@,
            Language::Zh => "Markdown \u{9884}\u{89c8}\u{5c06}\u{5728}\u{8f6c}\u{6362}\u{540e}\n\u{663e}\u{793a}\u{5728}\u{6b64}\u{5904}"@,
        },
        UiText::Save => match lang {
            Language::En => "Save"@,
            Language::Ru => "\u{0421}\u{043e}\u{0445}\u{0440}\u{0430}\u{043d}\u{0438}\u{0442}\u{044c}"@,
            Language::Zh => "\u{4fdd}\u{5b58}"@,
        },
        UiText::SaveAll => match lang {
            Language::En => "Save All"@,
            Language::Ru => "\u{0421}\u{043e}\u{0445}\u{0440}\u{0430}\u{043d}\u{0438}\u{0442}\u{044c} \u{0432}\u{0441}\u{0435}"@,
            Language::Zh => "\u{5168}\u{90e8}\u{4fdd}\u{5b58}"@,
        },
        UiText::Theme => match lang {
            Language::En => "Theme"@,
            Language::Ru => "\u{0422}\u{0435}\u{043c}\u{0430}"@,
            Language::Zh => "\u{4e3b}\u{9898}"@,
        },
        UiText::Dark => match lang {
            Language::En => "Dark"@,
            Language::Ru => "\u{0422}\u{0451}\u{043c}\u{043d}\u{0430}\u{044f}"@,
            Language::Zh => "\u{6df1}\u{8272}"@,
        },
        UiText::Light => match lang {
            Language::En => "Light"@,
            Language::Ru => "\u{0421}\u{0432}\u{0435}\u{0442}\u{043b}\u{0430}\u{044f}"@,
            Language::Zh => "\u{6d45}\u{8272}"@,
        },
        UiText::FontSize => match lang {
            Language::En => "Font Size"@,
            Language::Ru => "\u{0420}\u{0430}\u{0437}\u{043c}\u{0435}\u{0440} \u{0448}\u{0440}\u{0438}\u{0444}\u{0442}\u{0430}"@,
            Language::Zh => "\u{5b57}\u{4f53}\u{5927}\u{5c0f}"@,
        },
        UiText::NoFilesInQueue => match lang {
            Language::En => "No files in queue"@,
            Language::Ru => "\u{041d}\u{0435}\u{0442} \u{0444}\u{0430}\u{0439}\u{043b}\u{043e}\u{0432} \u{0432} \u{043e}\u{0447}\u{0435}\u{0440}\u{0435}\u{0434}\u{0438}"@,
            Language::Zh => "\u{961f}\u{5217}\u{4e2d}\u{6ca1}\u{6709}\u{6587}\u{4ef6}"@,
        },
        UiText::FilesInQueue => match lang {
            Language::En => "files in queue"@,
            Language::Ru => "\u{0444}\u{0430}\u{0439}\u{043b}\u{043e}\u{0432} \u{0432} \u{043e}\u{0447}\u{0435}\u{0440}\u{0435}\u{0434}\u{0438}"@,
            Language::Zh => "\u{4e2a}\u{6587}\u{4ef6}\u{5728}\u{961f}\u{5217}\u{4e2d}"@,
        },
        UiText::TotalWords => match lang {
            Language::En => "Total words"@,
            Language::Ru => "\u{0412}\u{0441}\u{0435}\u{0433}\u{043e} \u{0441}\u{043b}\u{043e}\u{0432}"@,
            Language::Zh => "\u{603b}\u{8bcd}\u{6570}"@,
        },
        UiText::ConversionTime => match lang {
            Language::En => "Time"@,
            Language::Ru => "\u{0412}\u{0440}\u{0435}\u{043c}\u{044f}"@,
            Language::Zh => "\u{7528}\u{65f6}"@,
        },
        UiText::Speed => match lang {
            Language::En => "Speed"@,
            Language::Ru => "\u{0421}\u{043a}\u{043e}\u{0440}\u{043e}\u{0441}\u{0442}\u{044c}"@,
            Language::Zh => "\u{901f}\u{5ea6}"@,
        },
        UiText::TesseractNotFound => match lang {
            Language::En => "OCR: Tesseract engine not installed (tessdata embedded, install libtesseract-dev or tesseract-ocr)"@,
            Language::Ru => "OCR: \u{0434}\u{0432}\u{0438}\u{0436}\u{043e}\u{043a} Tesseract \u{043d}\u{0435} \u{0443}\u{0441}\u{0442}\u{0430}\u{043d}\u{043e}\u{0432}\u{043b}\u{0435}\u{043d} (\u{044f}\u{0437}\u{044b}\u{043a}\u{043e}\u{0432}\u{044b}\u{0435} \u{0434}\u{0430}\u{043d}\u{043d}\u{044b}\u{0435} \u{0432}\u{0441}\u{0442}\u{0440}\u{043e}\u{0435}\u{043d}\u{044b}, \u{0443}\u{0441}\u{0442}\u{0430}\u{043d}\u{043e}\u{0432}\u{0438}\u{0442}\u{0435} libtesseract-dev \u{0438}\u{043b}\u{0438} tesseract-ocr)"@,
            Language::Zh => "OCR: Tesseract \u{5f15}\u{64ce}\u{672a}\u{5b89}\u{88c5} (\u{8bed}\u{8a00}\u{6570}\u{636e}\u{5df2}\u{5d4c}\u{5165}\u{ff0c}\u{8bf7}\u{5b89}\u{88c5} libtesseract-dev \u{6216} tesseract-ocr)"@,
        },
        UiText::OcrEngine => match lang {
            Language::En => "OCR Engine"@,
            Language::Ru => "\u{0414}\u{0432}\u{0438}\u{0436}\u{043e}\u{043a} OCR"@,
            Language::Zh => "OCR \u{5f15}\u{64ce}"@,
        },
        UiText::SupportedFormats => match lang {
            Language::En => "Supported Formats"@,
            Language::Ru => "\u{041f}\u{043e}\u{0434}\u{0434}\u{0435}\u{0440}\u{0436}\u{0438}\u{0432}\u{0430}\u{0435}\u{043c}\u{044b}\u{0435} \u{0444}\u{043e}\u{0440}\u{043c}\u{0430}\u{0442}\u{044b}"@,
            Language::Zh => "\u{652f}\u{6301}\u{7684}\u{683c}\u{5f0f}"@,
        },
        UiText::Editor => match lang {
            Language::En => "Editor"@,
            Language::Ru => "\u{0420}\u{0435}\u{0434}\u{0430}\u{043a}\u{0442}\u{043e}\u{0440}"@,
            Language::Zh => "\u{7f16}\u{8f91}\u{5668}"@,
        },
        UiText::Viewer => match lang {
            Language::En => "Viewer"@,
            Language::Ru => "\u{041f}\u{0440}\u{043e}\u{0441}\u{043c}\u{043e}\u{0442}\u{0440}"@,
            Language::Zh => "\u{67e5}\u{770b}\u{5668}"@,
        },
        UiText::Copy => match lang {
            Language::En => "Copy"@,
            Language::Ru => "\u{041a}\u{043e}\u{043f}\u{0438}\u{0440}\u{043e}\u{0432}\u{0430}\u{0442}\u{044c}"@,
            Language::Zh => "\u{590d}\u{5236}"@,
        },
        UiText::WordCount => match lang {
            Language::En => "words"@,
            Language::Ru => "\u{0441}\u{043b}\u{043e}\u{0432}"@,
            Language::Zh => "\u{8bcd}"@,
        },
        UiText::FailedFiles => match lang {
            Language::En => "Failed"@,
            Language::Ru => "\u{041d}\u{0435} \u{0443}\u{0434}\u{0430}\u{043b}\u{043e}\u{0441}\u{044c}"@,
            Language::Zh => "\u{5931}\u{8d25}"@,
        },
        UiText::About => match lang {
            Language::En => "About"@,
            Language::Ru => "\u{041e} \u{043f}\u{0440}\u{043e}\u{0433}\u{0440}\u{0430}\u{043c}\u{043c}\u{0435}"@,
            Language::Zh => "\u{5173}\u{4e8e}"@,
        },
        UiText::Version => match lang {
            Language::En => "Version"@,
            Language::Ru => "\u{0412}\u{0435}\u{0440}\u{0441}\u{0438}\u{044f}"@,
            Language::Zh => "\u{7248}\u{672c}"@,
        },
        UiText::SelectOcrLanguages => match lang {
            Language::En => "Select OCR languages"@,
            Language::Ru => "\u{0412}\u{044b}\u{0431}\u{0435}\u{0440}\u{0438}\u{0442}\u{0435} \u{044f}\u{0437}\u{044b}\u{043a}\u{0438} OCR"@,
            Language::Zh => "\u{9009}\u{62e9} OCR \u{8bed}\u{8a00}"@,
        },
    }
}

/// The keys that `I18n::t` translates, with the string each one names.
pub open spec fn key_text(key: Seq<char>) -> Option<UiText> {
    if key == "actions"@ {
        Some(UiText::Actions)
    }     else if key == "settings"@ {
        Some(UiText::Settings)
    }     else if key == "add_files"@ {
        Some(UiText::AddFiles)
    }     else if key == "add_folder"@ {
        Some(UiText::AddFolder)
    }     else if key == "clear"@ {
        Some(UiText::Clear)
    }     else if key == "drop_files_here"@ {
        Some(UiText::DropFilesHere)
    }     else if key == "or_click_add"@ {
        Some(UiText::OrClickAdd)
    }     else if key == "threads"@ {
        Some(UiText::Threads)
    }     else if key == "combined_output"@ {
        Some(UiText::CombinedOutput)
    }     else if key == "output_dir"@ {
        Some(UiText::OutputDir)
    }     else if key == "convert"@ {
        Some(UiText::Convert)
    }     else if key == "file_queue"@ {
        Some(UiText::FileQueue)
    }     else if key == "preview"@ {
        Some(UiText::Preview)
    }     else if key == "copy"@ {
        Some(UiText::Copy)
    }     else if key == "save"@ {
        Some(UiText::Save)
    }     else if key == "metadata"@ {
        Some(UiText::Metadata)
    }     else if key == "rendered"@ {
        Some(UiText::Rendered)
    }     else if key == "raw_md"@ {
        Some(UiText::RawMd)
    }     else if key == "converting"@ {
        Some(UiText::Converting)
    }     else if key == "completed"@ {
        Some(UiText::Completed)
    }     else if key == "error"@ {
        Some(UiText::Error)
    }     else if key == "files_converted"@ {
        Some(UiText::FilesConverted)
    }     else if key == "total_words"@ {
        Some(UiText::TotalWords)
    }     else if key == "ready_status"@ {
        Some(UiText::ReadyStatus)
    }     else if key == "save_all"@ {
        Some(UiText::SaveAll)
    }     else if key == "open_in_browser"@ {
        Some(UiText::OpenInBrowser)
    }     else if key == "word_count"@ {
        Some(UiText::WordCount)
    }     else if key == "failed_files"@ {
        Some(UiText::FailedFiles)
    } else {
        None
    }
}

/// What `I18n::t` returns for a key: its translation, or the key itself.
pub open spec fn translate_key(lang: Language, key: Seq<char>) -> Seq<char> {
    match key_text(key) {
        Some(k) => ui_text(k, lang),
        None => key,
    }
}

/// Holds the current language and provides translated strings.
#[derive(PartialEq, Eq, Structural)]
pub struct I18n {
    lang: Language,
}

impl Default for I18n {
    fn default() -> (r: Self)
        ensures
            r.spec_language() == Language::En,
            r == I18n::for_language(Language::En),
    {
        I18n { lang: Language::En }
    }
}

/// The language is the whole state of an `I18n`: two values are equal
/// exactly when their languages are, and the value for a language has that
/// language. So `I18n::new(a) == I18n::new(b)` exactly when `a == b`, and
/// after `set_language(l)` a value equals `I18n::new(l)`.
pub proof fn law_language_is_whole_state(a: I18n, b: I18n, l: Language, m: Language)
    ensures
        (a == b) <==> (a.spec_language() == b.spec_language()),
        I18n::for_language(l).spec_language() == l,
        (I18n::for_language(l) == I18n::for_language(m)) <==> (l == m),
        a == I18n::for_language(a.spec_language()),
{
}

/// The value after switching, in order, to each language of `switches`,
/// each switch giving what `set_language` ensures.
pub open spec fn after_switches(start: I18n, switches: Seq<Language>) -> I18n {
    if switches.len() == 0 {
        start
    } else {
        I18n::for_language(switches.last())
    }
}

/// The value after a run of language switches is decided by the last one:
/// with no switch it is the starting value, else the value for the language
/// switched to last; `language()` then gives that language.
pub proof fn law_last_switch_wins(start: I18n, switches: Seq<Language>)
    ensures
        switches.len() == 0 ==> after_switches(start, switches) == start,
        switches.len() > 0 ==> after_switches(start, switches) == I18n::for_language(switches.last()),
        after_switches(start, switches).spec_language() == (if switches.len() == 0 {
            start.spec_language()
        } else {
            switches.last()
        }),
{
}

impl I18n {
    /// The active language.
    pub closed spec fn spec_language(&self) -> Language {
        self.lang
    }

    /// The value for a language: the language is its whole state.
    pub closed spec fn for_language(lang: Language) -> I18n {
        I18n { lang }
    }

    /// Create a new `I18n` with the given language.
    pub fn new(lang: Language) -> (r: Self)
        ensures
            r.spec_language() == lang,
            r == I18n::for_language(lang),
    {
        I18n { lang }
    }

    /// Switch the active language.
    pub fn set_language(&mut self, lang: Language)
        ensures
            final(self).spec_language() == lang,
            *final(self) == I18n::for_language(lang),
    {
        self.lang = lang;
    }

    /// Return the currently active language.
    pub fn language(&self) -> (r: Language)
        ensures
            r == self.spec_language(),
    {
        self.lang
    }

    /// Return display label for the current language.
    pub fn lang_label(&self) -> (r: &'static str)
        ensures
            r@ == match self.spec_language() {
                Language::En => "EN"@,
                Language::Ru => "RU"@,
                Language::Zh => "ZH"@,
            },
    {
        match self.lang {
            Language::En => "EN",
            Language::Ru => "RU",
            Language::Zh => "ZH",
        }
    }

    /// Get translation by key name (for dynamic lookups); an unknown key is
    /// returned as it is.
    pub fn t(&self, key: &str) -> (r: String)
        ensures
            r@ == translate_key(self.spec_language(), key@),
    {
        if str_eq(key, "actions") {
            self.actions().to_owned()
        }         else if str_eq(key, "settings") {
            self.settings().to_owned()
        }         else if str_eq(key, "add_files") {
            self.add_files().to_owned()
        }         else if str_eq(key, "add_folder") {
            self.add_folder().to_owned()
        }         else if str_eq(key, "clear") {
            self.clear().to_owned()
        }         else if str_eq(key, "drop_files_here") {
            self.drop_files_here().to_owned()
        }         else if str_eq(key, "or_click_add") {
            self.or_click_add().to_owned()
        }         else if str_eq(key, "threads") {
            self.threads().to_owned()
        }         else if str_eq(key, "combined_output") {
            self.combined_output().to_owned()
        }         else if str_eq(key, "output_dir") {
            self.output_dir().to_owned()
        }         else if str_eq(key, "convert") {
            self.convert().to_owned()
        }         else if str_eq(key, "file_queue") {
            self.file_queue().to_owned()
        }         else if str_eq(key, "preview") {
            self.preview().to_owned()
        }         else if str_eq(key, "copy") {
            self.copy().to_owned()
        }         else if str_eq(key, "save") {
            self.save().to_owned()
        }         else if str_eq(key, "metadata") {
            self.metadata().to_owned()
        }         else if str_eq(key, "rendered") {
            self.rendered().to_owned()
        }         else if str_eq(key, "raw_md") {
            self.raw_md().to_owned()
        }         else if str_eq(key, "converting") {
            self.converting().to_owned()
        }         else if str_eq(key, "completed") {
            self.completed().to_owned()
        }         else if str_eq(key, "error") {
            self.error().to_owned()
        }         else if str_eq(key, "files_converted") {
            self.files_converted().to_owned()
        }         else if str_eq(key, "total_words") {
            self.total_words().to_owned()
        }         else if str_eq(key, "ready_status") {
            self.ready_status().to_owned()
        }         else if str_eq(key, "save_all") {
            self.save_all().to_owned()
        }         else if str_eq(key, "open_in_browser") {
            self.open_in_browser().to_owned()
        }         else if str_eq(key, "word_count") {
            self.word_count().to_owned()
        }         else if str_eq(key, "failed_files") {
            self.failed_files().to_owned()
        } else {
            key.to_owned()
        }
    }

    /// App title (same in every language).
    pub fn app_title(&self) -> (r: &'static str)
        ensures
            r@ == "MDrust"@,
    {
        "MDrust"
    }

    /// Subtitle beneath the app title.
    pub fn subtitle(&self) -> (r: &'static str)
        ensures
            r@ == ui_text(UiText::Subtitle, self.spec_language()),
    {
        match self.lang {
            Language::En => "Multi-threaded Document \u{2192} Markdown Converter",
            Language::Ru => "\u{041c}\u{043d}\u{043e}\u{0433}\u{043e}\u{043f}\u{043e}\u{0442}\u{043e}\u{0447}\u{043d}\u{044b}\u{0439} \u{043a}\u{043e}\u{043d}\u{0432}\u{0435}\u{0440}\u{0442}\u{0435}\u{0440} \u{0434}\u{043e}\u{043a}\u{0443}\u{043c}\u{0435}\u{043d}\u{0442}\u{043e}\u{0432} \u{2192} Markdown",
            Language::Zh => "\u{591a}\u{7ebf}\u{7a0b}\u{6587}\u{6863}\u{8f6c} Markdown \u{8f6c}\u{6362}\u{5668}",
        }
    }

    /// "Actions" heading.
    pub fn actions(&self) -> (r: &'static str)
        ensures
            r@ == ui_text(UiText::Actions, self.spec_language()),
    {
        match self.lang {
            Language::En => "Actions",
            Language::Ru => "\u{0414}\u{0435}\u{0439}\u{0441}\u{0442}\u{0432}\u{0438}\u{044f}",
            Language::Zh => "\u{64cd}\u{4f5c}",
        }
    }

    /// "File Queue" heading.
    pub fn file_queue(&self) -> (r: &'static str)
        ensures
            r@ == ui_text(UiText::FileQueue, self.spec_language()),
    {
        match self.lang {
            Language::En => "File Queue",
            Language::Ru => "\u{041e}\u{0447}\u{0435}\u{0440}\u{0435}\u{0434}\u{044c} \u{0444}\u{0430}\u{0439}\u{043b}\u{043e}\u{0432}",
            Language::Zh => "\u{6587}\u{4ef6}\u{961f}\u{5217}",
        }
    }

    /// "Add Files" button label.
    pub fn add_files(&self) -> (r: &'static str)
        ensures
            r@ == ui_text(UiText::AddFiles, self.spec_language()),
    {
        match self.lang {
            Language::En => "Add Files",
            Language::Ru => "\u{0414}\u{043e}\u{0431}\u{0430}\u{0432}\u{0438}\u{0442}\u{044c} \u{0444}\u{0430}\u{0439}\u{043b}\u{044b}",
            Language::Zh => "\u{6dfb}\u{52a0}\u{6587}\u{4ef6}",
        }
    }

    /// "Add Folder" button label.
    pub fn add_folder(&self) -> (r: &'static str)
        ensures
            r@ == ui_text(UiText::AddFolder, self.spec_language()),
    {
        match self.lang {
            Language::En => "Add Folder",
            Language::Ru => "\u{0414}\u{043e}\u{0431}\u{0430}\u{0432}\u{0438}\u{0442}\u{044c} \u{043f}\u{0430}\u{043f}\u{043a}\u{0443}",
            Language::Zh => "\u{6dfb}\u{52a0}\u{6587}\u{4ef6}\u{5939}",
        }
    }

    /// "Clear" button label.
    pub fn clear(&self) -> (r: &'static str)
        ensures
            r@ == ui_text(UiText::Clear, self.spec_language()),
    {
        match self.lang {
            Language::En => "Clear",
            Language::Ru => "\u{041e}\u{0447}\u{0438}\u{0441}\u{0442}\u{0438}\u{0442}\u{044c}",
            Language::Zh => "\u{6e05}\u{7a7a}",
        }
    }

    /// "Convert" button label.
    pub fn convert(&self) -> (r: &'static str)
        ensures
            r@ == ui_text(UiText::Convert, self.spec_language()),
    {
        match self.lang {
            Language::En => "Convert",
            Language::Ru => "\u{041a}\u{043e}\u{043d}\u{0432}\u{0435}\u{0440}\u{0442}\u{0438}\u{0440}\u{043e}\u{0432}\u{0430}\u{0442}\u{044c}",
            Language::Zh => "\u{8f6c}\u{6362}",
        }
    }

    /// "Threads" label.
    pub fn threads(&self) -> (r: &'static str)
        ensures
            r@ == ui_text(UiText::Threads, self.spec_language()),
    {
        match self.lang {
            Language::En => "Threads",
            Language::Ru => "\u{041f}\u{043e}\u{0442}\u{043e}\u{043a}\u{0438}",
            Language::Zh => "\u{7ebf}\u{7a0b}\u{6570}",
        }
    }

    /// "Output" heading.
    pub fn output(&self) -> (r: &'static str)
        ensures
            r@ == ui_text(UiText::Output, self.spec_language()),
    {
        match self.lang {
            Language::En => "Output",
            Language::Ru => "\u{0412}\u{044b}\u{0432}\u{043e}\u{0434}",
            Language::Zh => "\u{8f93}\u{51fa}",
        }
    }

    /// "Output Dir" label.
    pub fn output_dir(&self) -> (r: &'static str)
        ensures
            r@ == ui_text(UiText::OutputDir, self.spec_language()),
    {
        match self.lang {
            Language::En => "Output Dir",
            Language::Ru => "\u{0412}\u{044b}\u{0445}\u{043e}\u{0434}\u{043d}\u{0430}\u{044f} \u{043f}\u{0430}\u{043f}\u{043a}\u{0430}",
            Language::Zh => "\u{8f93}\u{51fa}\u{76ee}\u{5f55}",
        }
    }

    /// "Output Format" label.
    pub fn output_format(&self) -> (r: &'static str)
        ensures
            r@ == ui_text(UiText::OutputFormat, self.spec_language()),
    {
        match self.lang {
            Language::En => "Output Format",
            Language::Ru => "\u{0424}\u{043e}\u{0440}\u{043c}\u{0430}\u{0442} \u{0432}\u{044b}\u{0432}\u{043e}\u{0434}\u{0430}",
            Language::Zh => "\u{8f93}\u{51fa}\u{683c}\u{5f0f}",
        }
    }

    /// "Combined output" label.
    pub fn combined_output(&self) -> (r: &'static str)
        ensures
            r@ == ui_text(UiText::CombinedOutput, self.spec_language()),
    {
        match self.lang {
            Language::En => "Combined output",
            Language::Ru => "\u{041e}\u{0431}\u{044a}\u{0435}\u{0434}\u{0438}\u{043d}\u{0451}\u{043d}\u{043d}\u{044b}\u{0439} \u{0432}\u{044b}\u{0432}\u{043e}\u{0434}",
            Language::Zh => "\u{5408}\u{5e76}\u{8f93}\u{51fa}",
        }
    }

    /// "Preview" tab / heading.
    pub fn preview(&self) -> (r: &'static str)
        ensures
            r@ == ui_text(UiText::Preview, self.spec_language()),
    {
        match self.lang {
            Language::En => "Preview",
            Language::Ru => "\u{041f}\u{0440}\u{0435}\u{0434}\u{043f}\u{0440}\u{043e}\u{0441}\u{043c}\u{043e}\u{0442}\u{0440}",
            Language::Zh => "\u{9884}\u{89c8}",
        }
    }

    /// "Open in Browser" button label.
    pub fn open_in_browser(&self) -> (r: &'static str)
        ensures
            r@ == ui_text(UiText::OpenInBrowser, self.spec_language()),
    {
        match self.lang {
            Language::En => "Open in Browser",
            Language::Ru => "\u{041e}\u{0442}\u{043a}\u{0440}\u{044b}\u{0442}\u{044c} \u{0432} \u{0431}\u{0440}\u{0430}\u{0443}\u{0437}\u{0435}\u{0440}\u{0435}",
            Language::Zh => "\u{5728}\u{6d4f}\u{89c8}\u{5668}\u{4e2d}\u{6253}\u{5f00}",
        }
    }

    /// "Settings" heading.
    pub fn settings(&self) -> (r: &'static str)
        ensures
            r@ == ui_text(UiText::Settings, self.spec_language()),
    {
        match self.lang {
            Language::En => "Settings",
            Language::Ru => "\u{041d}\u{0430}\u{0441}\u{0442}\u{0440}\u{043e}\u{0439}\u{043a}\u{0438}",
            Language::Zh => "\u{8bbe}\u{7f6e}",
        }
    }

    /// "Language" label.
    pub fn language_label(&self) -> (r: &'static str)
        ensures
            r@ == ui_text(UiText::LanguageLabel, self.spec_language()),
    {
        match self.lang {
            Language::En => "Language",
            Language::Ru => "\u{042f}\u{0437}\u{044b}\u{043a}",
            Language::Zh => "\u{8bed}\u{8a00}",
        }
    }

    /// "OCR Languages" label.
    pub fn ocr_languages(&self) -> (r: &'static str)
        ensures
            r@ == ui_text(UiText::OcrLanguages, self.spec_language()),
    {
        match self.lang {
            Language::En => "OCR Languages",
            Language::Ru => "\u{042f}\u{0437}\u{044b}\u{043a}\u{0438} OCR",
            Language::Zh => "OCR \u{8bed}\u{8a00}",
        }
    }

    /// Status bar: ready message.
    pub fn ready_status(&self) -> (r: &'static str)
        ensures
            r@ == ui_text(UiText::ReadyStatus, self.spec_language()),
    {
        match self.lang {
            Language::En => "Ready \u{2014} Drop files or click Add Files",
            Language::Ru => "\u{0413}\u{043e}\u{0442}\u{043e}\u{0432} \u{2014} \u{041f}\u{0435}\u{0440}\u{0435}\u{0442}\u{0430}\u{0449}\u{0438}\u{0442}\u{0435} \u{0444}\u{0430}\u{0439}\u{043b}\u{044b} \u{0438}\u{043b}\u{0438} \u{043d}\u{0430}\u{0436}\u{043c}\u{0438}\u{0442}\u{0435} \u{0414}\u{043e}\u{0431}\u{0430}\u{0432}\u{0438}\u{0442}\u{044c}",
            Language::Zh => "\u{5c31}\u{7eea} \u{2014} \u{62d6}\u{653e}\u{6587}\u{4ef6}\u{6216}\u{70b9}\u{51fb}\u{6dfb}\u{52a0}\u{6587}\u{4ef6}",
        }
    }

    /// "Converting..." status.
    pub fn converting(&self) -> (r: &'static str)
        ensures
            r@ == ui_text(UiText::Converting, self.spec_language()),
    {
        match self.lang {
            Language::En => "Converting...",
            Language::Ru => "\u{041a}\u{043e}\u{043d}\u{0432}\u{0435}\u{0440}\u{0442}\u{0430}\u{0446}\u{0438}\u{044f}...",
            Language::Zh => "\u{8f6c}\u{6362}\u{4e2d}...",
        }
    }

    /// "Completed" status.
    pub fn completed(&self) -> (r: &'static str)
        ensures
            r@ == ui_text(UiText::Completed, self.spec_language()),
    {
        match self.lang {
            Language::En => "Completed",
            Language::Ru => "\u{0417}\u{0430}\u{0432}\u{0435}\u{0440}\u{0448}\u{0435}\u{043d}\u{043e}",
            Language::Zh => "\u{5b8c}\u{6210}",
        }
    }

    /// "Error" label.
    pub fn error(&self) -> (r: &'static str)
        ensures
            r@ == ui_text(UiText::Error, self.spec_language()),
    {
        match self.lang {
            Language::En => "Error",
            Language::Ru => "\u{041e}\u{0448}\u{0438}\u{0431}\u{043a}\u{0430}",
            Language::Zh => "\u{9519}\u{8bef}",
        }
    }

    /// "files converted" suffix (e.g. "3 files converted").
    pub fn files_converted(&self) -> (r: &'static str)
        ensures
            r@ == ui_text(UiText::FilesConverted, self.spec_language()),
    {
        match self.lang {
            Language::En => "files converted",
            Language::Ru => "\u{0444}\u{0430}\u{0439}\u{043b}\u{043e}\u{0432} \u{043a}\u{043e}\u{043d}\u{0432}\u{0435}\u{0440}\u{0442}\u{0438}\u{0440}\u{043e}\u{0432}\u{0430}\u{043d}\u{043e}",
            Language::Zh => "\u{4e2a}\u{6587}\u{4ef6}\u{5df2}\u{8f6c}\u{6362}",
        }
    }

    /// Drop-zone placeholder text.
    pub fn drop_files_here(&self) -> (r: &'static str)
        ensures
            r@ == ui_text(UiText::DropFilesHere, self.spec_language()),
    {
        match self.lang {
            Language::En => "Drop files here",
            Language::Ru => "\u{041f}\u{0435}\u{0440}\u{0435}\u{0442}\u{0430}\u{0449}\u{0438}\u{0442}\u{0435} \u{0444}\u{0430}\u{0439}\u{043b}\u{044b} \u{0441}\u{044e}\u{0434}\u{0430}",
            Language::Zh => "\u{62d6}\u{653e}\u{6587}\u{4ef6}\u{5230}\u{6b64}\u{5904}",
        }
    }

    /// "or click Add Files"
    pub fn or_click_add(&self) -> (r: &'static str)
        ensures
            r@ == ui_text(UiText::OrClickAdd, self.spec_language()),
    {
        match self.lang {
            Language::En => "or click Add Files",
            Language::Ru => "\u{0438}\u{043b}\u{0438} \u{043d}\u{0430}\u{0436}\u{043c}\u{0438}\u{0442}\u{0435} \u{0414}\u{043e}\u{0431}\u{0430}\u{0432}\u{0438}\u{0442}\u{044c} \u{0444}\u{0430}\u{0439}\u{043b}\u{044b}",
            Language::Zh => "\u{6216}\u{70b9}\u{51fb}\u{6dfb}\u{52a0}\u{6587}\u{4ef6}",
        }
    }

    /// "Metadata" label.
    pub fn metadata(&self) -> (r: &'static str)
        ensures
            r@ == ui_text(UiText::Metadata, self.spec_language()),
    {
        match self.lang {
            Language::En => "Metadata",
            Language::Ru => "\u{041c}\u{0435}\u{0442}\u{0430}\u{0434}\u{0430}\u{043d}\u{043d}\u{044b}\u{0435}",
            Language::Zh => "\u{5143}\u{6570}\u{636e}",
        }
    }

    /// "Rendered" label.
    pub fn rendered(&self) -> (r: &'static str)
        ensures
            r@ == ui_text(UiText::Rendered, self.spec_language()),
    {
        match self.lang {
            Language::En => "Rendered",
            Language::Ru => "\u{0420}\u{0435}\u{043d}\u{0434}\u{0435}\u{0440}",
            Language::Zh => "\u{6e32}\u{67d3}",
        }
    }

    /// "Raw MD" label.
    pub fn raw_md(&self) -> (r: &'static str)
        ensures
            r@ == ui_text(UiText::RawMd, self.spec_language()),
    {
        match self.lang {
            Language::En => "Raw MD",
            Language::Ru => "\u{0418}\u{0441}\u{0445}\u{043e}\u{0434}\u{043d}\u{044b}\u{0439} MD",
            Language::Zh => "\u{539f}\u{59cb} MD",
        }
    }

    /// Markdown preview placeholder.
    pub fn markdown_preview(&self) -> (r: &'static str)
        ensures
            r@ == ui_text(UiText::MarkdownPreview, self.spec_language()),
    {
        match self.lang {
            Language::En => "Markdown preview will appear here\nafter conversion",
            Language::Ru => "\u{041f}\u{0440}\u{0435}\u{0434}\u{043f}\u{0440}\u{043e}\u{0441}\u{043c}\u{043e}\u{0442}\u{0440} Markdown \u{043f}\u{043e}\u{044f}\u{0432}\u{0438}\u{0442}\u{0441}\u{044f} \u{0437}\u{0434}\u{0435}\u{0441}\u{044c}\n\u{043f}\u{043e}\u{0441}\u{043b}\u{0435} \u{043a}\u{043e}\u{043d}\u{0432}\u{0435}\u{0440}\u{0442}\u{0430}\u{0446}\u{0438}\u{0438}",
            Language::Zh => "Markdown \u{9884}\u{89c8}\u{5c06}\u{5728}\u{8f6c}\u{6362}\u{540e}\n\u{663e}\u{793a}\u{5728}\u{6b64}\u{5904}",
        }
    }

    /// "Save" button label.
    pub fn save(&self) -> (r: &'static str)
        ensures
            r@ == ui_text(UiText::Save, self.spec_language()),
    {
        match self.lang {
            Language::En => "Save",
            Language::Ru => "\u{0421}\u{043e}\u{0445}\u{0440}\u{0430}\u{043d}\u{0438}\u{0442}\u{044c}",
            Language::Zh => "\u{4fdd}\u{5b58}",
        }
    }

    /// "Save All" button label.
    pub fn save_all(&self) -> (r: &'static str)
        ensures
            r@ == ui_text(UiText::SaveAll, self.spec_language()),
    {
        match self.lang {
            Language::En => "Save All",
            Language::Ru => "\u{0421}\u{043e}\u{0445}\u{0440}\u{0430}\u{043d}\u{0438}\u{0442}\u{044c} \u{0432}\u{0441}\u{0435}",
            Language::Zh => "\u{5168}\u{90e8}\u{4fdd}\u{5b58}",
        }
    }

    /// "Theme" label.
    pub fn theme(&self) -> (r: &'static str)
        ensures
            r@ == ui_text(UiText::Theme, self.spec_language()),
    {
        match self.lang {
            Language::En => "Theme",
            Language::Ru => "\u{0422}\u{0435}\u{043c}\u{0430}",
            Language::Zh => "\u{4e3b}\u{9898}",
        }
    }

    /// "Dark" theme option.
    pub fn dark(&self) -> (r: &'static str)
        ensures
            r@ == ui_text(UiText::Dark, self.spec_language()),
    {
        match self.lang {
            Language::En => "Dark",
            Language::Ru => "\u{0422}\u{0451}\u{043c}\u{043d}\u{0430}\u{044f}",
            Language::Zh => "\u{6df1}\u{8272}",
        }
    }

    /// "Light" theme option.
    pub fn light(&self) -> (r: &'static str)
        ensures
            r@ == ui_text(UiText::Light, self.spec_language()),
    {
        match self.lang {
            Language::En => "Light",
            Language::Ru => "\u{0421}\u{0432}\u{0435}\u{0442}\u{043b}\u{0430}\u{044f}",
            Language::Zh => "\u{6d45}\u{8272}",
        }
    }

    /// "Font Size" label.
    pub fn font_size(&self) -> (r: &'static str)
        ensures
            r@ == ui_text(UiText::FontSize, self.spec_language()),
    {
        match self.lang {
            Language::En => "Font Size",
            Language::Ru => "\u{0420}\u{0430}\u{0437}\u{043c}\u{0435}\u{0440} \u{0448}\u{0440}\u{0438}\u{0444}\u{0442}\u{0430}",
            Language::Zh => "\u{5b57}\u{4f53}\u{5927}\u{5c0f}",
        }
    }

    /// "No files in queue" message.
    pub fn no_files_in_queue(&self) -> (r: &'static str)
        ensures
            r@ == ui_text(UiText::NoFilesInQueue, self.spec_language()),
    {
        match self.lang {
            Language::En => "No files in queue",
            Language::Ru => "\u{041d}\u{0435}\u{0442} \u{0444}\u{0430}\u{0439}\u{043b}\u{043e}\u{0432} \u{0432} \u{043e}\u{0447}\u{0435}\u{0440}\u{0435}\u{0434}\u{0438}",
            Language::Zh => "\u{961f}\u{5217}\u{4e2d}\u{6ca1}\u{6709}\u{6587}\u{4ef6}",
        }
    }

    /// "files in queue" suffix.
    pub fn files_in_queue(&self) -> (r: &'static str)
        ensures
            r@ == ui_text(UiText::FilesInQueue, self.spec_language()),
    {
        match self.lang {
            Language::En => "files in queue",
            Language::Ru => "\u{0444}\u{0430}\u{0439}\u{043b}\u{043e}\u{0432} \u{0432} \u{043e}\u{0447}\u{0435}\u{0440}\u{0435}\u{0434}\u{0438}",
            Language::Zh => "\u{4e2a}\u{6587}\u{4ef6}\u{5728}\u{961f}\u{5217}\u{4e2d}",
        }
    }

    /// "Total words" label.
    pub fn total_words(&self) -> (r: &'static str)
        ensures
            r@ == ui_text(UiText::TotalWords, self.spec_language()),
    {
        match self.lang {
            Language::En => "Total words",
            Language::Ru => "\u{0412}\u{0441}\u{0435}\u{0433}\u{043e} \u{0441}\u{043b}\u{043e}\u{0432}",
            Language::Zh => "\u{603b}\u{8bcd}\u{6570}",
        }
    }

    /// "Time" (conversion time) label.
    pub fn conversion_time(&self) -> (r: &'static str)
        ensures
            r@ == ui_text(UiText::ConversionTime, self.spec_language()),
    {
        match self.lang {
            Language::En => "Time",
            Language::Ru => "\u{0412}\u{0440}\u{0435}\u{043c}\u{044f}",
            Language::Zh => "\u{7528}\u{65f6}",
        }
    }

    /// "Speed" label.
    pub fn speed(&self) -> (r: &'static str)
        ensures
            r@ == ui_text(UiText::Speed, self.spec_language()),
    {
        match self.lang {
            Language::En => "Speed",
            Language::Ru => "\u{0421}\u{043a}\u{043e}\u{0440}\u{043e}\u{0441}\u{0442}\u{044c}",
            Language::Zh => "\u{901f}\u{5ea6}",
        }
    }

    /// Tesseract OCR not-found warning.
    pub fn tesseract_not_found(&self) -> (r: &'static str)
        ensures
            r@ == ui_text(UiText::TesseractNotFound, self.spec_language()),
    {
        match self.lang {
            Language::En => "OCR: Tesseract engine not installed (tessdata embedded, install libtesseract-dev or tesseract-ocr)",
            Language::Ru => "OCR: \u{0434}\u{0432}\u{0438}\u{0436}\u{043e}\u{043a} Tesseract \u{043d}\u{0435} \u{0443}\u{0441}\u{0442}\u{0430}\u{043d}\u{043e}\u{0432}\u{043b}\u{0435}\u{043d} (\u{044f}\u{0437}\u{044b}\u{043a}\u{043e}\u{0432}\u{044b}\u{0435} \u{0434}\u{0430}\u{043d}\u{043d}\u{044b}\u{0435} \u{0432}\u{0441}\u{0442}\u{0440}\u{043e}\u{0435}\u{043d}\u{044b}, \u{0443}\u{0441}\u{0442}\u{0430}\u{043d}\u{043e}\u{0432}\u{0438}\u{0442}\u{0435} libtesseract-dev \u{0438}\u{043b}\u{0438} tesseract-ocr)",
            Language::Zh => "OCR: Tesseract \u{5f15}\u{64ce}\u{672a}\u{5b89}\u{88c5} (\u{8bed}\u{8a00}\u{6570}\u{636e}\u{5df2}\u{5d4c}\u{5165}\u{ff0c}\u{8bf7}\u{5b89}\u{88c5} libtesseract-dev \u{6216} tesseract-ocr)",
        }
    }

    /// "OCR Engine" label.
    pub fn ocr_engine(&self) -> (r: &'static str)
        ensures
            r@ == ui_text(UiText::OcrEngine, self.spec_language()),
    {
        match self.lang {
            Language::En => "OCR Engine",
            Language::Ru => "\u{0414}\u{0432}\u{0438}\u{0436}\u{043e}\u{043a} OCR",
            Language::Zh => "OCR \u{5f15}\u{64ce}",
        }
    }

    /// "Supported Formats" label.
    pub fn supported_formats(&self) -> (r: &'static str)
        ensures
            r@ == ui_text(UiText::SupportedFormats, self.spec_language()),
    {
        match self.lang {
            Language::En => "Supported Formats",
            Language::Ru => "\u{041f}\u{043e}\u{0434}\u{0434}\u{0435}\u{0440}\u{0436}\u{0438}\u{0432}\u{0430}\u{0435}\u{043c}\u{044b}\u{0435} \u{0444}\u{043e}\u{0440}\u{043c}\u{0430}\u{0442}\u{044b}",
            Language::Zh => "\u{652f}\u{6301}\u{7684}\u{683c}\u{5f0f}",
        }
    }

    /// "Editor" tab / label.
    pub fn editor(&self) -> (r: &'static str)
        ensures
            r@ == ui_text(UiText::Editor, self.spec_language()),
    {
        match self.lang {
            Language::En => "Editor",
            Language::Ru => "\u{0420}\u{0435}\u{0434}\u{0430}\u{043a}\u{0442}\u{043e}\u{0440}",
            Language::Zh => "\u{7f16}\u{8f91}\u{5668}",
        }
    }

    /// "Viewer" tab / label.
    pub fn viewer(&self) -> (r: &'static str)
        ensures
            r@ == ui_text(UiText::Viewer, self.spec_language()),
    {
        match self.lang {
            Language::En => "Viewer",
            Language::Ru => "\u{041f}\u{0440}\u{043e}\u{0441}\u{043c}\u{043e}\u{0442}\u{0440}",
            Language::Zh => "\u{67e5}\u{770b}\u{5668}",
        }
    }

    /// "Copy" button label.
    pub fn copy(&self) -> (r: &'static str)
        ensures
            r@ == ui_text(UiText::Copy, self.spec_language()),
    {
        match self.lang {
            Language::En => "Copy",
            Language::Ru => "\u{041a}\u{043e}\u{043f}\u{0438}\u{0440}\u{043e}\u{0432}\u{0430}\u{0442}\u{044c}",
            Language::Zh => "\u{590d}\u{5236}",
        }
    }

    /// "words" unit (e.g. "42 words").
    pub fn word_count(&self) -> (r: &'static str)
        ensures
            r@ == ui_text(UiText::WordCount, self.spec_language()),
    {
        match self.lang {
            Language::En => "words",
            Language::Ru => "\u{0441}\u{043b}\u{043e}\u{0432}",
            Language::Zh => "\u{8bcd}",
        }
    }

    /// "Failed" label (for failed files count).
    pub fn failed_files(&self) -> (r: &'static str)
        ensures
            r@ == ui_text(UiText::FailedFiles, self.spec_language()),
    {
        match self.lang {
            Language::En => "Failed",
            Language::Ru => "\u{041d}\u{0435} \u{0443}\u{0434}\u{0430}\u{043b}\u{043e}\u{0441}\u{044c}",
            Language::Zh => "\u{5931}\u{8d25}",
        }
    }

    /// "About" label.
    pub fn about(&self) -> (r: &'static str)
        ensures
            r@ == ui_text(UiText::About, self.spec_language()),
    {
        match self.lang {
            Language::En => "About",
            Language::Ru => "\u{041e} \u{043f}\u{0440}\u{043e}\u{0433}\u{0440}\u{0430}\u{043c}\u{043c}\u{0435}",
            Language::Zh => "\u{5173}\u{4e8e}",
        }
    }

    /// "Version" label.
    pub fn version(&self) -> (r: &'static str)
        ensures
            r@ == ui_text(UiText::Version, self.spec_language()),
    {
        match self.lang {
            Language::En => "Version",
            Language::Ru => "\u{0412}\u{0435}\u{0440}\u{0441}\u{0438}\u{044f}",
            Language::Zh => "\u{7248}\u{672c}",
        }
    }

    /// "Select OCR languages" placeholder / prompt.
    pub fn select_ocr_languages(&self) -> (r: &'static str)
        ensures
            r@ == ui_text(UiText::SelectOcrLanguages, self.spec_language()),
    {
        match self.lang {
            Language::En => "Select OCR languages",
            Language::Ru => "\u{0412}\u{044b}\u{0431}\u{0435}\u{0440}\u{0438}\u{0442}\u{0435} \u{044f}\u{0437}\u{044b}\u{043a}\u{0438} OCR",
            Language::Zh => "\u{9009}\u{62e9} OCR \u{8bed}\u{8a00}",
        }
    }
}

} // verus!
