# mdrust

A document-to-Markdown converter whose logic is verified with Verus.

`src/` is the library. Every function there carries a contract that Verus
proves: format detection, word counting, the Markdown produced for each input
format (DOCX, PPTX, XLSX, ODT, RTF, CSV/TSV, JSON, HTML, XML, ZIP, PDF text,
OCR text), the HTML preview and export pages, the DOCX export model, the
conversion queue of the desktop interface and the interface strings.

Calls into other crates (zip, quick-xml, csv, serde_json, regex, htmd,
comrak, pulldown-cmark, docx-rs, umya-spreadsheet, lopdf) go through small
trusted wrappers whose contracts are stated next to them; the logic around
them is verified against those contracts.

- `src/text.rs`, `src/utils.rs`: string helpers, paths, formats, sizes, word counts.
- `src/converters/`: one module per input format.
- `src/export/`: Markdown to HTML and to DOCX.
- `src/preview.rs`: the preview page.
- `src/queue.rs`, `src/batch.rs`: the file queue and batch output.
- `src/archive.rs`, `src/xml.rs`: ZIP and XML reading.
- `src/i18n.rs`, `src/ocr.rs`, `src/cpu.rs`, `src/options.rs`.
- `app/`: the command-line program (file and network I/O, subprocesses,
  the worker pool, CPU feature detection).
- `tests/`: tests of the library.
