use mdserve::disk::{DiskReply, DiskRequest};
use mdserve::document::{home_dir, serve_raw, MarkdownState, OpenRun, RefreshRun};
use mdserve::error::ServeError;
use mdserve::page::{
    html_or_notice, markdown_to_html, page_or_error, render_document, MERMAID_MARKER,
};
use mdserve::reply::{Body, Reply, Status};
use mdserve::session::ServerMessage;
use mdserve::static_files::{resume_static, serve_static_file, StaticRun};
use mdserve::template::TemplateError;

const PATH: &[u8] = b"/srv/docs/notes.md";

/// A disk with one file on it.
struct Disk {
    text: &'static str,
    modified: i128,
}

impl Disk {
    fn perform(&self, request: DiskRequest) -> DiskReply {
        match request {
            DiskRequest::Canonicalize(path) => DiskReply::Canonical(Ok(path)),
            DiskRequest::Modified(path) => {
                assert_eq!(path, PATH.to_vec());
                DiskReply::Modified(Ok(self.modified))
            }
            DiskRequest::ReadText(path) => {
                assert_eq!(path, PATH.to_vec());
                DiskReply::Text(Ok(self.text.to_string()))
            }
            other => panic!("{:?}", other),
        }
    }

    fn open(&self) -> Result<MarkdownState, ServeError> {
        let mut run = MarkdownState::new(PATH.to_vec());
        while let Some(request) = run.request() {
            run = run.resume(self.perform(request));
        }
        match run {
            OpenRun::Done(outcome) => outcome,
            other => panic!("{:?}", other),
        }
    }

    fn refresh(&self, state: &mut MarkdownState) -> (Result<bool, ServeError>, Option<ServerMessage>) {
        let mut run = state.refresh_if_needed();
        while let Some(request) = state.refresh_request(&run) {
            run = state.resume_refresh(run, self.perform(request));
        }
        let news = run.announcement();
        match run {
            RefreshRun::Done(outcome) => (outcome, news),
            other => panic!("{:?}", other),
        }
    }
}

#[test]
fn test_file_content_source_implements_trait() {
    let disk = Disk { text: "# Test", modified: 1 };
    assert!(disk.open().is_ok(), "FileContentSource should be created");
}

#[test]
fn test_file_content_source_get_html() {
    let disk = Disk { text: "# Hello\n\n**Bold**", modified: 1 };
    let html = disk.open().expect("Failed to create source").get_html();
    assert!(html.contains("<h1>Hello</h1>"));
    assert!(html.contains("<strong>Bold</strong>"));
}

#[test]
fn test_file_content_source_get_raw_content() {
    let content = "# Raw Content\n\nTest";
    let disk = Disk { text: content, modified: 1 };
    let source = disk.open().expect("Failed to create source");
    let raw = match disk.perform(source.get_raw_content()) {
        DiskReply::Text(raw) => raw.expect("Failed to get raw content"),
        other => panic!("{:?}", other),
    };
    assert_eq!(raw, content);
    let reply = serve_raw(Ok(raw));
    assert_eq!(reply.status, Status::Success);
    assert!(matches!(&reply.body, Body::Text(text) if text == content));
}

#[test]
fn test_file_content_source_refresh_detects_changes() {
    let disk = Disk { text: "# Original", modified: 10 };
    let mut source = disk.open().expect("Failed to create source");

    let (changed, news) = disk.refresh(&mut source);
    assert!(!changed.expect("Refresh failed"), "Should not detect changes on first check");
    assert_eq!(news, None);

    let disk = Disk { text: "# Modified", modified: 20 };
    let (changed, news) = disk.refresh(&mut source);
    assert!(changed.expect("Refresh failed"), "Should detect file modification");
    assert_eq!(news, Some(ServerMessage::Reload));

    let html = source.get_html();
    assert!(html.contains("<h1>Modified</h1>"));
    assert!(!html.contains("<h1>Original</h1>"));

    // A second refresh finds nothing to do, and an older file is left alone.
    let (changed, news) = disk.refresh(&mut source);
    assert!(!changed.unwrap());
    assert_eq!(news, None);
    let (changed, _) = Disk { text: "# Older", modified: 15 }.refresh(&mut source);
    assert!(!changed.unwrap());
    assert_eq!(source.last_modified, 20);
}

#[test]
fn test_content_source_trait_object() {
    let disk = Disk { text: "# Trait Test", modified: 1 };
    let source: Box<MarkdownState> = Box::new(disk.open().unwrap());
    let html = source.get_html();
    assert!(html.contains("<h1>Trait Test</h1>"));
}

#[test]
fn opened_file_knows_its_directory() {
    let state = Disk { text: "", modified: 1 }.open().unwrap();
    assert_eq!(state.get_base_dir(), b"/srv/docs/");

    let mut run = MarkdownState::new(PATH.to_vec());
    run = run.resume(DiskReply::Modified(Ok(-5)));
    run = run.resume(DiskReply::Text(Ok(String::new())));
    run = run.resume(DiskReply::Canonical(Err("gone".to_string())));
    match run {
        OpenRun::Done(Ok(state)) => {
            assert_eq!(state.base_dir, b"/srv/docs/".to_vec());
            assert_eq!(state.last_modified, -5);
            assert_eq!(state.file_path, PATH.to_vec());
        }
        other => panic!("{:?}", other),
    }
    assert_eq!(home_dir(b"/"), b".".to_vec());
    assert_eq!(home_dir(b""), b".".to_vec());
}

#[test]
fn bare_file_name_stands_in_the_current_directory() {
    for name in [&b"notes.md"[..], b"notes.md/", b".", b"..", b"./"] {
        assert_eq!(home_dir(name), b".".to_vec());
    }
    assert_eq!(home_dir(b"./notes.md"), b"./".to_vec());
    assert_eq!(home_dir(b"docs/notes.md"), b"docs/".to_vec());
    assert_eq!(home_dir(b"/notes.md"), b"/".to_vec());
}

/// Opens a file by its bare name, with what the file system says of the current directory.
fn open_bare(canonical: Result<Vec<u8>, String>) -> MarkdownState {
    let run = MarkdownState::new(b"README.md".to_vec())
        .resume(DiskReply::Modified(Ok(1)))
        .resume(DiskReply::Text(Ok("# Read me".to_string())));
    assert!(matches!(run.request(), Some(DiskRequest::Canonicalize(path)) if path == b"."));
    match run.resume(DiskReply::Canonical(canonical)) {
        OpenRun::Done(Ok(state)) => state,
        other => panic!("{:?}", other),
    }
}

/// Asks for an image that the file system finds at `found`.
fn image(state: &MarkdownState, path: &str, found: &[u8]) -> Reply {
    let base_dir = state.get_base_dir();
    let run = serve_static_file(base_dir, path);
    let run = resume_static(base_dir, path, run, DiskReply::Canonical(Ok(found.to_vec())));
    match resume_static(base_dir, path, run, DiskReply::Bytes(Ok(vec![7]))) {
        StaticRun::Done(reply) => reply,
        other => panic!("{:?}", other),
    }
}

#[test]
fn file_opened_by_its_bare_name_serves_only_its_directory() {
    let state = open_bare(Ok(b"/srv".to_vec()));
    assert_eq!(state.get_base_dir(), b"/srv");
    let denied = image(&state, "../secret.png", b"/secret.png");
    assert_eq!(denied.status, Status::Forbidden);
    assert!(matches!(&denied.body, Body::Text(text) if text == "Access denied"));
    let served = image(&state, "img/a.png", b"/srv/img/a.png");
    assert_eq!(served.status, Status::Success);
    assert!(matches!(&served.body, Body::Bytes(bytes) if *bytes == vec![7]));
}

#[test]
fn directory_without_canonical_form_serves_nothing() {
    let state = open_bare(Err("gone".to_string()));
    assert_eq!(state.get_base_dir(), b".");
    for found in [&b"/secret.png"[..], b"/srv/a.png", b"/"] {
        assert_eq!(image(&state, "../secret.png", found).status, Status::Forbidden);
    }
}

#[test]
fn file_that_cannot_be_opened_is_an_error() {
    let run = MarkdownState::new(PATH.to_vec()).resume(DiskReply::Modified(Err("gone".to_string())));
    assert!(matches!(run, OpenRun::Done(Err(ServeError::Io(reason))) if reason == "gone"));
    let run = MarkdownState::new(PATH.to_vec())
        .resume(DiskReply::Modified(Ok(1)))
        .resume(DiskReply::Text(Err("not text".to_string())));
    assert!(matches!(run, OpenRun::Done(Err(ServeError::Io(reason))) if reason == "not text"));
}

#[test]
fn reply_to_nothing_changes_nothing() {
    let run = MarkdownState::new(PATH.to_vec()).resume(DiskReply::Text(Ok("x".to_string())));
    assert!(matches!(run, OpenRun::Stat { file_path } if file_path == PATH.to_vec()));
}

#[test]
fn failed_refresh_keeps_the_page() {
    let mut state = Disk { text: "# Kept", modified: 1 }.open().unwrap();
    let html = state.get_html();
    let run = state.refresh_if_needed();
    let run = state.resume_refresh(run, DiskReply::Modified(Ok(2)));
    let run = state.resume_refresh(run, DiskReply::Text(Err("locked".to_string())));
    assert_eq!(run.announcement(), None);
    match run {
        RefreshRun::Done(outcome) => {
            let reply = state.serve_html(outcome);
            assert_eq!(reply.status, Status::InternalServerError);
            assert_eq!(reply.status.code(), 500);
            assert!(
                matches!(&reply.body, Body::Html(page) if page == "<h1>Error</h1><p>locked</p>")
            );
        }
        other => panic!("{:?}", other),
    }
    assert_eq!(state.get_html(), html);
    assert_eq!(state.last_modified, 1);
    let run = state.refresh_if_needed();
    let run = state.resume_refresh(run, DiskReply::Modified(Err("gone".to_string())));
    assert!(matches!(run, RefreshRun::Done(Err(ServeError::Io(reason))) if reason == "gone"));
}

#[test]
fn page_is_served_after_a_refresh() {
    let disk = Disk { text: "# Page", modified: 1 };
    let mut state = disk.open().unwrap();
    let (outcome, _) = disk.refresh(&mut state);
    let reply = state.serve_html(outcome);
    assert_eq!(reply.status, Status::Success);
    assert!(matches!(&reply.body, Body::Html(page) if *page == state.cached_html));
    assert!(reply.headers.is_empty());
}

#[test]
fn raw_text_that_cannot_be_read_is_an_error() {
    let reply = serve_raw(Err("gone".to_string()));
    assert_eq!(reply.status, Status::InternalServerError);
    assert!(matches!(&reply.body, Body::Text(text) if text == "Error reading file: gone"));
}

#[test]
fn markdown_is_compiled_as_gfm() {
    let page = markdown_to_html("# Trait Test\n\n~~gone~~\n\n| a |\n|---|\n| b |\n\n- [x] done").unwrap();
    assert!(page.contains("<h1>Trait Test</h1>"));
    assert!(page.contains("<del>gone</del>"));
    assert!(page.contains("<table>"));
    assert!(page.contains("type=\"checkbox\""));
}

#[test]
fn html_in_documents_is_kept() {
    let page = markdown_to_html("<div class=\"mine\">\n\ntext\n\n</div>").unwrap();
    assert!(page.contains("<div class=\"mine\">"));
}

#[test]
fn diagrams_are_drawn_only_where_there_are_some() {
    let with = markdown_to_html("```mermaid\ngraph TD\n```").unwrap();
    assert!(with.contains(MERMAID_MARKER));
    assert!(with.contains("/mermaid.min.js"));
    let without = markdown_to_html("```rust\nfn main() {}\n```").unwrap();
    assert!(!without.contains("/mermaid.min.js"));
}

#[test]
fn page_holds_the_html_unescaped() {
    let html = "<p>a &amp; {{ b }} <b>c</b></p>";
    let page = render_document(html.to_string()).unwrap();
    assert!(page.contains(html));
    assert!(page.contains("\"/ws\""));
    assert_ne!(page, html);
}

#[test]
fn every_document_gets_its_page() {
    for text in ["", "{{ b }} {% c %} {# d", "{% endif %}", "<b", "\u{0}\u{feff}", "[a](<b", "~~~\n{%"] {
        let page = markdown_to_html(text).unwrap();
        let mut options = markdown::Options::gfm();
        options.compile.allow_dangerous_html = true;
        let html = markdown::to_html_with_options(text, &options).unwrap();
        assert!(page.contains(&html), "{}", text);
        let state = Disk { text, modified: 1 }.open().unwrap();
        assert_eq!(state.get_html(), page);
    }
}

#[test]
fn document_that_does_not_compile_leaves_a_notice() {
    let options = markdown::Options {
        parse: markdown::ParseOptions::mdx(),
        ..markdown::Options::default()
    };
    let failed = markdown::to_html_with_options("a {b", &options);
    assert!(failed.is_err());
    assert_eq!(html_or_notice(failed), "Error parsing markdown");
    assert_eq!(html_or_notice(Ok("<p>a</p>".to_string())), "<p>a</p>");
}

#[test]
fn template_errors_become_page_errors() {
    let load = page_or_error(Err(TemplateError::Load("syntax".to_string())));
    assert!(matches!(&load, Err(ServeError::Page(reason)) if reason == "syntax"));
    assert_eq!(load.unwrap_err().message(), "syntax");
    let render = page_or_error(Err(TemplateError::Render("value".to_string())));
    assert!(matches!(&render, Err(ServeError::Page(reason)) if reason == "value"));
    assert_eq!(page_or_error(Ok("page".to_string())).unwrap(), "page");
}
