use mdserve::directory::{DirectoryState, ListRun, OpenDirRun, RawRun, RenderRun};
use mdserve::disk::{DiskReply, DiskRequest, RawEntry};
use mdserve::error::ServeError;
use mdserve::index::{
    answer_with_index, index_row, serve_directory_index, serve_file_from_directory,
    serve_raw_from_directory,
};
use mdserve::listing::{list_entries, FileEntry};
use mdserve::reply::{Body, Reply, Status};
use mdserve::static_files::{resume_static, serve_static_file, StaticRun};
use mdserve::template::TemplateError;

const ROOT: &[u8] = b"/srv/docs";

/// A disk on which `..` is followed and every other path is canonical already.
struct Disk {
    modified: i128,
    text: &'static str,
    asked: Vec<String>,
}

fn canonical(path: &[u8]) -> Vec<u8> {
    let mut kept: Vec<&[u8]> = Vec::new();
    for piece in path.split(|b| *b == b'/') {
        match piece {
            b"" | b"." => {}
            b".." => {
                kept.pop();
            }
            name => kept.push(name),
        }
    }
    let mut whole = Vec::new();
    for name in kept {
        whole.push(b'/');
        whole.extend_from_slice(name);
    }
    whole
}

fn raw(name: &str, is_dir: bool) -> RawEntry {
    RawEntry {
        name: name.to_string(),
        path: format!("/srv/docs/{}", name).into_bytes(),
        is_dir,
        is_file: !is_dir,
    }
}

impl Disk {
    fn perform(&mut self, request: DiskRequest) -> DiskReply {
        let (kind, path) = match &request {
            DiskRequest::Canonicalize(p) => ("find", p),
            DiskRequest::Modified(p) => ("age", p),
            DiskRequest::ReadText(p) => ("text", p),
            DiskRequest::ReadBytes(p) => ("bytes", p),
            DiskRequest::ReadDir(p) => ("dir", p),
        };
        let path = path.clone();
        self.asked.push(format!("{} {}", kind, String::from_utf8(path.clone()).unwrap()));
        let missing = path.ends_with(b"missing.md") || path.ends_with(b"missing.png");
        match request {
            DiskRequest::Canonicalize(_) if missing => {
                DiskReply::Canonical(Err("no such file".to_string()))
            }
            DiskRequest::Canonicalize(_) => DiskReply::Canonical(Ok(canonical(&path))),
            DiskRequest::Modified(_) => DiskReply::Modified(Ok(self.modified)),
            DiskRequest::ReadText(_) => DiskReply::Text(Ok(self.text.to_string())),
            DiskRequest::ReadBytes(_) => DiskReply::Bytes(Ok(vec![1, 2, 3])),
            DiskRequest::ReadDir(_) => DiskReply::Entries(Ok(vec![
                raw("zoo.md", false),
                raw(".git", true),
                raw("img", true),
            ])),
        }
    }

    fn render(&mut self, state: &mut DirectoryState, path: &str) -> Result<String, ServeError> {
        self.asked.clear();
        let mut run = state.render_file(path);
        while let Some(request) = run.request() {
            run = state.resume_render(run, self.perform(request));
        }
        match run {
            RenderRun::Done(outcome) => outcome,
            other => panic!("{:?}", other),
        }
    }

    fn read(&mut self, state: &DirectoryState, path: &str) -> Result<String, ServeError> {
        self.asked.clear();
        let mut run = state.get_raw_file(path);
        while let Some(request) = run.request() {
            run = state.resume_raw(run, self.perform(request));
        }
        match run {
            RawRun::Done(outcome) => outcome,
            other => panic!("{:?}", other),
        }
    }

    fn list(&mut self, state: &DirectoryState, path: &str) -> Result<Vec<FileEntry>, ServeError> {
        self.asked.clear();
        let mut run = state.list_directory(path);
        while let Some(request) = run.request() {
            run = state.resume_list(run, self.perform(request));
        }
        match run {
            ListRun::Done(outcome) => outcome,
            other => panic!("{:?}", other),
        }
    }

    fn image(&mut self, path: &str) -> Reply {
        self.asked.clear();
        let mut run = serve_static_file(ROOT, path);
        while let Some(request) = run.request() {
            run = resume_static(ROOT, path, run, self.perform(request));
        }
        match run {
            StaticRun::Done(reply) => reply,
            other => panic!("{:?}", other),
        }
    }
}

fn disk() -> Disk {
    Disk { modified: 10, text: "# One", asked: Vec::new() }
}

/// Opens a directory that the file system finds at `found`.
fn open(root_dir: &[u8], found: &[u8]) -> DirectoryState {
    let run = DirectoryState::new(root_dir.to_vec());
    assert!(matches!(run.request(), Some(DiskRequest::Canonicalize(path)) if path == root_dir));
    match run.resume(DiskReply::Canonical(Ok(found.to_vec()))) {
        OpenDirRun::Done(Ok(state)) => state,
        other => panic!("{:?}", other),
    }
}

fn names(entries: &[FileEntry]) -> Vec<String> {
    entries.iter().map(|e| e.name.clone()).collect()
}

fn html(reply: &Reply) -> String {
    match &reply.body {
        Body::Html(page) => page.clone(),
        other => panic!("{:?}", other),
    }
}

fn plain(reply: &Reply) -> String {
    match &reply.body {
        Body::Text(text) => text.clone(),
        other => panic!("{:?}", other),
    }
}

#[test]
fn directory_may_be_named_by_a_relative_path() {
    for name in [&b"."[..], b"docs/", b"../docs"] {
        let mut state = open(name, ROOT);
        assert_eq!(state.root_dir, ROOT.to_vec());
        let mut disk = disk();
        assert_eq!(names(&disk.list(&state, "").unwrap()), vec!["img", "zoo.md"]);
        assert_eq!(disk.asked, vec!["find /srv/docs/", "dir /srv/docs"]);
        assert!(disk.render(&mut state, "a.md").unwrap().contains("<h1>One</h1>"));
        assert_eq!(disk.read(&state, "a.md").unwrap(), "# One");
        assert!(matches!(disk.read(&state, "../secret.md"), Err(ServeError::OutsideRoot)));
    }
}

#[test]
fn directory_that_cannot_be_found_is_not_opened() {
    let run = DirectoryState::new(b"docs".to_vec());
    let run = run.resume(DiskReply::Text(Ok("x".to_string())));
    assert!(matches!(&run, OpenDirRun::Resolve { root_dir } if root_dir == b"docs"));
    let run = run.resume(DiskReply::Canonical(Err("gone".to_string())));
    assert!(run.request().is_none());
    assert!(matches!(run, OpenDirRun::Done(Err(ServeError::Io(reason))) if reason == "gone"));
}

#[test]
fn kept_page_is_used_until_the_file_is_newer() {
    let mut state = open(ROOT, ROOT);
    let mut disk = disk();
    let first = disk.render(&mut state, "a.md").unwrap();
    assert!(first.contains("<h1>One</h1>"));
    assert_eq!(
        disk.asked,
        vec!["find /srv/docs/a.md", "text /srv/docs/a.md", "age /srv/docs/a.md"]
    );

    disk.text = "# Two";
    assert_eq!(disk.render(&mut state, "sub/../a.md").unwrap(), first);
    assert_eq!(disk.asked, vec!["find /srv/docs/sub/../a.md", "age /srv/docs/a.md"]);

    disk.modified = 11;
    let second = disk.render(&mut state, "a.md").unwrap();
    assert!(second.contains("<h1>Two</h1>"));
    assert_eq!(disk.asked.len(), 4);
    assert_eq!(state.file_cache.get(b"/srv/docs/a.md").unwrap().last_modified, 11);
}

#[test]
fn pages_of_other_files_stay() {
    let mut state = open(ROOT, ROOT);
    let mut disk = disk();
    let a = disk.render(&mut state, "a.md").unwrap();
    disk.text = "# Other";
    let b = disk.render(&mut state, "b.md").unwrap();
    assert_ne!(a, b);
    assert_eq!(state.file_cache.get(b"/srv/docs/a.md").unwrap().cached_html, a);
    assert_eq!(state.file_cache.get(b"/srv//docs/./b.md").unwrap().cached_html, b);
    assert!(state.file_cache.get(b"/srv/docs/c.md").is_none());
}

#[test]
fn failed_rendering_keeps_nothing() {
    let mut state = open(ROOT, ROOT);
    let run = state.render_file("a.md");
    let run = state.resume_render(run, DiskReply::Canonical(Ok(b"/srv/docs/a.md".to_vec())));
    let run = state.resume_render(run, DiskReply::Text(Ok("# A".to_string())));
    let run = state.resume_render(run, DiskReply::Modified(Err("gone".to_string())));
    assert!(matches!(run, RenderRun::Done(Err(ServeError::Io(reason))) if reason == "gone"));
    assert!(state.file_cache.get(b"/srv/docs/a.md").is_none());

    let run = state.render_file("a.md");
    let run = state.resume_render(run, DiskReply::Canonical(Ok(b"/srv/docs/a.md".to_vec())));
    let run = state.resume_render(run, DiskReply::Text(Err("binary".to_string())));
    assert!(matches!(run, RenderRun::Done(Err(ServeError::Io(reason))) if reason == "binary"));
}

#[test]
fn age_that_cannot_be_read_is_an_error() {
    let mut state = open(ROOT, ROOT);
    disk().render(&mut state, "a.md").unwrap();
    let run = state.render_file("a.md");
    let run = state.resume_render(run, DiskReply::Canonical(Ok(b"/srv/docs/a.md".to_vec())));
    let run = state.resume_render(run, DiskReply::Modified(Err("gone".to_string())));
    assert!(matches!(run, RenderRun::Done(Err(ServeError::Io(reason))) if reason == "gone"));
}

#[test]
fn outside_paths_are_refused_unread() {
    let mut state = open(ROOT, ROOT);
    let mut disk = disk();
    for path in ["../secret.md", "/etc/passwd", "a/../../x.md"] {
        let refused = disk.render(&mut state, path);
        assert!(matches!(&refused, Err(ServeError::OutsideRoot)));
        assert_eq!(disk.asked.len(), 1);
        let reply = serve_file_from_directory(refused);
        assert_eq!(reply.status, Status::NotFound);
        assert_eq!(
            html(&reply),
            "<h1>Not Found</h1><p>Access denied: path outside root directory</p>"
        );

        let refused = disk.read(&state, path);
        assert!(matches!(&refused, Err(ServeError::OutsideRoot)));
        assert_eq!(disk.asked.len(), 1);
        let reply = serve_raw_from_directory(refused);
        assert_eq!(reply.status, Status::NotFound);
        assert_eq!(plain(&reply), "Error: Access denied: path outside root directory");

        assert!(matches!(disk.list(&state, path), Err(ServeError::OutsideRoot)));
        assert_eq!(disk.asked.len(), 1);
    }
}

#[test]
fn missing_files_are_not_found() {
    let mut state = open(ROOT, ROOT);
    let mut disk = disk();
    let reply = serve_file_from_directory(disk.render(&mut state, "missing.md"));
    assert_eq!(reply.status, Status::NotFound);
    assert_eq!(html(&reply), "<h1>Not Found</h1><p>no such file</p>");
    let reply = serve_raw_from_directory(disk.read(&state, "missing.md"));
    assert_eq!(reply.status, Status::NotFound);
    assert_eq!(plain(&reply), "Error: no such file");
    assert!(matches!(disk.list(&state, "missing.md"), Err(ServeError::Io(_))));
}

#[test]
fn found_files_are_served() {
    let mut state = open(ROOT, ROOT);
    let mut disk = disk();
    let page = disk.render(&mut state, "a.md");
    let reply = serve_file_from_directory(page);
    assert_eq!(reply.status, Status::Success);
    assert!(html(&reply).contains("<h1>One</h1>"));
    let reply = serve_raw_from_directory(disk.read(&state, "a.md"));
    assert_eq!(reply.status, Status::Success);
    assert_eq!(plain(&reply), "# One");
    assert_eq!(disk.asked, vec!["find /srv/docs/a.md", "text /srv/docs/a.md"]);
    let state = open(ROOT, ROOT);
    let run = state.resume_raw(
        RawRun::Read { path: b"/srv/docs/a.md".to_vec() },
        DiskReply::Text(Err("binary".to_string())),
    );
    assert!(matches!(run, RawRun::Done(Err(ServeError::Io(reason))) if reason == "binary"));
}

#[test]
fn listing_hides_and_sorts() {
    let listed = list_entries(vec![
        raw("b.md", false),
        raw("zebra", true),
        raw(".env", false),
        raw("a.png", false),
        raw("B.txt", false),
        raw(".git", true),
        raw("alpha", true),
        raw("ä.md", false),
    ]);
    assert_eq!(names(&listed), vec!["alpha", "zebra", "B.txt", "a.png", "b.md", "ä.md"]);
    let markdown: Vec<bool> = listed.iter().map(|e| e.is_markdown).collect();
    assert_eq!(markdown, vec![false, false, true, false, true, true]);
    assert_eq!(listed[0].path, b"/srv/docs/alpha".to_vec());
    assert!(listed[1].is_dir && !listed[2].is_dir);
    assert!(list_entries(vec![]).is_empty());
}

#[test]
fn directory_is_never_markdown() {
    assert!(!list_entries(vec![raw("odd.md", true)])[0].is_markdown);
}

#[test]
fn listing_does_not_depend_on_the_given_order() {
    let given = ["c", "a", "d", "b", "e"];
    let mut first: Option<Vec<String>> = None;
    for turn in 0..given.len() {
        let raws = (0..given.len())
            .map(|i| raw(given[(i * 2 + turn) % given.len()], turn == 7))
            .collect();
        let listed = names(&list_entries(raws));
        assert_eq!(listed, vec!["a", "b", "c", "d", "e"]);
        assert_eq!(first.get_or_insert(listed.clone()), &listed);
    }
}

#[test]
fn entries_of_one_name_keep_their_order() {
    let mut one = raw("same", false);
    one.path = b"/1".to_vec();
    let mut two = raw("same", false);
    two.path = b"/2".to_vec();
    let listed = list_entries(vec![one, raw("a", false), two]);
    assert_eq!(listed[1].path, b"/1".to_vec());
    assert_eq!(listed[2].path, b"/2".to_vec());
}

#[test]
fn index_shows_the_listing() {
    let state = open(ROOT, ROOT);
    let mut disk = disk();
    let listing = disk.list(&state, "");
    assert_eq!(disk.asked, vec!["find /srv/docs/", "dir /srv/docs"]);
    assert_eq!(names(listing.as_ref().unwrap()), vec!["img", "zoo.md"]);
    let reply = serve_directory_index(listing);
    assert_eq!(reply.status, Status::Success);
    let page = html(&reply);
    assert!(page.contains("Directory Index"));
    assert!(page.contains("zoo.md"));
    assert!(page.find("img").unwrap() < page.find("zoo.md").unwrap());
    assert!(!page.contains(".git"));
}

#[test]
fn index_escapes_names() {
    let page = html(&serve_directory_index(Ok(list_entries(vec![raw("<b>", false)]))));
    assert!(page.contains("&lt;b&gt;"));
    assert!(!page.contains("<b>"));
}

#[test]
fn every_listing_gets_its_index() {
    let reply = serve_directory_index(Ok(vec![]));
    assert_eq!(reply.status, Status::Success);
    let odd = ["{{ x }}", "{% for %}", "\"'&<>", " ", "a\nb", "📁"];
    for name in odd {
        for is_dir in [true, false] {
            let reply = serve_directory_index(Ok(list_entries(vec![raw(name, is_dir)])));
            assert_eq!(reply.status, Status::Success, "{}", name);
        }
    }
    let page = html(&serve_directory_index(Ok(list_entries(vec![raw("{{ x }}", false)]))));
    assert!(page.contains("{{ x }}"));
    assert!(page.contains("catppuccin-mocha"));
}

#[test]
fn pages_are_kept_within_the_root_only() {
    let mut state = open(b".", ROOT);
    let mut disk = disk();
    disk.render(&mut state, "sub/a.md").unwrap();
    disk.render(&mut state, "../b.md").unwrap_err();
    assert!(state.file_cache.get(b"/srv/docs/sub/a.md").is_some());
    assert!(state.file_cache.get(b"/srv/b.md").is_none());
    assert!(state.file_cache.get(b"/srv/docs/../b.md").is_none());
}

#[test]
fn index_rows_have_icon_name_and_link() {
    let listed = list_entries(vec![raw("img", true), raw("zoo.md", false)]);
    let texts = |name: &str, icon: &str, link: &str| {
        vec![
            ("icon".to_string(), icon.to_string()),
            ("name".to_string(), name.to_string()),
            ("link".to_string(), link.to_string()),
        ]
    };
    assert_eq!(index_row(&listed[0]), texts("img", "📁", "/view/img/"));
    assert_eq!(index_row(&listed[1]), texts("zoo.md", "📄", "/view/zoo.md"));
}

#[test]
fn index_errors_are_told_apart() {
    let reply = serve_directory_index(Err(ServeError::Io("gone".to_string())));
    assert_eq!(reply.status, Status::InternalServerError);
    assert_eq!(html(&reply), "<h1>Error</h1><p>gone</p>");
    let reply = answer_with_index(Err(TemplateError::Load("syntax".to_string())));
    assert_eq!(reply.status, Status::InternalServerError);
    assert_eq!(html(&reply), "<h1>Template Error</h1><p>syntax</p>");
    let reply = answer_with_index(Err(TemplateError::Render("value".to_string())));
    assert_eq!(reply.status, Status::InternalServerError);
    assert_eq!(html(&reply), "<h1>Render Error</h1><p>value</p>");
    let reply = answer_with_index(Ok("page".to_string()));
    assert_eq!(reply.status, Status::Success);
    assert_eq!(html(&reply), "page");
}

#[test]
fn directory_that_cannot_be_read_is_an_error() {
    let state = open(ROOT, ROOT);
    let run = state.list_directory("");
    let run = state.resume_list(run, DiskReply::Canonical(Ok(ROOT.to_vec())));
    let run = state.resume_list(run, DiskReply::Entries(Err("denied".to_string())));
    assert!(matches!(run, ListRun::Done(Err(ServeError::Io(reason))) if reason == "denied"));
}

#[test]
fn images_are_served_with_their_type() {
    let mut disk = disk();
    let reply = disk.image("img/a.PNG");
    assert_eq!(reply.status, Status::Success);
    assert_eq!(reply.headers, vec![("content-type".to_string(), "image/png".to_string())]);
    assert!(matches!(&reply.body, Body::Bytes(bytes) if *bytes == vec![1, 2, 3]));
    assert_eq!(disk.asked, vec!["find /srv/docs/img/a.PNG", "bytes /srv/docs/img/a.PNG"]);
}

#[test]
fn only_images_are_looked_for() {
    let mut disk = disk();
    let reply = disk.image("notes.md");
    assert_eq!(reply.status, Status::NotFound);
    assert_eq!(reply.status.code(), 404);
    assert_eq!(reply.headers, vec![("content-type".to_string(), "text/plain".to_string())]);
    assert_eq!(plain(&reply), "File not found");
    assert!(disk.asked.is_empty());
}

#[test]
fn images_outside_are_denied_unread() {
    let mut disk = disk();
    for path in ["../a.png", "/etc/a.png"] {
        let reply = disk.image(path);
        assert_eq!(reply.status, Status::Forbidden);
        assert_eq!(reply.status.code(), 403);
        assert_eq!(plain(&reply), "Access denied");
        assert_eq!(disk.asked.len(), 1);
    }
}

#[test]
fn missing_images_are_not_found() {
    let mut disk = disk();
    assert_eq!(disk.image("missing.png").status, Status::NotFound);
    let run = resume_static(
        ROOT,
        "a.png",
        StaticRun::Read { path: b"/srv/docs/a.png".to_vec() },
        DiskReply::Bytes(Err("gone".to_string())),
    );
    assert!(matches!(run, StaticRun::Done(reply) if reply.status == Status::NotFound));
}
