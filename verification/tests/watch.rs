use mdserve::directory::{DirectoryState, OpenDirRun};
use mdserve::disk::{DiskReply, DiskRequest};
use mdserve::document::{MarkdownState, OpenRun, RefreshRun};
use mdserve::error::ServeError;
use mdserve::session::ServerMessage;
use mdserve::watch::{should_announce, WatchEvent, WatchKind, WatchRun};

fn open(file_path: &[u8], dir: &[u8]) -> MarkdownState {
    let run = MarkdownState::new(file_path.to_vec())
        .resume(DiskReply::Modified(Ok(1)))
        .resume(DiskReply::Text(Ok("# Old".to_string())))
        .resume(DiskReply::Canonical(Ok(dir.to_vec())));
    match run {
        OpenRun::Done(Ok(state)) => state,
        other => panic!("{:?}", other),
    }
}

fn paths(list: &[&str]) -> Vec<Vec<u8>> {
    list.iter().map(|path| path.as_bytes().to_vec()).collect()
}

fn reported(kind: WatchKind, list: &[&str]) -> WatchEvent {
    WatchEvent::Reported { kind, paths: paths(list) }
}

#[test]
fn file_is_watched_in_its_directory() {
    assert_eq!(open(b"README.md", b"/srv").watched_path(), b"/srv/README.md".to_vec());
    assert_eq!(open(b"docs/notes.md", b"/srv/docs/").watched_path(), b"/srv/docs/notes.md".to_vec());
    assert_eq!(open(b"/link/notes.md", b"/real").watched_path(), b"/real/notes.md".to_vec());
    assert_eq!(open(b"notes.md", b"").watched_path(), b"notes.md".to_vec());
    assert_eq!(open(b"..", b"/srv").watched_path(), b"..".to_vec());
}

#[test]
fn written_and_created_files_call_for_a_refresh() {
    let state = open(b"/srv/docs/notes.md", b"/srv/docs");
    let changed = paths(&["/srv/docs/other.md", "/srv//docs/notes.md"]);
    assert!(state.should_refresh(WatchKind::Modify, &changed));
    assert!(state.should_refresh(WatchKind::Create, &changed));
    assert!(!state.should_refresh(WatchKind::Other, &changed));
    assert!(!state.should_refresh(WatchKind::Modify, &changed[..1].to_vec()));
    assert!(!state.should_refresh(WatchKind::Modify, &vec![]));
}

#[test]
fn file_opened_by_its_bare_name_is_refreshed() {
    let state = open(b"README.md", b"/srv");
    assert!(state.should_refresh(WatchKind::Modify, &paths(&["/srv/README.md"])));
    assert!(state.should_refresh(WatchKind::Modify, &paths(&["README.md"])));
    assert!(!state.should_refresh(WatchKind::Modify, &paths(&["/tmp/README.md"])));
    assert!(!state.should_refresh(WatchKind::Modify, &paths(&["/srv/OTHER.md"])));
    let linked = open(b"/link/notes.md", b"/real");
    assert!(linked.should_refresh(WatchKind::Create, &paths(&["/real/notes.md"])));
    assert!(linked.should_refresh(WatchKind::Create, &paths(&["/link/notes.md"])));
}

#[test]
fn change_leads_to_one_refresh_and_a_reload() {
    let mut state = open(b"README.md", b"/srv");
    let run = state.watch_step(WatchRun::Idle, reported(WatchKind::Modify, &["/srv/README.md"]));
    assert!(
        matches!(state.watch_request(&run), Some(DiskRequest::Modified(path)) if path == b"README.md")
    );
    assert_eq!(run.announcement(), None);
    let run = state.watch_step(run, WatchEvent::Replied(DiskReply::Modified(Ok(2))));
    assert!(
        matches!(state.watch_request(&run), Some(DiskRequest::ReadText(path)) if path == b"README.md")
    );
    let text = DiskReply::Text(Ok("# New".to_string()));
    let run = state.watch_step(run, WatchEvent::Replied(text));
    assert_eq!(run.announcement(), Some(ServerMessage::Reload));
    assert!(state.watch_request(&run).is_none());
    assert!(state.get_html().contains("<h1>New</h1>"));
    assert_eq!(state.last_modified, 2);

    // The next change of another file leads to nothing, and is not announced.
    let run = state.watch_step(run, reported(WatchKind::Modify, &["/srv/OTHER.md"]));
    assert!(matches!(run, WatchRun::Idle));
    assert_eq!(run.announcement(), None);
}

#[test]
fn removed_and_other_files_lead_to_nothing() {
    let mut state = open(b"README.md", b"/srv");
    for event in [
        reported(WatchKind::Other, &["/srv/README.md"]),
        reported(WatchKind::Create, &["/srv/OTHER.md"]),
    ] {
        let run = state.watch_step(WatchRun::Idle, event);
        assert!(matches!(run, WatchRun::Idle));
        assert!(state.watch_request(&run).is_none());
    }
    assert_eq!(state.last_modified, 1);
}

#[test]
fn failed_refresh_does_not_end_the_watching() {
    let mut state = open(b"README.md", b"/srv");
    let run = state.watch_step(WatchRun::Idle, reported(WatchKind::Modify, &["/srv/README.md"]));
    let run = state.watch_step(
        run,
        WatchEvent::Replied(DiskReply::Modified(Err("gone".to_string()))),
    );
    assert!(matches!(
        &run,
        WatchRun::Refreshing(RefreshRun::Done(Err(ServeError::Io(reason)))) if reason == "gone"
    ));
    assert_eq!(run.announcement(), None);
    assert!(state.get_html().contains("<h1>Old</h1>"));
    let run = state.watch_step(run, reported(WatchKind::Create, &["/srv/README.md"]));
    assert!(matches!(run, WatchRun::Refreshing(RefreshRun::Stat)));
}

#[test]
fn watching_ends_when_reports_do() {
    let mut state = open(b"README.md", b"/srv");
    let run = state.watch_step(WatchRun::Idle, WatchEvent::Closed);
    assert!(matches!(run, WatchRun::Ended));
    let run = state.watch_step(run, reported(WatchKind::Modify, &["/srv/README.md"]));
    assert!(matches!(run, WatchRun::Ended));
    assert!(state.watch_request(&run).is_none());
    assert_eq!(run.announcement(), None);
}

#[test]
fn changes_of_texts_in_the_directory_are_announced() {
    let run = DirectoryState::new(b".".to_vec());
    let state = match run.resume(DiskReply::Canonical(Ok(b"/srv".to_vec()))) {
        OpenDirRun::Done(Ok(state)) => state,
        other => panic!("{:?}", other),
    };
    for changed in ["/srv/a.md", "/srv/sub/dir/b.markdown", "/srv/c.txt"] {
        let changed = paths(&["/srv/x.png", changed]);
        assert!(should_announce(WatchKind::Modify, &changed, b"/srv"));
        assert!(should_announce(WatchKind::Create, &changed, b"/srv/"));
        assert!(!should_announce(WatchKind::Other, &changed, b"/srv"));
        assert_eq!(
            state.announcement(WatchKind::Modify, &changed),
            Some(ServerMessage::Reload)
        );
        assert_eq!(state.announcement(WatchKind::Other, &changed), None);
    }
    for changed in ["/srv/x.png", "/tmp/a.md", "/srv2/a.md", "/srv/a.MD", "/srv"] {
        assert!(!should_announce(WatchKind::Modify, &paths(&[changed]), b"/srv"));
        assert_eq!(state.announcement(WatchKind::Create, &paths(&[changed])), None);
    }
    assert!(!should_announce(WatchKind::Modify, &vec![], b"/srv"));
}
