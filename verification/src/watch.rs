//! Changes on the disk, and what they lead to: the page of a watched file is refreshed, and clients are
//! told to load their pages again.
use crate::directory::DirectoryState;
use crate::disk::{answers, DiskReply, DiskRequest};
use crate::document::{is_opened, refreshes_to, MarkdownState, RefreshRun};
use crate::error::ServeError;
use crate::media::{is_markdown_file, is_markdown_name};
use crate::path::{
    components, file_name, file_name_of, is_same_file, is_within, join,
    law_joined_file_name_comes_last, law_same_file_is_same_path, same_file, same_path, starts_with,
    Part,
};
use crate::session::ServerMessage;
use vstd::prelude::*;

verus! {

/// The kinds of changes that a watched directory reports.
#[derive(Debug, Clone, Copy, PartialEq, Eq, Structural)]
pub enum WatchKind {
    Modify,
    Create,
    Other,
}

/// What happens while a file is watched.
#[derive(Debug)]
pub enum WatchEvent {
    /// The directory reports a change of some paths.
    Reported { kind: WatchKind, paths: Vec<Vec<u8>> },
    /// The file system has replied to what a refresh asked for.
    Replied(DiskReply),
    /// No change will be reported any more.
    Closed,
}

/// Where the watching of a file stands.
#[derive(Debug)]
pub enum WatchRun {
    /// A change is waited for.
    Idle,
    /// The page is refreshed on account of a change. Once that is done, with whatever outcome, the next
    /// change is waited for.
    Refreshing(RefreshRun),
    /// The watching has come to its end.
    Ended,
}

/// The components of the path at which the changes of a file are reported when its directory is watched:
/// those of the directory, followed by the name of the file. A path without a file name stands for
/// itself.
pub open spec fn watched_of(base_dir: Seq<u8>, file_path: Seq<u8>) -> Seq<Part> {
    match file_name_of(file_path) {
        Some(name) => components(base_dir).push(Part::Name(name)),
        None => components(file_path),
    }
}

/// Whether a change at `p` is one of the file that a state serves: it is reported for the file in its
/// directory, or for the path by which the file was opened.
pub open spec fn is_change_of(state: MarkdownState, p: Seq<u8>) -> bool {
    ||| components(p) == watched_of(state.base_dir@, state.file_path@)
    ||| is_same_file(p, state.file_path@)
}

/// Whether one of some changed paths is that of the file that a state serves.
pub open spec fn is_affected(state: MarkdownState, paths: Seq<Vec<u8>>) -> bool {
    exists|i: int| 0 <= i < paths.len() && is_change_of(state, #[trigger] paths[i]@)
}

/// Whether a reported change calls for a refresh: the file has been written or created.
pub open spec fn calls_for_refresh(
    state: MarkdownState,
    kind: WatchKind,
    paths: Seq<Vec<u8>>,
) -> bool {
    kind != WatchKind::Other && is_affected(state, paths)
}

/// What the watching of a file comes to next, and how the state changes. An event that is not waited for
/// changes nothing.
pub open spec fn watches_to(
    state: MarkdownState,
    run: WatchRun,
    event: WatchEvent,
    after: MarkdownState,
    next: WatchRun,
) -> bool {
    match (run, event) {
        (WatchRun::Ended, _) => after == state && next == run,
        (_, WatchEvent::Closed) => after == state && next == WatchRun::Ended,
        (WatchRun::Refreshing(refresh), WatchEvent::Replied(reply)) => {
            &&& next matches WatchRun::Refreshing(then)
            &&& refreshes_to(state, refresh, reply, after, then)
        },
        (_, WatchEvent::Reported { kind, paths }) => {
            &&& after == state
            &&& if !run.is_idle() {
                next == run
            } else if calls_for_refresh(state, kind, paths@) {
                next == WatchRun::Refreshing(RefreshRun::Stat)
            } else {
                next == WatchRun::Idle
            }
        },
        _ => after == state && next == run,
    }
}

impl WatchRun {
    /// Whether a change is waited for, and not a reply of the file system.
    pub open spec fn is_idle(self) -> bool {
        match self {
            WatchRun::Idle => true,
            WatchRun::Refreshing(refresh) => refresh is Done,
            WatchRun::Ended => false,
        }
    }

    /// What clients are told when the watching has come this far.
    pub open spec fn news(self) -> Option<ServerMessage> {
        match self {
            WatchRun::Refreshing(refresh) => refresh.news(),
            _ => None,
        }
    }

    /// What clients are told when the watching has come this far: to load the page again when a refresh
    /// has changed it, and nothing otherwise.
    pub fn announcement(&self) -> (r: Option<ServerMessage>)
        ensures
            r == self.news(),
    {
        match self {
            WatchRun::Refreshing(refresh) => refresh.announcement(),
            _ => None,
        }
    }
}

impl MarkdownState {
    /// The path at which changes of the file are reported when its directory is watched.
    pub fn watched_path(&self) -> (r: Vec<u8>)
        ensures
            components(r@) == watched_of(self.base_dir@, self.file_path@),
    {
        match file_name(self.file_path.as_slice()) {
            Some(name) => {
                proof {
                    law_joined_file_name_comes_last(self.base_dir@, self.file_path@, name@);
                }
                join(self.base_dir.as_slice(), name.as_slice())
            },
            None => self.file_path.clone(),
        }
    }

    /// Whether a reported change calls for a refresh: the file has been written or created. A file that
    /// is gone is left alone, since editors often remove a file before they write it anew.
    pub fn should_refresh(&self, kind: WatchKind, paths: &Vec<Vec<u8>>) -> (r: bool)
        ensures
            r == calls_for_refresh(*self, kind, paths@),
    {
        let watched = self.watched_path();
        let mut affected = false;
        let mut i: usize = 0;
        while i < paths.len() && !affected
            invariant
                i <= paths@.len(),
                components(watched@) == watched_of(self.base_dir@, self.file_path@),
                affected ==> is_affected(*self, paths@),
                !affected ==> forall|k: int|
                    0 <= k < i ==> !is_change_of(*self, #[trigger] paths@[k]@),
            decreases paths@.len() - i,
        {
            let path = paths[i].as_slice();
            if same_path(path, watched.as_slice()) || same_file(path, self.file_path.as_slice()) {
                assert(is_change_of(*self, paths@[i as int]@));
                affected = true;
            }
            i = i + 1;
        }
        if !affected {
            return false;
        }
        match kind {
            WatchKind::Modify | WatchKind::Create => true,
            WatchKind::Other => false,
        }
    }

    /// What is pending while the file is watched, as contracts speak of it.
    pub open spec fn watch_asks(self, run: WatchRun, request: Option<DiskRequest>) -> bool {
        match run {
            WatchRun::Refreshing(refresh) => self.asks(refresh, request),
            _ => request is None,
        }
    }

    /// What the file system is to be asked for next while the file is watched. Where that is nothing,
    /// the next change is to be waited for.
    pub fn watch_request(&self, run: &WatchRun) -> (r: Option<DiskRequest>)
        ensures
            self.watch_asks(*run, r),
    {
        match run {
            WatchRun::Refreshing(refresh) => self.refresh_request(refresh),
            _ => None,
        }
    }

    /// Goes on with the watching of the file. A change of the file leads to one refresh, whose failure
    /// does not end the watching; any other change leads to nothing. Changes are to be handed over one
    /// after the other, when the file system is not asked for anything.
    pub fn watch_step(&mut self, run: WatchRun, event: WatchEvent) -> (r: WatchRun)
        ensures
            watches_to(*old(self), run, event, *final(self), r),
    {
        match (run, event) {
            (WatchRun::Ended, _) => WatchRun::Ended,
            (_, WatchEvent::Closed) => WatchRun::Ended,
            (WatchRun::Refreshing(refresh), WatchEvent::Replied(reply)) => WatchRun::Refreshing(
                self.resume_refresh(refresh, reply),
            ),
            (WatchRun::Idle, WatchEvent::Reported { kind, paths })
            | (
                WatchRun::Refreshing(RefreshRun::Done(_)),
                WatchEvent::Reported { kind, paths },
            ) => {
                if self.should_refresh(kind, &paths) {
                    WatchRun::Refreshing(self.refresh_if_needed())
                } else {
                    WatchRun::Idle
                }
            },
            (run, _) => run,
        }
    }
}

/// Whether one of some changed paths is that of a text in the directory `root`.
pub open spec fn holds_text_within(paths: Seq<Vec<u8>>, root: Seq<u8>) -> bool {
    exists|i: int|
        0 <= i < paths.len() && is_within(#[trigger] paths[i]@, root) && is_markdown_name(paths[i]@)
}

/// Whether a change in the directory `root` is to be announced: a text in it, at whatever depth, has been
/// written or created.
pub fn should_announce(kind: WatchKind, paths: &Vec<Vec<u8>>, root: &[u8]) -> (r: bool)
    ensures
        r == (kind != WatchKind::Other && holds_text_within(paths@, root@)),
{
    match kind {
        WatchKind::Modify | WatchKind::Create => {},
        WatchKind::Other => {
            return false;
        },
    }
    let mut i: usize = 0;
    while i < paths.len()
        invariant
            i <= paths@.len(),
            kind != WatchKind::Other,
            forall|k: int|
                0 <= k < i ==> !(is_within(#[trigger] paths@[k]@, root@) && is_markdown_name(
                    paths@[k]@,
                )),
        decreases paths@.len() - i,
    {
        let path = paths[i].as_slice();
        if starts_with(path, root) && is_markdown_file(path) {
            assert(is_within(paths@[i as int]@, root@));
            return true;
        }
        i = i + 1;
    }
    false
}

impl DirectoryState {
    /// What clients are told of a change in the directory: to load their pages again when a text has been
    /// written or created, and nothing otherwise.
    pub fn announcement(&self, kind: WatchKind, paths: &Vec<Vec<u8>>) -> (r: Option<ServerMessage>)
        ensures
            r == if kind != WatchKind::Other && holds_text_within(paths@, self.root_dir@) {
                Some(ServerMessage::Reload)
            } else {
                None
            },
    {
        if should_announce(kind, paths, self.root_dir.as_slice()) {
            Some(ServerMessage::Reload)
        } else {
            None
        }
    }
}

/// A course of the watching of a file, with the states and the events.
pub open spec fn is_watch_course(
    states: Seq<MarkdownState>,
    runs: Seq<WatchRun>,
    events: Seq<WatchEvent>,
) -> bool {
    &&& runs.len() == events.len() + 1
    &&& states.len() == runs.len()
    &&& forall|i: int|
        0 <= i < events.len() ==> #[trigger] watches_to(
            states[i],
            runs[i],
            events[i],
            states[i + 1],
            runs[i + 1],
        )
}

/// A change that calls for a refresh leads to exactly one: what follows, reply by reply, are the steps of
/// one refresh from its beginning. Until it is done the state stays as it is and clients are told
/// nothing; where it fails that remains so, and the watching goes on all the same.
pub proof fn law_change_of_file_leads_to_one_refresh(
    states: Seq<MarkdownState>,
    runs: Seq<WatchRun>,
    events: Seq<WatchEvent>,
    kind: WatchKind,
    paths: Vec<Vec<u8>>,
    i: int,
)
    requires
        is_watch_course(states, runs, events),
        events.len() > 0,
        runs[0].is_idle(),
        events[0] == (WatchEvent::Reported { kind, paths }),
        calls_for_refresh(states[0], kind, paths@),
        forall|k: int|
            1 <= k < events.len() ==> #[trigger] events[k] is Replied && !runs[k].is_idle(),
        1 <= i < runs.len(),
    ensures
        runs[1] == WatchRun::Refreshing(RefreshRun::Stat),
        states[1] == states[0],
        runs[i] is Refreshing,
        i > 1 ==> refreshes_to(
            states[i - 1],
            runs[i - 1]->Refreshing_0,
            events[i - 1]->Replied_0,
            states[i],
            runs[i]->Refreshing_0,
        ),
        runs[i].news() is None ==> states[i] == states[0],
        runs[i].news() is Some ==> runs[i] == WatchRun::Refreshing(RefreshRun::Done(Ok(true))) && i
            == events.len(),
    decreases i,
{
    assert(watches_to(states[0], runs[0], events[0], states[1], runs[1]));
    if i > 1 {
        let j = i - 1;
        law_change_of_file_leads_to_one_refresh(states, runs, events, kind, paths, j);
        assert(events[j] is Replied && !runs[j].is_idle());
        assert(watches_to(states[j], runs[j], events[j], states[j + 1], runs[j + 1]));
        if i < events.len() {
            assert(events[i] is Replied && !runs[i].is_idle());
        }
    }
}

/// A refresh that a change has led to comes to an end: each reply to what is pending takes it nearer to
/// being done, whatever the reply says, and then the next change is waited for.
pub proof fn law_watched_refresh_ends(
    state: MarkdownState,
    refresh: RefreshRun,
    request: DiskRequest,
    reply: DiskReply,
    after: MarkdownState,
    next: WatchRun,
)
    requires
        state.watch_asks(WatchRun::Refreshing(refresh), Some(request)),
        answers(reply, request),
        watches_to(
            state,
            WatchRun::Refreshing(refresh),
            WatchEvent::Replied(reply),
            after,
            next,
        ),
    ensures
        next matches WatchRun::Refreshing(then) && then.steps_left() < refresh.steps_left() && (
        then.steps_left() == 0 <==> next.is_idle()),
{
}

/// A change that does not call for a refresh, such as that of another file or the removal of a file, leads
/// to nothing: neither the state nor a client sees anything of it.
pub proof fn law_other_changes_lead_to_nothing(
    state: MarkdownState,
    run: WatchRun,
    kind: WatchKind,
    paths: Vec<Vec<u8>>,
    after: MarkdownState,
    next: WatchRun,
)
    requires
        run.is_idle(),
        !calls_for_refresh(state, kind, paths@),
        watches_to(state, run, (WatchEvent::Reported { kind, paths }), after, next),
    ensures
        after == state,
        next == WatchRun::Idle,
        next.news() is None,
        state.watch_asks(next, None),
{
}

/// Nothing but the end of the reports ends the watching; in particular no reply of the file system does.
pub proof fn law_only_closing_ends_the_watching(
    state: MarkdownState,
    run: WatchRun,
    event: WatchEvent,
    after: MarkdownState,
    next: WatchRun,
)
    requires
        watches_to(state, run, event, after, next),
    ensures
        next is Ended <==> run is Ended || event is Closed,
{
}

/// After a refresh that failed, the page is the one from before, and the next change of the file leads
/// to a refresh again.
pub proof fn law_failed_refresh_does_not_end_the_watching(
    state: MarkdownState,
    refresh: RefreshRun,
    reply: DiskReply,
    error: ServeError,
    failed: MarkdownState,
    run: WatchRun,
    kind: WatchKind,
    paths: Vec<Vec<u8>>,
    after: MarkdownState,
    next: WatchRun,
)
    requires
        refresh !is Done,
        watches_to(
            state,
            WatchRun::Refreshing(refresh),
            WatchEvent::Replied(reply),
            failed,
            run,
        ),
        run == WatchRun::Refreshing(RefreshRun::Done(Err(error))),
        calls_for_refresh(state, kind, paths@),
        watches_to(failed, run, (WatchEvent::Reported { kind, paths }), after, next),
    ensures
        failed == state,
        run.news() is None,
        next == WatchRun::Refreshing(RefreshRun::Stat),
        after == state,
{
}

/// A file that was opened is refreshed when it is written or created in its directory, however it was
/// named when it was opened, or when the change is reported by that name; and a change of another file
/// never calls for a refresh.
pub proof fn law_changes_are_noticed_in_the_directory(
    state: MarkdownState,
    file_path: Vec<u8>,
    modified: i128,
    html: String,
    dir: Vec<u8>,
    name: Seq<u8>,
    kind: WatchKind,
    paths: Seq<Vec<u8>>,
)
    requires
        is_opened(state, file_path, modified, html, Ok(dir)),
        file_name_of(file_path@) == Some(name),
        kind != WatchKind::Other,
    ensures
        forall|k: int|
            0 <= k < paths.len() && components(#[trigger] paths[k]@) == components(dir@).push(
                Part::Name(name),
            ) ==> calls_for_refresh(state, kind, paths),
        forall|k: int|
            0 <= k < paths.len() && components(#[trigger] paths[k]@) == components(file_path@)
                ==> calls_for_refresh(state, kind, paths),
        calls_for_refresh(state, kind, paths) ==> exists|k: int|
            0 <= k < paths.len() && (components(#[trigger] paths[k]@) == components(dir@).push(
                Part::Name(name),
            ) || components(paths[k]@) == components(file_path@)),
{
    assert forall|k: int|
        0 <= k < paths.len() && components(#[trigger] paths[k]@) == components(dir@).push(
            Part::Name(name),
        ) implies calls_for_refresh(state, kind, paths) by {
        assert(is_change_of(state, paths[k]@));
    }
    assert forall|k: int|
        0 <= k < paths.len() && components(#[trigger] paths[k]@) == components(
            file_path@,
        ) implies calls_for_refresh(state, kind, paths) by {
        assert(is_change_of(state, paths[k]@));
    }
    if calls_for_refresh(state, kind, paths) {
        let k = choose|k: int|
            0 <= k < paths.len() && is_change_of(state, #[trigger] paths[k]@);
        law_same_file_is_same_path(paths[k]@, file_path@);
    }
}

/// A file that has been removed, and whatever else is neither written nor created, never calls for a
/// refresh.
pub proof fn law_only_writing_and_creating_call_for_a_refresh(
    state: MarkdownState,
    kind: WatchKind,
    paths: Seq<Vec<u8>>,
)
    ensures
        calls_for_refresh(state, kind, paths) ==> kind == WatchKind::Modify || kind
            == WatchKind::Create,
        calls_for_refresh(state, WatchKind::Modify, paths) == calls_for_refresh(
            state,
            WatchKind::Create,
            paths,
        ),
{
}

/// What calls for a refresh, and what is to be announced in a directory, does not depend on the order of
/// the reported paths nor on the others among them: one of them is enough, wherever it stands.
pub proof fn law_one_path_is_enough(
    state: MarkdownState,
    before: Seq<Vec<u8>>,
    path: Vec<u8>,
    after: Seq<Vec<u8>>,
    root: Seq<u8>,
)
    ensures
        is_affected(state, before.push(path) + after) <==> is_affected(state, before)
            || is_change_of(state, path@) || is_affected(state, after),
        holds_text_within(before.push(path) + after, root) <==> holds_text_within(before, root) || (
        is_within(path@, root) && is_markdown_name(path@)) || holds_text_within(after, root),
        !is_affected(state, Seq::empty()),
        !holds_text_within(Seq::empty(), root),
{
    let all = before.push(path) + after;
    let n = before.len() as int;
    assert(all[n] == path);
    assert forall|i: int| 0 <= i < before.len() implies all[i] == before[i] by {}
    assert forall|i: int| 0 <= i < after.len() implies all[n + 1 + i] == after[i] by {}
    if is_affected(state, all) {
        let i = choose|i: int| 0 <= i < all.len() && is_change_of(state, #[trigger] all[i]@);
        if i < n {
            assert(is_change_of(state, before[i]@));
        } else if i > n {
            assert(is_change_of(state, after[i - n - 1]@));
        }
    }
    if is_affected(state, before) {
        let i = choose|i: int| 0 <= i < before.len() && is_change_of(state, #[trigger] before[i]@);
        assert(is_change_of(state, all[i]@));
    }
    if is_affected(state, after) {
        let i = choose|i: int| 0 <= i < after.len() && is_change_of(state, #[trigger] after[i]@);
        assert(is_change_of(state, all[n + 1 + i]@));
    }
    if is_change_of(state, path@) {
        assert(is_change_of(state, all[n]@));
    }
    if holds_text_within(all, root) {
        let i = choose|i: int|
            0 <= i < all.len() && is_within(#[trigger] all[i]@, root) && is_markdown_name(all[i]@);
        if i < n {
            assert(is_within(before[i]@, root));
        } else if i > n {
            assert(is_within(after[i - n - 1]@, root));
        }
    }
    if holds_text_within(before, root) {
        let i = choose|i: int|
            0 <= i < before.len() && is_within(#[trigger] before[i]@, root) && is_markdown_name(
                before[i]@,
            );
        assert(is_within(all[i]@, root));
    }
    if holds_text_within(after, root) {
        let i = choose|i: int|
            0 <= i < after.len() && is_within(#[trigger] after[i]@, root) && is_markdown_name(
                after[i]@,
            );
        assert(is_within(all[n + 1 + i]@, root));
    }
    if is_within(path@, root) && is_markdown_name(path@) {
        assert(is_within(all[n]@, root));
    }
}

/// While a file is watched, a refresh asks for what any refresh asks for, and clients are told what any
/// refresh tells them; otherwise nothing is asked for and nothing is told.
pub proof fn law_watching_asks_and_tells_as_a_refresh(
    state: MarkdownState,
    refresh: RefreshRun,
    request: Option<DiskRequest>,
)
    ensures
        state.watch_asks(WatchRun::Refreshing(refresh), request) <==> state.asks(refresh, request),
        WatchRun::Refreshing(refresh).news() == refresh.news(),
        state.watch_asks(WatchRun::Idle, request) <==> request is None,
        state.watch_asks(WatchRun::Ended, request) <==> request is None,
        WatchRun::Idle.news() is None,
        WatchRun::Ended.news() is None,
{
}

/// While a refresh is under way, reported changes wait, and replies that nothing asked for change
/// nothing.
pub proof fn law_unasked_event_changes_nothing(
    state: MarkdownState,
    run: WatchRun,
    event: WatchEvent,
    after: MarkdownState,
    next: WatchRun,
)
    requires
        watches_to(state, run, event, after, next),
    ensures
        run is Ended || run is Idle && event is Replied || run is Refreshing && !run.is_idle() && event
            is Reported ==> next == run && after == state,
        event is Closed ==> next is Ended && after == state,
        run is Refreshing && event is Replied ==> next is Refreshing && refreshes_to(
            state,
            run->Refreshing_0,
            event->Replied_0,
            after,
            next->Refreshing_0,
        ),
        run.is_idle() <==> run is Idle || run is Refreshing && run->Refreshing_0 is Done,
{
}

} // verus!
