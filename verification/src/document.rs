//! Serving one Markdown file: its state, its refreshing and its answers.
use crate::disk::{DiskReply, DiskRequest};
use crate::error::ServeError;
use crate::page::{is_page_of, markdown_to_html};
use crate::path::{
    components, components_of, file_name_of, joined, law_current_directory_is_one_component,
    law_file_name_is_one_component, law_joined_file_name_comes_last, parent, parent_of, Part, DOT,
};
use crate::reply::{error_page, html_reply, text_reply, BodyModel, Reply, ReplyModel, Status};
use crate::session::ServerMessage;
use vstd::prelude::*;
use vstd::string::*;

verus! {

/// A Markdown file and the page that was last made of it.
#[derive(Debug)]
pub struct MarkdownState {
    pub file_path: Vec<u8>,
    /// The directory from which the images of the document are served, and in which its changes are
    /// watched for.
    pub base_dir: Vec<u8>,
    /// When the file was last modified before the page was made, in nanoseconds since the epoch.
    pub last_modified: i128,
    pub cached_html: String,
}

/// How far the opening of a file has come.
#[derive(Debug)]
pub enum OpenRun {
    /// It is not known yet when the file was modified.
    Stat { file_path: Vec<u8> },
    /// The file is to be read.
    Read { file_path: Vec<u8>, modified: i128 },
    /// The page is made, and the directory is to be found.
    Locate { file_path: Vec<u8>, modified: i128, html: String },
    Done(Result<MarkdownState, ServeError>),
}

/// How far a refresh has come.
#[derive(Debug)]
pub enum RefreshRun {
    /// It is not known yet when the file was modified.
    Stat,
    /// The file is newer than the page, and is to be read.
    Read { current_modified: i128 },
    /// Whether the page has changed.
    Done(Result<bool, ServeError>),
}

/// The components of the directory that a file stands in. A bare file name, and a path that stands in
/// no directory, count as standing in the current one.
pub open spec fn home_of(file_path: Seq<u8>) -> Seq<Part> {
    match parent_of(file_path) {
        Some(dir) => if dir.len() > 0 {
            dir
        } else {
            components(seq![DOT])
        },
        None => components(seq![DOT]),
    }
}

/// The current directory.
fn current_dir() -> (r: Vec<u8>)
    ensures
        r@ == seq![DOT],
{
    let mut here: Vec<u8> = Vec::new();
    here.push(DOT);
    assert(here@ =~= seq![DOT]);
    here
}

/// The directory that a file stands in. The images of the document are looked up from its canonical
/// form.
pub fn home_dir(file_path: &[u8]) -> (r: Vec<u8>)
    ensures
        components(r@) == home_of(file_path@),
{
    match parent(file_path) {
        Some(dir) => {
            if components_of(dir.as_slice()).len() > 0 {
                dir
            } else {
                current_dir()
            }
        },
        None => current_dir(),
    }
}

/// Whether a state is that of a file just opened: the page is that of the given text, and the
/// directory is the canonical one where it is known.
pub open spec fn is_opened(
    state: MarkdownState,
    file_path: Vec<u8>,
    modified: i128,
    html: String,
    canonical: Result<Vec<u8>, String>,
) -> bool {
    &&& state.file_path == file_path
    &&& state.last_modified == modified
    &&& state.cached_html == html
    &&& match canonical {
        Ok(dir) => state.base_dir == dir,
        Err(_) => components(state.base_dir@) == home_of(file_path@),
    }
}

/// What the opening of a file comes to next. A reply to something that was not asked changes nothing.
pub open spec fn opens_to(run: OpenRun, reply: DiskReply, next: OpenRun) -> bool {
    match (run, reply) {
        (OpenRun::Stat { file_path }, DiskReply::Modified(Ok(modified))) => {
            next == (OpenRun::Read { file_path, modified })
        },
        (OpenRun::Stat { file_path }, DiskReply::Modified(Err(reason))) => {
            next == OpenRun::Done(Err(ServeError::Io(reason)))
        },
        (OpenRun::Read { file_path, modified }, DiskReply::Text(Ok(content))) => {
            &&& next matches OpenRun::Locate { file_path: f, modified: m, html }
            &&& f == file_path && m == modified && is_page_of(html@, content@)
        },
        (OpenRun::Read { file_path, modified }, DiskReply::Text(Err(reason))) => {
            next == OpenRun::Done(Err(ServeError::Io(reason)))
        },
        (OpenRun::Locate { file_path, modified, html }, DiskReply::Canonical(canonical)) => {
            &&& next matches OpenRun::Done(Ok(state))
            &&& is_opened(state, file_path, modified, html, canonical)
        },
        _ => next == run,
    }
}

/// What a refresh comes to next, and how the state changes. A reply to something that was not asked
/// changes nothing.
pub open spec fn refreshes_to(
    state: MarkdownState,
    run: RefreshRun,
    reply: DiskReply,
    after: MarkdownState,
    next: RefreshRun,
) -> bool {
    match (run, reply) {
        (RefreshRun::Stat, DiskReply::Modified(Ok(current_modified))) => {
            &&& after == state
            &&& if current_modified > state.last_modified {
                next == (RefreshRun::Read { current_modified })
            } else {
                next == RefreshRun::Done(Ok(false))
            }
        },
        (RefreshRun::Stat, DiskReply::Modified(Err(reason))) => {
            &&& after == state
            &&& next == RefreshRun::Done(Err(ServeError::Io(reason)))
        },
        (RefreshRun::Read { current_modified }, DiskReply::Text(Ok(content))) => {
            &&& next == RefreshRun::Done(Ok(true))
            &&& after.file_path == state.file_path
            &&& after.base_dir == state.base_dir
            &&& after.last_modified == current_modified
            &&& is_page_of(after.cached_html@, content@)
        },
        (RefreshRun::Read { current_modified }, DiskReply::Text(Err(reason))) => {
            &&& after == state
            &&& next == RefreshRun::Done(Err(ServeError::Io(reason)))
        },
        _ => after == state && next == run,
    }
}

impl OpenRun {
    /// The most replies that can still be needed.
    pub open spec fn steps_left(self) -> nat {
        match self {
            OpenRun::Stat { .. } => 3,
            OpenRun::Read { .. } => 2,
            OpenRun::Locate { .. } => 1,
            OpenRun::Done(_) => 0,
        }
    }

    /// What is pending, as contracts speak of it: the path whose modification time, text or canonical
    /// form is asked for.
    pub open spec fn asks(self, request: Option<DiskRequest>) -> bool {
        match self {
            OpenRun::Stat { file_path } => request matches Some(DiskRequest::Modified(p)) && p@
                == file_path@,
            OpenRun::Read { file_path, modified } => request matches Some(DiskRequest::ReadText(p))
                && p@ == file_path@,
            OpenRun::Locate { file_path, modified, html } => request matches Some(
                DiskRequest::Canonicalize(p),
            ) && components(p@) == home_of(file_path@),
            OpenRun::Done(_) => request is None,
        }
    }

    /// What the file system is to be asked for next.
    pub fn request(&self) -> (r: Option<DiskRequest>)
        ensures
            self.asks(r),
    {
        match self {
            OpenRun::Stat { file_path } => Some(DiskRequest::Modified(file_path.clone())),
            OpenRun::Read { file_path, .. } => Some(DiskRequest::ReadText(file_path.clone())),
            OpenRun::Locate { file_path, .. } => Some(
                DiskRequest::Canonicalize(home_dir(file_path.as_slice())),
            ),
            OpenRun::Done(_) => None,
        }
    }

    /// Goes on with the opening of a file.
    pub fn resume(self, reply: DiskReply) -> (r: OpenRun)
        ensures
            opens_to(self, reply, r),
    {
        match (self, reply) {
            (OpenRun::Stat { file_path }, DiskReply::Modified(Ok(modified))) => OpenRun::Read {
                file_path,
                modified,
            },
            (OpenRun::Stat { .. }, DiskReply::Modified(Err(reason))) => OpenRun::Done(
                Err(ServeError::Io(reason)),
            ),
            (OpenRun::Read { file_path, modified }, DiskReply::Text(Ok(content))) => {
                match markdown_to_html(content.as_str()) {
                    Ok(html) => OpenRun::Locate { file_path, modified, html },
                    Err(error) => OpenRun::Done(Err(error)),
                }
            },
            (OpenRun::Read { .. }, DiskReply::Text(Err(reason))) => OpenRun::Done(
                Err(ServeError::Io(reason)),
            ),
            (OpenRun::Locate { file_path, modified, html }, DiskReply::Canonical(canonical)) => {
                let base_dir = match canonical {
                    Ok(dir) => dir,
                    Err(_) => home_dir(file_path.as_slice()),
                };
                OpenRun::Done(
                    Ok(
                        MarkdownState {
                            file_path,
                            base_dir,
                            last_modified: modified,
                            cached_html: html,
                        },
                    ),
                )
            },
            (run, _) => run,
        }
    }
}

impl RefreshRun {
    /// The most replies that can still be needed.
    pub open spec fn steps_left(self) -> nat {
        match self {
            RefreshRun::Stat => 2,
            RefreshRun::Read { .. } => 1,
            RefreshRun::Done(_) => 0,
        }
    }

    /// A refresh goes on to read the file only where the file is newer than the page.
    pub open spec fn is_sound(self, state: MarkdownState) -> bool {
        match self {
            RefreshRun::Read { current_modified } => current_modified > state.last_modified,
            _ => true,
        }
    }

    /// What clients are told when a refresh has come this far.
    pub open spec fn news(self) -> Option<ServerMessage> {
        if self == RefreshRun::Done(Ok(true)) {
            Some(ServerMessage::Reload)
        } else {
            None
        }
    }

    /// What clients are told when a refresh has come this far: to load the page again when it has
    /// changed, and nothing otherwise.
    pub fn announcement(&self) -> (r: Option<ServerMessage>)
        ensures
            r == self.news(),
    {
        match self {
            RefreshRun::Done(Ok(true)) => Some(ServerMessage::Reload),
            _ => None,
        }
    }
}

impl MarkdownState {
    /// Begins to open a file.
    pub fn new(file_path: Vec<u8>) -> (r: OpenRun)
        ensures
            r == (OpenRun::Stat { file_path }),
    {
        OpenRun::Stat { file_path }
    }

    /// Begins to refresh the page, which is made anew only where the file is newer than it.
    pub fn refresh_if_needed(&self) -> (r: RefreshRun)
        ensures
            r == RefreshRun::Stat,
            r.is_sound(*self),
    {
        RefreshRun::Stat
    }

    /// What is pending in a refresh, as contracts speak of it.
    pub open spec fn asks(self, run: RefreshRun, request: Option<DiskRequest>) -> bool {
        match run {
            RefreshRun::Stat => request matches Some(DiskRequest::Modified(p)) && p@
                == self.file_path@,
            RefreshRun::Read { current_modified } => request matches Some(DiskRequest::ReadText(p))
                && p@ == self.file_path@,
            RefreshRun::Done(_) => request is None,
        }
    }

    /// What the file system is to be asked for next in a refresh.
    pub fn refresh_request(&self, run: &RefreshRun) -> (r: Option<DiskRequest>)
        ensures
            self.asks(*run, r),
    {
        match run {
            RefreshRun::Stat => Some(DiskRequest::Modified(self.file_path.clone())),
            RefreshRun::Read { .. } => Some(DiskRequest::ReadText(self.file_path.clone())),
            RefreshRun::Done(_) => None,
        }
    }

    /// Goes on with a refresh. Where something goes wrong the page stays as it is.
    pub fn resume_refresh(&mut self, run: RefreshRun, reply: DiskReply) -> (r: RefreshRun)
        ensures
            refreshes_to(*old(self), run, reply, *final(self), r),
    {
        match (run, reply) {
            (RefreshRun::Stat, DiskReply::Modified(Ok(current_modified))) => {
                if current_modified > self.last_modified {
                    RefreshRun::Read { current_modified }
                } else {
                    RefreshRun::Done(Ok(false))
                }
            },
            (RefreshRun::Stat, DiskReply::Modified(Err(reason))) => RefreshRun::Done(
                Err(ServeError::Io(reason)),
            ),
            (RefreshRun::Read { current_modified }, DiskReply::Text(Ok(content))) => {
                match markdown_to_html(content.as_str()) {
                    Ok(html) => {
                        self.cached_html = html;
                        self.last_modified = current_modified;
                        RefreshRun::Done(Ok(true))
                    },
                    Err(error) => RefreshRun::Done(Err(error)),
                }
            },
            (RefreshRun::Read { .. }, DiskReply::Text(Err(reason))) => RefreshRun::Done(
                Err(ServeError::Io(reason)),
            ),
            (run, _) => run,
        }
    }

    /// The page.
    pub fn get_html(&self) -> (r: String)
        ensures
            r@ == self.cached_html@,
    {
        self.cached_html.clone()
    }

    /// What to ask the file system for to get the text of the file itself.
    pub fn get_raw_content(&self) -> (r: DiskRequest)
        ensures
            r matches DiskRequest::ReadText(p) && p@ == self.file_path@,
    {
        DiskRequest::ReadText(self.file_path.clone())
    }

    /// The directory from which the images of the document are served.
    pub fn get_base_dir(&self) -> (r: &[u8])
        ensures
            r@ == self.base_dir@,
    {
        self.base_dir.as_slice()
    }

    /// The answer to a request for the page, as contracts speak of it.
    pub open spec fn html_answer(self, refreshed: Result<bool, ServeError>) -> ReplyModel {
        match refreshed {
            Ok(_) => html_reply(Status::Success, self.cached_html@),
            Err(error) => html_reply(
                Status::InternalServerError,
                error_page("Error"@, error.text()),
            ),
        }
    }

    /// Answers a request for the page, once a refresh has come to an end.
    pub fn serve_html(&self, refreshed: Result<bool, ServeError>) -> (r: Reply)
        ensures
            r@ == self.html_answer(refreshed),
            r@.headers.len() == 0,
            refreshed is Ok ==> r@.status == Status::Success && r@.body == BodyModel::Html(
                self.cached_html@,
            ),
            refreshed matches Err(error) ==> r@.status == Status::InternalServerError && r@.body
                == BodyModel::Html("<h1>"@ + "Error"@ + "</h1><p>"@ + error.text() + "</p>"@),
    {
        match refreshed {
            Ok(_) => Reply::html(Status::Success, self.get_html()),
            Err(error) => Reply::error(Status::InternalServerError, "Error", error.message()),
        }
    }
}

/// Answers a request for the text of the file itself, which goes out as it was read.
pub fn serve_raw(content: Result<String, String>) -> (r: Reply)
    ensures
        r@ == match content {
            Ok(text) => text_reply(Status::Success, text@),
            Err(reason) => text_reply(
                Status::InternalServerError,
                "Error reading file: "@ + reason@,
            ),
        },
        r@.headers.len() == 0,
        content matches Ok(text) ==> r@.status == Status::Success && r@.body == BodyModel::Text(
            text@,
        ),
        content matches Err(reason) ==> r@.status == Status::InternalServerError && r@.body
            == BodyModel::Text("Error reading file: "@ + reason@),
{
    match content {
        Ok(text) => Reply::text(Status::Success, text),
        Err(reason) => {
            let mut text = "Error reading file: ".to_string();
            text.append(reason.as_str());
            Reply::text(Status::InternalServerError, text)
        },
    }
}

/// A refresh never makes the page older, and changes nothing unless it ends with the news that the
/// page has changed; then the page is strictly newer.
pub proof fn law_refresh_only_goes_forward(
    state: MarkdownState,
    run: RefreshRun,
    reply: DiskReply,
    after: MarkdownState,
    next: RefreshRun,
)
    requires
        run.is_sound(state),
        run !is Done,
        refreshes_to(state, run, reply, after, next),
    ensures
        next.is_sound(after),
        after.file_path == state.file_path,
        after.base_dir == state.base_dir,
        next.news() is Some ==> after.last_modified > state.last_modified,
        next.news() is None ==> after == state,
{
}

/// A file that is newer than the page and can be read has its text on the page after a refresh, and
/// clients are told to load the page again.
pub proof fn law_refresh_shows_newer_text(
    state: MarkdownState,
    modified: i128,
    between: MarkdownState,
    run: RefreshRun,
    content: String,
    after: MarkdownState,
    next: RefreshRun,
)
    requires
        modified > state.last_modified,
        refreshes_to(state, RefreshRun::Stat, DiskReply::Modified(Ok(modified)), between, run),
        refreshes_to(between, run, DiskReply::Text(Ok(content)), after, next),
    ensures
        next == RefreshRun::Done(Ok(true)),
        next.news() == Some(ServerMessage::Reload),
        is_page_of(after.cached_html@, content@),
        after.last_modified == modified,
{
}

/// A refresh finds nothing to do on a file that has not been modified since it was opened or last
/// refreshed.
pub proof fn law_refresh_of_unmodified_file(
    state: MarkdownState,
    modified: i128,
    after: MarkdownState,
    next: RefreshRun,
)
    requires
        modified <= state.last_modified,
        refreshes_to(state, RefreshRun::Stat, DiskReply::Modified(Ok(modified)), after, next),
    ensures
        next == RefreshRun::Done(Ok(false)),
        after == state,
{
}

/// A file that can be read is opened, with its page made of the text that was read, and a refresh
/// right afterwards finds nothing to do.
pub proof fn law_open_then_refresh(
    file_path: Vec<u8>,
    modified: i128,
    stat: OpenRun,
    content: String,
    read: OpenRun,
    canonical: Result<Vec<u8>, String>,
    done: OpenRun,
    after: MarkdownState,
    next: RefreshRun,
)
    requires
        opens_to((OpenRun::Stat { file_path }), DiskReply::Modified(Ok(modified)), stat),
        opens_to(stat, DiskReply::Text(Ok(content)), read),
        opens_to(read, DiskReply::Canonical(canonical), done),
        done matches OpenRun::Done(Ok(state)) ==> refreshes_to(
            state,
            RefreshRun::Stat,
            DiskReply::Modified(Ok(modified)),
            after,
            next,
        ),
    ensures
        done matches OpenRun::Done(Ok(state)) && is_page_of(state.cached_html@, content@)
            && state.file_path == file_path && after == state,
        next == RefreshRun::Done(Ok(false)),
{
}

/// A request for the page is answered with success and the page that is kept, whether the refresh before
/// it has changed the page or not, and with what went wrong where the refresh failed.
pub proof fn law_page_is_served_whatever_the_refresh_found(
    state: MarkdownState,
    changed: bool,
    error: ServeError,
)
    ensures
        state.html_answer(Ok(changed)).status == Status::Success,
        state.html_answer(Ok(changed)).headers.len() == 0,
        state.html_answer(Ok(changed)).body == BodyModel::Html(state.cached_html@),
        state.html_answer(Err(error)).status == Status::InternalServerError,
        state.html_answer(Err(error)).body == BodyModel::Html(
            "<h1>"@ + "Error"@ + "</h1><p>"@ + error.text() + "</p>"@,
        ),
{
}

/// A request for the page of a file that has been written since is answered with the page of the new
/// text: what the refresh read is what is sent.
pub proof fn law_newer_text_is_served(
    state: MarkdownState,
    modified: i128,
    between: MarkdownState,
    run: RefreshRun,
    content: String,
    after: MarkdownState,
    next: RefreshRun,
)
    requires
        modified > state.last_modified,
        refreshes_to(state, RefreshRun::Stat, DiskReply::Modified(Ok(modified)), between, run),
        refreshes_to(between, run, DiskReply::Text(Ok(content)), after, next),
    ensures
        next matches RefreshRun::Done(outcome) && outcome is Ok && after.html_answer(outcome).status
            == Status::Success && (after.html_answer(outcome).body matches BodyModel::Html(page)
            && is_page_of(page, content@)),
{
}

/// The directory of a file is the one that its name is taken from; that of a bare name is the current
/// one.
pub proof fn law_home_is_where_the_name_is_taken_from(dir: Seq<u8>, p: Seq<u8>, name: Seq<u8>)
    requires
        file_name_of(p) == Some(name),
    ensures
        components(dir).len() > 0 ==> home_of(joined(dir, name)) == components(dir),
        home_of(name) == seq![Part::Current],
{
    law_joined_file_name_comes_last(dir, p, name);
    law_file_name_is_one_component(p, name);
    law_current_directory_is_one_component();
    let all = components(joined(dir, name));
    assert(all.drop_last() =~= components(dir));
    assert(components(name).drop_last() =~= Seq::empty());
}

/// The opening of a file asks when the file was modified, then for its text and then for the canonical
/// form of its directory, and a refresh asks for the first two again.
pub proof fn law_the_file_itself_is_asked_for(
    file_path: Vec<u8>,
    modified: i128,
    html: String,
    state: MarkdownState,
    request: Option<DiskRequest>,
)
    ensures
        (OpenRun::Stat { file_path }).asks(request) <==> (request matches Some(
            DiskRequest::Modified(p),
        ) && p@ == file_path@),
        (OpenRun::Read { file_path, modified }).asks(request) <==> (request matches Some(
            DiskRequest::ReadText(p),
        ) && p@ == file_path@),
        (OpenRun::Locate { file_path, modified, html }).asks(request) <==> (request matches Some(
            DiskRequest::Canonicalize(p),
        ) && components(p@) == home_of(file_path@)),
        state.asks(RefreshRun::Stat, request) <==> (request matches Some(DiskRequest::Modified(p))
            && p@ == state.file_path@),
        state.asks((RefreshRun::Read { current_modified: modified }), request) <==> (
        request matches Some(DiskRequest::ReadText(p)) && p@ == state.file_path@),
{
}

/// A file whose age or text the file system refuses is not opened, and a refresh of it fails and changes
/// nothing; the error has the words of the file system.
pub proof fn law_refused_file_is_an_error(
    file_path: Vec<u8>,
    modified: i128,
    reason: String,
    unaged: OpenRun,
    unread: OpenRun,
    state: MarkdownState,
    after_unaged: MarkdownState,
    refresh_unaged: RefreshRun,
    after_unread: MarkdownState,
    refresh_unread: RefreshRun,
)
    requires
        opens_to((OpenRun::Stat { file_path }), DiskReply::Modified(Err(reason)), unaged),
        opens_to((OpenRun::Read { file_path, modified }), DiskReply::Text(Err(reason)), unread),
        refreshes_to(
            state,
            RefreshRun::Stat,
            DiskReply::Modified(Err(reason)),
            after_unaged,
            refresh_unaged,
        ),
        refreshes_to(
            state,
            (RefreshRun::Read { current_modified: modified }),
            DiskReply::Text(Err(reason)),
            after_unread,
            refresh_unread,
        ),
    ensures
        unaged == OpenRun::Done(Err(ServeError::Io(reason))),
        unread == OpenRun::Done(Err(ServeError::Io(reason))),
        refresh_unaged == RefreshRun::Done(Err(ServeError::Io(reason))),
        after_unaged == state,
        refresh_unread == RefreshRun::Done(Err(ServeError::Io(reason))),
        after_unread == state,
        refresh_unaged.news() is None,
        refresh_unread.news() is None,
{
}

/// A file that was opened is served under the path by which it was opened, with the age that it had
/// before it was read, the page of what was read, and images from the canonical form of its directory.
pub proof fn law_opened_file_is_kept_as_found(
    file_path: Vec<u8>,
    modified: i128,
    stat: OpenRun,
    content: String,
    read: OpenRun,
    dir: Vec<u8>,
    done: OpenRun,
)
    requires
        opens_to((OpenRun::Stat { file_path }), DiskReply::Modified(Ok(modified)), stat),
        opens_to(stat, DiskReply::Text(Ok(content)), read),
        opens_to(read, DiskReply::Canonical(Ok(dir)), done),
    ensures
        done matches OpenRun::Done(Ok(state)) && state.file_path@ == file_path@
            && state.last_modified == modified && is_page_of(state.cached_html@, content@)
            && state.base_dir@ == dir@,
{
}

/// Clients are told to load the page again exactly when a refresh has ended with a changed page.
pub proof fn law_reload_is_announced_for_changes_only(refresh: RefreshRun)
    ensures
        refresh == RefreshRun::Done(Ok(true)) ==> refresh.news() == Some(ServerMessage::Reload),
        refresh != RefreshRun::Done(Ok(true)) ==> refresh.news() is None,
{
}

/// The directory of a path is what its components are without the last, and the current directory where
/// nothing is left.
pub proof fn law_home_is_the_parent(p: Seq<u8>, dir: Seq<Part>)
    ensures
        parent_of(p) == Some(dir) && dir.len() > 0 ==> home_of(p) == dir,
        parent_of(p) == Some(Seq::<Part>::empty()) ==> home_of(p) == seq![Part::Current],
        parent_of(p) is None ==> home_of(p) == seq![Part::Current],
{
    law_current_directory_is_one_component();
}

/// Where the canonical form of the directory of a file cannot be found, images are served from the
/// directory as it was named.
pub proof fn law_unfound_directory_is_kept_as_named(
    file_path: Vec<u8>,
    modified: i128,
    html: String,
    reason: String,
    next: OpenRun,
)
    requires
        opens_to(
            (OpenRun::Locate { file_path, modified, html }),
            DiskReply::Canonical(Err(reason)),
            next,
        ),
    ensures
        next matches OpenRun::Done(Ok(state)) && components(state.base_dir@) == home_of(file_path@)
            && state.file_path@ == file_path@ && state.last_modified == modified
            && state.cached_html@ == html@,
{
}

/// A reply that does not answer what is pending leaves an opening and a refresh as they are, and so does
/// any reply once they are done.
pub proof fn law_unasked_reply_changes_nothing(
    reply: DiskReply,
    opening: OpenRun,
    opened: OpenRun,
    state: MarkdownState,
    refresh: RefreshRun,
    after: MarkdownState,
    refreshed: RefreshRun,
)
    requires
        opens_to(opening, reply, opened),
        refreshes_to(state, refresh, reply, after, refreshed),
    ensures
        opening is Stat && reply !is Modified || opening is Read && reply !is Text || opening is Locate
            && reply !is Canonical || opening is Done ==> opened == opening,
        refresh is Stat && reply !is Modified || refresh is Read && reply !is Text || refresh is Done
            ==> refreshed == refresh && after == state,
{
}

} // verus!
