//! Serving a directory: finding the files in it, making their pages and listing them.
use crate::cache::{CachedFile, CachedPage, FileCache};
use crate::disk::{DiskReply, DiskRequest};
use crate::error::ServeError;
use crate::listing::{is_listing, list_entries, visible, FileEntry};
use crate::page::{is_page_of, markdown_to_html};
use crate::path::{components, is_within, join, joined, validate_path_within_root, Part};
use vstd::prelude::*;
use vstd::string::*;

verus! {

/// A directory and the pages that were made of the files in it.
#[derive(Debug)]
pub struct DirectoryState {
    /// The canonical form of the directory.
    pub root_dir: Vec<u8>,
    pub file_cache: FileCache,
}

/// How far the opening of a directory has come.
#[derive(Debug)]
pub enum OpenDirRun {
    /// The directory is to be found.
    Resolve { root_dir: Vec<u8> },
    Done(Result<DirectoryState, ServeError>),
}

/// How far the making of a page has come.
#[derive(Debug)]
pub enum RenderRun {
    /// The file is to be found.
    Resolve { full: Vec<u8> },
    /// There is a page of the file, and it is to be seen whether the file is newer.
    CheckAge { path: Vec<u8> },
    /// The file is to be read.
    Read { path: Vec<u8> },
    /// The page is made, and is to be kept with the age of the file.
    Keep { path: Vec<u8>, html: String },
    Done(Result<String, ServeError>),
}

/// How far the reading of a file has come.
#[derive(Debug)]
pub enum RawRun {
    /// The file is to be found.
    Resolve { full: Vec<u8> },
    /// The file is to be read.
    Read { path: Vec<u8> },
    Done(Result<String, ServeError>),
}

/// How far the listing of a directory has come.
#[derive(Debug)]
pub enum ListRun {
    /// The directory is to be found.
    Resolve { full: Vec<u8> },
    /// The directory is to be read.
    Read { path: Vec<u8> },
    Done(Result<Vec<FileEntry>, ServeError>),
}

/// What the opening of a directory comes to next: it is served by its canonical form, with no page made
/// yet. A reply to something that was not asked changes nothing.
pub open spec fn opens_dir_to(run: OpenDirRun, reply: DiskReply, next: OpenDirRun) -> bool {
    match (run, reply) {
        (OpenDirRun::Resolve { root_dir }, DiskReply::Canonical(Ok(dir))) => {
            &&& next matches OpenDirRun::Done(Ok(state))
            &&& state.root_dir == dir
            &&& state.file_cache@ == Map::<Seq<Part>, CachedPage>::empty()
        },
        (OpenDirRun::Resolve { root_dir }, DiskReply::Canonical(Err(reason))) => {
            next == OpenDirRun::Done(Err(ServeError::Io(reason)))
        },
        _ => next == run,
    }
}

/// What the making of a page comes to next, and how the kept pages change. A reply to something that
/// was not asked changes nothing.
pub open spec fn renders_to(
    root: Seq<u8>,
    pages: Map<Seq<Part>, CachedPage>,
    run: RenderRun,
    reply: DiskReply,
    pages_after: Map<Seq<Part>, CachedPage>,
    next: RenderRun,
) -> bool {
    match (run, reply) {
        (RenderRun::Resolve { full }, DiskReply::Canonical(Ok(path))) => {
            &&& pages_after == pages
            &&& if !is_within(path@, root) {
                next == RenderRun::Done(Err(ServeError::OutsideRoot))
            } else if pages.contains_key(components(path@)) {
                next == (RenderRun::CheckAge { path })
            } else {
                next == (RenderRun::Read { path })
            }
        },
        (RenderRun::Resolve { full }, DiskReply::Canonical(Err(reason))) => {
            &&& pages_after == pages
            &&& next == RenderRun::Done(Err(ServeError::Io(reason)))
        },
        (RenderRun::CheckAge { path }, DiskReply::Modified(Ok(modified))) => {
            let key = components(path@);
            &&& pages_after == pages
            &&& if pages.contains_key(key) && modified <= pages[key].last_modified {
                &&& next matches RenderRun::Done(Ok(html))
                &&& html@ == pages[key].html
            } else {
                next == (RenderRun::Read { path })
            }
        },
        (RenderRun::CheckAge { path }, DiskReply::Modified(Err(reason))) => {
            &&& pages_after == pages
            &&& next == RenderRun::Done(Err(ServeError::Io(reason)))
        },
        (RenderRun::Read { path }, DiskReply::Text(Ok(content))) => {
            &&& pages_after == pages
            &&& next matches RenderRun::Keep { path: p, html }
            &&& p == path && is_page_of(html@, content@)
        },
        (RenderRun::Read { path }, DiskReply::Text(Err(reason))) => {
            &&& pages_after == pages
            &&& next == RenderRun::Done(Err(ServeError::Io(reason)))
        },
        (RenderRun::Keep { path, html }, DiskReply::Modified(Ok(modified))) => {
            &&& pages_after == pages.insert(
                components(path@),
                (CachedPage { last_modified: modified, html: html@ }),
            )
            &&& next == RenderRun::Done(Ok(html))
        },
        (RenderRun::Keep { path, html }, DiskReply::Modified(Err(reason))) => {
            &&& pages_after == pages
            &&& next == RenderRun::Done(Err(ServeError::Io(reason)))
        },
        _ => pages_after == pages && next == run,
    }
}

/// What the reading of a file comes to next. A reply to something that was not asked changes nothing.
pub open spec fn reads_to(root: Seq<u8>, run: RawRun, reply: DiskReply, next: RawRun) -> bool {
    match (run, reply) {
        (RawRun::Resolve { full }, DiskReply::Canonical(Ok(path))) => {
            if is_within(path@, root) {
                next == (RawRun::Read { path })
            } else {
                next == RawRun::Done(Err(ServeError::OutsideRoot))
            }
        },
        (RawRun::Resolve { full }, DiskReply::Canonical(Err(reason))) => {
            next == RawRun::Done(Err(ServeError::Io(reason)))
        },
        (RawRun::Read { path }, DiskReply::Text(Ok(content))) => next == RawRun::Done(Ok(content)),
        (RawRun::Read { path }, DiskReply::Text(Err(reason))) => {
            next == RawRun::Done(Err(ServeError::Io(reason)))
        },
        _ => next == run,
    }
}

/// What the listing of a directory comes to next. A reply to something that was not asked changes
/// nothing.
pub open spec fn lists_to(root: Seq<u8>, run: ListRun, reply: DiskReply, next: ListRun) -> bool {
    match (run, reply) {
        (ListRun::Resolve { full }, DiskReply::Canonical(Ok(path))) => {
            if is_within(path@, root) {
                next == (ListRun::Read { path })
            } else {
                next == ListRun::Done(Err(ServeError::OutsideRoot))
            }
        },
        (ListRun::Resolve { full }, DiskReply::Canonical(Err(reason))) => {
            next == ListRun::Done(Err(ServeError::Io(reason)))
        },
        (ListRun::Read { path }, DiskReply::Entries(Ok(raws))) => {
            &&& next matches ListRun::Done(Ok(listed))
            &&& is_listing(listed@, visible(raws@))
        },
        (ListRun::Read { path }, DiskReply::Entries(Err(reason))) => {
            next == ListRun::Done(Err(ServeError::Io(reason)))
        },
        _ => next == run,
    }
}

/// The path that a request looks at, opens or reads; finding the canonical form of a path is not
/// among these.
pub open spec fn touched(request: Option<DiskRequest>) -> Option<Seq<u8>> {
    match request {
        Some(DiskRequest::Modified(path)) => Some(path@),
        Some(DiskRequest::ReadText(path)) => Some(path@),
        Some(DiskRequest::ReadBytes(path)) => Some(path@),
        Some(DiskRequest::ReadDir(path)) => Some(path@),
        Some(DiskRequest::Canonicalize(_)) => None,
        None => None,
    }
}

impl OpenDirRun {
    /// The most replies that can still be needed.
    pub open spec fn steps_left(self) -> nat {
        match self {
            OpenDirRun::Resolve { .. } => 1,
            OpenDirRun::Done(_) => 0,
        }
    }

    /// What is pending, as contracts speak of it.
    pub open spec fn asks(self, request: Option<DiskRequest>) -> bool {
        match self {
            OpenDirRun::Resolve { root_dir } => request matches Some(DiskRequest::Canonicalize(p))
                && p@ == root_dir@,
            OpenDirRun::Done(_) => request is None,
        }
    }

    /// What the file system is to be asked for next.
    pub fn request(&self) -> (r: Option<DiskRequest>)
        ensures
            self.asks(r),
    {
        match self {
            OpenDirRun::Resolve { root_dir } => Some(DiskRequest::Canonicalize(root_dir.clone())),
            OpenDirRun::Done(_) => None,
        }
    }

    /// Goes on with the opening of a directory.
    pub fn resume(self, reply: DiskReply) -> (r: OpenDirRun)
        ensures
            opens_dir_to(self, reply, r),
    {
        match (self, reply) {
            (OpenDirRun::Resolve { .. }, DiskReply::Canonical(Ok(dir))) => OpenDirRun::Done(
                Ok(DirectoryState { root_dir: dir, file_cache: FileCache::new() }),
            ),
            (OpenDirRun::Resolve { .. }, DiskReply::Canonical(Err(reason))) => OpenDirRun::Done(
                Err(ServeError::Io(reason)),
            ),
            (run, _) => run,
        }
    }
}

impl RenderRun {
    /// The most replies that can still be needed.
    pub open spec fn steps_left(self) -> nat {
        match self {
            RenderRun::Resolve { .. } => 4,
            RenderRun::CheckAge { .. } => 3,
            RenderRun::Read { .. } => 2,
            RenderRun::Keep { .. } => 1,
            RenderRun::Done(_) => 0,
        }
    }

    /// A run that has found its file has found it within the root.
    pub open spec fn is_confined(self, root: Seq<u8>) -> bool {
        match self {
            RenderRun::CheckAge { path } => is_within(path@, root),
            RenderRun::Read { path } => is_within(path@, root),
            RenderRun::Keep { path, html } => is_within(path@, root),
            _ => true,
        }
    }

    /// What is pending, as contracts speak of it.
    pub open spec fn asks(self, request: Option<DiskRequest>) -> bool {
        match self {
            RenderRun::Resolve { full } => request matches Some(DiskRequest::Canonicalize(p)) && p@
                == full@,
            RenderRun::CheckAge { path } => request matches Some(DiskRequest::Modified(p)) && p@
                == path@,
            RenderRun::Read { path } => request matches Some(DiskRequest::ReadText(p)) && p@
                == path@,
            RenderRun::Keep { path, html } => request matches Some(DiskRequest::Modified(p)) && p@
                == path@,
            RenderRun::Done(_) => request is None,
        }
    }

    /// What the file system is to be asked for next.
    pub fn request(&self) -> (r: Option<DiskRequest>)
        ensures
            self.asks(r),
    {
        match self {
            RenderRun::Resolve { full } => Some(DiskRequest::Canonicalize(full.clone())),
            RenderRun::CheckAge { path } => Some(DiskRequest::Modified(path.clone())),
            RenderRun::Read { path } => Some(DiskRequest::ReadText(path.clone())),
            RenderRun::Keep { path, .. } => Some(DiskRequest::Modified(path.clone())),
            RenderRun::Done(_) => None,
        }
    }
}

impl RawRun {
    /// The most replies that can still be needed.
    pub open spec fn steps_left(self) -> nat {
        match self {
            RawRun::Resolve { .. } => 2,
            RawRun::Read { .. } => 1,
            RawRun::Done(_) => 0,
        }
    }

    /// A run that has found its file has found it within the root.
    pub open spec fn is_confined(self, root: Seq<u8>) -> bool {
        match self {
            RawRun::Read { path } => is_within(path@, root),
            _ => true,
        }
    }

    /// What is pending, as contracts speak of it.
    pub open spec fn asks(self, request: Option<DiskRequest>) -> bool {
        match self {
            RawRun::Resolve { full } => request matches Some(DiskRequest::Canonicalize(p)) && p@
                == full@,
            RawRun::Read { path } => request matches Some(DiskRequest::ReadText(p)) && p@ == path@,
            RawRun::Done(_) => request is None,
        }
    }

    /// What the file system is to be asked for next.
    pub fn request(&self) -> (r: Option<DiskRequest>)
        ensures
            self.asks(r),
    {
        match self {
            RawRun::Resolve { full } => Some(DiskRequest::Canonicalize(full.clone())),
            RawRun::Read { path } => Some(DiskRequest::ReadText(path.clone())),
            RawRun::Done(_) => None,
        }
    }
}

impl ListRun {
    /// The most replies that can still be needed.
    pub open spec fn steps_left(self) -> nat {
        match self {
            ListRun::Resolve { .. } => 2,
            ListRun::Read { .. } => 1,
            ListRun::Done(_) => 0,
        }
    }

    /// A run that has found its directory has found it within the root.
    pub open spec fn is_confined(self, root: Seq<u8>) -> bool {
        match self {
            ListRun::Read { path } => is_within(path@, root),
            _ => true,
        }
    }

    /// What is pending, as contracts speak of it.
    pub open spec fn asks(self, request: Option<DiskRequest>) -> bool {
        match self {
            ListRun::Resolve { full } => request matches Some(DiskRequest::Canonicalize(p)) && p@
                == full@,
            ListRun::Read { path } => request matches Some(DiskRequest::ReadDir(p)) && p@ == path@,
            ListRun::Done(_) => request is None,
        }
    }

    /// What the file system is to be asked for next.
    pub fn request(&self) -> (r: Option<DiskRequest>)
        ensures
            self.asks(r),
    {
        match self {
            ListRun::Resolve { full } => Some(DiskRequest::Canonicalize(full.clone())),
            ListRun::Read { path } => Some(DiskRequest::ReadDir(path.clone())),
            ListRun::Done(_) => None,
        }
    }
}

impl DirectoryState {
    /// Begins to open a directory. Requests are held against its canonical form, so that it may be
    /// given as a relative path.
    pub fn new(root_dir: Vec<u8>) -> (r: OpenDirRun)
        ensures
            r == (OpenDirRun::Resolve { root_dir }),
    {
        OpenDirRun::Resolve { root_dir }
    }

    /// Begins to list a directory, given by its path from the root.
    pub fn list_directory(&self, rel_path: &str) -> (r: ListRun)
        ensures
            r matches ListRun::Resolve { full } && full@ == joined(
                self.root_dir@,
                rel_path.spec_bytes(),
            ),
    {
        ListRun::Resolve { full: join(self.root_dir.as_slice(), rel_path.as_bytes()) }
    }

    /// Goes on with the listing of a directory.
    pub fn resume_list(&self, run: ListRun, reply: DiskReply) -> (r: ListRun)
        ensures
            lists_to(self.root_dir@, run, reply, r),
    {
        match (run, reply) {
            (ListRun::Resolve { .. }, DiskReply::Canonical(canonical)) => {
                match validate_path_within_root(canonical, self.root_dir.as_slice()) {
                    Ok(path) => ListRun::Read { path },
                    Err(error) => ListRun::Done(Err(error)),
                }
            },
            (ListRun::Read { .. }, DiskReply::Entries(Ok(raws))) => ListRun::Done(
                Ok(list_entries(raws)),
            ),
            (ListRun::Read { .. }, DiskReply::Entries(Err(reason))) => ListRun::Done(
                Err(ServeError::Io(reason)),
            ),
            (run, _) => run,
        }
    }

    /// Begins to make the page of a file, given by its path from the root.
    pub fn render_file(&self, rel_path: &str) -> (r: RenderRun)
        ensures
            r matches RenderRun::Resolve { full } && full@ == joined(
                self.root_dir@,
                rel_path.spec_bytes(),
            ),
    {
        RenderRun::Resolve { full: join(self.root_dir.as_slice(), rel_path.as_bytes()) }
    }

    /// Goes on with the making of a page. A page that is as new as its file is used again; a page that
    /// had to be made is kept.
    pub fn resume_render(&mut self, run: RenderRun, reply: DiskReply) -> (r: RenderRun)
        ensures
            final(self).root_dir == old(self).root_dir,
            renders_to(
                old(self).root_dir@,
                old(self).file_cache@,
                run,
                reply,
                final(self).file_cache@,
                r,
            ),
    {
        match (run, reply) {
            (RenderRun::Resolve { .. }, DiskReply::Canonical(canonical)) => {
                match validate_path_within_root(canonical, self.root_dir.as_slice()) {
                    Ok(path) => {
                        if self.file_cache.get(path.as_slice()).is_some() {
                            RenderRun::CheckAge { path }
                        } else {
                            RenderRun::Read { path }
                        }
                    },
                    Err(error) => RenderRun::Done(Err(error)),
                }
            },
            (RenderRun::CheckAge { path }, DiskReply::Modified(Ok(modified))) => {
                match self.file_cache.get(path.as_slice()) {
                    Some(cached) => {
                        if modified <= cached.last_modified {
                            RenderRun::Done(Ok(cached.cached_html.clone()))
                        } else {
                            RenderRun::Read { path }
                        }
                    },
                    None => RenderRun::Read { path },
                }
            },
            (RenderRun::CheckAge { .. }, DiskReply::Modified(Err(reason))) => RenderRun::Done(
                Err(ServeError::Io(reason)),
            ),
            (RenderRun::Read { path }, DiskReply::Text(Ok(content))) => {
                match markdown_to_html(content.as_str()) {
                    Ok(html) => RenderRun::Keep { path, html },
                    Err(error) => RenderRun::Done(Err(error)),
                }
            },
            (RenderRun::Read { .. }, DiskReply::Text(Err(reason))) => RenderRun::Done(
                Err(ServeError::Io(reason)),
            ),
            (RenderRun::Keep { path, html }, DiskReply::Modified(Ok(modified))) => {
                self.file_cache.insert(
                    path,
                    CachedFile { last_modified: modified, cached_html: html.clone() },
                );
                RenderRun::Done(Ok(html))
            },
            (RenderRun::Keep { .. }, DiskReply::Modified(Err(reason))) => RenderRun::Done(
                Err(ServeError::Io(reason)),
            ),
            (run, _) => run,
        }
    }

    /// Begins to read a file, given by its path from the root.
    pub fn get_raw_file(&self, rel_path: &str) -> (r: RawRun)
        ensures
            r matches RawRun::Resolve { full } && full@ == joined(
                self.root_dir@,
                rel_path.spec_bytes(),
            ),
    {
        RawRun::Resolve { full: join(self.root_dir.as_slice(), rel_path.as_bytes()) }
    }

    /// Goes on with the reading of a file.
    pub fn resume_raw(&self, run: RawRun, reply: DiskReply) -> (r: RawRun)
        ensures
            reads_to(self.root_dir@, run, reply, r),
    {
        match (run, reply) {
            (RawRun::Resolve { .. }, DiskReply::Canonical(canonical)) => {
                match validate_path_within_root(canonical, self.root_dir.as_slice()) {
                    Ok(path) => RawRun::Read { path },
                    Err(error) => RawRun::Done(Err(error)),
                }
            },
            (RawRun::Read { .. }, DiskReply::Text(Ok(content))) => RawRun::Done(Ok(content)),
            (RawRun::Read { .. }, DiskReply::Text(Err(reason))) => RawRun::Done(
                Err(ServeError::Io(reason)),
            ),
            (run, _) => run,
        }
    }
}

/// A request in a directory asks for the canonical form of the path first, and then for what was found by
/// it and nothing else: its age or its text for a page, its text for a file, its entries for a listing.
pub proof fn law_what_was_found_is_asked_for(
    given: Vec<u8>,
    path: Vec<u8>,
    html: String,
    request: Option<DiskRequest>,
)
    ensures
        (OpenDirRun::Resolve { root_dir: given }).asks(request) <==> (request matches Some(
            DiskRequest::Canonicalize(p),
        ) && p@ == given@),
        (RenderRun::Resolve { full: given }).asks(request) <==> (request matches Some(
            DiskRequest::Canonicalize(p),
        ) && p@ == given@),
        (RawRun::Resolve { full: given }).asks(request) <==> (request matches Some(
            DiskRequest::Canonicalize(p),
        ) && p@ == given@),
        (ListRun::Resolve { full: given }).asks(request) <==> (request matches Some(
            DiskRequest::Canonicalize(p),
        ) && p@ == given@),
        (RenderRun::CheckAge { path }).asks(request) <==> (request matches Some(
            DiskRequest::Modified(p),
        ) && p@ == path@),
        (RenderRun::Read { path }).asks(request) <==> (request matches Some(
            DiskRequest::ReadText(p),
        ) && p@ == path@),
        (RenderRun::Keep { path, html }).asks(request) <==> (request matches Some(
            DiskRequest::Modified(p),
        ) && p@ == path@),
        (RawRun::Read { path }).asks(request) <==> (request matches Some(DiskRequest::ReadText(p))
            && p@ == path@),
        (ListRun::Read { path }).asks(request) <==> (request matches Some(DiskRequest::ReadDir(p))
            && p@ == path@),
{
}

/// What the file system refuses in the making of a page ends it with an error that has the words of the
/// file system, and the kept pages stay as they are.
pub proof fn law_refused_page_is_an_error(
    root: Seq<u8>,
    pages: Map<Seq<Part>, CachedPage>,
    run: RenderRun,
    reply: DiskReply,
    reason: String,
    pages_after: Map<Seq<Part>, CachedPage>,
    next: RenderRun,
)
    requires
        renders_to(root, pages, run, reply, pages_after, next),
        run is Resolve && reply == DiskReply::Canonical(Err(reason)) || run is CheckAge && reply
            == DiskReply::Modified(Err(reason)) || run is Read && reply == DiskReply::Text(
            Err(reason),
        ) || run is Keep && reply == DiskReply::Modified(Err(reason)),
    ensures
        next == RenderRun::Done(Err(ServeError::Io(reason))),
        pages_after == pages,
{
}

/// What the file system refuses in the reading of a file, the listing of a directory or the opening of
/// one ends it with an error that has the words of the file system.
pub proof fn law_refused_request_is_an_error(
    root: Seq<u8>,
    raw: RawRun,
    raw_reply: DiskReply,
    raw_next: RawRun,
    list: ListRun,
    list_reply: DiskReply,
    list_next: ListRun,
    root_dir: Vec<u8>,
    open_next: OpenDirRun,
    reason: String,
)
    requires
        reads_to(root, raw, raw_reply, raw_next),
        raw is Resolve && raw_reply == DiskReply::Canonical(Err(reason)) || raw is Read && raw_reply
            == DiskReply::Text(Err(reason)),
        lists_to(root, list, list_reply, list_next),
        list is Resolve && list_reply == DiskReply::Canonical(Err(reason)) || list is Read
            && list_reply == DiskReply::Entries(Err(reason)),
        opens_dir_to(
            (OpenDirRun::Resolve { root_dir }),
            DiskReply::Canonical(Err(reason)),
            open_next,
        ),
    ensures
        raw_next == RawRun::Done(Err(ServeError::Io(reason))),
        list_next == ListRun::Done(Err(ServeError::Io(reason))),
        open_next == OpenDirRun::Done(Err(ServeError::Io(reason))),
{
}

/// A path that is found within the root is read: as a text where a file is asked for, as a directory where
/// a listing is, and where a page is asked for, unless there is a page already whose age is to be seen.
pub proof fn law_path_within_root_is_read(
    root: Seq<u8>,
    path: Vec<u8>,
    full: Vec<u8>,
    raw: RawRun,
    list: ListRun,
    pages: Map<Seq<Part>, CachedPage>,
    pages_after: Map<Seq<Part>, CachedPage>,
    page: RenderRun,
)
    requires
        is_within(path@, root),
        reads_to(root, (RawRun::Resolve { full }), DiskReply::Canonical(Ok(path)), raw),
        lists_to(root, (ListRun::Resolve { full }), DiskReply::Canonical(Ok(path)), list),
        renders_to(
            root,
            pages,
            (RenderRun::Resolve { full }),
            DiskReply::Canonical(Ok(path)),
            pages_after,
            page,
        ),
    ensures
        raw == (RawRun::Read { path }),
        list == (ListRun::Read { path }),
        pages.contains_key(components(path@)) ==> page == (RenderRun::CheckAge { path }),
        !pages.contains_key(components(path@)) ==> page == (RenderRun::Read { path }),
        pages_after == pages,
{
}

/// A directory that was opened is served by its canonical form, and no page of it is kept yet.
pub proof fn law_opened_directory_is_kept_as_found(
    root_dir: Vec<u8>,
    dir: Vec<u8>,
    next: OpenDirRun,
    key: Seq<Part>,
)
    requires
        opens_dir_to((OpenDirRun::Resolve { root_dir }), DiskReply::Canonical(Ok(dir)), next),
    ensures
        next matches OpenDirRun::Done(Ok(state)) && state.root_dir@ == dir@
            && !state.file_cache@.contains_key(key),
{
}

/// A reply that does not answer what is pending leaves a run as it is, and so does any reply once it is
/// done.
pub proof fn law_unasked_reply_changes_nothing(
    root: Seq<u8>,
    reply: DiskReply,
    opening: OpenDirRun,
    opened: OpenDirRun,
    pages: Map<Seq<Part>, CachedPage>,
    render: RenderRun,
    pages_after: Map<Seq<Part>, CachedPage>,
    rendered: RenderRun,
    raw: RawRun,
    read: RawRun,
    list: ListRun,
    listed: ListRun,
)
    requires
        opens_dir_to(opening, reply, opened),
        renders_to(root, pages, render, reply, pages_after, rendered),
        reads_to(root, raw, reply, read),
        lists_to(root, list, reply, listed),
    ensures
        opening is Resolve && reply !is Canonical || opening is Done ==> opened == opening,
        render is Resolve && reply !is Canonical || render is CheckAge && reply !is Modified || render
            is Read && reply !is Text || render is Keep && reply !is Modified || render is Done
            ==> rendered == render && pages_after == pages,
        raw is Resolve && reply !is Canonical || raw is Read && reply !is Text || raw is Done ==> read
            == raw,
        list is Resolve && reply !is Canonical || list is Read && reply !is Entries || list is Done
            ==> listed == list,
{
}

} // verus!
