//! What holds of the server as a whole, whatever the file system says.
use crate::cache::CachedPage;
use crate::directory::{
    lists_to, opens_dir_to, reads_to, renders_to, touched, DirectoryState, ListRun, OpenDirRun,
    RawRun, RenderRun,
};
use crate::disk::{answers, DiskReply, DiskRequest, RawEntry};
use crate::document::{home_of, opens_to, refreshes_to, MarkdownState, OpenRun, RefreshRun};
use crate::error::ServeError;
use crate::listing::{is_hidden, is_listing, law_listing_leaves_hidden_out, visible};
use crate::media::{content_type_of, is_image, law_images_have_image_types};
use crate::page::is_page_of;
use crate::path::{
    components, is_absolute, is_within, law_absolute_path_has_the_root_first,
    law_current_directory_is_one_component, Part, DOT,
};
use crate::reply::{BodyModel, Status};
use crate::static_files::{
    begins_with, denied, image_answer, is_answered, missing, serves_to, StaticRun,
};
use vstd::prelude::*;

verus! {

/// A course of the making of a page, with the replies of the file system and the pages kept at each
/// step.
pub open spec fn is_render_course(
    root: Seq<u8>,
    runs: Seq<RenderRun>,
    replies: Seq<DiskReply>,
    kept: Seq<Map<Seq<Part>, CachedPage>>,
) -> bool {
    &&& runs.len() == replies.len() + 1
    &&& kept.len() == runs.len()
    &&& runs[0] is Resolve
    &&& forall|i: int|
        0 <= i < replies.len() ==> #[trigger] renders_to(
            root,
            kept[i],
            runs[i],
            replies[i],
            kept[i + 1],
            runs[i + 1],
        )
}

/// A course of the reading of a file, with the replies of the file system.
pub open spec fn is_raw_course(
    root: Seq<u8>,
    runs: Seq<RawRun>,
    replies: Seq<DiskReply>,
) -> bool {
    &&& runs.len() == replies.len() + 1
    &&& runs[0] is Resolve
    &&& forall|i: int|
        0 <= i < replies.len() ==> #[trigger] reads_to(root, runs[i], replies[i], runs[i + 1])
}

/// A course of the listing of a directory, with the replies of the file system.
pub open spec fn is_list_course(
    root: Seq<u8>,
    runs: Seq<ListRun>,
    replies: Seq<DiskReply>,
) -> bool {
    &&& runs.len() == replies.len() + 1
    &&& runs[0] is Resolve
    &&& forall|i: int|
        0 <= i < replies.len() ==> #[trigger] lists_to(root, runs[i], replies[i], runs[i + 1])
}

/// A course of the serving of an image, with the replies of the file system.
pub open spec fn is_static_course(
    base_dir: Seq<u8>,
    file_path: Seq<u8>,
    runs: Seq<StaticRun>,
    replies: Seq<DiskReply>,
) -> bool {
    &&& runs.len() == replies.len() + 1
    &&& begins_with(base_dir, file_path, runs[0])
    &&& forall|i: int|
        0 <= i < replies.len() ==> #[trigger] serves_to(
            base_dir,
            file_path,
            runs[i],
            replies[i],
            runs[i + 1],
        )
}

proof fn lemma_render_confined(
    root: Seq<u8>,
    runs: Seq<RenderRun>,
    replies: Seq<DiskReply>,
    kept: Seq<Map<Seq<Part>, CachedPage>>,
    i: int,
)
    requires
        is_render_course(root, runs, replies, kept),
        0 <= i < runs.len(),
    ensures
        runs[i].is_confined(root),
    decreases i,
{
    if i > 0 {
        let j = i - 1;
        lemma_render_confined(root, runs, replies, kept, j);
        assert(renders_to(root, kept[j], runs[j], replies[j], kept[j + 1], runs[j + 1]));
    }
}

/// The making of a page never looks at a file outside of the root, whatever was requested and
/// whatever the file system says.
pub proof fn law_render_stays_within_root(
    root: Seq<u8>,
    runs: Seq<RenderRun>,
    replies: Seq<DiskReply>,
    kept: Seq<Map<Seq<Part>, CachedPage>>,
    i: int,
    request: Option<DiskRequest>,
)
    requires
        is_render_course(root, runs, replies, kept),
        0 <= i < runs.len(),
        runs[i].asks(request),
    ensures
        touched(request) matches Some(path) ==> is_within(path, root),
{
    lemma_render_confined(root, runs, replies, kept, i);
}

proof fn lemma_raw_confined(root: Seq<u8>, runs: Seq<RawRun>, replies: Seq<DiskReply>, i: int)
    requires
        is_raw_course(root, runs, replies),
        0 <= i < runs.len(),
    ensures
        runs[i].is_confined(root),
    decreases i,
{
    if i > 0 {
        let j = i - 1;
        lemma_raw_confined(root, runs, replies, j);
        assert(reads_to(root, runs[j], replies[j], runs[j + 1]));
    }
}

/// The reading of a file never looks at a file outside of the root, whatever was requested and
/// whatever the file system says.
pub proof fn law_raw_stays_within_root(
    root: Seq<u8>,
    runs: Seq<RawRun>,
    replies: Seq<DiskReply>,
    i: int,
    request: Option<DiskRequest>,
)
    requires
        is_raw_course(root, runs, replies),
        0 <= i < runs.len(),
        runs[i].asks(request),
    ensures
        touched(request) matches Some(path) ==> is_within(path, root),
{
    lemma_raw_confined(root, runs, replies, i);
}

proof fn lemma_list_confined(root: Seq<u8>, runs: Seq<ListRun>, replies: Seq<DiskReply>, i: int)
    requires
        is_list_course(root, runs, replies),
        0 <= i < runs.len(),
    ensures
        runs[i].is_confined(root),
    decreases i,
{
    if i > 0 {
        let j = i - 1;
        lemma_list_confined(root, runs, replies, j);
        assert(lists_to(root, runs[j], replies[j], runs[j + 1]));
    }
}

/// The listing of a directory never looks at a directory outside of the root, whatever was requested
/// and whatever the file system says.
pub proof fn law_list_stays_within_root(
    root: Seq<u8>,
    runs: Seq<ListRun>,
    replies: Seq<DiskReply>,
    i: int,
    request: Option<DiskRequest>,
)
    requires
        is_list_course(root, runs, replies),
        0 <= i < runs.len(),
        runs[i].asks(request),
    ensures
        touched(request) matches Some(path) ==> is_within(path, root),
{
    lemma_list_confined(root, runs, replies, i);
}

/// Whatever the listing of a directory comes to, no name in it begins with `.`.
pub proof fn law_listed_names_do_not_begin_with_a_dot(
    root: Seq<u8>,
    runs: Seq<ListRun>,
    replies: Seq<DiskReply>,
    i: int,
    k: int,
)
    requires
        is_list_course(root, runs, replies),
        0 <= i < runs.len(),
    ensures
        runs[i] matches ListRun::Done(Ok(listed)) ==> (0 <= k < listed@.len()
            && listed@[k].name@.len() > 0 ==> listed@[k].name@[0] != '.'),
{
    law_list_hides_hidden_files(root, runs, replies, i, k);
}

/// Whatever the listing of a directory comes to, no hidden file is in it.
pub proof fn law_list_hides_hidden_files(
    root: Seq<u8>,
    runs: Seq<ListRun>,
    replies: Seq<DiskReply>,
    i: int,
    k: int,
)
    requires
        is_list_course(root, runs, replies),
        0 <= i < runs.len(),
    ensures
        runs[i] matches ListRun::Done(Ok(listed)) ==> 0 <= k < listed@.len() ==> !is_hidden(
            listed@[k].name@,
        ),
    decreases i,
{
    if i > 0 {
        let j = i - 1;
        law_list_hides_hidden_files(root, runs, replies, j, k);
        assert(lists_to(root, runs[j], replies[j], runs[j + 1]));
        match (runs[j], replies[j], runs[i]) {
            (
                ListRun::Read { path },
                DiskReply::Entries(Ok(raws)),
                ListRun::Done(Ok(listed)),
            ) => {
                if 0 <= k < listed@.len() {
                    law_listing_leaves_hidden_out(raws@, listed@, k);
                }
            },
            _ => {},
        }
    }
}

proof fn lemma_static_confined(
    base_dir: Seq<u8>,
    file_path: Seq<u8>,
    runs: Seq<StaticRun>,
    replies: Seq<DiskReply>,
    i: int,
)
    requires
        is_static_course(base_dir, file_path, runs, replies),
        0 <= i < runs.len(),
    ensures
        runs[i].is_confined(base_dir),
        !is_image(file_path) ==> is_answered(runs[i], missing()),
        runs[i] matches StaticRun::Done(reply) ==> reply@ == missing() || reply@ == denied()
            || exists|bytes: Seq<u8>| #[trigger] image_answer(file_path, bytes) == reply@,
    decreases i,
{
    if i > 0 {
        let j = i - 1;
        lemma_static_confined(base_dir, file_path, runs, replies, j);
        assert(serves_to(base_dir, file_path, runs[j], replies[j], runs[j + 1]));
    }
}

/// The serving of an image never looks at a file outside of its directory, whatever was requested and
/// whatever the file system says.
pub proof fn law_static_stays_within_directory(
    base_dir: Seq<u8>,
    file_path: Seq<u8>,
    runs: Seq<StaticRun>,
    replies: Seq<DiskReply>,
    i: int,
    request: Option<DiskRequest>,
)
    requires
        is_static_course(base_dir, file_path, runs, replies),
        0 <= i < runs.len(),
        runs[i].asks(request),
    ensures
        touched(request) matches Some(path) ==> is_within(path, base_dir),
{
    lemma_static_confined(base_dir, file_path, runs, replies, i);
}

/// Where the directory of a file could not be brought into canonical form, and the file was named by a
/// relative path, no absolute path lies within the directory that is kept in its place.
pub proof fn law_relative_directory_holds_no_absolute_path(
    file_path: Vec<u8>,
    modified: i128,
    html: String,
    reason: String,
    state: MarkdownState,
    path: Seq<u8>,
)
    requires
        opens_to(
            (OpenRun::Locate { file_path, modified, html }),
            DiskReply::Canonical(Err(reason)),
            OpenRun::Done(Ok(state)),
        ),
        !is_absolute(file_path@),
        is_absolute(path),
    ensures
        !is_within(path, state.base_dir@),
{
    let home = home_of(file_path@);
    law_absolute_path_has_the_root_first(file_path@);
    law_absolute_path_has_the_root_first(path);
    law_absolute_path_has_the_root_first(seq![DOT]);
    assert(components(state.base_dir@) == home);
    law_current_directory_is_one_component();
    assert(home.len() > 0 && home[0] != Part::Root);
    if is_within(path, state.base_dir@) {
        assert(components(path).subrange(0, home.len() as int)[0] == home[0]);
    }
}

/// The images of an opened file come from its directory and from nowhere else, whatever was requested,
/// whatever the file system says and however the file was named: every path that is read lies within
/// the canonical form of the directory. Where that could not be found, a file named by a relative path
/// has no image read by its canonical path, which begins at the root.
pub proof fn law_document_serves_only_its_directory(
    file_path: Vec<u8>,
    modified: i128,
    html: String,
    canonical: Result<Vec<u8>, String>,
    state: MarkdownState,
    requested: Seq<u8>,
    runs: Seq<StaticRun>,
    replies: Seq<DiskReply>,
    i: int,
    request: Option<DiskRequest>,
)
    requires
        opens_to(
            (OpenRun::Locate { file_path, modified, html }),
            DiskReply::Canonical(canonical),
            OpenRun::Done(Ok(state)),
        ),
        is_static_course(state.base_dir@, requested, runs, replies),
        0 <= i < runs.len(),
        runs[i].asks(request),
    ensures
        touched(request) matches Some(path) ==> match canonical {
            Ok(dir) => is_within(path, dir@),
            Err(_) => !is_absolute(file_path@) ==> !is_absolute(path),
        },
{
    law_static_stays_within_directory(state.base_dir@, requested, runs, replies, i, request);
    match (touched(request), canonical) {
        (Some(path), Err(reason)) => {
            if !is_absolute(file_path@) && is_absolute(path) {
                law_relative_directory_holds_no_absolute_path(
                    file_path,
                    modified,
                    html,
                    reason,
                    state,
                    path,
                );
            }
        },
        _ => {},
    }
}

/// An image outside of the directory of an opened file is denied, however the file was named.
pub proof fn law_image_outside_of_the_document_is_denied(
    file_path: Vec<u8>,
    modified: i128,
    html: String,
    canonical: Result<Vec<u8>, String>,
    state: MarkdownState,
    requested: Seq<u8>,
    full: Vec<u8>,
    path: Vec<u8>,
    next: StaticRun,
)
    requires
        opens_to(
            (OpenRun::Locate { file_path, modified, html }),
            DiskReply::Canonical(canonical),
            OpenRun::Done(Ok(state)),
        ),
        match canonical {
            Ok(dir) => !is_within(path@, dir@),
            Err(_) => !is_absolute(file_path@) && is_absolute(path@),
        },
        serves_to(
            state.base_dir@,
            requested,
            (StaticRun::Resolve { full }),
            DiskReply::Canonical(Ok(path)),
            next,
        ),
    ensures
        is_answered(next, denied()),
{
    match canonical {
        Ok(_) => {},
        Err(reason) => {
            law_relative_directory_holds_no_absolute_path(
                file_path,
                modified,
                html,
                reason,
                state,
                path@,
            );
        },
    }
}

/// A directory that was opened and can be read is listed, however it was named: its canonical form lies
/// within itself.
pub proof fn law_opened_directory_is_listed(
    root_dir: Vec<u8>,
    dir: Vec<u8>,
    state: DirectoryState,
    full: Vec<u8>,
    found: Vec<u8>,
    run: ListRun,
    raws: Vec<RawEntry>,
    done: ListRun,
)
    requires
        opens_dir_to(
            (OpenDirRun::Resolve { root_dir }),
            DiskReply::Canonical(Ok(dir)),
            OpenDirRun::Done(Ok(state)),
        ),
        components(found@) == components(dir@),
        lists_to(
            state.root_dir@,
            (ListRun::Resolve { full }),
            DiskReply::Canonical(Ok(found)),
            run,
        ),
        lists_to(state.root_dir@, run, DiskReply::Entries(Ok(raws)), done),
    ensures
        run == (ListRun::Read { path: found }),
        done matches ListRun::Done(Ok(listed)) && is_listing(listed@, visible(raws@)),
{
    assert(components(found@).subrange(0, components(dir@).len() as int) =~= components(dir@));
}

/// Only images are served as static files: anything else is not found, and what is answered with
/// success bears the media type of an image.
pub proof fn law_only_images_are_served(
    base_dir: Seq<u8>,
    file_path: Seq<u8>,
    runs: Seq<StaticRun>,
    replies: Seq<DiskReply>,
    i: int,
)
    requires
        is_static_course(base_dir, file_path, runs, replies),
        0 <= i < runs.len(),
    ensures
        !is_image(file_path) ==> is_answered(runs[i], missing()),
        runs[i] matches StaticRun::Done(reply) ==> reply@.status == Status::Success ==> (
        exists|bytes: Seq<u8>| #[trigger] image_answer(file_path, bytes) == reply@)
            && "image/"@.is_prefix_of(content_type_of(file_path)),
{
    lemma_static_confined(base_dir, file_path, runs, replies, i);
    law_images_have_image_types(file_path);
}

/// Whatever was requested and whatever the file system says, an answer with success to a request for an
/// image has exactly one header, the content type of the requested path, and bytes for its body; any other
/// answer is a refusal with 403 or 404.
pub proof fn law_images_bear_their_content_type(
    base_dir: Seq<u8>,
    file_path: Seq<u8>,
    runs: Seq<StaticRun>,
    replies: Seq<DiskReply>,
    i: int,
)
    requires
        is_static_course(base_dir, file_path, runs, replies),
        0 <= i < runs.len(),
    ensures
        runs[i] matches StaticRun::Done(reply) ==> {
            ||| reply@.status == Status::Success && reply@.headers == seq![
                ("content-type"@, content_type_of(file_path)),
            ] && reply@.body is Bytes && is_image(file_path)
            ||| reply@.status == Status::Forbidden && reply@.body == BodyModel::Text(
                "Access denied"@,
            )
            ||| reply@.status == Status::NotFound && reply@.body == BodyModel::Text(
                "File not found"@,
            )
        },
{
    lemma_static_confined(base_dir, file_path, runs, replies, i);
}

/// There is no page of a file outside of the root, and nothing is kept of it.
pub proof fn law_outside_file_is_not_rendered(
    root: Seq<u8>,
    pages: Map<Seq<Part>, CachedPage>,
    full: Vec<u8>,
    path: Vec<u8>,
    pages_after: Map<Seq<Part>, CachedPage>,
    next: RenderRun,
)
    requires
        !is_within(path@, root),
        renders_to(
            root,
            pages,
            (RenderRun::Resolve { full }),
            DiskReply::Canonical(Ok(path)),
            pages_after,
            next,
        ),
    ensures
        next == RenderRun::Done(Err(ServeError::OutsideRoot)),
        pages_after == pages,
{
}

/// The text of a file outside of the root is not given out.
pub proof fn law_outside_file_is_not_read(
    root: Seq<u8>,
    full: Vec<u8>,
    path: Vec<u8>,
    next: RawRun,
)
    requires
        !is_within(path@, root),
        reads_to(root, (RawRun::Resolve { full }), DiskReply::Canonical(Ok(path)), next),
    ensures
        next == RawRun::Done(Err(ServeError::OutsideRoot)),
{
}

/// A directory outside of the root is not listed.
pub proof fn law_outside_directory_is_not_listed(
    root: Seq<u8>,
    full: Vec<u8>,
    path: Vec<u8>,
    next: ListRun,
)
    requires
        !is_within(path@, root),
        lists_to(root, (ListRun::Resolve { full }), DiskReply::Canonical(Ok(path)), next),
    ensures
        next == ListRun::Done(Err(ServeError::OutsideRoot)),
{
}

/// An image outside of the directory is denied.
pub proof fn law_outside_image_is_denied(
    base_dir: Seq<u8>,
    file_path: Seq<u8>,
    full: Vec<u8>,
    path: Vec<u8>,
    next: StaticRun,
)
    requires
        !is_within(path@, base_dir),
        serves_to(
            base_dir,
            file_path,
            (StaticRun::Resolve { full }),
            DiskReply::Canonical(Ok(path)),
            next,
        ),
    ensures
        is_answered(next, denied()),
        denied().status == Status::Forbidden,
{
}

/// A page that was kept is used again as long as its file is not newer, without the file being read,
/// and nothing changes by that.
pub proof fn law_kept_page_is_used_again(
    root: Seq<u8>,
    pages: Map<Seq<Part>, CachedPage>,
    path: Vec<u8>,
    html: String,
    modified: i128,
    pages_kept: Map<Seq<Part>, CachedPage>,
    first: RenderRun,
    full: Vec<u8>,
    path_again: Vec<u8>,
    pages_found: Map<Seq<Part>, CachedPage>,
    found: RenderRun,
    modified_again: i128,
    pages_last: Map<Seq<Part>, CachedPage>,
    second: RenderRun,
)
    requires
        renders_to(
            root,
            pages,
            (RenderRun::Keep { path, html }),
            DiskReply::Modified(Ok(modified)),
            pages_kept,
            first,
        ),
        components(path_again@) == components(path@),
        is_within(path_again@, root),
        renders_to(
            root,
            pages_kept,
            (RenderRun::Resolve { full }),
            DiskReply::Canonical(Ok(path_again)),
            pages_found,
            found,
        ),
        modified_again <= modified,
        renders_to(
            root,
            pages_found,
            found,
            DiskReply::Modified(Ok(modified_again)),
            pages_last,
            second,
        ),
    ensures
        first == RenderRun::Done(Ok(html)),
        found == (RenderRun::CheckAge { path: path_again }),
        second matches RenderRun::Done(Ok(again)) && again@ == html@,
        pages_last == pages_kept,
{
}

/// A file that is newer than its page is read again.
pub proof fn law_newer_file_is_read_again(
    root: Seq<u8>,
    pages: Map<Seq<Part>, CachedPage>,
    path: Vec<u8>,
    modified: i128,
    pages_after: Map<Seq<Part>, CachedPage>,
    next: RenderRun,
)
    requires
        pages.contains_key(components(path@)) ==> modified > pages[components(
            path@,
        )].last_modified,
        renders_to(
            root,
            pages,
            (RenderRun::CheckAge { path }),
            DiskReply::Modified(Ok(modified)),
            pages_after,
            next,
        ),
    ensures
        next == (RenderRun::Read { path }),
        pages_after == pages,
{
}

/// A step in the making of a page keeps at most the page of its own file, and a step that fails keeps
/// nothing.
pub proof fn law_other_pages_stay(
    root: Seq<u8>,
    pages: Map<Seq<Part>, CachedPage>,
    run: RenderRun,
    reply: DiskReply,
    pages_after: Map<Seq<Part>, CachedPage>,
    next: RenderRun,
    other: Seq<Part>,
)
    requires
        renders_to(root, pages, run, reply, pages_after, next),
        run matches RenderRun::Keep { path, html } ==> components(path@) != other,
    ensures
        pages_after.contains_key(other) == pages.contains_key(other),
        pages.contains_key(other) ==> pages_after[other] == pages[other],
        next matches RenderRun::Done(Err(_)) ==> pages_after == pages,
{
}

/// A file that is found within the root and has no page yet gets the page of its text, which is kept.
pub proof fn law_file_is_rendered(
    root: Seq<u8>,
    pages: Map<Seq<Part>, CachedPage>,
    full: Vec<u8>,
    path: Vec<u8>,
    pages_found: Map<Seq<Part>, CachedPage>,
    found: RenderRun,
    content: String,
    pages_read: Map<Seq<Part>, CachedPage>,
    read: RenderRun,
    modified: i128,
    pages_kept: Map<Seq<Part>, CachedPage>,
    done: RenderRun,
)
    requires
        is_within(path@, root),
        !pages.contains_key(components(path@)),
        renders_to(
            root,
            pages,
            (RenderRun::Resolve { full }),
            DiskReply::Canonical(Ok(path)),
            pages_found,
            found,
        ),
        renders_to(root, pages_found, found, DiskReply::Text(Ok(content)), pages_read, read),
        renders_to(root, pages_read, read, DiskReply::Modified(Ok(modified)), pages_kept, done),
    ensures
        done matches RenderRun::Done(Ok(html)) && is_page_of(html@, content@) && pages_kept
            == pages.insert(
            components(path@),
            (CachedPage { last_modified: modified, html: html@ }),
        ),
{
}

/// A file that is found within the root and can be read is given out as it was read.
pub proof fn law_raw_text_is_unchanged(
    root: Seq<u8>,
    full: Vec<u8>,
    path: Vec<u8>,
    found: RawRun,
    content: String,
    done: RawRun,
)
    requires
        is_within(path@, root),
        reads_to(root, (RawRun::Resolve { full }), DiskReply::Canonical(Ok(path)), found),
        reads_to(root, found, DiskReply::Text(Ok(content)), done),
    ensures
        done == RawRun::Done(Ok(content)),
{
}

/// The opening of a file comes to an end: each reply to what is pending takes it nearer to being
/// done, whatever the reply says, and nothing is pending once it is done.
pub proof fn law_opening_ends(
    request: DiskRequest,
    reply: DiskReply,
    run: OpenRun,
    next: OpenRun,
)
    requires
        answers(reply, request),
        run.asks(Some(request)),
        opens_to(run, reply, next),
    ensures
        next.steps_left() < run.steps_left(),
        next.asks(None) <==> next.steps_left() == 0,
{
}

/// The opening of a directory comes to an end in the same way.
pub proof fn law_opening_directory_ends(
    request: DiskRequest,
    reply: DiskReply,
    run: OpenDirRun,
    next: OpenDirRun,
)
    requires
        answers(reply, request),
        run.asks(Some(request)),
        opens_dir_to(run, reply, next),
    ensures
        next.steps_left() < run.steps_left(),
        next.asks(None) <==> next.steps_left() == 0,
{
}

/// A refresh comes to an end in the same way.
pub proof fn law_refresh_ends(
    request: DiskRequest,
    reply: DiskReply,
    state: MarkdownState,
    run: RefreshRun,
    after: MarkdownState,
    next: RefreshRun,
)
    requires
        answers(reply, request),
        state.asks(run, Some(request)),
        refreshes_to(state, run, reply, after, next),
    ensures
        next.steps_left() < run.steps_left(),
        state.asks(next, None) <==> next.steps_left() == 0,
{
}

/// The making of a page comes to an end in the same way.
pub proof fn law_render_ends(
    request: DiskRequest,
    reply: DiskReply,
    root: Seq<u8>,
    pages: Map<Seq<Part>, CachedPage>,
    run: RenderRun,
    pages_after: Map<Seq<Part>, CachedPage>,
    next: RenderRun,
)
    requires
        answers(reply, request),
        run.asks(Some(request)),
        renders_to(root, pages, run, reply, pages_after, next),
    ensures
        next.steps_left() < run.steps_left(),
        next.asks(None) <==> next.steps_left() == 0,
{
}

/// The reading of a file comes to an end in the same way.
pub proof fn law_raw_ends(
    request: DiskRequest,
    reply: DiskReply,
    root: Seq<u8>,
    run: RawRun,
    next: RawRun,
)
    requires
        answers(reply, request),
        run.asks(Some(request)),
        reads_to(root, run, reply, next),
    ensures
        next.steps_left() < run.steps_left(),
        next.asks(None) <==> next.steps_left() == 0,
{
}

/// The listing of a directory comes to an end in the same way.
pub proof fn law_list_ends(
    request: DiskRequest,
    reply: DiskReply,
    root: Seq<u8>,
    run: ListRun,
    next: ListRun,
)
    requires
        answers(reply, request),
        run.asks(Some(request)),
        lists_to(root, run, reply, next),
    ensures
        next.steps_left() < run.steps_left(),
        next.asks(None) <==> next.steps_left() == 0,
{
}

/// The serving of an image comes to an end in the same way.
pub proof fn law_static_ends(
    request: DiskRequest,
    reply: DiskReply,
    base_dir: Seq<u8>,
    file_path: Seq<u8>,
    run: StaticRun,
    next: StaticRun,
)
    requires
        answers(reply, request),
        run.asks(Some(request)),
        serves_to(base_dir, file_path, run, reply, next),
    ensures
        next.steps_left() < run.steps_left(),
        next.asks(None) <==> next.steps_left() == 0,
{
}

/// A step in the making of some page, with the pages kept before and after it.
pub struct RenderStep {
    pub pages: Map<Seq<Part>, CachedPage>,
    pub run: RenderRun,
    pub reply: DiskReply,
    pub pages_after: Map<Seq<Part>, CachedPage>,
    pub next: RenderRun,
}

/// Whether a step is one that follows on the `n` first of some steps: it takes over the pages, and either
/// begins the making of a page or goes on with one that has come as far before.
pub open spec fn follows(root: Seq<u8>, steps: Seq<RenderStep>, n: int) -> bool {
    let step = steps[n];
    &&& renders_to(root, step.pages, step.run, step.reply, step.pages_after, step.next)
    &&& if n == 0 {
        step.pages == Map::<Seq<Part>, CachedPage>::empty()
    } else {
        step.pages == steps[n - 1].pages_after
    }
    &&& step.run is Resolve || exists|k: int| 0 <= k < n && #[trigger] steps[k].next == step.run
}

/// Everything that happened to the pages of a directory since it was opened: the making of any number of
/// pages, one after the other or in turns.
pub open spec fn is_history(root: Seq<u8>, steps: Seq<RenderStep>) -> bool {
    forall|n: int| 0 <= n < steps.len() ==> #[trigger] follows(root, steps, n)
}

/// Whether a step is given the text of the file `key`, of which a page is made.
pub open spec fn reads_page(step: RenderStep, key: Seq<Part>, html: Seq<char>) -> bool {
    match (step.run, step.reply) {
        (RenderRun::Read { path }, DiskReply::Text(Ok(content))) => {
            &&& components(path@) == key
            &&& is_page_of(html, content@)
        },
        _ => false,
    }
}

/// Whether a page was made of a text that one of the `n` first steps was given for the file `key`.
pub open spec fn was_read(
    steps: Seq<RenderStep>,
    n: int,
    key: Seq<Part>,
    html: Seq<char>,
) -> bool {
    exists|k: int| 0 <= k < n && reads_page(#[trigger] steps[k], key, html)
}

/// The file that the making of a page is about, once it has been found.
pub open spec fn file_of(run: RenderRun) -> Option<Seq<Part>> {
    match run {
        RenderRun::CheckAge { path } => Some(components(path@)),
        RenderRun::Read { path } => Some(components(path@)),
        RenderRun::Keep { path, html } => Some(components(path@)),
        _ => None,
    }
}

/// Every page that is kept for a file, and every page that is given out for it, was made of a text that
/// was read from that very file.
pub proof fn law_pages_are_made_of_their_files(root: Seq<u8>, steps: Seq<RenderStep>, n: int)
    requires
        is_history(root, steps),
        0 <= n < steps.len(),
    ensures
        forall|key: Seq<Part>| #[trigger]
            steps[n].pages_after.contains_key(key) ==> was_read(
                steps,
                n + 1,
                key,
                steps[n].pages_after[key].html,
            ),
        steps[n].next matches RenderRun::Keep { path, html } ==> was_read(
            steps,
            n + 1,
            components(path@),
            html@,
        ),
        steps[n].next matches RenderRun::Done(Ok(html)) ==> steps[n].run is Done || (file_of(
            steps[n].run,
        ) is Some && was_read(steps, n + 1, file_of(steps[n].run)->Some_0, html@)),
    decreases n,
{
    let step = steps[n];
    assert(follows(root, steps, n));
    assert forall|key: Seq<Part>| #[trigger] step.pages.contains_key(key) implies was_read(
        steps,
        n,
        key,
        step.pages[key].html,
    ) by {
        if n > 0 {
            law_pages_are_made_of_their_files(root, steps, n - 1);
            assert(steps[n - 1].pages_after.contains_key(key));
        }
    }
    match step.run {
        RenderRun::Keep { path, html } => {
            let k = choose|k: int| 0 <= k < n && #[trigger] steps[k].next == step.run;
            law_pages_are_made_of_their_files(root, steps, k);
            assert(was_read(steps, n, components(path@), html@));
        },
        RenderRun::Read { path } => {
            match step.next {
                RenderRun::Keep { path: same_path, html } => {
                    assert(reads_page(steps[n], components(path@), html@));
                },
                _ => {},
            }
        },
        _ => {},
    }
    lemma_read_before(steps, n);
}

/// Whether the file that the making of a page is about, once it has been found, lies within the root.
pub open spec fn is_about_file_within(run: RenderRun, root: Seq<u8>) -> bool {
    file_of(run) matches Some(key) ==> components(root).is_prefix_of(key)
}

/// Pages are kept of files within the root only: every path under which a page is kept begins with the
/// root, whatever was requested and whatever the file system said since the directory was opened.
pub proof fn law_kept_pages_lie_within_root(root: Seq<u8>, steps: Seq<RenderStep>, n: int)
    requires
        is_history(root, steps),
        0 <= n < steps.len(),
    ensures
        forall|key: Seq<Part>| #[trigger]
            steps[n].pages_after.contains_key(key) ==> components(root).is_prefix_of(key),
        is_about_file_within(steps[n].next, root),
    decreases n,
{
    let step = steps[n];
    assert(follows(root, steps, n));
    if n > 0 {
        law_kept_pages_lie_within_root(root, steps, n - 1);
    }
    if step.run !is Resolve {
        let k = choose|k: int| 0 <= k < n && #[trigger] steps[k].next == step.run;
        law_kept_pages_lie_within_root(root, steps, k);
    }
}

/// What was read in some steps was read in these and one more.
proof fn lemma_read_before(steps: Seq<RenderStep>, n: int)
    ensures
        forall|key: Seq<Part>, html: Seq<char>| #[trigger]
            was_read(steps, n, key, html) ==> was_read(steps, n + 1, key, html),
{
}

} // verus!
