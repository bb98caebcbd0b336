//! Serving the images that pages refer to.
use crate::disk::{DiskReply, DiskRequest};
use crate::media::{content_type_of, guess_image_content_type, is_image, is_image_file};
use crate::path::{is_within, join, joined, starts_with};
use crate::reply::{typed_reply, Body, BodyModel, Reply, ReplyModel, Status};
use vstd::prelude::*;
use vstd::string::*;

verus! {

/// How far the serving of an image has come.
#[derive(Debug)]
pub enum StaticRun {
    /// The image is to be found.
    Resolve { full: Vec<u8> },
    /// The image is to be read.
    Read { path: Vec<u8> },
    Done(Reply),
}

/// The answer where there is no image.
pub open spec fn missing() -> ReplyModel {
    typed_reply(Status::NotFound, "text/plain"@, BodyModel::Text("File not found"@))
}

/// The answer where a path leads out of the directory that images are served from.
pub open spec fn denied() -> ReplyModel {
    typed_reply(Status::Forbidden, "text/plain"@, BodyModel::Text("Access denied"@))
}

/// The answer with an image.
pub open spec fn image_answer(file_path: Seq<u8>, bytes: Seq<u8>) -> ReplyModel {
    typed_reply(Status::Success, content_type_of(file_path), BodyModel::Bytes(bytes))
}

/// Whether a run is done with a given answer.
pub open spec fn is_answered(run: StaticRun, answer: ReplyModel) -> bool {
    run matches StaticRun::Done(reply) && reply@ == answer
}

/// How the serving of an image begins: anything but an image is not found.
pub open spec fn begins_with(base_dir: Seq<u8>, file_path: Seq<u8>, run: StaticRun) -> bool {
    if is_image(file_path) {
        run matches StaticRun::Resolve { full } && full@ == joined(base_dir, file_path)
    } else {
        is_answered(run, missing())
    }
}

/// What the serving of an image comes to next. A reply to something that was not asked changes
/// nothing.
pub open spec fn serves_to(
    base_dir: Seq<u8>,
    file_path: Seq<u8>,
    run: StaticRun,
    reply: DiskReply,
    next: StaticRun,
) -> bool {
    match (run, reply) {
        (StaticRun::Resolve { full }, DiskReply::Canonical(Ok(path))) => {
            if is_within(path@, base_dir) {
                next == (StaticRun::Read { path })
            } else {
                is_answered(next, denied())
            }
        },
        (StaticRun::Resolve { full }, DiskReply::Canonical(Err(_))) => {
            is_answered(next, missing())
        },
        (StaticRun::Read { path }, DiskReply::Bytes(Ok(bytes))) => {
            is_answered(next, image_answer(file_path, bytes@))
        },
        (StaticRun::Read { path }, DiskReply::Bytes(Err(_))) => is_answered(next, missing()),
        _ => next == run,
    }
}

impl StaticRun {
    /// The most replies that can still be needed.
    pub open spec fn steps_left(self) -> nat {
        match self {
            StaticRun::Resolve { .. } => 2,
            StaticRun::Read { .. } => 1,
            StaticRun::Done(_) => 0,
        }
    }

    /// A run that has found its image has found it within the directory.
    pub open spec fn is_confined(self, base_dir: Seq<u8>) -> bool {
        match self {
            StaticRun::Read { path } => is_within(path@, base_dir),
            _ => true,
        }
    }

    /// What is pending, as contracts speak of it.
    pub open spec fn asks(self, request: Option<DiskRequest>) -> bool {
        match self {
            StaticRun::Resolve { full } => request matches Some(DiskRequest::Canonicalize(p)) && p@
                == full@,
            StaticRun::Read { path } => request matches Some(DiskRequest::ReadBytes(p)) && p@
                == path@,
            StaticRun::Done(_) => request is None,
        }
    }

    /// What the file system is to be asked for next.
    pub fn request(&self) -> (r: Option<DiskRequest>)
        ensures
            self.asks(r),
    {
        match self {
            StaticRun::Resolve { full } => Some(DiskRequest::Canonicalize(full.clone())),
            StaticRun::Read { path } => Some(DiskRequest::ReadBytes(path.clone())),
            StaticRun::Done(_) => None,
        }
    }
}

/// A run that is done because there is no image.
fn not_found() -> (r: StaticRun)
    ensures
        is_answered(r, missing()),
{
    StaticRun::Done(
        Reply::typed(
            Status::NotFound,
            "text/plain".to_string(),
            Body::Text("File not found".to_string()),
        ),
    )
}

/// Begins to serve an image from a directory.
pub fn serve_static_file(base_dir: &[u8], file_path: &str) -> (r: StaticRun)
    ensures
        begins_with(base_dir@, file_path.spec_bytes(), r),
        is_image(file_path.spec_bytes()) ==> (r matches StaticRun::Resolve { full } && full@
            == joined(base_dir@, file_path.spec_bytes())),
        !is_image(file_path.spec_bytes()) ==> (r matches StaticRun::Done(answer) && answer@.status
            == Status::NotFound && answer@.headers == seq![("content-type"@, "text/plain"@)]
            && answer@.body == BodyModel::Text("File not found"@)),
{
    if !is_image_file(file_path) {
        return not_found();
    }
    StaticRun::Resolve { full: join(base_dir, file_path.as_bytes()) }
}

/// Goes on with the serving of an image. An image outside of the directory is refused unread.
pub fn resume_static(base_dir: &[u8], file_path: &str, run: StaticRun, reply: DiskReply) -> (r:
    StaticRun)
    ensures
        serves_to(base_dir@, file_path.spec_bytes(), run, reply, r),
        reply matches DiskReply::Bytes(Ok(bytes)) ==> (run is Read ==> (r matches StaticRun::Done(
            answer,
        ) && answer@.status == Status::Success && answer@.headers == seq![
            ("content-type"@, content_type_of(file_path.spec_bytes())),
        ] && answer@.body == BodyModel::Bytes(bytes@))),
        reply matches DiskReply::Canonical(Ok(path)) ==> (run is Resolve && !is_within(
            path@,
            base_dir@,
        ) ==> (r matches StaticRun::Done(answer) && answer@.status == Status::Forbidden
            && answer@.headers == seq![("content-type"@, "text/plain"@)] && answer@.body
            == BodyModel::Text("Access denied"@))),
{
    match (run, reply) {
        (StaticRun::Resolve { .. }, DiskReply::Canonical(Ok(path))) => {
            if starts_with(path.as_slice(), base_dir) {
                StaticRun::Read { path }
            } else {
                StaticRun::Done(
                    Reply::typed(
                        Status::Forbidden,
                        "text/plain".to_string(),
                        Body::Text("Access denied".to_string()),
                    ),
                )
            }
        },
        (StaticRun::Resolve { .. }, DiskReply::Canonical(Err(_))) => not_found(),
        (StaticRun::Read { .. }, DiskReply::Bytes(Ok(bytes))) => StaticRun::Done(
            Reply::typed(
                Status::Success,
                guess_image_content_type(file_path),
                Body::Bytes(bytes),
            ),
        ),
        (StaticRun::Read { .. }, DiskReply::Bytes(Err(_))) => not_found(),
        (run, _) => run,
    }
}

/// An image that was read goes out with success, as the bytes that were read, and its only header is the
/// content type of the path that was asked for.
pub proof fn law_image_goes_out_with_its_content_type(
    base_dir: Seq<u8>,
    file_path: Seq<u8>,
    path: Vec<u8>,
    bytes: Vec<u8>,
    next: StaticRun,
)
    requires
        serves_to(
            base_dir,
            file_path,
            (StaticRun::Read { path }),
            DiskReply::Bytes(Ok(bytes)),
            next,
        ),
    ensures
        next matches StaticRun::Done(reply) && reply@.status == Status::Success && reply@.headers
            == seq![("content-type"@, content_type_of(file_path))] && reply@.body
            == BodyModel::Bytes(bytes@),
{
}

/// A path that is found within the directory is read, and one that is found outside is refused: the
/// answer is 403 with a plain text.
pub proof fn law_found_image_is_read_only_within_the_directory(
    base_dir: Seq<u8>,
    file_path: Seq<u8>,
    full: Vec<u8>,
    path: Vec<u8>,
    next: StaticRun,
)
    requires
        serves_to(
            base_dir,
            file_path,
            (StaticRun::Resolve { full }),
            DiskReply::Canonical(Ok(path)),
            next,
        ),
    ensures
        is_within(path@, base_dir) ==> next == (StaticRun::Read { path }),
        !is_within(path@, base_dir) ==> (next matches StaticRun::Done(reply) && reply@.status
            == Status::Forbidden && reply@.headers == seq![("content-type"@, "text/plain"@)]
            && reply@.body == BodyModel::Text("Access denied"@)),
{
}

/// What is not an image, cannot be found or cannot be read is answered with 404 and a plain text.
pub proof fn law_missing_image_is_not_found(
    base_dir: Seq<u8>,
    file_path: Seq<u8>,
    run: StaticRun,
    reply: DiskReply,
    reason: String,
    next: StaticRun,
)
    requires
        begins_with(base_dir, file_path, next) && !is_image(file_path) || serves_to(
            base_dir,
            file_path,
            run,
            reply,
            next,
        ) && (run is Resolve && reply == DiskReply::Canonical(Err(reason)) || run is Read && reply
            == DiskReply::Bytes(Err(reason))),
    ensures
        next matches StaticRun::Done(answer) && answer@.status == Status::NotFound
            && answer@.headers == seq![("content-type"@, "text/plain"@)] && answer@.body
            == BodyModel::Text("File not found"@),
{
}

/// An image is looked for where its path leads to from the directory, and what is read is what was found
/// there.
pub proof fn law_image_is_looked_for_in_the_directory(
    base_dir: Seq<u8>,
    file_path: Seq<u8>,
    run: StaticRun,
    path: Vec<u8>,
    request: Option<DiskRequest>,
)
    ensures
        is_image(file_path) && begins_with(base_dir, file_path, run) && run.asks(request)
            ==> (request matches Some(DiskRequest::Canonicalize(full)) && full@ == joined(
            base_dir,
            file_path,
        )),
        (StaticRun::Read { path }).asks(request) ==> (request matches Some(
            DiskRequest::ReadBytes(found),
        ) && found@ == path@),
{
}

/// A reply that does not answer what is pending leaves the serving of an image as it is, and so does any
/// reply once it is done.
pub proof fn law_unasked_reply_changes_nothing(
    base_dir: Seq<u8>,
    file_path: Seq<u8>,
    run: StaticRun,
    reply: DiskReply,
    next: StaticRun,
)
    requires
        serves_to(base_dir, file_path, run, reply, next),
    ensures
        run is Resolve && reply !is Canonical || run is Read && reply !is Bytes || run is Done ==> next
            == run,
{
}

} // verus!
