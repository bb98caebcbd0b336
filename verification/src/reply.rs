//! Answers to HTTP requests.
use vstd::prelude::*;
use vstd::string::*;

verus! {

/// The status codes that the server answers with.
#[derive(Debug, Clone, Copy, PartialEq, Eq, Structural)]
pub enum Status {
    Success,
    NotModified,
    Forbidden,
    NotFound,
    InternalServerError,
}

/// What follows the headers of an answer.
#[derive(Debug)]
pub enum Body {
    Html(String),
    Text(String),
    Bytes(Vec<u8>),
    Empty,
}

/// An answer to an HTTP request. The headers named here replace those that the kind of body implies.
#[derive(Debug)]
pub struct Reply {
    pub status: Status,
    pub headers: Vec<(String, String)>,
    pub body: Body,
}

/// What follows the headers of an answer, as contracts speak of it.
pub enum BodyModel {
    Html(Seq<char>),
    Text(Seq<char>),
    Bytes(Seq<u8>),
    Empty,
}

/// An answer, as contracts speak of it.
#[verifier::ext_equal]
pub struct ReplyModel {
    pub status: Status,
    pub headers: Seq<(Seq<char>, Seq<char>)>,
    pub body: BodyModel,
}

impl View for Body {
    type V = BodyModel;

    open spec fn view(&self) -> BodyModel {
        match *self {
            Body::Html(text) => BodyModel::Html(text@),
            Body::Text(text) => BodyModel::Text(text@),
            Body::Bytes(bytes) => BodyModel::Bytes(bytes@),
            Body::Empty => BodyModel::Empty,
        }
    }
}

/// What a list of headers holds.
pub open spec fn header_texts(list: Seq<(String, String)>) -> Seq<(Seq<char>, Seq<char>)> {
    list.map_values(|h: (String, String)| (h.0@, h.1@))
}

impl View for Reply {
    type V = ReplyModel;

    open spec fn view(&self) -> ReplyModel {
        ReplyModel {
            status: self.status,
            headers: header_texts(self.headers@),
            body: self.body@,
        }
    }
}

/// An answer with a page.
pub open spec fn html_reply(status: Status, page: Seq<char>) -> ReplyModel {
    ReplyModel { status, headers: Seq::empty(), body: BodyModel::Html(page) }
}

/// An answer with plain text.
pub open spec fn text_reply(status: Status, text: Seq<char>) -> ReplyModel {
    ReplyModel { status, headers: Seq::empty(), body: BodyModel::Text(text) }
}

/// An answer with a content type of its own.
pub open spec fn typed_reply(
    status: Status,
    content_type: Seq<char>,
    body: BodyModel,
) -> ReplyModel {
    ReplyModel { status, headers: seq![("content-type"@, content_type)], body }
}

/// A page that holds a title and what went wrong.
pub open spec fn error_page(title: Seq<char>, reason: Seq<char>) -> Seq<char> {
    "<h1>"@ + title + "</h1><p>"@ + reason + "</p>"@
}

impl Status {
    /// The number of the status.
    pub open spec fn number(self) -> u16 {
        match self {
            Status::Success => 200,
            Status::NotModified => 304,
            Status::Forbidden => 403,
            Status::NotFound => 404,
            Status::InternalServerError => 500,
        }
    }

    /// The number of the status.
    pub fn code(self) -> (r: u16)
        ensures
            r == self.number(),
    {
        match self {
            Status::Success => 200,
            Status::NotModified => 304,
            Status::Forbidden => 403,
            Status::NotFound => 404,
            Status::InternalServerError => 500,
        }
    }
}

impl Reply {
    /// An answer with a page.
    pub fn html(status: Status, page: String) -> (r: Reply)
        ensures
            r@ == html_reply(status, page@),
    {
        let r = Reply { status, headers: Vec::new(), body: Body::Html(page) };
        assert(r@ =~= html_reply(status, page@));
        r
    }

    /// An answer with plain text.
    pub fn text(status: Status, text: String) -> (r: Reply)
        ensures
            r@ == text_reply(status, text@),
    {
        let r = Reply { status, headers: Vec::new(), body: Body::Text(text) };
        assert(r@ =~= text_reply(status, text@));
        r
    }

    /// An answer with a content type of its own.
    pub fn typed(status: Status, content_type: String, body: Body) -> (r: Reply)
        ensures
            r@ == typed_reply(status, content_type@, body@),
    {
        let mut headers: Vec<(String, String)> = Vec::new();
        headers.push(("content-type".to_string(), content_type));
        let r = Reply { status, headers, body };
        assert(r@ =~= typed_reply(status, content_type@, body@));
        r
    }

    /// An answer with a page that says what went wrong.
    pub fn error(status: Status, title: &str, reason: String) -> (r: Reply)
        ensures
            r@ == html_reply(status, error_page(title@, reason@)),
    {
        let mut page = "<h1>".to_string();
        page.append(title);
        page.append("</h1><p>");
        page.append(reason.as_str());
        page.append("</p>");
        Reply::html(status, page)
    }
}

/// An answer has the status, the content type and the body that it is given, and nothing else.
pub proof fn law_answer_is_what_it_is_given(
    status: Status,
    text: Seq<char>,
    content_type: Seq<char>,
    body: BodyModel,
)
    ensures
        html_reply(status, text).status == status,
        html_reply(status, text).headers.len() == 0,
        html_reply(status, text).body == BodyModel::Html(text),
        text_reply(status, text).status == status,
        text_reply(status, text).headers.len() == 0,
        text_reply(status, text).body == BodyModel::Text(text),
        typed_reply(status, content_type, body).status == status,
        typed_reply(status, content_type, body).headers == seq![("content-type"@, content_type)],
        typed_reply(status, content_type, body).body == body,
{
}

/// What contracts say of an answer, they say of its status, of each of its headers and of its whole body.
pub proof fn law_answer_is_seen_whole(reply: Reply, text: String, bytes: Vec<u8>, i: int)
    ensures
        reply@.status == reply.status,
        reply@.headers.len() == reply.headers@.len(),
        0 <= i < reply.headers@.len() ==> reply@.headers[i] == (
            reply.headers@[i].0@,
            reply.headers@[i].1@,
        ),
        reply.body == Body::Html(text) ==> reply@.body == BodyModel::Html(text@),
        reply.body == Body::Text(text) ==> reply@.body == BodyModel::Text(text@),
        reply.body == Body::Bytes(bytes) ==> reply@.body == BodyModel::Bytes(bytes@),
        reply.body == Body::Empty ==> reply@.body == BodyModel::Empty,
{
}

/// The numbers of the statuses are those of HTTP.
pub proof fn law_statuses_have_their_numbers(status: Status)
    ensures
        status == Status::Success <==> status.number() == 200,
        status == Status::NotModified <==> status.number() == 304,
        status == Status::Forbidden <==> status.number() == 403,
        status == Status::NotFound <==> status.number() == 404,
        status == Status::InternalServerError <==> status.number() == 500,
{
}

/// A page about an error holds its title and then the reason, each once, in elements of their own.
pub proof fn law_error_page_holds_title_and_reason(title: Seq<char>, reason: Seq<char>)
    ensures
        error_page(title, reason).len() == title.len() + reason.len() + 16,
        error_page(title, reason).take(4) == "<h1>"@,
        error_page(title, reason).subrange(4, 4 + title.len() as int) == title,
        error_page(title, reason).subrange(4 + title.len() as int, 12 + title.len() as int)
            == "</h1><p>"@,
        error_page(title, reason).subrange(
            12 + title.len() as int,
            12 + title.len() as int + reason.len() as int,
        ) == reason,
        error_page(title, reason).skip(12 + title.len() as int + reason.len() as int) == "</p>"@,
{
    reveal_strlit("<h1>");
    reveal_strlit("</h1><p>");
    reveal_strlit("</p>");
    let page = error_page(title, reason);
    let (t, n) = (title.len() as int, reason.len() as int);
    assert(page.take(4) =~= "<h1>"@);
    assert(page.subrange(4, 4 + t) =~= title);
    assert(page.subrange(4 + t, 12 + t) =~= "</h1><p>"@);
    assert(page.subrange(12 + t, 12 + t + n) =~= reason);
    assert(page.skip(12 + t + n) =~= "</p>"@);
}

} // verus!
