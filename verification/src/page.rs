//! Markdown documents as HTML pages.
use crate::error::ServeError;
use crate::template::{
    after_tag, before_tag, filled_document, named_flags, named_tables, named_texts, page_result,
    render_template, template_body, template_output, Context, TemplateError, TemplateFault,
    MAIN_TEMPLATE, TEMPLATE_NAME,
};
use crate::text::{contains, law_occurrence_has_text_around_it, occurs_in};
use vstd::prelude::*;
use vstd::string::*;

verus! {

/// The error type of the Markdown compiler.
#[verifier::external_type_specification]
#[verifier::external_body]
pub struct ExMessage(markdown::message::Message);

/// The HTML that the Markdown compiler makes of a document in GitHub Flavored Markdown.
pub uninterp spec fn gfm_html(content: Seq<char>, allow_dangerous_html: bool) -> Seq<char>;

/// Compiles a document with `markdown::to_html_with_options` and `markdown::Options::gfm`, with or
/// without the HTML that stands in the document.
///
/// Trusted: the HTML depends on the document and the flag alone, and there is always one: only MDX has
/// syntax errors, and these options leave MDX off.
#[verifier::external_body]
pub(crate) fn to_gfm_html(content: &str, allow_dangerous_html: bool) -> (r: Result<
    String,
    markdown::message::Message,
>)
    ensures
        r is Ok,
        r->Ok_0@ == gfm_html(content@, allow_dangerous_html),
{
    let mut options = markdown::Options::gfm();
    options.compile.allow_dangerous_html = allow_dangerous_html;
    markdown::to_html_with_options(content, &options)
}

/// What a code block with a Mermaid diagram has in its HTML.
pub const MERMAID_MARKER: &'static str = "class=\"language-mermaid\"";

/// Whether HTML holds a Mermaid diagram.
pub open spec fn has_mermaid(html: Seq<char>) -> bool {
    occurs_in(MERMAID_MARKER@, html)
}

/// A page, or the text of what kept the template from making it.
pub open spec fn page_or_reason(rendered: Result<Seq<char>, TemplateFault>) -> Result<
    Seq<char>,
    Seq<char>,
> {
    match rendered {
        Ok(page) => Ok(page),
        Err(TemplateFault::Load(reason)) => Err(reason),
        Err(TemplateFault::Render(reason)) => Err(reason),
    }
}

/// The page of a document, given as HTML, or the text of what went wrong.
pub open spec fn document_page(html: Seq<char>) -> Result<Seq<char>, Seq<char>> {
    page_or_reason(
        template_output(
            TEMPLATE_NAME@,
            MAIN_TEMPLATE@,
            seq![("content"@, html)],
            Seq::empty(),
            seq![("mermaid_enabled"@, has_mermaid(html))],
            Seq::empty(),
        ),
    )
}

/// The page of a document, given as Markdown. HTML in the document is kept.
pub open spec fn markdown_page(content: Seq<char>) -> Result<Seq<char>, Seq<char>> {
    document_page(gfm_html(content, true))
}

/// The text of the page of a document, given as HTML.
pub open spec fn document_text(html: Seq<char>) -> Seq<char> {
    filled_document(MAIN_TEMPLATE@, html, has_mermaid(html))
}

/// Whether a page is that of a document, given as Markdown. It holds the HTML of the document.
pub open spec fn is_page_of(page: Seq<char>, content: Seq<char>) -> bool {
    &&& markdown_page(content) == Ok::<Seq<char>, Seq<char>>(page)
    &&& page == document_text(gfm_html(content, true))
    &&& occurs_in(gfm_html(content, true), page)
}

/// Whether an attempt to make a page came to a given outcome.
pub open spec fn came_to(
    r: Result<String, ServeError>,
    outcome: Result<Seq<char>, Seq<char>>,
) -> bool {
    match outcome {
        Ok(page) => r matches Ok(p) && p@ == page,
        Err(reason) => r matches Err(ServeError::Page(text)) && text@ == reason,
    }
}

/// The HTML of a compiled document, or a notice where it could not be compiled.
pub fn html_or_notice(compiled: Result<String, markdown::message::Message>) -> (r: String)
    ensures
        r@ == match compiled {
            Ok(html) => html@,
            Err(_) => "Error parsing markdown"@,
        },
{
    match compiled {
        Ok(html) => html,
        Err(_) => "Error parsing markdown".to_string(),
    }
}

/// A page, or the error that says what kept the template from making it.
pub fn page_or_error(rendered: Result<String, TemplateError>) -> (r: Result<String, ServeError>)
    ensures
        came_to(r, page_or_reason(page_result(rendered))),
{
    match rendered {
        Ok(page) => Ok(page),
        Err(TemplateError::Load(reason)) => Err(ServeError::Page(reason)),
        Err(TemplateError::Render(reason)) => Err(ServeError::Page(reason)),
    }
}

/// Puts the HTML of a document into its page, which always succeeds. The page draws diagrams only where
/// there are some.
pub fn render_document(html: String) -> (r: Result<String, ServeError>)
    ensures
        came_to(r, document_page(html@)),
        r is Ok,
        r->Ok_0@ == document_text(html@),
        r->Ok_0@ == filled_document(
            MAIN_TEMPLATE@,
            html@,
            occurs_in("class=\"language-mermaid\""@, html@),
        ),
        occurs_in(html@, r->Ok_0@),
{
    let mermaid_enabled = contains(html.as_str(), MERMAID_MARKER);
    let mut safe: Vec<(String, String)> = Vec::new();
    let ghost body = html@;
    safe.push(("content".to_string(), html));
    let mut flags: Vec<(String, bool)> = Vec::new();
    flags.push(("mermaid_enabled".to_string(), mermaid_enabled));
    let context = Context { safe, texts: Vec::new(), flags, tables: Vec::new() };
    proof {
        assert(named_texts(context.safe@) =~= seq![("content"@, body)]);
        assert(named_texts(context.texts@) =~= Seq::empty());
        assert(named_flags(context.flags@) =~= seq![("mermaid_enabled"@, has_mermaid(body))]);
        assert(named_tables(context.tables@) =~= Seq::empty());
    }
    page_or_error(render_template(TEMPLATE_NAME, MAIN_TEMPLATE, context))
}

/// Makes the page of a Markdown document, which always succeeds. The page holds the HTML of the
/// document.
pub fn markdown_to_html(content: &str) -> (r: Result<String, ServeError>)
    ensures
        r is Ok,
        is_page_of(r->Ok_0@, content@),
{
    render_document(html_or_notice(to_gfm_html(content, true)))
}

/// The page of a document is the text of its template before `{{ content }}`, then the HTML of the
/// document, once and as it is, and then a rest that depends only on whether there are diagrams in it.
/// So two pages that agree in that are as much longer or shorter as the HTML of one is than that of the
/// other.
pub proof fn law_page_is_the_template_around_the_html(html: Seq<char>, other: Seq<char>)
    requires
        occurs_in("class=\"language-mermaid\""@, html) == occurs_in(
            "class=\"language-mermaid\""@,
            other,
        ),
    ensures
        document_text(html).len() - document_text(other).len() == html.len() - other.len(),
        exists|rest: Seq<char>|
            document_text(html) == #[trigger] (before_tag(
                "{{ content }}"@,
                template_body(MAIN_TEMPLATE@),
            ) + html + rest) && document_text(other) == before_tag(
                "{{ content }}"@,
                template_body(MAIN_TEMPLATE@),
            ) + other + rest,
{
    let source = template_body(MAIN_TEMPLATE@);
    let head = before_tag("{{ content }}"@, source);
    let after = after_tag("{{ content }}"@, source);
    let tested = after_tag("{% if mermaid_enabled %}"@, after);
    let script = if has_mermaid(html) {
        before_tag("{% endif %}"@, tested)
    } else {
        Seq::empty()
    };
    let rest = before_tag("{% if mermaid_enabled %}"@, after) + script + after_tag(
        "{% endif %}"@,
        tested,
    );
    assert(document_text(html) =~= head + html + rest);
    assert(document_text(other) =~= head + other + rest);
}

/// The page of a Markdown document is the template around its HTML, with the HTML that stands in the
/// document kept: two documents with the same HTML have the same page, and otherwise the lengths of the
/// pages differ as those of the HTML do.
pub proof fn law_documents_differ_as_their_html(
    page: Seq<char>,
    content: Seq<char>,
    other_page: Seq<char>,
    other: Seq<char>,
)
    requires
        is_page_of(page, content),
        is_page_of(other_page, other),
        occurs_in("class=\"language-mermaid\""@, gfm_html(content, true)) == occurs_in(
            "class=\"language-mermaid\""@,
            gfm_html(other, true),
        ),
    ensures
        page.len() - other_page.len() == gfm_html(content, true).len() - gfm_html(
            other,
            true,
        ).len(),
        gfm_html(content, true) == gfm_html(other, true) ==> page == other_page,
        exists|rest: Seq<char>|
            page == #[trigger] (before_tag("{{ content }}"@, template_body(MAIN_TEMPLATE@))
                + gfm_html(content, true) + rest) && other_page == before_tag(
                "{{ content }}"@,
                template_body(MAIN_TEMPLATE@),
            ) + gfm_html(other, true) + rest,
{
    law_page_is_the_template_around_the_html(gfm_html(content, true), gfm_html(other, true));
}

/// The template is told that there are diagrams exactly where the HTML holds the class of a Mermaid block,
/// whatever stands before and after it; then the page has the part of the template that loads the script
/// and draws the diagrams, and otherwise it does without.
pub proof fn law_diagrams_are_drawn_where_there_are_some(
    before: Seq<char>,
    after: Seq<char>,
    plain: Seq<char>,
)
    requires
        forall|i: int|
            0 <= i <= plain.len() - "class=\"language-mermaid\""@.len() ==> #[trigger] plain.subrange(
                i,
                i + "class=\"language-mermaid\""@.len(),
            ) != "class=\"language-mermaid\""@,
    ensures
        ({
            let drawn = before + "class=\"language-mermaid\""@ + after;
            &&& document_text(drawn) == filled_document(MAIN_TEMPLATE@, drawn, true)
            &&& document_page(drawn) == page_or_reason(
                template_output(
                    TEMPLATE_NAME@,
                    MAIN_TEMPLATE@,
                    seq![("content"@, drawn)],
                    Seq::empty(),
                    seq![("mermaid_enabled"@, true)],
                    Seq::empty(),
                ),
            )
        }),
        document_text(plain) == filled_document(MAIN_TEMPLATE@, plain, false),
        document_page(plain) == page_or_reason(
            template_output(
                TEMPLATE_NAME@,
                MAIN_TEMPLATE@,
                seq![("content"@, plain)],
                Seq::empty(),
                seq![("mermaid_enabled"@, false)],
                Seq::empty(),
            ),
        ),
        exists|start: Seq<char>, end: Seq<char>|
            {
                let tested = after_tag(
                    "{% if mermaid_enabled %}"@,
                    after_tag("{{ content }}"@, template_body(MAIN_TEMPLATE@)),
                );
                &&& filled_document(MAIN_TEMPLATE@, plain, true) == start + before_tag(
                    "{% endif %}"@,
                    tested,
                ) + end
                &&& document_text(plain) == #[trigger] (start + end)
            },
{
    let drawn = before + "class=\"language-mermaid\""@ + after;
    law_occurrence_has_text_around_it("class=\"language-mermaid\""@, drawn);
    assert(has_mermaid(drawn));
    assert(!has_mermaid(plain));
    let source = template_body(MAIN_TEMPLATE@);
    let rest = after_tag("{{ content }}"@, source);
    let tested = after_tag("{% if mermaid_enabled %}"@, rest);
    let start = before_tag("{{ content }}"@, source) + plain + before_tag(
        "{% if mermaid_enabled %}"@,
        rest,
    );
    let end = after_tag("{% endif %}"@, tested);
    assert(document_text(plain) =~= start + end);
}

/// What kept a page from being made is told in the words of the template engine.
pub proof fn law_failed_page_tells_the_reason(page: Seq<char>, reason: Seq<char>)
    ensures
        page_or_reason(Ok(page)) == Ok::<Seq<char>, Seq<char>>(page),
        page_or_reason(Err(TemplateFault::Load(reason))) == Err::<Seq<char>, Seq<char>>(reason),
        page_or_reason(Err(TemplateFault::Render(reason))) == Err::<Seq<char>, Seq<char>>(reason),
{
}

/// An attempt to make a page comes to the page itself, or to an error of the page with the reason.
pub proof fn law_attempt_comes_to_the_page_or_the_reason(
    text: String,
    error: ServeError,
    page: Seq<char>,
)
    ensures
        came_to(Ok(text), Ok(page)) <==> text@ == page,
        came_to(Err(ServeError::Page(text)), Err(page)) <==> text@ == page,
        !came_to(Ok(text), Err(page)),
        !came_to(Err(error), Ok(page)),
        error !is Page ==> !came_to(Err(error), Err(page)),
        page_result(Ok(text)) == Ok::<Seq<char>, TemplateFault>(text@),
        page_result(Err(TemplateError::Load(text))) == Err::<Seq<char>, TemplateFault>(
            TemplateFault::Load(text@),
        ),
        page_result(Err(TemplateError::Render(text))) == Err::<Seq<char>, TemplateFault>(
            TemplateFault::Render(text@),
        ),
{
}

} // verus!
