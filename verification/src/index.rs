//! The answers to requests for what is in a directory.
use crate::error::ServeError;
use crate::listing::FileEntry;
use crate::reply::{error_page, html_reply, text_reply, BodyModel, Reply, ReplyModel, Status};
use crate::template::{
    after_tag, before_tag, escaped, escaped_char, filled_index, filled_row, filled_rows, index_head,
    index_listing, is_index_row, named_flags, named_tables, named_texts, page_result, records,
    render_template, template_body, template_output, Context, TemplateError, TemplateFault,
    DIRECTORY_TEMPLATE, DIRECTORY_TEMPLATE_NAME,
};
use vstd::prelude::*;
use vstd::string::*;

verus! {

/// The sign that stands before an entry.
pub open spec fn icon_of(is_dir: bool) -> Seq<char> {
    if is_dir {
        "📁"@
    } else {
        "📄"@
    }
}

/// Where an entry leads to.
pub open spec fn link_of(name: Seq<char>, is_dir: bool) -> Seq<char> {
    if is_dir {
        "/view/"@ + name + "/"@
    } else {
        "/view/"@ + name
    }
}

/// An entry as the index shows it.
pub open spec fn row_of(entry: FileEntry) -> Seq<(Seq<char>, Seq<char>)> {
    seq![
        ("icon"@, icon_of(entry.is_dir)),
        ("name"@, entry.name@),
        ("link"@, link_of(entry.name@, entry.is_dir)),
    ]
}

/// The entries as the index shows them.
pub open spec fn rows_of(entries: Seq<FileEntry>) -> Seq<Seq<(Seq<char>, Seq<char>)>> {
    entries.map_values(|entry: FileEntry| row_of(entry))
}

/// The index of a directory with the given entries.
pub open spec fn index_page(entries: Seq<FileEntry>) -> Result<Seq<char>, TemplateFault> {
    template_output(
        DIRECTORY_TEMPLATE_NAME@,
        DIRECTORY_TEMPLATE@,
        Seq::empty(),
        seq![("title"@, "Directory Index"@), ("current_path"@, ""@)],
        Seq::empty(),
        seq![("entries"@, rows_of(entries))],
    )
}

/// The text of the index of a directory with the given entries.
pub open spec fn index_text(entries: Seq<FileEntry>) -> Seq<char> {
    filled_index(DIRECTORY_TEMPLATE@, "Directory Index"@, ""@, rows_of(entries))
}

/// The answer to a request for the index, given what the template made of the listing.
pub open spec fn rendered_answer(page: Result<Seq<char>, TemplateFault>) -> ReplyModel {
    match page {
        Ok(page) => html_reply(Status::Success, page),
        Err(TemplateFault::Load(reason)) => html_reply(
            Status::InternalServerError,
            error_page("Template Error"@, reason),
        ),
        Err(TemplateFault::Render(reason)) => html_reply(
            Status::InternalServerError,
            error_page("Render Error"@, reason),
        ),
    }
}

/// The answer to a request for the index.
pub open spec fn index_answer(listing: Result<Vec<FileEntry>, ServeError>) -> ReplyModel {
    match listing {
        Ok(entries) => rendered_answer(index_page(entries@)),
        Err(error) => html_reply(Status::InternalServerError, error_page("Error"@, error.text())),
    }
}

/// An entry as the index shows it.
pub fn index_row(entry: &FileEntry) -> (r: Vec<(String, String)>)
    ensures
        named_texts(r@) == row_of(*entry),
{
    let icon = if entry.is_dir {
        "📁"
    } else {
        "📄"
    };
    let mut link = "/view/".to_string();
    link.append(entry.name.as_str());
    if entry.is_dir {
        link.append("/");
    }
    let mut row: Vec<(String, String)> = Vec::new();
    row.push(("icon".to_string(), icon.to_string()));
    row.push(("name".to_string(), entry.name.clone()));
    row.push(("link".to_string(), link));
    assert(named_texts(row@) =~= row_of(*entry));
    row
}

/// The entries as the index shows them.
fn index_rows(entries: &Vec<FileEntry>) -> (r: Vec<Vec<(String, String)>>)
    ensures
        records(r@) == rows_of(entries@),
{
    let mut rows: Vec<Vec<(String, String)>> = Vec::new();
    let mut i: usize = 0;
    while i < entries.len()
        invariant
            i <= entries@.len(),
            records(rows@) == rows_of(entries@.take(i as int)),
        decreases entries@.len() - i,
    {
        let ghost before = rows@;
        let row = index_row(&entries[i]);
        rows.push(row);
        assert(records(rows@) =~= records(before).push(named_texts(row@)));
        assert(rows_of(entries@.take(i + 1)) =~= rows_of(entries@.take(i as int)).push(
            row_of(entries@[i as int]),
        ));
        i = i + 1;
    }
    assert(entries@.take(i as int) =~= entries@);
    rows
}

/// The answer with an index, or with what kept the template from making it.
pub fn answer_with_index(page: Result<String, TemplateError>) -> (r: Reply)
    ensures
        r@ == rendered_answer(page_result(page)),
        r@.headers.len() == 0,
        page matches Ok(text) ==> r@.status == Status::Success && r@.body == BodyModel::Html(text@),
        page matches Err(TemplateError::Load(reason)) ==> r@.status == Status::InternalServerError
            && r@.body == BodyModel::Html(
            "<h1>"@ + "Template Error"@ + "</h1><p>"@ + reason@ + "</p>"@,
        ),
        page matches Err(TemplateError::Render(reason)) ==> r@.status == Status::InternalServerError
            && r@.body == BodyModel::Html(
            "<h1>"@ + "Render Error"@ + "</h1><p>"@ + reason@ + "</p>"@,
        ),
{
    match page {
        Ok(page) => Reply::html(Status::Success, page),
        Err(TemplateError::Load(reason)) => Reply::error(
            Status::InternalServerError,
            "Template Error",
            reason,
        ),
        Err(TemplateError::Render(reason)) => Reply::error(
            Status::InternalServerError,
            "Render Error",
            reason,
        ),
    }
}

/// Answers a request for the index of the directory, once it has been listed. A listing always gets its
/// index.
pub fn serve_directory_index(listing: Result<Vec<FileEntry>, ServeError>) -> (r: Reply)
    ensures
        r@ == index_answer(listing),
        listing is Ok <==> r@.status == Status::Success,
        r@.headers.len() == 0,
        listing matches Ok(entries) ==> r@.body == BodyModel::Html(index_text(entries@)),
        listing matches Err(error) ==> r@.status == Status::InternalServerError && r@.body
            == BodyModel::Html("<h1>"@ + "Error"@ + "</h1><p>"@ + error.text() + "</p>"@),
{
    match listing {
        Ok(entries) => {
            let mut texts: Vec<(String, String)> = Vec::new();
            texts.push(("title".to_string(), "Directory Index".to_string()));
            texts.push(("current_path".to_string(), "".to_string()));
            let rows = index_rows(&entries);
            let mut tables: Vec<(String, Vec<Vec<(String, String)>>)> = Vec::new();
            tables.push(("entries".to_string(), rows));
            let context = Context { safe: Vec::new(), texts, flags: Vec::new(), tables };
            proof {
                assert(named_texts(context.safe@) =~= Seq::empty());
                assert(named_texts(context.texts@) =~= seq![
                    ("title"@, "Directory Index"@),
                    ("current_path"@, ""@),
                ]);
                assert(named_flags(context.flags@) =~= Seq::empty());
                assert(named_tables(context.tables@) =~= seq![("entries"@, rows_of(entries@))]);
                assert(records(context.tables@[0].1@) =~= rows_of(entries@));
                assert forall|i: int| 0 <= i < rows_of(entries@).len() implies is_index_row(
                    #[trigger] rows_of(entries@)[i],
                ) by {
                    assert(rows_of(entries@)[i] == row_of(entries@[i]));
                }
            }
            answer_with_index(render_template(DIRECTORY_TEMPLATE_NAME, DIRECTORY_TEMPLATE, context))
        },
        Err(error) => Reply::error(Status::InternalServerError, "Error", error.message()),
    }
}

/// Answers a request for the page of a file, once it has been made.
pub fn serve_file_from_directory(page: Result<String, ServeError>) -> (r: Reply)
    ensures
        r@ == match page {
            Ok(html) => html_reply(Status::Success, html@),
            Err(error) => html_reply(Status::NotFound, error_page("Not Found"@, error.text())),
        },
        r@.headers.len() == 0,
        page matches Ok(html) ==> r@.status == Status::Success && r@.body == BodyModel::Html(html@),
        page matches Err(error) ==> r@.status == Status::NotFound && r@.body == BodyModel::Html(
            "<h1>"@ + "Not Found"@ + "</h1><p>"@ + error.text() + "</p>"@,
        ),
{
    match page {
        Ok(html) => Reply::html(Status::Success, html),
        Err(error) => Reply::error(Status::NotFound, "Not Found", error.message()),
    }
}

/// Answers a request for the text of a file, once it has been read. The text goes out as it is.
pub fn serve_raw_from_directory(content: Result<String, ServeError>) -> (r: Reply)
    ensures
        r@ == match content {
            Ok(text) => text_reply(Status::Success, text@),
            Err(error) => text_reply(Status::NotFound, "Error: "@ + error.text()),
        },
        r@.headers.len() == 0,
        content matches Ok(text) ==> r@.status == Status::Success && r@.body == BodyModel::Text(
            text@,
        ),
        content matches Err(error) ==> r@.status == Status::NotFound && r@.body == BodyModel::Text(
            "Error: "@ + error.text(),
        ),
{
    match content {
        Ok(text) => Reply::text(Status::Success, text),
        Err(error) => {
            let mut text = "Error: ".to_string();
            text.append(error.message().as_str());
            Reply::text(Status::NotFound, text)
        },
    }
}

/// The index shows an entry by an icon for its kind, its name and a link to its page, which ends in a
/// separator where the entry is a directory.
pub proof fn law_row_shows_the_entry(entry: FileEntry)
    ensures
        row_of(entry).len() == 3,
        row_of(entry)[0] == ("icon"@, if entry.is_dir {
            "📁"@
        } else {
            "📄"@
        }),
        row_of(entry)[1] == ("name"@, entry.name@),
        row_of(entry)[2].0 == "link"@,
        row_of(entry)[2].1.take(6) == "/view/"@,
        row_of(entry)[2].1.subrange(6, 6 + entry.name@.len() as int) == entry.name@,
        row_of(entry)[2].1.skip(6 + entry.name@.len() as int) == if entry.is_dir {
            seq!['/']
        } else {
            Seq::empty()
        },
{
    reveal_strlit("/view/");
    reveal_strlit("/");
    let link = row_of(entry)[2].1;
    let n = entry.name@.len() as int;
    assert(link.take(6) =~= "/view/"@);
    assert(link.subrange(6, 6 + n) =~= entry.name@);
    assert(link.skip(6 + n) =~= if entry.is_dir {
        seq!['/']
    } else {
        Seq::empty()
    });
}

proof fn lemma_rows_append(
    part: Seq<char>,
    x: Seq<Seq<(Seq<char>, Seq<char>)>>,
    y: Seq<Seq<(Seq<char>, Seq<char>)>>,
)
    ensures
        filled_rows(part, x + y) == filled_rows(part, x) + filled_rows(part, y),
    decreases y.len(),
{
    if y.len() == 0 {
        assert(x + y =~= x);
        assert(filled_rows(part, x) + filled_rows(part, y) =~= filled_rows(part, x));
    } else {
        let front = y.drop_last();
        lemma_rows_append(part, x, front);
        assert((x + y).drop_last() =~= x + front);
        assert((x + y).last() == y.last());
        assert(filled_rows(part, x + y) =~= filled_rows(part, x) + filled_rows(part, y));
    }
}

/// Every entry has its part in the index, with its icon, its link and its name, once and in the order of
/// the listing: an index with one more entry has one more such part, at the place of the entry, and is
/// otherwise the same.
pub proof fn law_index_shows_every_entry(
    before: Seq<FileEntry>,
    entry: FileEntry,
    after: Seq<FileEntry>,
)
    ensures
        exists|start: Seq<char>, end: Seq<char>|
            index_text(before + after) == #[trigger] (start + end) && index_text(
                before.push(entry) + after,
            ) == start + filled_row(
                before_tag("{% endfor %}"@, index_listing(DIRECTORY_TEMPLATE@)),
                seq![
                    ("icon"@, if entry.is_dir {
                        "📁"@
                    } else {
                        "📄"@
                    }),
                    ("name"@, entry.name@),
                    ("link"@, if entry.is_dir {
                        "/view/"@ + entry.name@ + "/"@
                    } else {
                        "/view/"@ + entry.name@
                    }),
                ],
            ) + end,
{
    let listing = index_listing(DIRECTORY_TEMPLATE@);
    let part = before_tag("{% endfor %}"@, listing);
    let head = index_head(DIRECTORY_TEMPLATE@, "Directory Index"@, ""@);
    let (x, y) = (rows_of(before), rows_of(after));
    let row = seq![row_of(entry)];
    lemma_rows_append(part, x, y);
    lemma_rows_append(part, x, row);
    lemma_rows_append(part, x + row, y);
    assert(rows_of(before + after) =~= x + y);
    assert(rows_of(before.push(entry) + after) =~= x + row + y);
    assert(row.drop_last() =~= Seq::empty());
    assert(filled_rows(part, row.drop_last()) =~= Seq::empty());
    assert(filled_rows(part, row) =~= filled_row(part, row_of(entry)));
    let start = head + filled_rows(part, x);
    let end = filled_rows(part, y) + after_tag("{% endfor %}"@, listing);
    assert(index_text(before + after) =~= start + end);
    assert(index_text(before.push(entry) + after) =~= start + filled_row(part, row_of(entry))
        + end);
    assert(row_of(entry) =~= seq![
        ("icon"@, if entry.is_dir {
            "📁"@
        } else {
            "📄"@
        }),
        ("name"@, entry.name@),
        ("link"@, if entry.is_dir {
            "/view/"@ + entry.name@ + "/"@
        } else {
            "/view/"@ + entry.name@
        }),
    ]);
}

/// The part of an index for an entry holds the icon, the link and the name, each escaped.
pub proof fn law_part_holds_icon_link_and_name(
    part: Seq<char>,
    row: Seq<(Seq<char>, Seq<char>)>,
    icon: Seq<char>,
    name: Seq<char>,
    link: Seq<char>,
)
    requires
        row == seq![("icon"@, icon), ("name"@, name), ("link"@, link)],
    ensures
        exists|a: Seq<char>, b: Seq<char>, c: Seq<char>, d: Seq<char>|
            filled_row(part, row) == #[trigger] (a + escaped(icon) + b + escaped(link) + c + escaped(
                name,
            ) + d),
{
    let linked = after_tag("{{ entry.icon }}"@, part);
    let named = after_tag("{{ entry.link }}"@, linked);
    let a = before_tag("{{ entry.icon }}"@, part);
    let b = before_tag("{{ entry.link }}"@, linked);
    let c = before_tag("{{ entry.name }}"@, named);
    let d = after_tag("{{ entry.name }}"@, named);
    assert(filled_row(part, row) == a + escaped(icon) + b + escaped(link) + c + escaped(name) + d);
}

/// Escaping goes character by character and leaves no character that could begin a tag or end an
/// attribute; what has nothing special in it stands as it is.
pub proof fn law_escaped_text_is_harmless(text: Seq<char>, more: Seq<char>, c: char)
    ensures
        escaped(text + more) == escaped(text) + escaped(more),
        !escaped(text).contains('<'),
        !escaped(text).contains('>'),
        !escaped(text).contains('"'),
        !escaped(text).contains('\''),
        c != '<' && c != '>' && c != '&' && c != '"' && c != '\'' && c != '/' ==> escaped(
            text.push(c),
        ) == escaped(text).push(c),
        escaped(text.push('<')) == escaped(text) + "&lt;"@,
        escaped(text.push('>')) == escaped(text) + "&gt;"@,
        escaped(text.push('&')) == escaped(text) + "&amp;"@,
        escaped(text.push('"')) == escaped(text) + "&quot;"@,
{
    lemma_escaped_append(text, more);
    lemma_escaped_char_harmless(text);
    assert(text.push(c).drop_last() =~= text);
    assert(text.push('<').drop_last() =~= text);
    assert(text.push('>').drop_last() =~= text);
    assert(text.push('&').drop_last() =~= text);
    assert(text.push('"').drop_last() =~= text);
    assert(escaped(text) + seq![c] =~= escaped(text).push(c));
}

proof fn lemma_escaped_append(text: Seq<char>, more: Seq<char>)
    ensures
        escaped(text + more) == escaped(text) + escaped(more),
    decreases more.len(),
{
    if more.len() == 0 {
        assert(text + more =~= text);
        assert(escaped(text) + escaped(more) =~= escaped(text));
    } else {
        lemma_escaped_append(text, more.drop_last());
        assert((text + more).drop_last() =~= text + more.drop_last());
        assert(escaped(text + more) =~= escaped(text) + escaped(more));
    }
}

proof fn lemma_escaped_char_harmless(text: Seq<char>)
    ensures
        !escaped(text).contains('<'),
        !escaped(text).contains('>'),
        !escaped(text).contains('"'),
        !escaped(text).contains('\''),
    decreases text.len(),
{
    reveal_strlit("&lt;");
    reveal_strlit("&gt;");
    reveal_strlit("&amp;");
    reveal_strlit("&quot;");
    reveal_strlit("&#x27;");
    reveal_strlit("&#x2f;");
    if text.len() > 0 {
        let before = escaped(text.drop_last());
        let last = escaped_char(text.last());
        lemma_escaped_char_harmless(text.drop_last());
        assert forall|i: int| 0 <= i < escaped(text).len() implies escaped(text)[i] != '<' && escaped(
            text,
        )[i] != '>' && escaped(text)[i] != '"' && escaped(text)[i] != '\'' by {
            if i < before.len() {
                assert(before.contains(before[i]));
            } else {
                assert(escaped(text)[i] == last[i - before.len()]);
            }
        }
    }
}

/// A listing that could not be made is answered with 500 and what went wrong; an index that could not be
/// made is answered so too, under a title of its own.
pub proof fn law_index_errors_are_told_apart(
    page: Seq<char>,
    reason: Seq<char>,
    error: ServeError,
    unlisted: Result<Vec<FileEntry>, ServeError>,
)
    requires
        unlisted == Err::<Vec<FileEntry>, ServeError>(error),
    ensures
        index_answer(unlisted).status == Status::InternalServerError,
        index_answer(unlisted).body == BodyModel::Html(
            "<h1>"@ + "Error"@ + "</h1><p>"@ + error.text() + "</p>"@,
        ),
        rendered_answer(Ok(page)).status == Status::Success,
        rendered_answer(Ok(page)).body == BodyModel::Html(page),
        rendered_answer(Err(TemplateFault::Load(reason))).status == Status::InternalServerError,
        rendered_answer(Err(TemplateFault::Load(reason))).body == BodyModel::Html(
            "<h1>"@ + "Template Error"@ + "</h1><p>"@ + reason + "</p>"@,
        ),
        rendered_answer(Err(TemplateFault::Render(reason))).status == Status::InternalServerError,
        rendered_answer(Err(TemplateFault::Render(reason))).body == BodyModel::Html(
            "<h1>"@ + "Render Error"@ + "</h1><p>"@ + reason + "</p>"@,
        ),
{
}

/// The index begins with the text of its template, in which its title stands, and goes on with its
/// entries: two indexes are the same up to the first entry.
pub proof fn law_index_bears_its_title(entries: Seq<FileEntry>)
    ensures
        exists|rest: Seq<char>|
            index_text(entries) == #[trigger] (before_tag(
                "{{ title }}"@,
                template_body(DIRECTORY_TEMPLATE@),
            ) + escaped("Directory Index"@) + rest),
        exists|rest: Seq<char>|
            index_text(entries) == #[trigger] (index_head(
                DIRECTORY_TEMPLATE@,
                "Directory Index"@,
                ""@,
            ) + rest),
        index_page(entries) == template_output(
            DIRECTORY_TEMPLATE_NAME@,
            DIRECTORY_TEMPLATE@,
            Seq::empty(),
            seq![("title"@, "Directory Index"@), ("current_path"@, ""@)],
            Seq::empty(),
            seq![("entries"@, rows_of(entries))],
        ),
        rows_of(entries).len() == entries.len(),
        forall|i: int| 0 <= i < entries.len() ==> #[trigger] rows_of(entries)[i] == row_of(entries[i]),
{
    let listing = index_listing(DIRECTORY_TEMPLATE@);
    let rows = filled_rows(before_tag("{% endfor %}"@, listing), rows_of(entries));
    let rest = rows + after_tag("{% endfor %}"@, listing);
    let head = index_head(DIRECTORY_TEMPLATE@, "Directory Index"@, ""@);
    assert(index_text(entries) =~= head + rest);
    let first = before_tag("{{ title }}"@, template_body(DIRECTORY_TEMPLATE@)) + escaped(
        "Directory Index"@,
    );
    let second = after_tag("{{ title }}"@, template_body(DIRECTORY_TEMPLATE@));
    let third = after_tag("{{ current_path }}"@, second);
    let last = after_tag("{{ title }}"@, third);
    let more = before_tag("{{ current_path }}"@, second) + escaped(""@) + before_tag(
        "{{ title }}"@,
        third,
    ) + escaped("Directory Index"@) + before_tag("{% for entry in entries %}"@, last);
    assert(head =~= first + more);
    assert(index_text(entries) =~= first + (more + rest));
}

} // verus!
