//! The HTML templates of the two kinds of page, and their rendering.
use crate::text::{occurs_at, occurs_in};
use minijinja::{Environment, Value};
use std::collections::BTreeMap;
use vstd::prelude::*;
use vstd::string::*;

verus! {

/// The name of the template of a document. Its ending has values escaped for HTML.
pub const TEMPLATE_NAME: &'static str = "main.html";

/// The name of the template of a directory index.
pub const DIRECTORY_TEMPLATE_NAME: &'static str = "directory.html";

/// The template of a document. It expects `content`, the document as HTML, and `mermaid_enabled`,
/// which says whether the document holds diagrams.
pub const MAIN_TEMPLATE: &'static str = r##"<!DOCTYPE html>
<html lang="en" data-theme="light">
<head>
<meta charset="UTF-8">
<meta name="viewport" content="width=device-width, initial-scale=1.0">
<title>mdserve</title>
<style>
:root, [data-theme="light"] { --bg: #ffffff; --fg: #24292f; --muted: #57606a; --line: #d0d7de; --code: #f6f8fa; --link: #0969da; }
[data-theme="dark"] { --bg: #0d1117; --fg: #e6edf3; --muted: #8b949e; --line: #30363d; --code: #161b22; --link: #58a6ff; }
[data-theme="catppuccin-latte"] { --bg: #eff1f5; --fg: #4c4f69; --muted: #6c6f85; --line: #ccd0da; --code: #e6e9ef; --link: #1e66f5; }
[data-theme="catppuccin-macchiato"] { --bg: #24273a; --fg: #cad3f5; --muted: #a5adcb; --line: #494d64; --code: #1e2030; --link: #8aadf4; }
[data-theme="catppuccin-mocha"] { --bg: #1e1e2e; --fg: #cdd6f4; --muted: #a6adc8; --line: #45475a; --code: #181825; --link: #89b4fa; }
body { max-width: 900px; margin: 0 auto; padding: 2rem; background: var(--bg); color: var(--fg); font-family: system-ui, sans-serif; line-height: 1.6; }
a { color: var(--link); }
code, pre { background: var(--code); border-radius: 6px; }
pre { padding: 1rem; overflow: auto; }
blockquote { margin-left: 0; padding-left: 1rem; border-left: 4px solid var(--line); color: var(--muted); }
table { border-collapse: collapse; }
th, td { border: 1px solid var(--line); padding: 0.4rem 0.8rem; }
img { max-width: 100%; }
.themes { position: fixed; top: 1rem; right: 1rem; }
</style>
</head>
<body>
<label class="themes">&#127912;
<select id="theme">
<option value="light">Light</option>
<option value="dark">Dark</option>
<option value="catppuccin-latte">Catppuccin Latte</option>
<option value="catppuccin-macchiato">Catppuccin Macchiato</option>
<option value="catppuccin-mocha">Catppuccin Mocha</option>
</select>
</label>
<main>
{{ content }}
</main>
<script>
const picker = document.getElementById("theme");
function applyTheme(name) {
  document.documentElement.setAttribute("data-theme", name);
  picker.value = name;
}
applyTheme(localStorage.getItem("theme") || "light");
picker.addEventListener("change", function () {
  localStorage.setItem("theme", picker.value);
  applyTheme(picker.value);
});
function connect() {
  const scheme = location.protocol === "https:" ? "wss:" : "ws:";
  const socket = new WebSocket(scheme + "//" + location.host + "/ws");
  socket.onmessage = function (event) {
    if (JSON.parse(event.data).type === "Reload") {
      location.reload();
    }
  };
  socket.onclose = function () {
    setTimeout(connect, 2000);
  };
}
connect();
</script>
{% if mermaid_enabled %}
<script src="/mermaid.min.js"></script>
<script>
document.querySelectorAll("code.language-mermaid").forEach(function (block) {
  const drawing = document.createElement("div");
  drawing.className = "mermaid";
  drawing.textContent = block.textContent;
  block.parentElement.replaceWith(drawing);
});
mermaid.initialize({ startOnLoad: true });
</script>
{% endif %}
</body>
</html>
"##;

/// The template of a directory index. It expects `title`, `current_path` and `entries`, each of which
/// has an `icon`, a `name` and a `link`.
pub const DIRECTORY_TEMPLATE: &'static str = r##"<!DOCTYPE html>
<html lang="en" data-theme="light">
<head>
<meta charset="UTF-8">
<meta name="viewport" content="width=device-width, initial-scale=1.0">
<title>{{ title }}</title>
<style>
:root, [data-theme="light"] { --bg: #ffffff; --fg: #24292f; --line: #d0d7de; --link: #0969da; }
[data-theme="dark"] { --bg: #0d1117; --fg: #e6edf3; --line: #30363d; --link: #58a6ff; }
[data-theme="catppuccin-latte"] { --bg: #eff1f5; --fg: #4c4f69; --line: #ccd0da; --link: #1e66f5; }
[data-theme="catppuccin-macchiato"] { --bg: #24273a; --fg: #cad3f5; --line: #494d64; --link: #8aadf4; }
[data-theme="catppuccin-mocha"] { --bg: #1e1e2e; --fg: #cdd6f4; --line: #45475a; --link: #89b4fa; }
body { max-width: 900px; margin: 0 auto; padding: 2rem; background: var(--bg); color: var(--fg); font-family: system-ui, sans-serif; }
a { color: var(--link); text-decoration: none; }
li { list-style: none; padding: 0.4rem 0; border-bottom: 1px solid var(--line); }
.themes { position: fixed; top: 1rem; right: 1rem; }
</style>
</head>
<body>
<label class="themes">&#127912;
<select id="theme">
<option value="light">Light</option>
<option value="dark">Dark</option>
<option value="catppuccin-latte">Catppuccin Latte</option>
<option value="catppuccin-macchiato">Catppuccin Macchiato</option>
<option value="catppuccin-mocha">Catppuccin Mocha</option>
</select>
</label>
<nav><a href="/">/</a>{{ current_path }}</nav>
<h1>{{ title }}</h1>
<ul>
{% for entry in entries %}
<li>{{ entry.icon }} <a href="{{ entry.link }}">{{ entry.name }}</a></li>
{% endfor %}
</ul>
<script>
const picker = document.getElementById("theme");
function applyTheme(name) {
  document.documentElement.setAttribute("data-theme", name);
  picker.value = name;
}
applyTheme(localStorage.getItem("theme") || "light");
picker.addEventListener("change", function () {
  localStorage.setItem("theme", picker.value);
  applyTheme(picker.value);
});
function connect() {
  const scheme = location.protocol === "https:" ? "wss:" : "ws:";
  const socket = new WebSocket(scheme + "//" + location.host + "/ws");
  socket.onmessage = function (event) {
    if (JSON.parse(event.data).type === "Reload") {
      location.reload();
    }
  };
  socket.onclose = function () {
    setTimeout(connect, 2000);
  };
}
connect();
</script>
</body>
</html>
"##;

/// Why a page could not be put together.
#[derive(Debug)]
pub enum TemplateError {
    /// The template could not be loaded.
    Load(String),
    /// The template could not be filled in.
    Render(String),
}

/// Why a page could not be put together, as contracts speak of it.
pub enum TemplateFault {
    Load(Seq<char>),
    Render(Seq<char>),
}

/// The values that fill in a template, each with the name under which the template knows it.
#[derive(Debug)]
pub struct Context {
    /// Texts that are HTML already and go into the page as they are.
    pub safe: Vec<(String, String)>,
    /// Texts that are escaped where they stand in the page.
    pub texts: Vec<(String, String)>,
    /// Flags.
    pub flags: Vec<(String, bool)>,
    /// Lists of records of texts.
    pub tables: Vec<(String, Vec<Vec<(String, String)>>)>,
}

/// What a list of named texts holds.
pub open spec fn named_texts(list: Seq<(String, String)>) -> Seq<(Seq<char>, Seq<char>)> {
    list.map_values(|p: (String, String)| (p.0@, p.1@))
}

/// What a list of named flags holds.
pub open spec fn named_flags(list: Seq<(String, bool)>) -> Seq<(Seq<char>, bool)> {
    list.map_values(|p: (String, bool)| (p.0@, p.1))
}

/// What a list of records holds.
pub open spec fn records(list: Seq<Vec<(String, String)>>) -> Seq<Seq<(Seq<char>, Seq<char>)>> {
    list.map_values(|row: Vec<(String, String)>| named_texts(row@))
}

/// What a list of named lists of records holds.
pub open spec fn named_tables(list: Seq<(String, Vec<Vec<(String, String)>>)>) -> Seq<
    (Seq<char>, Seq<Seq<(Seq<char>, Seq<char>)>>),
> {
    list.map_values(|p: (String, Vec<Vec<(String, String)>>)| (p.0@, records(p.1@)))
}

/// What an attempt to put a page together came to.
pub open spec fn page_result(r: Result<String, TemplateError>) -> Result<Seq<char>, TemplateFault> {
    match r {
        Ok(page) => Ok(page@),
        Err(TemplateError::Load(reason)) => Err(TemplateFault::Load(reason@)),
        Err(TemplateError::Render(reason)) => Err(TemplateFault::Render(reason@)),
    }
}

/// Whether a name and a source are those of the template of a document.
pub open spec fn is_document_template(name: Seq<char>, source: Seq<char>) -> bool {
    name == TEMPLATE_NAME@ && source == MAIN_TEMPLATE@
}

/// Whether a name and a source are those of the template of a directory index.
pub open spec fn is_directory_template(name: Seq<char>, source: Seq<char>) -> bool {
    name == DIRECTORY_TEMPLATE_NAME@ && source == DIRECTORY_TEMPLATE@
}

/// Whether the values are those of a document: its HTML and whether it holds diagrams.
pub open spec fn is_document_context(context: Context) -> bool {
    &&& context.safe@.len() == 1
    &&& context.safe@[0].0@ == "content"@
    &&& context.texts@.len() == 0
    &&& context.flags@.len() == 1
    &&& context.flags@[0].0@ == "mermaid_enabled"@
    &&& context.tables@.len() == 0
}

/// Whether the values are those of a directory index: its title, the path of the directory and the
/// entries.
pub open spec fn is_index_context(context: Context) -> bool {
    &&& context.safe@.len() == 0
    &&& context.texts@.len() == 2
    &&& context.texts@[0].0@ == "title"@
    &&& context.texts@[1].0@ == "current_path"@
    &&& context.flags@.len() == 0
    &&& context.tables@.len() == 1
    &&& context.tables@[0].0@ == "entries"@
}

/// Whether a record is that of an entry of an index: its icon, its name and its link.
pub open spec fn is_index_row(row: Seq<(Seq<char>, Seq<char>)>) -> bool {
    &&& row.len() == 3
    &&& row[0].0 == "icon"@
    &&& row[1].0 == "name"@
    &&& row[2].0 == "link"@
}

/// Whether some records are those of the entries of an index.
pub open spec fn are_index_rows(rows: Seq<Seq<(Seq<char>, Seq<char>)>>) -> bool {
    forall|i: int| 0 <= i < rows.len() ==> is_index_row(#[trigger] rows[i])
}

/// The first place at which a tag stands in a text.
pub open spec fn first_place(tag: Seq<char>, text: Seq<char>) -> int {
    choose|i: int| #[trigger]
        occurs_at(tag, text, i) && forall|j: int| j < i ==> !#[trigger] occurs_at(tag, text, j)
}

/// The text before the first place at which a tag stands in it.
pub open spec fn before_tag(tag: Seq<char>, text: Seq<char>) -> Seq<char> {
    text.take(first_place(tag, text))
}

/// The text after the first place at which a tag stands in it.
pub open spec fn after_tag(tag: Seq<char>, text: Seq<char>) -> Seq<char> {
    text.skip(first_place(tag, text) + tag.len())
}

/// A template without the line break at its end, which is not written out.
pub open spec fn template_body(source: Seq<char>) -> Seq<char> {
    source.drop_last()
}

/// The template of a document filled in: the HTML stands in the place of `{{ content }}`, and what stands
/// between the two tags that test the flag is written out where the flag is set.
pub open spec fn filled_document(
    source: Seq<char>,
    html: Seq<char>,
    mermaid_enabled: bool,
) -> Seq<char> {
    let rest = after_tag("{{ content }}"@, template_body(source));
    let tested = after_tag("{% if mermaid_enabled %}"@, rest);
    before_tag("{{ content }}"@, template_body(source)) + html + before_tag(
        "{% if mermaid_enabled %}"@,
        rest,
    ) + (if mermaid_enabled {
        before_tag("{% endif %}"@, tested)
    } else {
        Seq::empty()
    }) + after_tag("{% endif %}"@, tested)
}

/// A character as it stands in HTML text.
pub open spec fn escaped_char(c: char) -> Seq<char> {
    if c == '<' {
        "&lt;"@
    } else if c == '>' {
        "&gt;"@
    } else if c == '&' {
        "&amp;"@
    } else if c == '"' {
        "&quot;"@
    } else if c == '\'' {
        "&#x27;"@
    } else if c == '/' {
        "&#x2f;"@
    } else {
        seq![c]
    }
}

/// A text as it stands in HTML text.
pub open spec fn escaped(text: Seq<char>) -> Seq<char>
    decreases text.len(),
{
    if text.len() == 0 {
        Seq::empty()
    } else {
        escaped(text.drop_last()) + escaped_char(text.last())
    }
}

/// The part of the template of an index that is written out for each entry, filled in for one.
pub open spec fn filled_row(part: Seq<char>, row: Seq<(Seq<char>, Seq<char>)>) -> Seq<char> {
    let linked = after_tag("{{ entry.icon }}"@, part);
    let named = after_tag("{{ entry.link }}"@, linked);
    before_tag("{{ entry.icon }}"@, part) + escaped(row[0].1) + before_tag(
        "{{ entry.link }}"@,
        linked,
    ) + escaped(row[2].1) + before_tag("{{ entry.name }}"@, named) + escaped(row[1].1) + after_tag(
        "{{ entry.name }}"@,
        named,
    )
}

/// That part filled in for each of some entries, one after the other.
pub open spec fn filled_rows(
    part: Seq<char>,
    rows: Seq<Seq<(Seq<char>, Seq<char>)>>,
) -> Seq<char>
    decreases rows.len(),
{
    if rows.len() == 0 {
        Seq::empty()
    } else {
        filled_rows(part, rows.drop_last()) + filled_row(part, rows.last())
    }
}

/// The template of an index up to its entries, filled in.
pub open spec fn index_head(source: Seq<char>, title: Seq<char>, path: Seq<char>) -> Seq<char> {
    let second = after_tag("{{ title }}"@, template_body(source));
    let third = after_tag("{{ current_path }}"@, second);
    let listing = after_tag("{{ title }}"@, third);
    before_tag("{{ title }}"@, template_body(source)) + escaped(title) + before_tag(
        "{{ current_path }}"@,
        second,
    ) + escaped(path) + before_tag("{{ title }}"@, third) + escaped(title) + before_tag(
        "{% for entry in entries %}"@,
        listing,
    )
}

/// The template of an index from its entries on.
pub open spec fn index_listing(source: Seq<char>) -> Seq<char> {
    after_tag("{% for entry in entries %}"@, template_body(source))
}

/// The template of an index filled in: its head, one part for each entry and what follows.
pub open spec fn filled_index(
    source: Seq<char>,
    title: Seq<char>,
    path: Seq<char>,
    rows: Seq<Seq<(Seq<char>, Seq<char>)>>,
) -> Seq<char> {
    let listing = index_listing(source);
    index_head(source, title, path) + filled_rows(before_tag("{% endfor %}"@, listing), rows)
        + after_tag("{% endfor %}"@, listing)
}

/// What MiniJinja makes of a template and the values that fill it in.
pub uninterp spec fn template_output(
    name: Seq<char>,
    source: Seq<char>,
    safe: Seq<(Seq<char>, Seq<char>)>,
    texts: Seq<(Seq<char>, Seq<char>)>,
    flags: Seq<(Seq<char>, bool)>,
    tables: Seq<(Seq<char>, Seq<Seq<(Seq<char>, Seq<char>)>>)>,
) -> Result<Seq<char>, TemplateFault>;

/// Fills in one of the two templates with `minijinja::Template::render`, after
/// `minijinja::Environment::template_from_named_str` has loaded it.
///
/// Trusted: the page, or the text of the error, depends on the template and the values alone. Both
/// templates can be loaded, and filling them in does not fail where the values are those that they
/// expect: they only write texts out, test a flag and go through a list of records.
///
/// In the page of a document its HTML stands as it is, since the template writes the value `content` out
/// and a safe string is not escaped. All else in a page is the text of the template, without the line
/// break at its end, and the other values, in which what is special in HTML is escaped since the names
/// of both templates end in `.html`. Each tag of the template of a document stands in it once, and so
/// does each of that of an index but for the title, which stands before and after the path.
#[verifier::external_body]
pub(crate) fn render_template(name: &str, source: &str, context: Context) -> (r: Result<
    String,
    TemplateError,
>)
    requires
        is_document_template(name@, source@) || is_directory_template(name@, source@),
    ensures
        page_result(r) == template_output(
            name@,
            source@,
            named_texts(context.safe@),
            named_texts(context.texts@),
            named_flags(context.flags@),
            named_tables(context.tables@),
        ),
        is_document_template(name@, source@) && is_document_context(context) ==> r is Ok
            && occurs_in(context.safe@[0].1@, r->Ok_0@),
        is_document_template(name@, source@) && is_document_context(context) ==> r->Ok_0@
            == filled_document(source@, context.safe@[0].1@, context.flags@[0].1),
        is_directory_template(name@, source@) && is_index_context(context) ==> r is Ok,
        is_directory_template(name@, source@) && is_index_context(context) && are_index_rows(
            records(context.tables@[0].1@),
        ) ==> r->Ok_0@ == filled_index(
            source@,
            context.texts@[0].1@,
            context.texts@[1].1@,
            records(context.tables@[0].1@),
        ),
{
    let env = Environment::new();
    let template = env.template_from_named_str(name, source);
    let template = template.map_err(|e| TemplateError::Load(e.to_string()))?;
    let mut values = BTreeMap::new();
    for (key, html) in context.safe { values.insert(key, Value::from_safe_string(html)); }
    for (key, text) in context.texts { values.insert(key, Value::from(text)); }
    for (key, flag) in context.flags { values.insert(key, Value::from(flag)); }
    for (key, rows) in context.tables {
        values.insert(key, rows.into_iter().map(|row| Value::from_iter(row)).collect());
    }
    template.render(values).map_err(|e| TemplateError::Render(e.to_string()))
}

proof fn lemma_first_place(tag: Seq<char>, text: Seq<char>, i: int)
    requires
        occurs_at(tag, text, i),
    ensures
        occurs_at(tag, text, first_place(tag, text)),
        forall|j: int| j < first_place(tag, text) ==> !#[trigger] occurs_at(tag, text, j),
    decreases i,
{
    if exists|j: int| j < i && #[trigger] occurs_at(tag, text, j) {
        let j = choose|j: int| j < i && #[trigger] occurs_at(tag, text, j);
        lemma_first_place(tag, text, j);
    } else {
        assert(occurs_at(tag, text, i) && forall|j: int|
            j < i ==> !#[trigger] occurs_at(tag, text, j));
    }
}

/// A text in which a tag stands is what stands before the tag, the tag and what stands after it; and the
/// tag does not stand anywhere before.
pub proof fn law_text_is_cut_at_the_first_tag(tag: Seq<char>, text: Seq<char>)
    requires
        occurs_in(tag, text),
    ensures
        before_tag(tag, text) + tag + after_tag(tag, text) == text,
        forall|j: int|
            0 <= j < before_tag(tag, text).len() ==> #[trigger] text.subrange(
                j,
                j + tag.len() as int,
            ) != tag,
{
    let i = choose|i: int| #[trigger] occurs_at(tag, text, i);
    lemma_first_place(tag, text, i);
    let place = first_place(tag, text);
    assert(text.subrange(place, place + tag.len()) == tag);
    assert(before_tag(tag, text) + tag + after_tag(tag, text) =~= text);
    assert forall|j: int| 0 <= j < before_tag(tag, text).len() implies #[trigger] text.subrange(
        j,
        j + tag.len() as int,
    ) != tag by {
        assert(!occurs_at(tag, text, j));
    }
}

} // verus!
