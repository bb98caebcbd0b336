# mdserve

A preview server for Markdown with live reload. It serves a single file, or a whole directory with an
index, caches the pages it makes, and serves the images that the pages refer to.

## Layout

- `src/` is the library: everything that is decided, written in Verus and proved against its contracts.
  - `path`, `bytes`, `text` and `media` are about paths, byte strings, text and what a file name says of
    a file.
  - `page` and `template` make pages, with the `markdown` and `minijinja` crates.
  - `document` serves one file; `directory`, `cache`, `listing` and `index` serve a directory;
    `static_files` serves images and `mermaid` the script that draws diagrams; `watch` decides what a
    change on the disk leads to.
  - `session` is the course of a WebSocket session, `host` the address that is printed at the start.
  - `disk`, `error` and `reply` are what the library says to the outside.
  - `laws` states what holds of the server as a whole.
- `app/` is the server around it: HTTP and WebSockets with `axum`, the file watcher and the file system.
- `tests/` runs the library.

## How the library and the file system meet

The library does no input or output. Work that needs the file system is a *run*: it says what it needs
next, is resumed with the reply, and is done when nothing is pending. The contract of each run says what
every possible reply leads to, so what the laws say of a run holds whatever the file system does.

Paths are byte strings with `/` between their parts. Two paths are the same when they have the same
components, and a path lies within a directory when its components begin with those of the directory.

What is served may be named by a relative path, a bare file name or `.`. The library asks for the canonical
form of the directory when it opens it, holds every request against that form, and looks for changes
there.

## What is taken on trust

Two functions of other crates are called behind contracts that are not proved: the Markdown compiler
(`page::to_gfm_html`) and the template engine (`template::render_template`). Their results appear in
contracts under the names `gfm_html` and `template_output`.

The Mermaid script is looked up in `static/js/mermaid.min.js`, from the directory of the program.
