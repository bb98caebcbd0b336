//! A preview server for Markdown: the part of it that decides.
//!
//! The library finds out what a request asks for, which files may be read for it, what pages and
//! listings are made of them and what is answered. It does not touch the file system or the network:
//! work that needs the file system is a run that says what it needs and is resumed with the reply.
pub mod bytes;
pub mod cache;
pub mod directory;
pub mod disk;
pub mod document;
pub mod error;
pub mod host;
pub mod index;
pub mod laws;
pub mod listing;
pub mod media;
pub mod mermaid;
pub mod page;
pub mod path;
pub mod reply;
pub mod session;
pub mod static_files;
pub mod template;
pub mod text;
pub mod watch;
