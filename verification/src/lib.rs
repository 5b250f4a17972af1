//! A small library that assembles a hierarchical document — a book of
//! chapters, sections and subsections — and renders it to a set of markdown
//! files plus a `SUMMARY.md` manifest for a static-book generator.
//!
//! The tree is built through a fluent builder and is immutable afterwards.
//! Rendering is a pure function from the book and the subsection source
//! texts to the list of files to write; writing them to disk is left to the
//! caller.

pub mod text;
pub mod book;
pub mod render;
pub mod laws;
