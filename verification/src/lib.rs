//! A preprocessor for books that document Typst code. It rewrites the bodies of the
//! chapters: definitions of parameters, references to types and fenced blocks of Typst
//! source become HTML, and the blocks that ask for it are rendered to images by the Typst
//! compiler.
//!
//! The library computes and decides; the host reads, writes and runs the compiler.
//! [`TypstPreprocessor::run`] takes the configuration and the book as plain values and
//! gives back the rewritten book and the jobs for the compiler. The host starts and awaits
//! the compiler as [`jobs::Orchestrator`] tells it to, and publishes the images when
//! that says so.

pub mod book;
pub mod cache;
pub mod config;
pub mod error;
pub mod highlight;
pub mod jobs;
pub mod pattern;
pub mod preprocessor;
pub mod rewrite;
pub mod template;
pub mod text;

pub use crate::config::{Config, TypeConfig};
pub use crate::error::Error;
pub use crate::preprocessor::TypstPreprocessor;
