//! Request-content acquisition: which of the three content sources a run
//! uses, in priority order.
//!
//! Inline content given on the command line wins and is escape-normalized;
//! otherwise a named content file is read verbatim; otherwise the content is
//! read interactively from standard input. Exactly one source is used per
//! run, and only inline content is normalized.

use vstd::prelude::*;
use vstd::string::*;
use crate::text::normalize_text;
use crate::text::normalized;

verus! {

/// The one content source a run draws its request body from.
pub enum ContentSource {
    /// Inline command-line content, already escape-normalized.
    Inline(String),
    /// The path of a content file, to be read verbatim.
    FromFile(String),
    /// Interactive standard-input capture, read verbatim.
    Interactive,
}

/// Picks the content source by priority: inline content first (normalized),
/// then the content file (by path, never opened here), else interactive
/// input. When inline content is present, any content file is ignored.
pub fn choose_content_source(content: Option<String>, content_file: Option<String>) -> (r:
    ContentSource)
    ensures
        content is Some ==> (r matches ContentSource::Inline(t) && t@ == normalized(
            content->0@,
        )),
        content is None && content_file is Some ==> (r matches ContentSource::FromFile(p) && p
            == content_file->0),
        content is None && content_file is None ==> r is Interactive,
{
    match content {
        Some(c) => ContentSource::Inline(normalize_text(c)),
        None => match content_file {
            Some(f) => ContentSource::FromFile(f),
            None => ContentSource::Interactive,
        },
    }
}

/// The prompt shown before interactive content entry.
pub fn content_prompt() -> (r: String)
    ensures
        r@ == "Enter Request Content (Ctrl+D to finish):"@,
{
    "Enter Request Content (Ctrl+D to finish):".to_owned()
}

/// The diagnostic for a content file that does not exist.
pub fn content_file_missing_message() -> (r: String)
    ensures
        r@ == "Error: Request content file not found"@,
{
    "Error: Request content file not found".to_owned()
}

} // verus!
