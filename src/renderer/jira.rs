//! The renderer with Confluence code-block syntax, under its own entry points.

use vstd::prelude::*;
use crate::atlassian::rendered;
use crate::event::Event;

verus! {

/// Renders a whole event sequence with a heading shift; code blocks take the
/// Confluence form `{code:language=...}`.
pub fn write_jira(events: &Vec<Event>, modify_headers: i8) -> (r: String)
    ensures
        r@ == rendered(events@, modify_headers, 'c'),
{
    crate::atlassian::write(events, modify_headers, 'c')
}

/// The table of contents macro, which goes before a document.
pub fn write_toc() -> (r: String)
    ensures
        r@ == "{toc}\n\n"@,
{
    crate::atlassian::write_toc()
}

} // verus!
