//! Renders a Markdown event stream as Atlassian wiki markup, in its Jira and
//! Confluence flavors.
//!
//! `atlassian` holds the renderer, a state machine whose every step is stated
//! over `atlassian::WriterState`; `html` turns balanced raw HTML fragments into
//! `{expand}` macros; `language` maps code-block language tokens to the names
//! the wiki highlights; `text` escapes text for the markup; `laws` proves what
//! holds of whole renderings.

pub mod atlassian;
pub mod event;
pub mod html;
pub mod language;
pub mod laws;
pub mod renderer;
pub mod text;
