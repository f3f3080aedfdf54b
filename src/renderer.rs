//! Entry points with a fixed flavor: `jira` renders code blocks in the
//! `{code:language=...}` form.

pub mod jira;
