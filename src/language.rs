//! The languages that code blocks of the wiki can highlight, and the names
//! that lead to each.

use vstd::prelude::*;
use crate::text::{lower_of, lowercase, same_text};

verus! {

/// The highlighting language for a lowercased language token: each supported
/// name stands for itself, a fixed set of aliases lead to one of them, and
/// every other token falls back to `text`.
pub open spec fn language_name(t: Seq<char>) -> Seq<char> {
    if t == "actionscript3"@ || t == "as3"@ || t == "actionscript"@ {
        "actionscript3"@
    } else if t == "applescript"@ || t == "osascript"@ {
        "applescript"@
    } else if t == "bash"@ || t == "console"@ || t == "shell"@ || t == "zsh"@ || t == "sh"@ {
        "bash"@
    } else if t == "c#"@ || t == "csharp"@ {
        "c#"@
    } else if t == "c++"@ || t == "cpp"@ {
        "c++"@
    } else if t == "css"@ {
        "css"@
    } else if t == "coldfusion"@ || t == "cfm"@ || t == "cfml"@ || t == "coldfusion html"@ {
        "coldfusion"@
    } else if t == "delphi"@ || t == "pascal"@ || t == "objectpascal"@ {
        "delphi"@
    } else if t == "diff"@ || t == "udiff"@ {
        "diff"@
    } else if t == "erlang"@ {
        "erlang"@
    } else if t == "groovy"@ {
        "groovy"@
    } else if t == "xml"@ || t == "html"@ {
        "xml"@
    } else if t == "java"@ {
        "java"@
    } else if t == "jfx"@ || t == "java fx"@ {
        "jfx"@
    } else if t == "javascript"@ || t == "js"@ || t == "node"@ {
        "javascript"@
    } else if t == "php"@ || t == "inc"@ {
        "php"@
    } else if t == "powershell"@ || t == "posh"@ {
        "powershell"@
    } else if t == "python"@ {
        "python"@
    } else if t == "ruby"@ || t == "jruby"@ || t == "macruby"@ || t == "rake"@ || t == "rb"@
        || t == "rbx"@ {
        "ruby"@
    } else if t == "sql"@ {
        "sql"@
    } else if t == "sass"@ || t == "scss"@ || t == "less"@ || t == "stylus"@ {
        "sass"@
    } else if t == "scala"@ {
        "scala"@
    } else if t == "vb"@ || t == "visual basic"@ || t == "vb.net"@ || t == "vbnet"@ {
        "vb"@
    } else if t == "yaml"@ {
        "yaml"@
    } else {
        "text"@
    }
}

/// Looks up a token that is already lowercased.
pub fn resolve_lowercase(t: &str) -> (r: &'static str)
    ensures
        r@ == language_name(t@),
{
    if same_text(t, "actionscript3") || same_text(t, "as3") || same_text(t, "actionscript") {
        "actionscript3"
    } else if same_text(t, "applescript") || same_text(t, "osascript") {
        "applescript"
    } else if same_text(t, "bash") || same_text(t, "console") || same_text(t, "shell")
        || same_text(t, "zsh") || same_text(t, "sh") {
        "bash"
    } else if same_text(t, "c#") || same_text(t, "csharp") {
        "c#"
    } else if same_text(t, "c++") || same_text(t, "cpp") {
        "c++"
    } else if same_text(t, "css") {
        "css"
    } else if same_text(t, "coldfusion") || same_text(t, "cfm") || same_text(t, "cfml")
        || same_text(t, "coldfusion html") {
        "coldfusion"
    } else if same_text(t, "delphi") || same_text(t, "pascal") || same_text(t, "objectpascal") {
        "delphi"
    } else if same_text(t, "diff") || same_text(t, "udiff") {
        "diff"
    } else if same_text(t, "erlang") {
        "erlang"
    } else if same_text(t, "groovy") {
        "groovy"
    } else if same_text(t, "xml") || same_text(t, "html") {
        "xml"
    } else if same_text(t, "java") {
        "java"
    } else if same_text(t, "jfx") || same_text(t, "java fx") {
        "jfx"
    } else if same_text(t, "javascript") || same_text(t, "js") || same_text(t, "node") {
        "javascript"
    } else if same_text(t, "php") || same_text(t, "inc") {
        "php"
    } else if same_text(t, "powershell") || same_text(t, "posh") {
        "powershell"
    } else if same_text(t, "python") {
        "python"
    } else if same_text(t, "ruby") || same_text(t, "jruby") || same_text(t, "macruby")
        || same_text(t, "rake") || same_text(t, "rb") || same_text(t, "rbx") {
        "ruby"
    } else if same_text(t, "sql") {
        "sql"
    } else if same_text(t, "sass") || same_text(t, "scss") || same_text(t, "less")
        || same_text(t, "stylus") {
        "sass"
    } else if same_text(t, "scala") {
        "scala"
    } else if same_text(t, "vb") || same_text(t, "visual basic") || same_text(t, "vb.net")
        || same_text(t, "vbnet") {
        "vb"
    } else if same_text(t, "yaml") {
        "yaml"
    } else {
        "text"
    }
}

/// The highlighting language for a language token, whatever its case.
pub fn resolve(token: &str) -> (r: &'static str)
    ensures
        r@ == language_name(lower_of(token@)),
{
    let lowered = lowercase(token);
    resolve_lowercase(lowered.as_str())
}

} // verus!
