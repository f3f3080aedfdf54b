//! Translation of raw HTML fragments: `<details>` becomes an `{expand}` macro,
//! its `<summary>` the macro's title, and every other element is a transparent
//! container.

use vstd::prelude::*;
use vstd::string::*;
use crate::text::{escape, escaped, same_text};

verus! {

/// What a node of a parsed fragment is, as far as the translation reads it.
#[derive(Clone, Debug, PartialEq, Eq)]
pub enum NodeKind {
    /// An element, by its local name.
    Element(String),
    /// A text node.
    Text(String),
    /// The fragment root, a comment or any other kind of node.
    Other,
}

/// One step of a depth-first walk over a fragment: entering or leaving a node.
#[derive(Clone, Debug, PartialEq, Eq)]
pub enum HtmlEdge {
    Open(NodeKind),
    Close(NodeKind),
}

/// What `parse_fragment` hands back for a text: `None` where the parser
/// recorded errors, else the walk over the fragment's tree.
pub uninterp spec fn html_fragment(s: Seq<char>) -> Option<Seq<HtmlEdge>>;

/// Relies on `scraper::Html::parse_fragment`, which parses `s` alone and records
/// the parse errors it met, and on `ego_tree::NodeRef::traverse`, which yields
/// the open and close edges of the tree in document order.
#[verifier::external_body]
pub(crate) fn parse_fragment(s: &str) -> (r: Option<Vec<HtmlEdge>>)
    ensures
        match r {
            Some(v) => html_fragment(s@) == Some(v@),
            None => html_fragment(s@) is None,
        },
{
    let html = scraper::Html::parse_fragment(s);
    if !html.errors.is_empty() {
        return None;
    }
    let kind = |n: ego_tree::NodeRef<scraper::Node>| match n.value() {
        scraper::Node::Element(e) => NodeKind::Element(e.name().to_string()),
        scraper::Node::Text(t) => NodeKind::Text(t.to_string()),
        _ => NodeKind::Other,
    };
    Some(html.tree.root().traverse().map(|e| match e {
        ego_tree::iter::Edge::Open(n) => HtmlEdge::Open(kind(n)),
        ego_tree::iter::Edge::Close(n) => HtmlEdge::Close(kind(n)),
    }).collect())
}

/// Whether `k` is an element named `name`.
pub open spec fn is_element(k: NodeKind, name: Seq<char>) -> bool {
    match k {
        NodeKind::Element(n) => n@ == name,
        _ => false,
    }
}

/// Whether, among the nodes opened from position `k` on at depth `depth`
/// below the enclosing element, one at depth zero is a `summary` element
/// before that enclosing element closes.
pub open spec fn summary_child_from(e: Seq<HtmlEdge>, k: int, depth: nat) -> bool
    decreases e.len() - k,
{
    if k < 0 || k >= e.len() {
        false
    } else {
        match e[k] {
            HtmlEdge::Open(n) => if depth == 0 && is_element(n, "summary"@) {
                true
            } else {
                summary_child_from(e, k + 1, depth + 1)
            },
            HtmlEdge::Close(_) => if depth == 0 {
                false
            } else {
                summary_child_from(e, k + 1, (depth - 1) as nat)
            },
        }
    }
}

/// Whether `c` is a newline or a space.
pub open spec fn is_blank(c: char) -> bool {
    c == '\n' || c == ' '
}

/// `s` without the newlines and spaces it starts with, in whatever order they come.
pub open spec fn trim_blank(s: Seq<char>) -> Seq<char>
    decreases s.len(),
{
    if s.len() > 0 && is_blank(s[0]) {
        trim_blank(s.drop_first())
    } else {
        s
    }
}

/// The text that the translation writes for a text node.
pub open spec fn text_markup(t: Seq<char>) -> Seq<char> {
    escaped(trim_blank(t))
}

/// What the edge at position `k` writes, if anything. A `details` element
/// with a `summary` child leaves its opening macro for the summary to close.
pub open spec fn edge_write(e: Seq<HtmlEdge>, k: int) -> Option<Seq<char>> {
    match e[k] {
        HtmlEdge::Open(NodeKind::Text(t)) => Some(text_markup(t@)),
        HtmlEdge::Open(n) => if is_element(n, "details"@) {
            if summary_child_from(e, k + 1, 0) {
                Some("{expand"@)
            } else {
                Some("{expand}\n"@)
            }
        } else if is_element(n, "summary"@) {
            Some("|title="@)
        } else {
            None
        },
        HtmlEdge::Close(n) => if is_element(n, "details"@) {
            Some("\n{expand}\n"@)
        } else if is_element(n, "summary"@) {
            Some("}\n"@)
        } else {
            None
        },
    }
}

/// The writes of the first `n` edges, in order.
pub open spec fn writes_upto(e: Seq<HtmlEdge>, n: int) -> Seq<Seq<char>>
    decreases n,
{
    if n <= 0 {
        Seq::empty()
    } else {
        writes_upto(e, n - 1) + match edge_write(e, n - 1) {
            Some(w) => seq![w],
            None => Seq::empty(),
        }
    }
}

/// The writes of a whole walk, in order.
pub open spec fn html_writes(e: Seq<HtmlEdge>) -> Seq<Seq<char>> {
    writes_upto(e, e.len() as int)
}

fn is_named(k: &NodeKind, name: &str) -> (r: bool)
    ensures
        r == is_element(*k, name@),
{
    match k {
        NodeKind::Element(n) => same_text(n.as_str(), name),
        _ => false,
    }
}

fn has_summary_child(e: &Vec<HtmlEdge>, start: usize) -> (r: bool)
    requires
        start <= e.len(),
    ensures
        r == summary_child_from(e@, start as int, 0),
{
    let mut k: usize = start;
    let mut depth: usize = 0;
    while k < e.len()
        invariant
            start <= k <= e.len(),
            depth <= k,
            summary_child_from(e@, start as int, 0) == summary_child_from(e@, k as int, depth as nat),
        decreases e.len() - k,
    {
        match &e[k] {
            HtmlEdge::Open(n) => {
                if depth == 0 && is_named(n, "summary") {
                    return true;
                }
                depth = depth + 1;
            },
            HtmlEdge::Close(_) => {
                if depth == 0 {
                    return false;
                }
                depth = depth - 1;
            },
        }
        k = k + 1;
    }
    false
}

fn trim_start(s: &str) -> (r: String)
    ensures
        r@ == trim_blank(s@),
{
    let n = s.unicode_len();
    let mut i: usize = 0;
    assert(s@.subrange(0, n as int) =~= s@);
    while i < n && (s.get_char(i) == '\n' || s.get_char(i) == ' ')
        invariant
            n == s@.len(),
            i <= n,
            trim_blank(s@) == trim_blank(s@.subrange(i as int, n as int)),
        decreases n - i,
    {
        assert(s@.subrange(i as int, n as int).drop_first() =~= s@.subrange(i + 1, n as int));
        i = i + 1;
    }
    String::from_str(s.substring_char(i, n))
}

fn edge_markup(e: &Vec<HtmlEdge>, k: usize) -> (r: Option<String>)
    requires
        k < e.len(),
    ensures
        match r {
            Some(w) => edge_write(e@, k as int) == Some(w@),
            None => edge_write(e@, k as int) is None,
        },
{
    match &e[k] {
        HtmlEdge::Open(NodeKind::Text(t)) => {
            let trimmed = trim_start(t.as_str());
            Some(escape(trimmed.as_str()))
        },
        HtmlEdge::Open(n) => {
            if is_named(n, "details") {
                if has_summary_child(e, k + 1) {
                    Some(String::from_str("{expand"))
                } else {
                    Some(String::from_str("{expand}\n"))
                }
            } else if is_named(n, "summary") {
                Some(String::from_str("|title="))
            } else {
                None
            }
        },
        HtmlEdge::Close(n) => {
            if is_named(n, "details") {
                Some(String::from_str("\n{expand}\n"))
            } else if is_named(n, "summary") {
                Some(String::from_str("}\n"))
            } else {
                None
            }
        },
    }
}

/// The writes that a walk over a fragment produces, in order.
pub fn translate(e: &Vec<HtmlEdge>) -> (r: Vec<String>)
    ensures
        r@.len() == html_writes(e@).len(),
        forall|i: int| 0 <= i < r@.len() ==> #[trigger] r@[i]@ == html_writes(e@)[i],
{
    let mut out: Vec<String> = Vec::new();
    let mut k: usize = 0;
    while k < e.len()
        invariant
            k <= e.len(),
            out@.len() == writes_upto(e@, k as int).len(),
            forall|i: int| 0 <= i < out@.len() ==> #[trigger] out@[i]@ == writes_upto(e@, k as int)[i],
        decreases e.len() - k,
    {
        match edge_markup(e, k) {
            Some(w) => out.push(w),
            None => {},
        }
        k = k + 1;
    }
    out
}

} // verus!
