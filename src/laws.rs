//! What holds of every rendering of a few document shapes.

use vstd::prelude::*;
use crate::atlassian::{
    cell_delimiter, heading_prefix, initial, put_all, rendered, run, step, WriterState,
};
use crate::event::{Event, Tag, TagEnd};
use crate::html::{
    edge_write, html_fragment, html_writes, is_element, summary_child_from, writes_upto, HtmlEdge,
    NodeKind,
};
use crate::text::escaped;

verus! {

/// Rendering one more event is one more step.
pub proof fn lemma_run_push(m: WriterState, es: Seq<Event>, e: Event)
    ensures
        run(m, es.push(e)) == step(run(m, es), e),
{
    assert(es.push(e).drop_last() =~= es);
}

/// Rendering the first `k + 1` events is one step after rendering the first `k`.
pub proof fn lemma_run_take(m: WriterState, es: Seq<Event>, k: int)
    requires
        0 <= k < es.len(),
    ensures
        run(m, es.take(k + 1)) == step(run(m, es.take(k)), es[k]),
{
    lemma_run_push(m, es.take(k), es[k]);
    assert(es.take(k).push(es[k]) =~= es.take(k + 1));
}

/// Rendering two sequences one after the other is rendering them joined.
pub proof fn lemma_run_append(m: WriterState, a: Seq<Event>, b: Seq<Event>)
    ensures
        run(m, a + b) == run(run(m, a), b),
    decreases b.len(),
{
    if b.len() == 0 {
        assert(a + b =~= a);
    } else {
        lemma_run_append(m, a, b.drop_last());
        assert((a + b).drop_last() =~= a + b.drop_last());
    }
}

/// A heading of level `level` that holds only the text `t` renders as
/// `h{level + shift}. ` then `t` and a line break when the shifted level is 1
/// to 6; as `t` and a line break when it is above 6; and as nothing when it
/// is 0 or below.
pub proof fn lemma_heading(level: u8, shift: i8, t: String, flavor: char)
    requires
        1 <= level <= 6,
    ensures
        ({
            let l = level as int + shift as int;
            let es = seq![Event::Start(Tag::Heading(level)), Event::Text(t), Event::End(TagEnd::Heading)];
            rendered(es, shift, flavor) == if 1 <= l <= 6 {
                heading_prefix(l) + t@ + "\n"@
            } else if l > 6 {
                t@ + "\n"@
            } else {
                Seq::<char>::empty()
            }
        }),
{
    let m0 = initial(shift, flavor);
    let e0 = Event::Start(Tag::Heading(level));
    let e1 = Event::Text(t);
    let e2 = Event::End(TagEnd::Heading);
    lemma_run_push(m0, seq![], e0);
    lemma_run_push(m0, seq![e0], e1);
    lemma_run_push(m0, seq![e0, e1], e2);
    assert(seq![e0] =~= seq![].push(e0));
    assert(seq![e0, e1] =~= seq![e0].push(e1));
    assert(seq![e0, e1, e2] =~= seq![e0, e1].push(e2));
    let l = level as int + shift as int;
    if 1 <= l <= 6 {
        assert(rendered(seq![e0, e1, e2], shift, flavor) =~= heading_prefix(l) + t@ + "\n"@);
    } else if l > 6 {
        assert(rendered(seq![e0, e1, e2], shift, flavor) =~= t@ + "\n"@);
    } else {
        assert(rendered(seq![e0, e1, e2], shift, flavor) =~= Seq::<char>::empty());
    }
}

/// Inline code renders as `{{`, the escaped code, `}}`; text right after it is
/// kept apart from the braces by one space, which is not doubled when the text
/// already starts with one.
pub proof fn lemma_inline_code_spacing(code: String, t: String, shift: i8, flavor: char)
    ensures
        rendered(seq![Event::Code(code), Event::Text(t)], shift, flavor) == "{{"@ + escaped(code@)
            + "}}"@ + if t@.len() > 0 && t@[0] == ' ' {
            t@
        } else {
            " "@ + t@
        },
{
    let m0 = initial(shift, flavor);
    let e0 = Event::Code(code);
    let e1 = Event::Text(t);
    lemma_run_push(m0, seq![], e0);
    lemma_run_push(m0, seq![e0], e1);
    assert(seq![e0] =~= seq![].push(e0));
    assert(seq![e0, e1] =~= seq![e0].push(e1));
    if t@.len() > 0 && t@[0] == ' ' {
        assert(rendered(seq![e0, e1], shift, flavor) =~= "{{"@ + escaped(code@) + "}}"@ + t@);
    } else {
        assert(rendered(seq![e0, e1], shift, flavor) =~= "{{"@ + escaped(code@) + "}}"@ + (" "@
            + t@));
    }
}

/// The marker of a list: `#` for an ordered one, `*` for an unordered one.
pub open spec fn list_marker(ordered: bool) -> char {
    if ordered {
        '#'
    } else {
        '*'
    }
}

/// An unordered list whose item holds the text `a` and then a nested list whose
/// item holds the text `b`.
pub open spec fn nested_list(a: String, b: String, ordered: bool) -> Seq<Event> {
    seq![
        Event::Start(Tag::List(false)),
        Event::Start(Tag::Item),
        Event::Text(a),
        Event::Start(Tag::List(ordered)),
        Event::Start(Tag::Item),
        Event::Text(b),
        Event::End(TagEnd::Item),
        Event::End(TagEnd::List),
        Event::End(TagEnd::Item),
        Event::End(TagEnd::List),
    ]
}

/// In a list nested in an unordered list, items are prefixed by the markers of
/// both lists, outer first: `**` when the inner list is unordered, `*#` when it
/// is ordered.
pub proof fn lemma_nested_list(a: String, b: String, ordered: bool, shift: i8, flavor: char)
    ensures
        rendered(nested_list(a, b, ordered), shift, flavor) == "\n* "@ + a@ + "\n"@ + seq![
            '*',
            list_marker(ordered),
            ' ',
        ] + b@ + "\n"@,
{
    let m0 = initial(shift, flavor);
    let es = nested_list(a, b, ordered);
    reveal_strlit("\n* ");
    reveal_strlit("\n");
    assert(es.take(0) =~= Seq::<Event>::empty());
    lemma_run_take(m0, es, 0);
    let s = run(m0, es.take(1));
    assert(s.out =~= "\n"@ && s.bullets =~= seq!['*'] && s.output_on && !s.inline_code);
    assert(s.end_newline);
    lemma_run_take(m0, es, 1);
    let s = run(m0, es.take(2));
    assert(s.out =~= "\n* "@ && s.bullets =~= seq!['*'] && s.output_on && !s.inline_code);
    assert(!s.end_newline);
    lemma_run_take(m0, es, 2);
    let s = run(m0, es.take(3));
    assert(s.out =~= "\n* "@ + a@ && s.bullets =~= seq!['*'] && s.output_on && !s.inline_code);
    lemma_run_take(m0, es, 3);
    let s = run(m0, es.take(4));
    assert(s.out =~= "\n* "@ + a@ + "\n"@ && s.bullets =~= seq!['*', list_marker(ordered)] && s.output_on && !s.inline_code);
    assert(s.end_newline);
    lemma_run_take(m0, es, 4);
    let s = run(m0, es.take(5));
    assert(s.out =~= "\n* "@ + a@ + "\n"@ + seq!['*', list_marker(ordered), ' '] && s.bullets =~= seq!['*', list_marker(ordered)] && s.output_on && !s.inline_code);
    lemma_run_take(m0, es, 5);
    let s = run(m0, es.take(6));
    assert(s.out =~= "\n* "@ + a@ + "\n"@ + seq!['*', list_marker(ordered), ' '] + b@ && s.bullets =~= seq!['*', list_marker(ordered)] && s.output_on && !s.inline_code);
    lemma_run_take(m0, es, 6);
    let s = run(m0, es.take(7));
    assert(s.out =~= "\n* "@ + a@ + "\n"@ + seq!['*', list_marker(ordered), ' '] + b@ && s.bullets =~= seq!['*', list_marker(ordered)] && s.output_on && !s.inline_code);
    lemma_run_take(m0, es, 7);
    let s = run(m0, es.take(8));
    assert(s.out =~= "\n* "@ + a@ + "\n"@ + seq!['*', list_marker(ordered), ' '] + b@ && s.bullets =~= seq!['*'] && s.output_on && !s.inline_code);
    lemma_run_take(m0, es, 8);
    let s = run(m0, es.take(9));
    assert(s.out =~= "\n* "@ + a@ + "\n"@ + seq!['*', list_marker(ordered), ' '] + b@ && s.bullets =~= seq!['*'] && s.output_on && !s.inline_code);
    lemma_run_take(m0, es, 9);
    let s = run(m0, es.take(10));
    assert(s.out =~= "\n* "@ + a@ + "\n"@ + seq!['*', list_marker(ordered), ' '] + b@ + "\n"@ && s.bullets =~= Seq::<char>::empty() && s.output_on && !s.inline_code);
    assert(es.take(10) =~= es);
}

/// The markers of the lists that `es` leaves open, outermost first.
pub open spec fn open_lists(es: Seq<Event>) -> Seq<char>
    decreases es.len(),
{
    if es.len() == 0 {
        Seq::empty()
    } else {
        let b = open_lists(es.drop_last());
        match es.last() {
            Event::Start(Tag::List(ordered)) => b.push(list_marker(ordered)),
            Event::End(TagEnd::List) => if b.len() > 0 {
                b.drop_last()
            } else {
                b
            },
            _ => b,
        }
    }
}

/// The renderer's list markers are those of the lists still open.
pub proof fn lemma_bullets_are_open_lists(es: Seq<Event>, shift: i8, flavor: char)
    ensures
        run(initial(shift, flavor), es).bullets == open_lists(es),
    decreases es.len(),
{
    if es.len() > 0 {
        lemma_bullets_are_open_lists(es.drop_last(), shift, flavor);
        let m = run(initial(shift, flavor), es.drop_last());
        match es.last() {
            Event::Html(chunk) => {
                match html_fragment(m.html + chunk@) {
                    Some(edges) => lemma_put_all_keeps_state(
                        WriterState { html: Seq::empty(), ..m },
                        html_writes(edges),
                    ),
                    None => {},
                }
            },
            _ => {},
        }
    }
}

/// A list item, wherever it comes, starts on a line of its own and is
/// prefixed by the markers of all the lists open around it, outermost first,
/// then a space: `** ` in an unordered list nested in an unordered one, `*# `
/// for an ordered one nested in an unordered one.
pub proof fn lemma_item_prefix(es: Seq<Event>, shift: i8, flavor: char)
    requires
        run(initial(shift, flavor), es).output_on,
    ensures
        ({
            let m = run(initial(shift, flavor), es);
            rendered(es.push(Event::Start(Tag::Item)), shift, flavor) == m.out + (if m.end_newline {
                Seq::<char>::empty()
            } else {
                "\n"@
            }) + open_lists(es).push(' ')
        }),
{
    let m = run(initial(shift, flavor), es);
    lemma_run_push(initial(shift, flavor), es, Event::Start(Tag::Item));
    lemma_bullets_are_open_lists(es, shift, flavor);
    if m.end_newline {
        assert(rendered(es.push(Event::Start(Tag::Item)), shift, flavor) =~= m.out
            + Seq::<char>::empty() + open_lists(es).push(' '));
    } else {
        assert(rendered(es.push(Event::Start(Tag::Item)), shift, flavor) =~= m.out + "\n"@
            + open_lists(es).push(' '));
    }
}

/// The delimiters of a table, event by event, while output is on: the head
/// opens with a line break and `||`, a row opens and each cell closes with
/// `||` in the header and `|` elsewhere, and the head ends its line.
pub proof fn lemma_table_delimiters(m: WriterState)
    requires
        m.output_on,
    ensures
        step(m, Event::Start(Tag::TableHead)).out == m.out + "\n||"@,
        step(m, Event::Start(Tag::TableHead)).table_header,
        step(m, Event::Start(Tag::TableRow)).out == m.out + cell_delimiter(m.table_header),
        step(m, Event::Start(Tag::TableCell)) == m,
        step(m, Event::End(TagEnd::TableCell)).out == m.out + cell_delimiter(m.table_header),
        step(m, Event::End(TagEnd::TableRow)).out == m.out + "\n"@,
        step(m, Event::End(TagEnd::TableHead)).out == m.out + "\n"@,
        !step(m, Event::End(TagEnd::TableHead)).table_header,
{
}

/// A run of table cells, each holding one text.
pub open spec fn cells(ts: Seq<String>) -> Seq<Event>
    decreases ts.len(),
{
    if ts.len() == 0 {
        Seq::empty()
    } else {
        cells(ts.drop_last()) + seq![
            Event::Start(Tag::TableCell),
            Event::Text(ts.last()),
            Event::End(TagEnd::TableCell),
        ]
    }
}

/// Each text followed by the delimiter `d`.
pub open spec fn delimited(ts: Seq<String>, d: Seq<char>) -> Seq<char>
    decreases ts.len(),
{
    if ts.len() == 0 {
        Seq::empty()
    } else {
        delimited(ts.drop_last(), d) + ts.last()@ + d
    }
}

/// A table with a header row of cells `head` and one data row of cells `row`.
pub open spec fn table(head: Seq<String>, row: Seq<String>) -> Seq<Event> {
    seq![Event::Start(Tag::Other), Event::Start(Tag::TableHead)] + cells(head) + seq![
        Event::End(TagEnd::TableHead),
        Event::Start(Tag::TableRow),
    ] + cells(row) + seq![Event::End(TagEnd::TableRow), Event::End(TagEnd::Other)]
}

proof fn lemma_cells(m: WriterState, ts: Seq<String>)
    requires
        m.output_on,
        !m.inline_code,
    ensures
        run(m, cells(ts)).out == m.out + delimited(ts, cell_delimiter(m.table_header)),
        run(m, cells(ts)) == (WriterState { out: run(m, cells(ts)).out, end_newline: run(m, cells(ts)).end_newline, ..m }),
    decreases ts.len(),
{
    if ts.len() == 0 {
        assert(m.out + delimited(ts, cell_delimiter(m.table_header)) =~= m.out);
    } else {
        let front = cells(ts.drop_last());
        let e0 = Event::Start(Tag::TableCell);
        let e1 = Event::Text(ts.last());
        let e2 = Event::End(TagEnd::TableCell);
        lemma_cells(m, ts.drop_last());
        lemma_run_append(m, front, seq![e0, e1, e2]);
        let m1 = run(m, front);
        lemma_run_push(m1, seq![], e0);
        lemma_run_push(m1, seq![e0], e1);
        lemma_run_push(m1, seq![e0, e1], e2);
        assert(seq![e0] =~= seq![].push(e0));
        assert(seq![e0, e1] =~= seq![e0].push(e1));
        assert(seq![e0, e1, e2] =~= seq![e0, e1].push(e2));
        assert(run(m, cells(ts)).out =~= m.out + delimited(ts, cell_delimiter(m.table_header)));
    }
}

/// A table with a header row and a data row of as many cells: the header
/// cells are delimited by `||` on both sides, the data cells by `|`.
pub proof fn lemma_table(head: Seq<String>, row: Seq<String>, shift: i8, flavor: char)
    requires
        head.len() == row.len(),
    ensures
        rendered(table(head, row), shift, flavor) == "\n||"@ + delimited(head, "||"@) + "\n"@
            + "|"@ + delimited(row, "|"@) + "\n"@,
{
    let m0 = initial(shift, flavor);
    let a = seq![Event::Start(Tag::Other), Event::Start(Tag::TableHead)];
    let b = seq![Event::End(TagEnd::TableHead), Event::Start(Tag::TableRow)];
    let c = seq![Event::End(TagEnd::TableRow), Event::End(TagEnd::Other)];
    lemma_run_append(m0, a + cells(head) + b + cells(row), c);
    lemma_run_append(m0, a + cells(head) + b, cells(row));
    lemma_run_append(m0, a + cells(head), b);
    lemma_run_append(m0, a, cells(head));
    lemma_run_push(m0, seq![], a[0]);
    lemma_run_push(m0, seq![a[0]], a[1]);
    assert(seq![a[0]] =~= seq![].push(a[0]));
    assert(a =~= seq![a[0]].push(a[1]));
    let m1 = run(m0, a);
    lemma_cells(m1, head);
    let m2 = run(m1, cells(head));
    lemma_run_push(m2, seq![], b[0]);
    lemma_run_push(m2, seq![b[0]], b[1]);
    assert(seq![b[0]] =~= seq![].push(b[0]));
    assert(b =~= seq![b[0]].push(b[1]));
    let m3 = run(m2, b);
    lemma_cells(m3, row);
    let m4 = run(m3, cells(row));
    lemma_run_push(m4, seq![], c[0]);
    lemma_run_push(m4, seq![c[0]], c[1]);
    assert(seq![c[0]] =~= seq![].push(c[0]));
    assert(c =~= seq![c[0]].push(c[1]));
    reveal_strlit("\n||");
    reveal_strlit("\n");
    reveal_strlit("||");
    reveal_strlit("|");
    assert(rendered(table(head, row), shift, flavor) =~= "\n||"@ + delimited(head, "||"@) + "\n"@
        + "|"@ + delimited(row, "|"@) + "\n"@);
}

/// A series of writes changes only the output and the newline tracking.
pub proof fn lemma_put_all_keeps_state(m: WriterState, ws: Seq<Seq<char>>)
    ensures
        put_all(m, ws) == (WriterState {
            out: put_all(m, ws).out,
            end_newline: put_all(m, ws).end_newline,
            ..m
        }),
    decreases ws.len(),
{
    if ws.len() > 0 {
        lemma_put_all_keeps_state(m, ws.drop_last());
    }
}

/// After any events, every open list's marker is `#` or `*`, and the raw HTML
/// still pending is empty or does not parse as a balanced fragment yet.
pub proof fn lemma_state_invariants(es: Seq<Event>, shift: i8, flavor: char)
    ensures
        ({
            let m = run(initial(shift, flavor), es);
            &&& forall|i: int| 0 <= i < m.bullets.len() ==> #[trigger] m.bullets[i] == '#' || m.bullets[i] == '*'
            &&& m.html.len() == 0 || html_fragment(m.html) is None
        }),
    decreases es.len(),
{
    if es.len() > 0 {
        lemma_state_invariants(es.drop_last(), shift, flavor);
        let m = run(initial(shift, flavor), es.drop_last());
        let m1 = step(m, es.last());
        match es.last() {
            Event::Html(chunk) => {
                let pending = m.html + chunk@;
                match html_fragment(pending) {
                    Some(edges) => lemma_put_all_keeps_state(
                        WriterState { html: Seq::empty(), ..m },
                        crate::html::html_writes(edges),
                    ),
                    None => {},
                }
            },
            _ => {},
        }
        assert forall|i: int| 0 <= i < m1.bullets.len() implies #[trigger] m1.bullets[i] == '#' || m1.bullets[i] == '*' by {
            if i < m.bullets.len() {
                assert(m.bullets[i] == '#' || m.bullets[i] == '*');
            }
        }
    }
}

/// The walk over an element `n` whose children's walk is `c`.
pub open spec fn wrapped(n: NodeKind, c: Seq<HtmlEdge>) -> Seq<HtmlEdge> {
    seq![HtmlEdge::Open(n)] + c + seq![HtmlEdge::Close(n)]
}

proof fn lemma_wrapped_scan(n: NodeKind, c: Seq<HtmlEdge>, k: int, depth: nat)
    requires
        0 <= k <= c.len(),
    ensures
        summary_child_from(wrapped(n, c), k + 1, depth) == summary_child_from(c, k, depth),
    decreases c.len() - k,
{
    let e = wrapped(n, c);
    assert(e.len() == c.len() + 2);
    if k < c.len() {
        assert(e[k + 1] == c[k]);
        match c[k] {
            HtmlEdge::Open(_) => lemma_wrapped_scan(n, c, k + 1, depth + 1),
            HtmlEdge::Close(_) => if depth > 0 {
                lemma_wrapped_scan(n, c, k + 1, (depth - 1) as nat);
            },
        }
    } else {
        assert(e[k + 1] == HtmlEdge::Close(n));
        if depth > 0 {
            assert(!summary_child_from(e, k + 2, (depth - 1) as nat));
        }
    }
}

proof fn lemma_wrapped_writes_upto(n: NodeKind, c: Seq<HtmlEdge>, k: int)
    requires
        0 <= k <= c.len(),
    ensures
        writes_upto(wrapped(n, c), k + 1) == writes_upto(wrapped(n, c), 1) + writes_upto(c, k),
    decreases k,
{
    let e = wrapped(n, c);
    if k == 0 {
        assert(writes_upto(e, 1) + writes_upto(c, 0) =~= writes_upto(e, 1));
    } else {
        lemma_wrapped_writes_upto(n, c, k - 1);
        assert(e[k] == c[k - 1]);
        lemma_wrapped_scan(n, c, k, 0);
        assert(edge_write(e, k) == edge_write(c, k - 1));
        assert(writes_upto(e, k + 1) =~= writes_upto(e, 1) + writes_upto(c, k));
    }
}

/// An element writes what its opening writes, then what its children write,
/// then what its closing writes; the children write the same as they would
/// on their own.
pub proof fn lemma_element_writes(n: NodeKind, c: Seq<HtmlEdge>)
    ensures
        html_writes(wrapped(n, c)) == writes_upto(wrapped(n, c), 1) + html_writes(c)
            + match edge_write(wrapped(n, c), c.len() as int + 1) {
            Some(w) => seq![w],
            None => Seq::empty(),
        },
{
    let e = wrapped(n, c);
    lemma_wrapped_writes_upto(n, c, c.len() as int);
    assert(e.len() == c.len() + 2);
}

/// A `details` element without a `summary` child writes `{expand}`, a line
/// break, what its children write, and `{expand}` between line breaks.
pub proof fn lemma_details_without_summary(n: NodeKind, c: Seq<HtmlEdge>)
    requires
        is_element(n, "details"@),
        !summary_child_from(c, 0, 0),
    ensures
        html_writes(wrapped(n, c)) == seq!["{expand}\n"@] + html_writes(c) + seq!["\n{expand}\n"@],
{
    let e = wrapped(n, c);
    lemma_element_writes(n, c);
    lemma_wrapped_scan(n, c, 0, 0);
    assert(e[0] == HtmlEdge::Open(n));
    assert(e[c.len() as int + 1] == HtmlEdge::Close(n));
    assert(writes_upto(e, 0) =~= Seq::<Seq<char>>::empty());
    assert(edge_write(e, 0) == Some("{expand}\n"@));
    assert(writes_upto(e, 1) =~= seq!["{expand}\n"@]);
}

/// A `details` element with a `summary` child writes `{expand` alone, leaving
/// the summary to write the title and close the macro, then what its children
/// write, and `{expand}` between line breaks.
pub proof fn lemma_details_with_summary(n: NodeKind, c: Seq<HtmlEdge>)
    requires
        is_element(n, "details"@),
        summary_child_from(c, 0, 0),
    ensures
        html_writes(wrapped(n, c)) == seq!["{expand"@] + html_writes(c) + seq!["\n{expand}\n"@],
{
    let e = wrapped(n, c);
    lemma_element_writes(n, c);
    lemma_wrapped_scan(n, c, 0, 0);
    assert(e[0] == HtmlEdge::Open(n));
    assert(e[c.len() as int + 1] == HtmlEdge::Close(n));
    assert(writes_upto(e, 0) =~= Seq::<Seq<char>>::empty());
    assert(edge_write(e, 0) == Some("{expand"@));
    assert(writes_upto(e, 1) =~= seq!["{expand"@]);
}

/// A `summary` element writes `|title=`, what its children write, then the
/// brace that closes the macro and a line break.
pub proof fn lemma_summary(n: NodeKind, c: Seq<HtmlEdge>)
    requires
        is_element(n, "summary"@),
    ensures
        html_writes(wrapped(n, c)) == seq!["|title="@] + html_writes(c) + seq!["}\n"@],
{
    let e = wrapped(n, c);
    lemma_element_writes(n, c);
    assert(e[0] == HtmlEdge::Open(n));
    assert(e[c.len() as int + 1] == HtmlEdge::Close(n));
    reveal_strlit("details");
    reveal_strlit("summary");
    assert("summary"@[0] != "details"@[0]);
    assert(!is_element(n, "details"@));
    assert(writes_upto(e, 0) =~= Seq::<Seq<char>>::empty());
    assert(edge_write(e, 0) == Some("|title="@));
    assert(edge_write(e, c.len() as int + 1) == Some("}\n"@));
    assert(writes_upto(e, 1) =~= seq!["|title="@]);
}

/// A `details` element whose children start with a `summary` element: the
/// summary's walk opens the children's walk, so the opening `{expand` is
/// followed by the title.
pub proof fn lemma_details_summary_first(d: NodeKind, s: NodeKind, c: Seq<HtmlEdge>)
    requires
        is_element(d, "details"@),
        is_element(s, "summary"@),
        c.len() > 0,
        c[0] == HtmlEdge::Open(s),
    ensures
        summary_child_from(c, 0, 0),
        html_writes(wrapped(d, c)) == seq!["{expand"@] + html_writes(c) + seq!["\n{expand}\n"@],
{
    lemma_details_with_summary(d, c);
}

/// The same events with the same heading shift and flavor always render to the
/// same markup: the rendering is a function of them alone.
pub proof fn lemma_deterministic(a: Seq<Event>, b: Seq<Event>, shift: i8, flavor: char)
    requires
        a == b,
    ensures
        rendered(a, shift, flavor) == rendered(b, shift, flavor),
{
}

} // verus!
