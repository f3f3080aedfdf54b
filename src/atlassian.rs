//! The renderer: a single-pass state machine from Markdown events to
//! Atlassian wiki markup.

use vstd::prelude::*;
use vstd::string::*;
use crate::event::{Event, Tag, TagEnd};
use crate::html::{html_fragment, html_writes, parse_fragment, translate};
use crate::language::{language_name, resolve};
use crate::text::{escape, escaped, lower_of, push_char};

verus! {

/// The renderer's state, as the contracts speak of it.
pub struct WriterState {
    /// Everything written so far.
    pub out: Seq<char>,
    /// Whether the last write ended in a newline.
    pub end_newline: bool,
    /// Whether the current table row is the header row.
    pub table_header: bool,
    /// One marker per open list, outermost first: `#` ordered, `*` unordered.
    pub bullets: Seq<char>,
    /// Whether inline code has just closed.
    pub inline_code: bool,
    /// Added to every heading's level.
    pub shift: i8,
    /// False inside a heading that is dropped: writes then change nothing.
    pub output_on: bool,
    /// `j` for Jira, `c` for Confluence.
    pub flavor: char,
    /// Raw HTML that does not parse as a balanced fragment yet.
    pub html: Seq<char>,
    /// The destination of the link that is open.
    pub dest: Seq<char>,
}

/// Whether `s` ends in a line break.
pub open spec fn ends_with_newline(s: Seq<char>) -> bool {
    s.len() > 0 && s.last() == '\n'
}

/// One write: appended to the output unless output is off; the newline
/// tracking follows it either way.
pub open spec fn put(m: WriterState, s: Seq<char>) -> WriterState {
    WriterState {
        out: if m.output_on { m.out + s } else { m.out },
        end_newline: ends_with_newline(s),
        ..m
    }
}

/// Several writes, in order.
pub open spec fn put_all(m: WriterState, ws: Seq<Seq<char>>) -> WriterState
    decreases ws.len(),
{
    if ws.len() == 0 {
        m
    } else {
        put(put_all(m, ws.drop_last()), ws.last())
    }
}

/// The prefix of a heading of level `l` (1 to 6).
pub open spec fn heading_prefix(l: int) -> Seq<char> {
    if l == 1 {
        "h1. "@
    } else if l == 2 {
        "h2. "@
    } else if l == 3 {
        "h3. "@
    } else if l == 4 {
        "h4. "@
    } else if l == 5 {
        "h5. "@
    } else {
        "h6. "@
    }
}

/// The language part of a code block's opening macro.
pub open spec fn fence_language(flavor: char, lang: Seq<char>) -> Seq<char> {
    if flavor == 'j' {
        ":"@ + lang
    } else {
        ":language="@ + lang
    }
}

/// The opening macro of a code block, with its line break.
pub open spec fn code_open(flavor: char, lang: Option<String>) -> Seq<char> {
    match lang {
        Some(l) => if l@.len() > 0 {
            "\n{code"@ + fence_language(flavor, language_name(lower_of(l@))) + "}\n"@
        } else {
            "\n{code}\n"@
        },
        None => "\n{code}\n"@,
    }
}

/// The delimiter of a table cell: doubled in the header row.
pub open spec fn cell_delimiter(header: bool) -> Seq<char> {
    if header {
        "||"@
    } else {
        "|"@
    }
}

/// The state after a container opens.
pub open spec fn start_tag(m: WriterState, tag: Tag) -> WriterState {
    match tag {
        Tag::Paragraph => put(m, "\n"@),
        Tag::Heading(level) => {
            let m1 = if m.end_newline { put(m, "\n"@) } else { m };
            let l = level as int + m.shift as int;
            if 1 <= l <= 6 {
                put(m1, heading_prefix(l))
            } else if l > 6 {
                m1
            } else {
                WriterState { output_on: false, ..m1 }
            }
        },
        Tag::BlockQuote => put(m, "\n{quote}"@),
        Tag::CodeBlock(lang) => put(m, code_open(m.flavor, lang)),
        Tag::List(ordered) => put(
            WriterState { bullets: m.bullets.push(if ordered { '#' } else { '*' }), ..m },
            "\n"@,
        ),
        Tag::Item => {
            let m1 = if !m.end_newline { put(m, "\n"@) } else { m };
            put(m1, m.bullets.push(' '))
        },
        Tag::TableHead => put(WriterState { table_header: true, ..m }, "\n||"@),
        Tag::TableRow => put(m, cell_delimiter(m.table_header)),
        Tag::Emphasis => put(m, "_"@),
        Tag::Strong => put(m, "*"@),
        Tag::Strikethrough => put(m, "-"@),
        Tag::Link(d) => put(WriterState { dest: d@, ..m }, "["@),
        // The image's alt text renders inside `title`; the `alt` attribute,
        // written when the image closes, is always empty.
        Tag::Image(d) => put(m, "!"@ + d@ + "|title=\""@),
        Tag::TableCell | Tag::Other => m,
    }
}

/// The state after a container closes.
pub open spec fn end_tag(m: WriterState, tag: TagEnd) -> WriterState {
    match tag {
        TagEnd::Paragraph => put(m, "\n"@),
        TagEnd::Heading => if !m.output_on {
            WriterState { output_on: true, ..m }
        } else {
            put(m, "\n"@)
        },
        TagEnd::BlockQuote => put(m, "{quote}\n"@),
        TagEnd::CodeBlock => put(m, "{code}\n"@),
        TagEnd::List => {
            let bullets = if m.bullets.len() > 0 { m.bullets.drop_last() } else { m.bullets };
            let m1 = WriterState { bullets, ..m };
            if bullets.len() == 0 {
                put(m1, "\n"@)
            } else {
                m1
            }
        },
        TagEnd::TableHead => put(WriterState { table_header: false, ..m }, "\n"@),
        TagEnd::TableRow => put(m, "\n"@),
        TagEnd::TableCell => put(m, cell_delimiter(m.table_header)),
        TagEnd::Emphasis => put(m, "_"@),
        TagEnd::Strong => put(m, "*"@),
        TagEnd::Strikethrough => put(m, "-"@),
        TagEnd::Link => put(m, "|"@ + m.dest + "]"@),
        // Always an empty `alt`: the alt text went into `title`.
        TagEnd::Image => put(m, "\",alt=\"\"!"@),
        TagEnd::Item | TagEnd::Other => m,
    }
}

/// Text after inline code gets a separating space unless it starts with one.
pub open spec fn text_write(inline_code: bool, t: Seq<char>) -> Seq<char> {
    if inline_code && !(t.len() > 0 && t[0] == ' ') {
        " "@ + t
    } else {
        t
    }
}

/// The state after one event.
pub open spec fn step(m: WriterState, e: Event) -> WriterState {
    match e {
        Event::Start(tag) => start_tag(m, tag),
        Event::End(tag) => end_tag(m, tag),
        Event::Text(t) => put(WriterState { inline_code: false, ..m }, text_write(m.inline_code, t@)),
        Event::Code(c) => put(WriterState { inline_code: true, ..m }, "{{"@ + escaped(c@) + "}}"@),
        Event::SoftBreak => put(m, " "@),
        Event::HardBreak => put(m, "\n"@),
        Event::Rule => put(m, "\n----\n"@),
        // Checked and unchecked tasks render alike.
        Event::TaskListMarker(_) => put(m, "\n[] "@),
        Event::Html(chunk) => {
            let pending = m.html + chunk@;
            match html_fragment(pending) {
                Some(edges) => put_all(WriterState { html: Seq::empty(), ..m }, html_writes(edges)),
                None => WriterState { html: pending, ..m },
            }
        },
        Event::Other => m,
    }
}

/// The state after a sequence of events.
pub open spec fn run(m: WriterState, es: Seq<Event>) -> WriterState
    decreases es.len(),
{
    if es.len() == 0 {
        m
    } else {
        step(run(m, es.drop_last()), es.last())
    }
}

/// The state a rendering starts from.
pub open spec fn initial(shift: i8, flavor: char) -> WriterState {
    WriterState {
        out: Seq::empty(),
        end_newline: false,
        table_header: false,
        bullets: Seq::empty(),
        inline_code: false,
        shift,
        output_on: true,
        flavor,
        html: Seq::empty(),
        dest: Seq::empty(),
    }
}

/// The markup for a whole event sequence.
pub open spec fn rendered(es: Seq<Event>, shift: i8, flavor: char) -> Seq<char> {
    run(initial(shift, flavor), es).out
}

/// The renderer's state. One instance renders one document.
pub struct AtlassianWriter {
    out: String,
    end_newline: bool,
    table_header: bool,
    bullet_stack: Vec<char>,
    inline_code: bool,
    modify_headers: i8,
    should_output_line: bool,
    flavor: char,
    cached_html_content: String,
    dest_url: String,
}

impl View for AtlassianWriter {
    type V = WriterState;

    closed spec fn view(&self) -> WriterState {
        WriterState {
            out: self.out@,
            end_newline: self.end_newline,
            table_header: self.table_header,
            bullets: self.bullet_stack@,
            inline_code: self.inline_code,
            shift: self.modify_headers,
            output_on: self.should_output_line,
            flavor: self.flavor,
            html: self.cached_html_content@,
            dest: self.dest_url@,
        }
    }
}

fn ends_in_newline(s: &str) -> (r: bool)
    ensures
        r == ends_with_newline(s@),
{
    let n = s.unicode_len();
    n > 0 && s.get_char(n - 1) == '\n'
}

fn heading_prefix_text(l: i16) -> (r: &'static str)
    requires
        1 <= l <= 6,
    ensures
        r@ == heading_prefix(l as int),
{
    if l == 1 {
        "h1. "
    } else if l == 2 {
        "h2. "
    } else if l == 3 {
        "h3. "
    } else if l == 4 {
        "h4. "
    } else if l == 5 {
        "h5. "
    } else {
        "h6. "
    }
}

impl AtlassianWriter {
    /// A renderer at the start of a document, for a heading shift and a flavor
    /// (`j` for Jira, `c` for Confluence).
    pub fn new(modify_headers: i8, flavor: char) -> (r: Self)
        requires
            flavor == 'j' || flavor == 'c',
        ensures
            r@ == initial(modify_headers, flavor),
    {
        let r = AtlassianWriter {
            out: String::new(),
            end_newline: false,
            table_header: false,
            bullet_stack: Vec::new(),
            inline_code: false,
            modify_headers,
            should_output_line: true,
            flavor,
            cached_html_content: String::new(),
            dest_url: String::new(),
        };
        assert(r@.bullets =~= Seq::<char>::empty());
        r
    }

    /// Writes `s` unless output is off, and records whether it ended in a
    /// newline.
    fn write(&mut self, s: &str)
        ensures
            final(self)@ == put(old(self)@, s@),
    {
        if self.should_output_line {
            self.out.append(s);
        }
        self.end_newline = ends_in_newline(s);
    }

    fn write_newline(&mut self)
        ensures
            final(self)@ == put(old(self)@, "\n"@),
    {
        self.write("\n");
    }

    fn write_bullets(&mut self)
        ensures
            final(self)@ == put(old(self)@, old(self)@.bullets.push(' ')),
    {
        let mut prefix = String::new();
        let mut i: usize = 0;
        while i < self.bullet_stack.len()
            invariant
                i <= self.bullet_stack@.len(),
                prefix@ == self.bullet_stack@.take(i as int),
            decreases self.bullet_stack@.len() - i,
        {
            push_char(&mut prefix, self.bullet_stack[i]);
            proof {
                assert(self.bullet_stack@.take(i + 1) =~= self.bullet_stack@.take(i as int).push(self.bullet_stack@[i as int]));
            }
            i = i + 1;
        }
        push_char(&mut prefix, ' ');
        proof {
            assert(self.bullet_stack@.take(i as int) =~= self.bullet_stack@);
        }
        self.write(prefix.as_str());
    }

    fn start_tag(&mut self, tag: &Tag)
        ensures
            final(self)@ == start_tag(old(self)@, *tag),
    {
        match tag {
            Tag::Paragraph => self.write_newline(),
            Tag::Heading(level) => {
                if self.end_newline {
                    self.write_newline();
                }
                let l: i16 = *level as i16 + self.modify_headers as i16;
                if l > 0 {
                    if l < 7 {
                        self.write(heading_prefix_text(l));
                    }
                } else {
                    self.should_output_line = false;
                }
            },
            Tag::BlockQuote => self.write("\n{quote}"),
            Tag::CodeBlock(lang) => {
                let mut s = String::from_str("\n{code");
                match lang {
                    Some(l) => {
                        if l.as_str().unicode_len() > 0 {
                            if self.flavor == 'j' {
                                s.append(":");
                            } else {
                                s.append(":language=");
                            }
                            s.append(resolve(l.as_str()));
                        }
                    },
                    None => {},
                }
                s.append("}\n");
                proof {
                    reveal_strlit("\n{code");
                    reveal_strlit("}\n");
                    reveal_strlit("\n{code}\n");
                    assert(s@ =~= code_open(self.flavor, *lang));
                }
                self.write(s.as_str());
            },
            Tag::List(ordered) => {
                if *ordered {
                    self.bullet_stack.push('#');
                } else {
                    self.bullet_stack.push('*');
                }
                self.write_newline();
            },
            Tag::Item => {
                if !self.end_newline {
                    self.write_newline();
                }
                self.write_bullets();
            },
            Tag::TableHead => {
                self.table_header = true;
                self.write("\n||");
            },
            Tag::TableRow => {
                if self.table_header {
                    self.write("||");
                } else {
                    self.write("|");
                }
            },
            Tag::Emphasis => self.write("_"),
            Tag::Strong => self.write("*"),
            Tag::Strikethrough => self.write("-"),
            Tag::Link(d) => {
                self.dest_url = d.clone();
                self.write("[");
            },
            Tag::Image(d) => {
                let mut s = String::from_str("!");
                s.append(d.as_str());
                s.append("|title=\"");
                self.write(s.as_str());
            },
            Tag::TableCell | Tag::Other => {},
        }
    }

    fn end_tag(&mut self, tag: TagEnd)
        ensures
            final(self)@ == end_tag(old(self)@, tag),
    {
        match tag {
            TagEnd::Paragraph => self.write_newline(),
            TagEnd::Heading => {
                if !self.should_output_line {
                    self.should_output_line = true;
                } else {
                    self.write_newline();
                }
            },
            TagEnd::BlockQuote => self.write("{quote}\n"),
            TagEnd::CodeBlock => self.write("{code}\n"),
            TagEnd::List => {
                self.bullet_stack.pop();
                if self.bullet_stack.len() == 0 {
                    self.write_newline();
                }
            },
            TagEnd::TableHead => {
                self.table_header = false;
                self.write_newline();
            },
            TagEnd::TableRow => self.write_newline(),
            TagEnd::TableCell => {
                if self.table_header {
                    self.write("||");
                } else {
                    self.write("|");
                }
            },
            TagEnd::Emphasis => self.write("_"),
            TagEnd::Strong => self.write("*"),
            TagEnd::Strikethrough => self.write("-"),
            TagEnd::Link => {
                let mut s = String::from_str("|");
                s.append(self.dest_url.as_str());
                s.append("]");
                self.write(s.as_str());
            },
            TagEnd::Image => self.write("\",alt=\"\"!"),
            TagEnd::Item | TagEnd::Other => {},
        }
    }

    /// Adds a chunk of raw HTML to what is pending, and translates the whole
    /// once it parses as a balanced fragment.
    fn write_html(&mut self, chunk: &String)
        ensures
            final(self)@ == step(old(self)@, Event::Html(*chunk)),
    {
        self.cached_html_content.append(chunk.as_str());
        match parse_fragment(self.cached_html_content.as_str()) {
            Some(edges) => {
                self.cached_html_content = String::new();
                let ghost base = self@;
                let writes = translate(&edges);
                let mut i: usize = 0;
                while i < writes.len()
                    invariant
                        i <= writes@.len(),
                        writes@.len() == html_writes(edges@).len(),
                        forall|j: int| 0 <= j < writes@.len() ==> #[trigger] writes@[j]@ == html_writes(edges@)[j],
                        self@ == put_all(base, html_writes(edges@).take(i as int)),
                    decreases writes@.len() - i,
                {
                    proof {
                        assert(html_writes(edges@).take(i + 1).drop_last() =~= html_writes(edges@).take(i as int));
                    }
                    self.write(writes[i].as_str());
                    i = i + 1;
                }
                proof {
                    assert(html_writes(edges@).take(i as int) =~= html_writes(edges@));
                }
            },
            None => {},
        }
    }

    /// Consumes one event.
    pub fn step(&mut self, e: &Event)
        ensures
            final(self)@ == step(old(self)@, *e),
    {
        match e {
            Event::Start(tag) => self.start_tag(tag),
            Event::End(tag) => self.end_tag(*tag),
            Event::Text(text) => {
                let mut s = String::new();
                if self.inline_code {
                    let n = text.as_str().unicode_len();
                    if !(n > 0 && text.as_str().get_char(0) == ' ') {
                        s.append(" ");
                    }
                }
                s.append(text.as_str());
                proof {
                    reveal_strlit(" ");
                    assert(s@ =~= text_write(self.inline_code, text@));
                }
                self.inline_code = false;
                self.write(s.as_str());
            },
            Event::Code(text) => {
                let mut s = String::from_str("{{");
                s.append(escape(text.as_str()).as_str());
                s.append("}}");
                self.inline_code = true;
                self.write(s.as_str());
            },
            Event::SoftBreak => self.write(" "),
            Event::HardBreak => self.write_newline(),
            Event::Rule => self.write("\n----\n"),
            Event::TaskListMarker(_) => self.write("\n[] "),
            Event::Html(chunk) => self.write_html(chunk),
            Event::Other => {},
        }
    }

    /// Hands out what was written so far and starts the output afresh.
    pub fn take_output(&mut self) -> (r: String)
        ensures
            r@ == old(self)@.out,
            final(self)@ == (WriterState { out: Seq::empty(), ..old(self)@ }),
    {
        let r = self.out.clone();
        self.out = String::new();
        r
    }
}

/// Renders a whole event sequence, for a heading shift and a flavor (`j` for
/// Jira, `c` for Confluence).
pub fn write(events: &Vec<Event>, modify_headers: i8, flavor: char) -> (r: String)
    requires
        flavor == 'j' || flavor == 'c',
    ensures
        r@ == rendered(events@, modify_headers, flavor),
{
    let mut w = AtlassianWriter::new(modify_headers, flavor);
    let mut i: usize = 0;
    while i < events.len()
        invariant
            i <= events@.len(),
            w@ == run(initial(modify_headers, flavor), events@.take(i as int)),
        decreases events@.len() - i,
    {
        proof {
            assert(events@.take(i + 1).drop_last() =~= events@.take(i as int));
        }
        w.step(&events[i]);
        i = i + 1;
    }
    proof {
        assert(events@.take(i as int) =~= events@);
    }
    w.take_output()
}

/// The table of contents macro, which goes before a document.
pub fn write_toc() -> (r: String)
    ensures
        r@ == "{toc}\n\n"@,
{
    String::from_str("{toc}\n\n")
}

} // verus!
