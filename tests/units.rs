use markrust::atlassian::{self, AtlassianWriter};
use markrust::event::{Event, Tag, TagEnd};
use markrust::html::{translate, HtmlEdge, NodeKind};
use markrust::language::{resolve, resolve_lowercase};
use markrust::text::{escape, same_text};

fn el(name: &str) -> NodeKind {
    NodeKind::Element(name.to_string())
}

fn txt(t: &str) -> NodeKind {
    NodeKind::Text(t.to_string())
}

fn heading(level: u8, text: &str) -> Vec<Event> {
    vec![
        Event::Start(Tag::Heading(level)),
        Event::Text(text.to_string()),
        Event::End(TagEnd::Heading),
    ]
}

fn code_block(lang: Option<&str>, body: &str) -> Vec<Event> {
    vec![
        Event::Start(Tag::CodeBlock(lang.map(|l| l.to_string()))),
        Event::Text(body.to_string()),
        Event::End(TagEnd::CodeBlock),
    ]
}

#[test]
fn escape_braces_and_asterisk() {
    assert_eq!("&#123;a&#125;\\*b", escape("{a}*b"));
}

#[test]
fn escape_only_leading_hyphen() {
    assert_eq!("\\-x-y", escape("-x-y"));
    assert_eq!("x-y", escape("x-y"));
}

#[test]
fn escape_empty_and_plain() {
    assert_eq!("", escape(""));
    assert_eq!("plain text", escape("plain text"));
    assert_eq!("\\-", escape("-"));
}

#[test]
fn resolve_aliases() {
    assert_eq!("bash", resolve("console"));
    assert_eq!("bash", resolve("zsh"));
    assert_eq!("javascript", resolve("node"));
    assert_eq!("c++", resolve("cpp"));
    assert_eq!("c#", resolve("csharp"));
    assert_eq!("xml", resolve("html"));
    assert_eq!("vb", resolve("visual basic"));
    assert_eq!("yaml", resolve("yaml"));
}

#[test]
fn resolve_unknown_is_text() {
    assert_eq!("text", resolve("foo"));
    assert_eq!("text", resolve(""));
}

#[test]
fn resolve_lowercases_first() {
    assert_eq!("bash", resolve("CONSOLE"));
    assert_eq!("python", resolve("Python"));
    assert_eq!("text", resolve_lowercase("Python"));
    assert_eq!("python", resolve_lowercase("python"));
}

#[test]
fn same_text_compares_characters() {
    assert!(same_text("abc", "abc"));
    assert!(!same_text("abc", "abd"));
    assert!(!same_text("abc", "ab"));
    assert!(same_text("", ""));
}

#[test]
fn code_fence_flavors() {
    assert_eq!("\n{code:bash}\nx\n{code}\n", atlassian::write(&code_block(Some("console"), "x\n"), 0, 'j'));
    assert_eq!("\n{code:text}\nx\n{code}\n", atlassian::write(&code_block(Some("foo"), "x\n"), 0, 'j'));
    assert_eq!(
        "\n{code:language=bash}\nx\n{code}\n",
        atlassian::write(&code_block(Some("console"), "x\n"), 0, 'c')
    );
    assert_eq!(
        "\n{code:language=text}\nx\n{code}\n",
        atlassian::write(&code_block(Some("foo"), "x\n"), 0, 'c')
    );
}

#[test]
fn code_without_language() {
    assert_eq!("\n{code}\nx\n{code}\n", atlassian::write(&code_block(None, "x\n"), 0, 'j'));
    assert_eq!("\n{code}\nx\n{code}\n", atlassian::write(&code_block(Some(""), "x\n"), 0, 'c'));
}

#[test]
fn code_body_is_not_escaped() {
    assert_eq!("\n{code}\n{*}\n{code}\n", atlassian::write(&code_block(None, "{*}\n"), 0, 'j'));
}

#[test]
fn heading_levels_and_shifts() {
    for level in 1u8..=6 {
        for shift in -7i8..=7 {
            let shifted = level as i16 + shift as i16;
            let expected = if shifted >= 1 && shifted <= 6 {
                format!("h{}. text\n", shifted)
            } else if shifted > 6 {
                "text\n".to_string()
            } else {
                String::new()
            };
            assert_eq!(expected, atlassian::write(&heading(level, "text"), shift, 'j'));
        }
    }
}

#[test]
fn heading_after_block_gets_blank_line() {
    let mut es = vec![
        Event::Start(Tag::Paragraph),
        Event::Text("p".to_string()),
        Event::End(TagEnd::Paragraph),
    ];
    es.extend(heading(2, "t"));
    assert_eq!("\np\n\nh2. t\n", atlassian::write(&es, 0, 'j'));
}

#[test]
fn dropped_heading_leaves_state_consistent() {
    let mut es = heading(1, "gone");
    es.push(Event::Start(Tag::List(false)));
    es.push(Event::Start(Tag::Item));
    es.push(Event::Text("kept".to_string()));
    es.push(Event::End(TagEnd::Item));
    es.push(Event::End(TagEnd::List));
    assert_eq!("\n* kept\n", atlassian::write(&es, -1, 'j'));
}

#[test]
fn inline_code_spacing() {
    let es = vec![Event::Code("inline".to_string()), Event::Text("s".to_string())];
    assert_eq!("{{inline}} s", atlassian::write(&es, 0, 'j'));
    let es = vec![Event::Code("inline".to_string()), Event::Text(" s".to_string())];
    assert_eq!("{{inline}} s", atlassian::write(&es, 0, 'j'));
}

#[test]
fn inline_code_space_flag_clears_on_text() {
    let es = vec![
        Event::Code("a".to_string()),
        Event::Text(" b ".to_string()),
        Event::Start(Tag::Emphasis),
        Event::Text("c".to_string()),
        Event::End(TagEnd::Emphasis),
    ];
    assert_eq!("{{a}} b _c_", atlassian::write(&es, 0, 'j'));
}

#[test]
fn task_marker_and_breaks() {
    let es = vec![
        Event::TaskListMarker(true),
        Event::Text("done".to_string()),
        Event::SoftBreak,
        Event::Text("a".to_string()),
        Event::HardBreak,
        Event::Rule,
    ];
    assert_eq!("\n[] done a\n\n----\n", atlassian::write(&es, 0, 'j'));
}

#[test]
fn other_events_are_dropped() {
    let es = vec![
        Event::Other,
        Event::Start(Tag::Other),
        Event::Text("x".to_string()),
        Event::End(TagEnd::Other),
    ];
    assert_eq!("x", atlassian::write(&es, 0, 'j'));
}

#[test]
fn toc_is_constant() {
    assert_eq!("{toc}\n\n", atlassian::write_toc());
    let _ = atlassian::write(&heading(1, "x"), 0, 'j');
    assert_eq!("{toc}\n\n", atlassian::write_toc());
}

#[test]
fn rendering_is_deterministic() {
    let es = vec![
        Event::Start(Tag::Link("https://example.com".to_string())),
        Event::Text("link".to_string()),
        Event::End(TagEnd::Link),
        Event::Html("<details>Content</details>".to_string()),
    ];
    let first = atlassian::write(&es, 0, 'c');
    let second = atlassian::write(&es, 0, 'c');
    assert_eq!(first, second);
    assert_eq!("[link|https://example.com]{expand}\nContent\n{expand}\n", first);
}

#[test]
fn html_chunks_are_buffered_until_balanced() {
    let es = vec![
        Event::Html("<details>\n".to_string()),
        Event::Html("Content\n".to_string()),
        Event::Html("</details>".to_string()),
    ];
    assert_eq!("{expand}\nContent\n\n{expand}\n", atlassian::write(&es, 0, 'c'));
}

#[test]
fn unbalanced_html_is_dropped() {
    let es = vec![Event::Html("<details>".to_string()), Event::Text("after".to_string())];
    assert_eq!("after", atlassian::write(&es, 0, 'c'));
}

#[test]
fn translate_details_without_summary() {
    let edges = vec![
        HtmlEdge::Open(NodeKind::Other),
        HtmlEdge::Open(el("details")),
        HtmlEdge::Open(txt("Content")),
        HtmlEdge::Close(txt("Content")),
        HtmlEdge::Close(el("details")),
        HtmlEdge::Close(NodeKind::Other),
    ];
    assert_eq!(vec!["{expand}\n", "Content", "\n{expand}\n"], translate(&edges));
}

#[test]
fn translate_details_with_summary() {
    let edges = vec![
        HtmlEdge::Open(el("details")),
        HtmlEdge::Open(el("summary")),
        HtmlEdge::Open(txt("Sum*")),
        HtmlEdge::Close(txt("Sum*")),
        HtmlEdge::Close(el("summary")),
        HtmlEdge::Open(txt("\n  -Content")),
        HtmlEdge::Close(txt("\n  -Content")),
        HtmlEdge::Close(el("details")),
    ];
    assert_eq!(
        vec!["{expand", "|title=", "Sum\\*", "}\n", "\\-Content", "\n{expand}\n"],
        translate(&edges)
    );
}

#[test]
fn translate_nested_summary_is_not_a_title() {
    let edges = vec![
        HtmlEdge::Open(el("details")),
        HtmlEdge::Open(el("div")),
        HtmlEdge::Open(el("summary")),
        HtmlEdge::Close(el("summary")),
        HtmlEdge::Close(el("div")),
        HtmlEdge::Close(el("details")),
    ];
    assert_eq!(vec!["{expand}\n", "|title=", "}\n", "\n{expand}\n"], translate(&edges));
}

#[test]
fn streaming_matches_whole_rendering() {
    let es = vec![
        Event::Start(Tag::BlockQuote),
        Event::Start(Tag::Paragraph),
        Event::Text("q".to_string()),
        Event::End(TagEnd::Paragraph),
        Event::End(TagEnd::BlockQuote),
        Event::Start(Tag::Image("i.png".to_string())),
        Event::Text("t".to_string()),
        Event::End(TagEnd::Image),
    ];
    let mut w = AtlassianWriter::new(0, 'j');
    let mut streamed = String::new();
    for e in &es {
        w.step(e);
        streamed.push_str(&w.take_output());
    }
    assert_eq!(atlassian::write(&es, 0, 'j'), streamed);
    assert_eq!("\n{quote}\nq\n{quote}\n!i.png|title=\"t\",alt=\"\"!", streamed);
}

#[test]
fn translate_strips_mixed_leading_blanks() {
    let edges = vec![
        HtmlEdge::Open(el("div")),
        HtmlEdge::Open(txt("\n \n-{x}")),
        HtmlEdge::Close(txt("\n \n-{x}")),
        HtmlEdge::Close(el("div")),
    ];
    assert_eq!(vec!["\\-&#123;x&#125;"], translate(&edges));
}

#[test]
fn html_text_strips_mixed_leading_blanks() {
    let es = vec![Event::Html("<div>\n \n-{x}</div>".to_string())];
    assert_eq!("\\-&#123;x&#125;", atlassian::write(&es, 0, 'c'));
}
