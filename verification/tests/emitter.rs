use labnotes::event::{Align, CodeKind, DocEvent, Level, LinkKind, Region};
use labnotes::writer::{push_latex, LatexWriter};

const PREAMBLE: &str = "\\documentclass{article}\n\n\\usepackage[normalem]{ulem}\n\\usepackage{minted}\n\\usepackage{graphicx}\n\\usepackage{hyperref}\n\\usepackage{amsmath}\n\n\\setcounter{tocdepth}{6}\n\\setcounter{secnumdepth}{6}\n\n\\begin{document}\n";
const TRAILER: &str = "\\end{document}\n";

fn render(events: Vec<DocEvent>) -> String {
    let mut out = String::new();
    push_latex(&mut out, &events);
    out
}

/// What stands between the preamble and the trailer.
fn body(events: Vec<DocEvent>) -> String {
    let tex = render(events);
    assert!(tex.starts_with(PREAMBLE));
    assert!(tex.ends_with(TRAILER));
    tex[PREAMBLE.len()..tex.len() - TRAILER.len()].to_string()
}

fn text(s: &str) -> DocEvent {
    DocEvent::Text(s.to_string())
}

fn reference(name: &str) -> DocEvent {
    DocEvent::FootnoteReference(name.to_string())
}

#[test]
fn empty_document_is_preamble_and_trailer() {
    assert_eq!(render(vec![]), format!("{}{}", PREAMBLE, TRAILER));
}

#[test]
fn document_is_framed_whatever_the_events() {
    let tex = render(vec![
        DocEvent::End(Region::Table(vec![])),
        DocEvent::Start(Region::Image("a.png".to_string())),
        text("never closed"),
    ]);
    assert!(tex.starts_with(PREAMBLE));
    assert!(tex.ends_with(TRAILER));
}

#[test]
fn push_latex_appends() {
    let mut out = String::from("% notes\n");
    push_latex(&mut out, &[text("x")]);
    assert_eq!(out, format!("% notes\n{}x{}", PREAMBLE, TRAILER));
}

#[test]
fn writer_keeps_what_was_written_before() {
    let events = vec![text("x")];
    let tex = LatexWriter::new(&events, String::from("abc")).run();
    assert_eq!(tex, format!("abc{}x{}", PREAMBLE, TRAILER));
}

#[test]
fn heading_level_one() {
    let out = body(vec![
        DocEvent::Start(Region::Heading(Level::H1)),
        text("Hi"),
        DocEvent::End(Region::Heading(Level::H1)),
    ]);
    assert_eq!(out, "\\section*{Hi}\n");
}

#[test]
fn heading_commands_by_level() {
    let levels = [
        (Level::H1, "section*"),
        (Level::H2, "subsection*"),
        (Level::H3, "subsubsection*"),
        (Level::H4, "paragraph"),
        (Level::H5, "subparagraph"),
        (Level::H6, "subsubparagraph"),
    ];
    for (level, command) in levels {
        let out = body(vec![
            DocEvent::Start(Region::Heading(level)),
            text("T"),
            DocEvent::End(Region::Heading(level)),
        ]);
        assert_eq!(out, format!("\\{}{{T}}\n", command));
    }
}

#[test]
fn heading_in_mid_line_starts_a_new_line() {
    let out = body(vec![
        text("x"),
        DocEvent::Start(Region::Heading(Level::H2)),
        text("T"),
        DocEvent::End(Region::Heading(Level::H2)),
    ]);
    assert_eq!(out, "x\n\\subsection*{T}\n");
}

#[test]
fn ordered_list_starting_at_three() {
    let out = body(vec![
        DocEvent::Start(Region::List(Some(3))),
        DocEvent::Start(Region::Item),
        text("x"),
        DocEvent::End(Region::Item),
        DocEvent::End(Region::List(Some(3))),
    ]);
    assert_eq!(out, "\\begin{enumerate}\n\\setcounter{enumi}{3}\n\\item x\n\\end{enumerate}\n");
}

#[test]
fn ordered_list_starting_at_one_sets_no_counter() {
    let out = body(vec![
        DocEvent::Start(Region::List(Some(1))),
        DocEvent::Start(Region::Item),
        text("x"),
        DocEvent::End(Region::Item),
        DocEvent::End(Region::List(Some(1))),
    ]);
    assert_eq!(out, "\\begin{enumerate}\n\\item x\n\\end{enumerate}\n");
    assert!(!out.contains("\\setcounter"));
}

#[test]
fn ordered_list_with_a_long_start() {
    let out = body(vec![
        DocEvent::Start(Region::List(Some(18446744073709551615))),
        DocEvent::End(Region::List(Some(18446744073709551615))),
    ]);
    assert_eq!(
        out,
        "\\begin{enumerate}\n\\setcounter{enumi}{18446744073709551615}\n\\end{enumerate}\n"
    );
}

#[test]
fn ordered_list_starting_at_zero_sets_the_counter() {
    let out = body(vec![DocEvent::Start(Region::List(Some(0)))]);
    assert_eq!(out, "\\begin{enumerate}\n\\setcounter{enumi}{0}\n");
}

#[test]
fn unordered_list_in_mid_line() {
    let out = body(vec![
        text("x"),
        DocEvent::Start(Region::List(None)),
        DocEvent::Start(Region::Item),
        text("a"),
        DocEvent::End(Region::Item),
        DocEvent::Start(Region::Item),
        text("b"),
        DocEvent::End(Region::Item),
        DocEvent::End(Region::List(None)),
    ]);
    assert_eq!(out, "x\n\\begin{itemize}\n\\item a\n\\item b\n\\end{itemize}\n");
}

#[test]
fn footnote_references_share_numbers_by_name() {
    let out = body(vec![reference("a"), reference("a"), reference("b"), reference("a")]);
    assert_eq!(
        out,
        "\\footnotemark[1]\\footnotemark[1]\\footnotemark[2]\\footnotemark[1]"
    );
}

#[test]
fn footnote_numbers_follow_first_appearance() {
    let mut events = Vec::new();
    for name in ["k", "j", "i", "h", "g", "f", "e", "d", "c", "b", "a", "k", "a"] {
        events.push(reference(name));
    }
    let out = body(events);
    let mut expected = String::new();
    for number in [1, 2, 3, 4, 5, 6, 7, 8, 9, 10, 11, 1, 11] {
        expected.push_str(&format!("\\footnotemark[{}]", number));
    }
    assert_eq!(out, expected);
}

#[test]
fn footnote_definition_and_reference_share_a_number() {
    let out = body(vec![
        reference("x"),
        DocEvent::Start(Region::FootnoteDefinition("note".to_string())),
        text("body"),
        DocEvent::End(Region::FootnoteDefinition("note".to_string())),
        reference("note"),
        DocEvent::Start(Region::FootnoteDefinition("x".to_string())),
        DocEvent::End(Region::FootnoteDefinition("x".to_string())),
    ]);
    assert_eq!(
        out,
        "\\footnotemark[1]\n\\footnotetext[2]{body}\n\\footnotemark[2]\n\\footnotetext[1]{}\n"
    );
}

#[test]
fn rule_after_text_starts_a_new_line() {
    let out = body(vec![text("x"), DocEvent::Rule]);
    assert_eq!(out, "x\n\\hline\n");
}

#[test]
fn rule_at_line_start() {
    let out = body(vec![text("x\n"), DocEvent::Rule]);
    assert_eq!(out, "x\n\\hline\n");
    assert_eq!(body(vec![DocEvent::Rule]), "\\hline\n");
    assert_eq!(body(vec![DocEvent::SoftBreak, DocEvent::Rule]), "\n\\hline\n");
}

#[test]
fn empty_text_leaves_the_line_open() {
    let out = body(vec![text(""), DocEvent::Rule]);
    assert_eq!(out, "\n\\hline\n");
}

#[test]
fn empty_inline_html_keeps_the_line_as_it_is() {
    let empty = || DocEvent::InlineHtml(String::new());
    assert_eq!(body(vec![empty(), DocEvent::Rule]), "\\hline\n");
    assert_eq!(body(vec![text("x\n"), empty(), DocEvent::Rule]), "x\n\\hline\n");
    assert_eq!(body(vec![text("x"), empty(), DocEvent::Rule]), "x\n\\hline\n");
    assert_eq!(
        body(vec![DocEvent::InlineHtml("<b>".to_string()), DocEvent::Rule]),
        "<b>\n\\hline\n"
    );
    assert_eq!(
        body(vec![DocEvent::InlineHtml("<b>\n".to_string()), DocEvent::Rule]),
        "<b>\n\\hline\n"
    );
}

#[test]
fn empty_code_and_math_leave_the_line_open() {
    assert_eq!(
        body(vec![DocEvent::Code(String::new()), DocEvent::Rule]),
        "\\mintinline{text}{}\n\\hline\n"
    );
    assert_eq!(body(vec![DocEvent::InlineMath(String::new()), DocEvent::Rule]), "$$\n\\hline\n");
}

#[test]
fn events_after_an_image_are_written() {
    let image = || DocEvent::Start(Region::Image("f.png".to_string()));
    let close = || DocEvent::End(Region::Image("f.png".to_string()));
    let out = body(vec![
        image(),
        DocEvent::Start(Region::Strong),
        image(),
        close(),
        DocEvent::End(Region::Strong),
        close(),
        text("a"),
        close(),
        text("b"),
    ]);
    assert_eq!(out, "\\includegraphics{f.png}\nab");
}

#[test]
fn paragraphs_are_separated_by_one_blank_line() {
    let out = body(vec![
        DocEvent::Start(Region::Paragraph),
        text("one"),
        DocEvent::End(Region::Paragraph),
        DocEvent::Start(Region::Paragraph),
        text("two\n"),
        DocEvent::End(Region::Paragraph),
        DocEvent::Start(Region::Paragraph),
        text("three"),
        DocEvent::End(Region::Paragraph),
    ]);
    assert_eq!(out, "\none\n\ntwo\n\nthree");
}

#[test]
fn inline_events() {
    let out = body(vec![
        DocEvent::Code("x + y".to_string()),
        DocEvent::InlineMath("a^2".to_string()),
        DocEvent::DisplayMath("b = c".to_string()),
        DocEvent::Html("<hr>".to_string()),
        DocEvent::InlineHtml("<b>".to_string()),
        DocEvent::HardBreak,
        DocEvent::SoftBreak,
    ]);
    assert_eq!(
        out,
        "\\mintinline{text}{x + y}$a^2$\\begin{align*}b = c\\end{align*}\\begin{verbatim}<hr>\\end{verbatim}<b>\\\\\n\n"
    );
}

#[test]
fn code_in_dollars_is_code() {
    let out = body(vec![DocEvent::Code("$x$".to_string())]);
    assert_eq!(out, "\\mintinline{text}{$x$}");
}

#[test]
fn task_list_markers() {
    assert_eq!(
        body(vec![DocEvent::TaskListMarker(true)]),
        "\\makebox[0pt][l]{$\\square$}\\raisebox{.15ex}{\\hspace{0.1em}$\\checkmark$}\\n"
    );
    assert_eq!(body(vec![DocEvent::TaskListMarker(false)]), "\\makebox[0pt][l]{$\\square$}\\n");
    assert_eq!(
        body(vec![DocEvent::TaskListMarker(false), DocEvent::Rule]),
        "\\makebox[0pt][l]{$\\square$}\\n\n\\hline\n"
    );
}

#[test]
fn spans() {
    let out = body(vec![
        DocEvent::Start(Region::Emphasis),
        text("e"),
        DocEvent::End(Region::Emphasis),
        DocEvent::Start(Region::Strong),
        text("s"),
        DocEvent::End(Region::Strong),
        DocEvent::Start(Region::Strikethrough),
        text("d"),
        DocEvent::End(Region::Strikethrough),
    ]);
    assert_eq!(out, "{\\em e}{\\bf s}\\sout{d}");
}

#[test]
fn block_quote() {
    let out = body(vec![
        text("x"),
        DocEvent::Start(Region::BlockQuote),
        text("q\n"),
        DocEvent::End(Region::BlockQuote),
    ]);
    assert_eq!(out, "x\n\\begin{quotation}\nq\n\\end{quotation}\n");
}

#[test]
fn table_rows_and_cells() {
    let cell = |s: &str| {
        vec![DocEvent::Start(Region::TableCell), text(s), DocEvent::End(Region::TableCell)]
    };
    let columns = vec![Align::Unset, Align::Left, Align::Center, Align::Right];
    let mut events = vec![text("x"), DocEvent::Start(Region::Table(columns.clone()))];
    events.push(DocEvent::Start(Region::TableHead));
    for s in ["a", "b", "c", "d"] {
        events.extend(cell(s));
    }
    events.push(DocEvent::End(Region::TableHead));
    for row in [["1", "2", "3", "4"], ["5", "6", "7", "8"]] {
        events.push(DocEvent::Start(Region::TableRow));
        for s in row {
            events.extend(cell(s));
        }
        events.push(DocEvent::End(Region::TableRow));
    }
    events.push(DocEvent::End(Region::Table(columns)));
    let out = body(events);
    assert_eq!(
        out,
        "x\n\\begin{center}\n\\begin{tabular}{llcr}\na & b & c & d\\\\\n\\hline\n1 & 2 & 3 & 4\\\\\n5 & 6 & 7 & 8\\\\\n\\end{tabular}\n\\end{center}\n"
    );
    for line in out.lines().filter(|line| line.ends_with("\\\\")) {
        assert_eq!(line.matches(" & ").count(), 3);
        assert_eq!(line.matches("\\\\").count(), 1);
    }
}

#[test]
fn table_with_one_column() {
    let out = body(vec![
        DocEvent::Start(Region::Table(vec![Align::Center])),
        DocEvent::Start(Region::TableRow),
        DocEvent::Start(Region::TableCell),
        text("a"),
        DocEvent::End(Region::TableCell),
        DocEvent::End(Region::TableRow),
        DocEvent::End(Region::Table(vec![Align::Center])),
    ]);
    assert_eq!(out, "\\begin{center}\n\\begin{tabular}{c}\na\\\\\n\\end{tabular}\n\\end{center}\n");
}

#[test]
fn code_blocks() {
    let fenced = |info: &str| {
        body(vec![
            DocEvent::Start(Region::CodeBlock(CodeKind::Fenced(info.to_string()))),
            text("code\n"),
            DocEvent::End(Region::CodeBlock(CodeKind::Fenced(info.to_string()))),
        ])
    };
    assert_eq!(fenced(""), "\\begin{minted}{text}\ncode\n\\end{minted}\n");
    assert_eq!(fenced("rust"), "\\begin{minted}{rust}\ncode\n\\end{minted}\n");
    assert_eq!(fenced("rust ignore"), "\\begin{minted}{rust}\ncode\n\\end{minted}\n");
    assert_eq!(fenced(" rust"), "\\begin{minted}{rust}\ncode\n\\end{minted}\n");
    assert_eq!(fenced("a\tb c"), "\\begin{minted}{a}\ncode\n\\end{minted}\n");
    assert_eq!(fenced("\n\t py\u{2003}x"), "\\begin{minted}{py}\ncode\n\\end{minted}\n");
    assert_eq!(fenced("py\u{a0}"), "\\begin{minted}{py}\ncode\n\\end{minted}\n");
    assert_eq!(fenced(" \t\u{3000} "), "\\begin{minted}{text}\ncode\n\\end{minted}\n");
    assert_eq!(fenced("c\u{200b}d e"), "\\begin{minted}{c\u{200b}d}\ncode\n\\end{minted}\n");
    assert_eq!(fenced("math"), "\\begin{minted}{math}\ncode\n\\end{minted}\n");
    let indented = body(vec![
        text("x"),
        DocEvent::Start(Region::CodeBlock(CodeKind::Indented)),
        text("code\n"),
        DocEvent::End(Region::CodeBlock(CodeKind::Indented)),
    ]);
    assert_eq!(indented, "x\n\\begin{minted}{text}\ncode\n\\end{minted}\n");
}

#[test]
fn code_block_language_is_escaped() {
    let out = body(vec![DocEvent::Start(Region::CodeBlock(CodeKind::Fenced(
        "a<b>&\"c d".to_string(),
    )))]);
    assert_eq!(out, "\\begin{minted}{a&lt;b&gt;&amp;&quot;c}\n");
}

#[test]
fn links() {
    let link = |kind: LinkKind, dest: &str| {
        body(vec![
            DocEvent::Start(Region::Link(kind, dest.to_string())),
            text("t"),
            DocEvent::End(Region::Link(kind, dest.to_string())),
        ])
    };
    assert_eq!(link(LinkKind::Inline, "http://a.b/c"), "\\href{http://a.b/c}{t}");
    assert_eq!(link(LinkKind::Email, "me@a.b"), "\\href{mailto:me@a.b}{t}");
    assert_eq!(link(LinkKind::Autolink, "http://a.b/c d"), "\\href{http://a.b/c%20d}{t}");
    assert_eq!(link(LinkKind::Reference, "a&b'c"), "\\href{a&amp;b&#x27;c}{t}");
    assert_eq!(link(LinkKind::Shortcut, "\u{e9}"), "\\href{%C3%A9}{t}");
}

#[test]
fn image_drops_its_alternative_text() {
    let out = body(vec![
        text("x"),
        DocEvent::Start(Region::Image("fig.png".to_string())),
        text("alt"),
        DocEvent::Start(Region::Emphasis),
        text("more"),
        DocEvent::End(Region::Emphasis),
        DocEvent::Rule,
        DocEvent::End(Region::Image("fig.png".to_string())),
        text("y"),
    ]);
    assert_eq!(out, "x\\includegraphics{fig.png}\ny");
}

#[test]
fn image_destination_is_escaped() {
    let out = body(vec![
        DocEvent::Start(Region::Image("my fig.png".to_string())),
        DocEvent::End(Region::Image("my fig.png".to_string())),
    ]);
    assert_eq!(out, "\\includegraphics{my%20fig.png}\n");
}

#[test]
fn footnote_reference_inside_an_image_takes_a_number() {
    let out = body(vec![
        DocEvent::Start(Region::Image("fig.png".to_string())),
        reference("hidden"),
        DocEvent::End(Region::Image("fig.png".to_string())),
        reference("shown"),
        reference("hidden"),
    ]);
    assert_eq!(out, "\\includegraphics{fig.png}\n\\footnotemark[2]\\footnotemark[1]");
}

#[test]
fn footnote_definition_inside_an_image_takes_no_number() {
    let out = body(vec![
        DocEvent::Start(Region::Image("fig.png".to_string())),
        DocEvent::Start(Region::FootnoteDefinition("hidden".to_string())),
        DocEvent::End(Region::FootnoteDefinition("hidden".to_string())),
        DocEvent::End(Region::Image("fig.png".to_string())),
        reference("shown"),
    ]);
    assert_eq!(out, "\\includegraphics{fig.png}\n\\footnotemark[1]");
}

#[test]
fn image_that_is_never_closed_takes_the_rest() {
    let out = body(vec![
        DocEvent::Start(Region::Image("fig.png".to_string())),
        DocEvent::Start(Region::Emphasis),
        DocEvent::End(Region::Emphasis),
        text("alt"),
    ]);
    assert_eq!(out, "\\includegraphics{fig.png}\n");
}

#[test]
fn end_of_image_outside_of_one_writes_nothing() {
    let out = body(vec![text("x"), DocEvent::End(Region::Image("fig.png".to_string())), DocEvent::Rule]);
    assert_eq!(out, "x\n\\hline\n");
}

#[test]
fn html_and_metadata_blocks() {
    let out = body(vec![
        text("x"),
        DocEvent::Start(Region::HtmlBlock),
        text("<p>\n"),
        DocEvent::End(Region::HtmlBlock),
        DocEvent::Start(Region::MetadataBlock),
        text("title: t\n"),
        DocEvent::End(Region::MetadataBlock),
    ]);
    assert_eq!(
        out,
        "x\n\\begin{verbatim}\n<p>\n\\end{verbatim}\n\\begin{comment}\ntitle: t\n\\end{comment}\n"
    );
}
