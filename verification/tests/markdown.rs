use labnotes::decimal::push_decimal;
use labnotes::event::{CodeKind, DocEvent, Level, LinkKind, Region};
use labnotes::footnote::number_for;
use labnotes::markdown::Markdown;
use labnotes::math::{formula_event, KatexMiddleware};
use labnotes::reference::{reference_link, resolve_reference};

const PREAMBLE: &str = "\\documentclass{article}\n\n\\usepackage[normalem]{ulem}\n\\usepackage{minted}\n\\usepackage{graphicx}\n\\usepackage{hyperref}\n\\usepackage{amsmath}\n\n\\setcounter{tocdepth}{6}\n\\setcounter{secnumdepth}{6}\n\n\\begin{document}\n";
const TRAILER: &str = "\\end{document}\n";

fn tex_body(markdown: &str) -> String {
    let tex = Markdown(markdown.to_string()).render_tex();
    assert!(tex.starts_with(PREAMBLE));
    assert!(tex.ends_with(TRAILER));
    tex[PREAMBLE.len()..tex.len() - TRAILER.len()].to_string()
}

fn html(event: &DocEvent) -> &str {
    match event {
        DocEvent::Html(html) => html,
        other => panic!("not an HTML event: {:?}", other),
    }
}

#[test]
fn decimal_notation() {
    for n in [0u64, 1, 9, 10, 11, 99, 100, 101, 1234567890, u64::MAX] {
        let mut out = String::from("n=");
        push_decimal(&mut out, n);
        assert_eq!(out, format!("n={}", n));
    }
}

#[test]
fn numbers_of_names() {
    let mut names = Vec::new();
    assert_eq!(number_for(&mut names, &"a".to_string()), 1);
    assert_eq!(number_for(&mut names, &"b".to_string()), 2);
    assert_eq!(number_for(&mut names, &"a".to_string()), 1);
    assert_eq!(number_for(&mut names, &"".to_string()), 3);
    assert_eq!(number_for(&mut names, &"b".to_string()), 2);
    assert_eq!(names, vec!["a".to_string(), "b".to_string(), "".to_string()]);
}

#[test]
fn render_empty_text() {
    assert_eq!(Markdown(String::new()).render_tex(), format!("{}{}", PREAMBLE, TRAILER));
}

#[test]
fn render_heading_and_paragraph() {
    assert_eq!(tex_body("# Title\n\nSome *text*.\n"), "\\section*{Title}\n\nSome {\\em text}.");
}

#[test]
fn render_ordered_list() {
    assert_eq!(
        tex_body("3. x\n4. y\n"),
        "\\begin{enumerate}\n\\setcounter{enumi}{3}\n\\item x\n\\item y\n\\end{enumerate}\n"
    );
}

#[test]
fn render_table() {
    assert_eq!(
        tex_body("| a | b |\n|:-:|--:|\n| 1 | 2 |\n"),
        "\\begin{center}\n\\begin{tabular}{cr}\na & b\\\\\n\\hline\n1 & 2\\\\\n\\end{tabular}\n\\end{center}\n"
    );
}

#[test]
fn render_fenced_code() {
    assert_eq!(
        tex_body("```rust ignore\nlet x = 1;\n```\n"),
        "\\begin{minted}{rust}\nlet x = 1;\n\\end{minted}\n"
    );
}

#[test]
fn render_strikethrough_and_task_list() {
    assert_eq!(tex_body("~~gone~~"), "\n\\sout{gone}");
    assert_eq!(
        tex_body("- [x] done\n"),
        "\\begin{itemize}\n\\item \\makebox[0pt][l]{$\\square$}\\raisebox{.15ex}{\\hspace{0.1em}$\\checkmark$}\\ndone\n\\end{itemize}\n"
    );
}

#[test]
fn render_footnotes() {
    assert_eq!(
        tex_body("a[^x] b[^y] c[^x]\n\n[^y]: why\n\n[^x]: ex\n"),
        "\na\\footnotemark[1] b\\footnotemark[2] c\\footnotemark[1]\n\\footnotetext[2]{\n\nwhy}\n\\footnotetext[1]{\n\nex}\n"
    );
}

#[test]
fn render_image() {
    assert_eq!(tex_body("![alt *text*](fig 1.png)"), "\n![alt {\\em text}](fig 1.png)");
    assert_eq!(tex_body("![alt *text*](fig.png)"), "\n\\includegraphics{fig.png}\n");
}

#[test]
fn render_email_autolink() {
    assert_eq!(tex_body("<me@example.org>"), "\n\\href{mailto:me@example.org}{me@example.org}");
}

#[test]
fn render_reference_to_a_paper() {
    assert_eq!(
        tex_body("see [arXiv:1234.56789]"),
        "\nsee \\href{https://arxiv.org/abs/1234.56789}{arXiv:1234.56789}"
    );
    assert_eq!(tex_body("see [nothing]"), "\nsee [nothing]");
}

#[test]
fn link_from_what_the_patterns_found() {
    let some = |s: &str| Some(s.to_string());
    assert_eq!(
        reference_link(some("1234.5678"), None, None),
        Some(("https://arxiv.org/abs/1234.5678".to_string(), "arXiv:1234.5678".to_string()))
    );
    assert_eq!(
        reference_link(None, some("hep-th/9901001"), None),
        Some(("https://arxiv.org/abs/hep-th/9901001".to_string(), "hep-th/9901001".to_string()))
    );
    assert_eq!(
        reference_link(None, None, some("10.1000/182")),
        Some(("https://dx.doi.org/10.1000/182".to_string(), "doi:10.1000/182".to_string()))
    );
    assert_eq!(
        reference_link(some("a"), some("b"), some("c")),
        Some(("https://arxiv.org/abs/a".to_string(), "arXiv:a".to_string()))
    );
    assert_eq!(
        reference_link(None, some("b"), some("c")),
        Some(("https://arxiv.org/abs/b".to_string(), "b".to_string()))
    );
    assert_eq!(reference_link(None, None, None), None);
}

#[test]
fn references_to_papers() {
    let link = |url: &str, label: &str| Some((url.to_string(), label.to_string()));
    assert_eq!(
        resolve_reference("arXiv:2001.01234v3"),
        link("https://arxiv.org/abs/2001.01234v3", "arXiv:2001.01234v3")
    );
    assert_eq!(
        resolve_reference("arxiv:2001.0123"),
        link("https://arxiv.org/abs/2001.0123", "arXiv:2001.0123")
    );
    assert_eq!(
        resolve_reference("hep-th/9901001"),
        link("https://arxiv.org/abs/hep-th/9901001", "hep-th/9901001")
    );
    assert_eq!(
        resolve_reference("arXiv:math.AG/0601001v2"),
        link("https://arxiv.org/abs/math.AG/0601001v2", "math.AG/0601001v2")
    );
    assert_eq!(
        resolve_reference("doi:10.1103/PhysRevLett.116.061102"),
        link(
            "https://dx.doi.org/10.1103/PhysRevLett.116.061102",
            "doi:10.1103/PhysRevLett.116.061102"
        )
    );
    assert_eq!(
        resolve_reference("10.1000/182"),
        link("https://dx.doi.org/10.1000/182", "doi:10.1000/182")
    );
    for other in ["", "arXiv:123.4567", "2001.01234", "see arXiv:2001.01234", "doi:11.1/x", "a b"] {
        assert_eq!(resolve_reference(other), None, "{:?}", other);
    }
}

#[test]
fn formula_that_was_typeset() {
    let event = formula_event(Ok("<span>x</span>".to_string()), false);
    assert_eq!(html(&event), "<span>x</span>");
    let event = formula_event(Ok(String::new()), true);
    assert_eq!(html(&event), "");
}

#[test]
fn formula_that_failed_shows_a_marker() {
    let event = formula_event(Err("ParseError: oops".to_string()), true);
    assert_eq!(html(&event), "<div class=\"todo\">ParseError: oops</div>");
    let event = formula_event(Err("ParseError: oops".to_string()), false);
    assert_eq!(html(&event), "<span class=\"todo\">ParseError: oops</span>");
}

#[test]
fn middleware_keeps_what_is_no_formula() {
    let mut middleware = KatexMiddleware::new();
    let kept = vec![
        DocEvent::Start(Region::Heading(Level::H1)),
        DocEvent::Text("plain".to_string()),
        DocEvent::Code("x".to_string()),
        DocEvent::Code("$".to_string()),
        DocEvent::Code("$x".to_string()),
        DocEvent::Code("x$".to_string()),
        DocEvent::Code(String::new()),
        DocEvent::Start(Region::CodeBlock(CodeKind::Fenced("rust".to_string()))),
        DocEvent::Text("let x = 1;".to_string()),
        DocEvent::End(Region::CodeBlock(CodeKind::Fenced("rust".to_string()))),
        DocEvent::Start(Region::CodeBlock(CodeKind::Fenced("math 2".to_string()))),
        DocEvent::Start(Region::CodeBlock(CodeKind::Indented)),
        DocEvent::Start(Region::Link(LinkKind::Inline, "a".to_string())),
        DocEvent::InlineMath("x".to_string()),
        DocEvent::Rule,
    ];
    for event in kept {
        let shown = format!("{:?}", event);
        let mapped = middleware.map(event).unwrap();
        assert_eq!(format!("{:?}", mapped), shown);
    }
}

#[test]
fn middleware_drops_the_fences_of_math_blocks() {
    let mut middleware = KatexMiddleware::new();
    let open = || DocEvent::Start(Region::CodeBlock(CodeKind::Fenced("math".to_string())));
    let close = || DocEvent::End(Region::CodeBlock(CodeKind::Fenced("math".to_string())));
    assert!(middleware.map(close()).is_none());
    assert!(matches!(middleware.map(DocEvent::Text("x".to_string())), Some(DocEvent::Text(_))));
    assert!(middleware.map(open()).is_none());
    assert!(matches!(middleware.map(DocEvent::Text("x".to_string())), Some(DocEvent::Html(_))));
    assert!(middleware.map(close()).is_none());
    assert!(matches!(middleware.map(DocEvent::Text("x".to_string())), Some(DocEvent::Text(_))));
}

#[test]
fn middleware_typesets_code_between_dollars() {
    let mut middleware = KatexMiddleware::new();
    for code in ["$x^2$", "$$"] {
        let mapped = middleware.map(DocEvent::Code(code.to_string()));
        assert!(matches!(mapped, Some(DocEvent::Html(_))), "{:?}", code);
    }
}

#[test]
fn formulas_are_typeset_or_marked() {
    let mut middleware = KatexMiddleware::new();
    let open = DocEvent::Start(Region::CodeBlock(CodeKind::Fenced("math".to_string())));
    assert!(middleware.map(open).is_none());
    let display = middleware.map(DocEvent::Text("E = mc^2".to_string())).unwrap();
    let display = html(&display);
    assert!(display.contains("katex-display") || display.starts_with("<div class=\"todo\">"));
    let inline = middleware.map(DocEvent::Code("$a$".to_string())).unwrap();
    let inline = html(&inline);
    assert!(!inline.contains("katex-display"));
    assert!(inline.contains("katex") || inline.starts_with("<span class=\"todo\">"));
}
