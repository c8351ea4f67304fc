//! Annotation mapping, styled rendering and the plain-text decorator.

use strss::digits::{dec_string, int_string};
use strss::html::{
    render_article, to_span, to_spans, Annotation, Color, PlainDecorator, Run, Style, StyledSpan,
};

fn style() -> Style {
    Style {
        underline: false,
        italic: false,
        bold: false,
        strikethrough: false,
        dim: false,
        fg: None,
        bg: None,
    }
}

fn run(text: &str, tag: Vec<Annotation>) -> Run {
    Run { text: String::from(text), tag }
}

#[test]
fn single_annotations_follow_the_table() {
    let cases: Vec<(Annotation, Style)> = vec![
        (Annotation::Default, style()),
        (
            Annotation::Link(String::from("http://x")),
            Style { underline: true, ..style() },
        ),
        (
            Annotation::Image(String::from("pic.png")),
            Style { fg: Some(Color::Blue), ..style() },
        ),
        (Annotation::Emphasis, Style { italic: true, ..style() }),
        (Annotation::Strong, Style { bold: true, ..style() }),
        (Annotation::Strikeout, Style { strikethrough: true, ..style() }),
        (
            Annotation::Code,
            Style { dim: true, bg: Some(Color::Black), ..style() },
        ),
        (
            Annotation::Preformat(false),
            Style { fg: Some(Color::Magenta), ..style() },
        ),
        (
            Annotation::Preformat(true),
            Style { fg: Some(Color::LightMagenta), ..style() },
        ),
    ];
    for (ann, expected) in cases {
        let got = to_span(&run("x", vec![ann.clone()]));
        assert_eq!(got.style, expected, "for {:?}", ann);
        assert_eq!(got.text, "x");
    }
}

#[test]
fn no_annotations_map_to_no_attributes() {
    let got = to_span(&run("plain", vec![]));
    assert_eq!(got.style, style());
    assert_eq!(got.text, "plain");
}

#[test]
fn strong_and_emphasis_combine_to_bold_italic() {
    let got = to_span(&run("x", vec![Annotation::Strong, Annotation::Emphasis]));
    assert_eq!(got.style, Style { bold: true, italic: true, ..style() });
}

#[test]
fn combination_is_order_independent() {
    let a = to_span(&run("x", vec![Annotation::Code, Annotation::Emphasis]));
    let b = to_span(&run("x", vec![Annotation::Emphasis, Annotation::Code]));
    assert_eq!(a.style, b.style);
    assert_eq!(
        a.style,
        Style { italic: true, dim: true, bg: Some(Color::Black), ..style() }
    );
}

#[test]
fn foreground_precedence_is_fixed() {
    let image = Annotation::Image(String::from("p"));
    let first = Annotation::Preformat(false);
    let cont = Annotation::Preformat(true);
    // Preformatted beats image, whichever way round the tags come.
    let s1 = to_span(&run("x", vec![image.clone(), first.clone()]));
    let s2 = to_span(&run("x", vec![first.clone(), image.clone()]));
    assert_eq!(s1.style.fg, Some(Color::Magenta));
    assert_eq!(s2.style.fg, Some(Color::Magenta));
    // A continuation line beats a first line.
    let s3 = to_span(&run("x", vec![first, cont]));
    assert_eq!(s3.style.fg, Some(Color::LightMagenta));
}

#[test]
fn lines_render_with_explicit_breaks() {
    let lines = vec![
        vec![run("plain ", vec![]), run("loud", vec![Annotation::Strong])],
        vec![],
    ];
    let rendered = to_spans(&lines);
    assert_eq!(rendered.len(), 2);
    assert_eq!(
        rendered[0],
        vec![
            StyledSpan { text: String::from("plain "), style: style() },
            StyledSpan { text: String::from("loud"), style: Style { bold: true, ..style() } },
            StyledSpan { text: String::from("\n"), style: style() },
        ]
    );
    assert_eq!(
        rendered[1],
        vec![StyledSpan { text: String::from("\n"), style: style() }]
    );
}

#[test]
fn empty_document_renders_to_no_lines() {
    let rendered = to_spans(&Vec::new());
    assert_eq!(rendered.len(), 0);
}

#[test]
fn article_markup_reaches_the_styles() {
    let rendered = render_article(b"<p>hello <strong>loud</strong></p>");
    let spans: Vec<&StyledSpan> = rendered.iter().flatten().collect();
    assert!(
        spans.iter().any(|s| s.text.contains("hello") && !s.style.bold),
        "plain text missing in {:?}",
        spans
    );
    assert!(
        spans.iter().any(|s| s.text.contains("loud") && s.style.bold),
        "bold text missing in {:?}",
        spans
    );
}

#[test]
fn article_links_are_underlined() {
    let rendered = render_article(b"<p><a href=\"http://x.example\">click</a></p>");
    let spans: Vec<&StyledSpan> = rendered.iter().flatten().collect();
    assert!(
        spans
            .iter()
            .any(|s| s.text.contains("click") && s.style.underline),
        "underlined link text missing in {:?}",
        spans
    );
}

#[test]
fn decorator_numbers_links_in_order() {
    let mut d = PlainDecorator::new();
    assert_eq!(d.decorate_link_start("http://a.example"), "[");
    assert_eq!(d.decorate_link_end(), "][1]");
    assert_eq!(d.decorate_link_start("http://b.example"), "[");
    assert_eq!(d.decorate_link_end(), "][2]");
    let footnotes = d.finalise();
    assert_eq!(
        footnotes,
        vec![
            String::from("[1]: http://a.example"),
            String::from("[2]: http://b.example"),
        ]
    );
}

#[test]
fn decorator_markers_are_literal() {
    let mut d = PlainDecorator::new();
    assert_eq!(d.decorate_em_start(), "*");
    assert_eq!(d.decorate_em_end(), "*");
    assert_eq!(d.decorate_strong_start(), "**");
    assert_eq!(d.decorate_strong_end(), "**");
    assert_eq!(d.decorate_strikeout_start(), "");
    assert_eq!(d.decorate_strikeout_end(), "");
    assert_eq!(d.decorate_code_start(), "`");
    assert_eq!(d.decorate_code_end(), "`");
    assert_eq!(d.decorate_image("a pic"), "[a pic]");
    assert_eq!(d.quote_prefix(), "> ");
    assert_eq!(d.unordered_item_prefix(), "* ");
    assert_eq!(d.ordered_item_prefix(3), "3. ");
    assert_eq!(d.ordered_item_prefix(-2), "-2. ");
    assert_eq!(d.header_prefix(3), "### ");
    assert_eq!(d.header_prefix(0), " ");
}

#[test]
fn subblock_decorator_starts_fresh() {
    let mut d = PlainDecorator::new();
    d.decorate_link_start("http://a.example");
    d.decorate_link_end();
    let mut sub = d.make_subblock_decorator();
    sub.decorate_link_start("http://b.example");
    assert_eq!(sub.decorate_link_end(), "][1]");
}

#[test]
fn decimal_rendering_is_exact() {
    assert_eq!(dec_string(0), "0");
    assert_eq!(dec_string(7), "7");
    assert_eq!(dec_string(40), "40");
    assert_eq!(dec_string(12345), "12345");
    assert_eq!(dec_string(u64::MAX), "18446744073709551615");
    assert_eq!(int_string(0), "0");
    assert_eq!(int_string(-5), "-5");
    assert_eq!(int_string(i64::MIN), "-9223372036854775808");
    assert_eq!(int_string(i64::MAX), "9223372036854775807");
}
