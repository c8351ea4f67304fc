//! Rich-text presentation: maps the semantic annotations carried by parsed
//! document text to terminal styles, and renders annotated lines as styled
//! spans. Also holds the plain-text decorator, which renders the same markup
//! as literal characters with numbered link footnotes.

use vstd::prelude::*;

use crate::digits::{dec_str, dec_string, int_str, int_string};
use html2text::render::text_renderer::RichAnnotation as Rich;

verus! {

/// One semantic markup tag attached to a run of text by the document parser.
#[derive(Debug, Clone, PartialEq, Eq)]
pub enum Annotation {
    /// Normal text.
    Default,
    /// A link, with its target.
    Link(String),
    /// An image, with its source locator (attached to the title text).
    Image(String),
    /// Emphasised text.
    Emphasis,
    /// Strong text.
    Strong,
    /// Struck-out text.
    Strikeout,
    /// Inline code.
    Code,
    /// A preformatted block line; `true` on a continuation line of an
    /// overly long source line.
    Preformat(bool),
}

/// The mathematical value of an [`Annotation`].
pub ghost enum AnnotationV {
    Default,
    Link(Seq<char>),
    Image(Seq<char>),
    Emphasis,
    Strong,
    Strikeout,
    Code,
    Preformat(bool),
}

impl View for Annotation {
    type V = AnnotationV;

    open spec fn view(&self) -> AnnotationV {
        match self {
            Annotation::Default => AnnotationV::Default,
            Annotation::Link(t) => AnnotationV::Link(t@),
            Annotation::Image(s) => AnnotationV::Image(s@),
            Annotation::Emphasis => AnnotationV::Emphasis,
            Annotation::Strong => AnnotationV::Strong,
            Annotation::Strikeout => AnnotationV::Strikeout,
            Annotation::Code => AnnotationV::Code,
            Annotation::Preformat(c) => AnnotationV::Preformat(*c),
        }
    }
}

impl DeepView for Annotation {
    type V = AnnotationV;

    open spec fn deep_view(&self) -> AnnotationV {
        self.view()
    }
}

/// A terminal foreground or background colour used by the style table.
#[derive(Debug, Clone, Copy, PartialEq, Eq)]
pub enum Color {
    Blue,
    Magenta,
    LightMagenta,
    Black,
}

/// A composable bundle of independent presentation attributes.
#[derive(Debug, Clone, Copy, PartialEq, Eq)]
pub struct Style {
    pub underline: bool,
    pub italic: bool,
    pub bold: bool,
    pub strikethrough: bool,
    pub dim: bool,
    pub fg: Option<Color>,
    pub bg: Option<Color>,
}

/// The style with no attribute set.
pub open spec fn default_style() -> Style {
    Style {
        underline: false,
        italic: false,
        bold: false,
        strikethrough: false,
        dim: false,
        fg: None,
        bg: None,
    }
}

/// One run of text tagged with a set of annotations.
#[derive(Debug, Clone, PartialEq, Eq)]
pub struct Run {
    pub text: String,
    pub tag: Vec<Annotation>,
}

/// The mathematical value of a [`Run`].
pub ghost struct RunV {
    pub text: Seq<char>,
    pub tag: Seq<AnnotationV>,
}

impl View for Run {
    type V = RunV;

    open spec fn view(&self) -> RunV {
        RunV { text: self.text@, tag: self.tag.deep_view() }
    }
}

impl DeepView for Run {
    type V = RunV;

    open spec fn deep_view(&self) -> RunV {
        self.view()
    }
}

/// One run of text with its computed presentation style.
#[derive(Debug, Clone, PartialEq, Eq)]
pub struct StyledSpan {
    pub text: String,
    pub style: Style,
}

/// The mathematical value of a [`StyledSpan`].
pub ghost struct SpanV {
    pub text: Seq<char>,
    pub style: Style,
}

impl View for StyledSpan {
    type V = SpanV;

    open spec fn view(&self) -> SpanV {
        SpanV { text: self.text@, style: self.style }
    }
}

impl DeepView for StyledSpan {
    type V = SpanV;

    open spec fn deep_view(&self) -> SpanV {
        self.view()
    }
}

/// Whether the tag set carries a link annotation.
pub open spec fn has_link(t: Seq<AnnotationV>) -> bool
    decreases t.len(),
{
    t.len() != 0 && (t.last() is Link || has_link(t.drop_last()))
}

/// Whether the tag set carries an image annotation.
pub open spec fn has_image(t: Seq<AnnotationV>) -> bool
    decreases t.len(),
{
    t.len() != 0 && (t.last() is Image || has_image(t.drop_last()))
}

/// Whether the tag set carries an emphasis annotation.
pub open spec fn has_emphasis(t: Seq<AnnotationV>) -> bool
    decreases t.len(),
{
    t.len() != 0 && (t.last() is Emphasis || has_emphasis(t.drop_last()))
}

/// Whether the tag set carries a strong annotation.
pub open spec fn has_strong(t: Seq<AnnotationV>) -> bool
    decreases t.len(),
{
    t.len() != 0 && (t.last() is Strong || has_strong(t.drop_last()))
}

/// Whether the tag set carries a strikeout annotation.
pub open spec fn has_strikeout(t: Seq<AnnotationV>) -> bool
    decreases t.len(),
{
    t.len() != 0 && (t.last() is Strikeout || has_strikeout(t.drop_last()))
}

/// Whether the tag set carries a code annotation.
pub open spec fn has_code(t: Seq<AnnotationV>) -> bool
    decreases t.len(),
{
    t.len() != 0 && (t.last() is Code || has_code(t.drop_last()))
}

/// Whether the tag set marks the first line of a preformatted block.
pub open spec fn has_pre_first(t: Seq<AnnotationV>) -> bool
    decreases t.len(),
{
    t.len() != 0 && (t.last() == AnnotationV::Preformat(false) || has_pre_first(t.drop_last()))
}

/// Whether the tag set marks a continuation line of a preformatted block.
pub open spec fn has_pre_cont(t: Seq<AnnotationV>) -> bool
    decreases t.len(),
{
    t.len() != 0 && (t.last() == AnnotationV::Preformat(true) || has_pre_cont(t.drop_last()))
}

/// The foreground colour of a tag set. The colour-bearing annotations are
/// resolved by a fixed precedence: a preformatted continuation line wins
/// over a preformatted first line, which wins over an image.
pub open spec fn fg_of(t: Seq<AnnotationV>) -> Option<Color> {
    if has_pre_cont(t) {
        Some(Color::LightMagenta)
    } else if has_pre_first(t) {
        Some(Color::Magenta)
    } else if has_image(t) {
        Some(Color::Blue)
    } else {
        None
    }
}

/// The presentation style of a tag set: the cumulative, order-independent
/// union of the effects of each annotation in the fixed mapping table.
pub open spec fn style_of(t: Seq<AnnotationV>) -> Style {
    Style {
        underline: has_link(t),
        italic: has_emphasis(t),
        bold: has_strong(t),
        strikethrough: has_strikeout(t),
        dim: has_code(t),
        fg: fg_of(t),
        bg: if has_code(t) {
            Some(Color::Black)
        } else {
            None
        },
    }
}

/// The styled span a single annotated run maps to.
pub open spec fn span_of(r: RunV) -> SpanV {
    SpanV { text: r.text, style: style_of(r.tag) }
}

/// The explicit line break appended to every rendered line.
pub open spec fn newline_span() -> SpanV {
    SpanV { text: seq!['\n'], style: default_style() }
}

/// The styled spans one annotated line renders to.
pub open spec fn line_spans(runs: Seq<RunV>) -> Seq<SpanV> {
    runs.map_values(|r: RunV| span_of(r)).push(newline_span())
}

/// The styled lines a whole annotated document renders to.
pub open spec fn render_lines(lines: Seq<Seq<RunV>>) -> Seq<Seq<SpanV>> {
    lines.map_values(|l: Seq<RunV>| line_spans(l))
}

/// Computes the presentation style of one annotated run of text.
pub fn to_span(run: &Run) -> (r: StyledSpan)
    ensures
        r@ == span_of(run@),
{
    let ghost tag: Seq<AnnotationV> = run.tag.deep_view();
    let mut link = false;
    let mut image = false;
    let mut emphasis = false;
    let mut strong = false;
    let mut strikeout = false;
    let mut code = false;
    let mut pre_first = false;
    let mut pre_cont = false;
    let mut i: usize = 0;
    while i < run.tag.len()
        invariant
            i <= run.tag.len(),
            tag == run.tag.deep_view(),
            tag.len() == run.tag.len(),
            link == has_link(tag.take(i as int)),
            image == has_image(tag.take(i as int)),
            emphasis == has_emphasis(tag.take(i as int)),
            strong == has_strong(tag.take(i as int)),
            strikeout == has_strikeout(tag.take(i as int)),
            code == has_code(tag.take(i as int)),
            pre_first == has_pre_first(tag.take(i as int)),
            pre_cont == has_pre_cont(tag.take(i as int)),
        decreases run.tag.len() - i,
    {
        proof {
            assert(tag.take(i + 1).drop_last() =~= tag.take(i as int));
            assert(tag.take(i + 1).last() == tag[i as int]);
            assert(tag[i as int] == run.tag[i as int]@);
        }
        match &run.tag[i] {
            Annotation::Default => {},
            Annotation::Link(_) => {
                link = true;
            },
            Annotation::Image(_) => {
                image = true;
            },
            Annotation::Emphasis => {
                emphasis = true;
            },
            Annotation::Strong => {
                strong = true;
            },
            Annotation::Strikeout => {
                strikeout = true;
            },
            Annotation::Code => {
                code = true;
            },
            Annotation::Preformat(cont) => {
                if *cont {
                    pre_cont = true;
                } else {
                    pre_first = true;
                }
            },
        }
        i = i + 1;
    }
    proof {
        assert(tag.take(i as int) =~= tag);
    }
    let fg = if pre_cont {
        Some(Color::LightMagenta)
    } else if pre_first {
        Some(Color::Magenta)
    } else if image {
        Some(Color::Blue)
    } else {
        None
    };
    let bg = if code {
        Some(Color::Black)
    } else {
        None
    };
    StyledSpan {
        text: run.text.clone(),
        style: Style {
            underline: link,
            italic: emphasis,
            bold: strong,
            strikethrough: strikeout,
            dim: code,
            fg,
            bg,
        },
    }
}

/// Renders a parsed document, one styled line per annotated line, each
/// terminated by an explicit line break. A document with no lines renders
/// to no output lines.
pub fn to_spans(lines: &Vec<Vec<Run>>) -> (r: Vec<Vec<StyledSpan>>)
    ensures
        r.deep_view() == render_lines(lines.deep_view()),
        r@.len() == lines@.len(),
{
    let ghost lines_dv: Seq<Seq<RunV>> = lines.deep_view();
    let mut out: Vec<Vec<StyledSpan>> = Vec::new();
    let mut li: usize = 0;
    while li < lines.len()
        invariant
            li <= lines.len(),
            lines_dv == lines.deep_view(),
            lines_dv.len() == lines@.len(),
            out@.len() == li,
            out.deep_view() == render_lines(lines_dv.take(li as int)),
        decreases lines.len() - li,
    {
        let line = &lines[li];
        let ghost line_dv: Seq<RunV> = lines_dv[li as int];
        proof {
            assert(line.deep_view() == line_dv);
        }
        let mut spans: Vec<StyledSpan> = Vec::new();
        let mut ri: usize = 0;
        while ri < line.len()
            invariant
                ri <= line.len(),
                line_dv == line.deep_view(),
                line_dv.len() == line@.len(),
                spans.deep_view() == line_dv.take(ri as int).map_values(|r: RunV| span_of(r)),
            decreases line.len() - ri,
        {
            let s = to_span(&line[ri]);
            proof {
                assert(line@[ri as int].deep_view() == line_dv[ri as int]);
            }
            let ghost prev = spans.deep_view();
            let ghost prevv = spans@;
            spans.push(s);
            proof {
                let target = line_dv.take(ri + 1).map_values(|r: RunV| span_of(r));
                assert(spans@ == prevv.push(s));
                assert(line_dv.take(ri as int).len() == ri);
                assert(prev.len() == ri);
                assert(prevv.len() == ri);
                assert forall|k: int| 0 <= k < target.len() implies spans.deep_view()[k]
                    == target[k] by {
                    assert(target[k] == span_of(line_dv.take(ri + 1)[k]));
                    if k < ri {
                        assert(spans@[k] == prevv[k]);
                        assert(spans.deep_view()[k] == prev[k]);
                        assert(prev[k] == span_of(line_dv.take(ri as int)[k]));
                    } else {
                        assert(spans@[k] == s);
                        assert(s.deep_view() == s@);
                    }
                }
                assert(spans.deep_view() =~= target);
            }
            ri = ri + 1;
        }
        let nl = StyledSpan {
            text: "\n".to_owned(),
            style: Style {
                underline: false,
                italic: false,
                bold: false,
                strikethrough: false,
                dim: false,
                fg: None,
                bg: None,
            },
        };
        proof {
            reveal_strlit("\n");
            assert(nl@.text =~= seq!['\n']);
        }
        spans.push(nl);
        proof {
            assert(line_dv.take(line_dv.len() as int) =~= line_dv);
            assert(spans.deep_view() =~= line_spans(line_dv));
        }
        let ghost oprev = out.deep_view();
        let ghost oprevv = out@;
        out.push(spans);
        proof {
            let target = render_lines(lines_dv.take(li + 1));
            assert(out@ == oprevv.push(spans));
            assert(oprev.len() == li);
            assert(oprevv.len() == li);
            assert forall|k: int| 0 <= k < target.len() implies out.deep_view()[k]
                == target[k] by {
                assert(target[k] == line_spans(lines_dv.take(li + 1)[k]));
                if k < li {
                    assert(out@[k] == oprevv[k]);
                    assert(out.deep_view()[k] == oprev[k]);
                    assert(oprev[k] == line_spans(lines_dv.take(li as int)[k]));
                } else {
                    assert(out@[k] == spans);
                }
            }
            assert(out.deep_view() =~= target);
        }
        li = li + 1;
    }
    proof {
        assert(lines_dv.take(li as int) =~= lines_dv);
        assert(out.deep_view() =~= render_lines(lines_dv));
    }
    out
}

#[verifier::external_type_specification]
#[verifier::external_body]
#[verifier::reject_recursive_types(T)]
pub struct ExTaggedLine<T>(html2text::render::text_renderer::TaggedLine<T>);

#[verifier::external_type_specification]
#[verifier::external_body]
pub struct ExRichAnnotation(html2text::render::text_renderer::RichAnnotation);

/// The annotated runs one parsed line holds, in order.
pub uninterp spec fn line_view(
    line: html2text::render::text_renderer::TaggedLine<
        Vec<html2text::render::text_renderer::RichAnnotation>,
    >,
) -> Seq<RunV>;

/// What the external document parser's rich rendering yields on a byte
/// body at unconstrained width: annotated runs, line by line.
pub uninterp spec fn rich_lines_of(body: Seq<u8>) -> Seq<Seq<RunV>>;

/// Relies on html2text's `from_read_rich`: parses a markup body into
/// annotated lines; the result depends on the bytes and the width alone,
/// and here the width is always unconstrained.
#[verifier::external_body]
fn parse_rich(body: &[u8]) -> (r: Vec<
    html2text::render::text_renderer::TaggedLine<
        Vec<html2text::render::text_renderer::RichAnnotation>,
    >,
>)
    ensures
        r@.map_values(
            |l: html2text::render::text_renderer::TaggedLine<
                Vec<html2text::render::text_renderer::RichAnnotation>,
            >| line_view(l),
        ) == rich_lines_of(body@),
{
    html2text::from_read_rich(body, usize::MAX)
}

/// Relies on html2text's `TaggedLine::tagged_strings`: yields the line's
/// tagged strings in order, fragments skipped; each one is moved into a
/// run of this crate, annotation variant by annotation variant.
#[verifier::external_body]
fn line_to_runs(
    line: &html2text::render::text_renderer::TaggedLine<
        Vec<html2text::render::text_renderer::RichAnnotation>,
    >,
) -> (r: Vec<Run>)
    ensures
        r.deep_view() == line_view(*line),
{
    line.tagged_strings().map(|ts| Run {
        text: ts.s.clone(),
        tag: ts.tag.iter().map(|a| match a {
            Rich::Default => Annotation::Default,
            Rich::Link(t) => Annotation::Link(t.clone()),
            Rich::Image(s) => Annotation::Image(s.clone()),
            Rich::Emphasis => Annotation::Emphasis,
            Rich::Strong => Annotation::Strong,
            Rich::Strikeout => Annotation::Strikeout,
            Rich::Code => Annotation::Code,
            Rich::Preformat(c) => Annotation::Preformat(*c),
        }).collect(),
    }).collect()
}

/// Parses an article body through the external document parser and hands
/// back its annotated lines.
pub fn parse_article(body: &[u8]) -> (r: Vec<Vec<Run>>)
    ensures
        r.deep_view() == rich_lines_of(body@),
{
    let raw = parse_rich(body);
    let ghost target: Seq<Seq<RunV>> = rich_lines_of(body@);
    let mut lines: Vec<Vec<Run>> = Vec::new();
    let mut i: usize = 0;
    while i < raw.len()
        invariant
            i <= raw.len(),
            raw@.map_values(
                |l: html2text::render::text_renderer::TaggedLine<
                    Vec<html2text::render::text_renderer::RichAnnotation>,
                >| line_view(l),
            ) == target,
            target.len() == raw@.len(),
            lines@.len() == i,
            forall|k: int| 0 <= k < i ==> (#[trigger] lines@[k]).deep_view() == target[k],
        decreases raw.len() - i,
    {
        let runs = line_to_runs(&raw[i]);
        proof {
            assert(line_view(raw@[i as int]) == target[i as int]);
        }
        let ghost prevv = lines@;
        lines.push(runs);
        proof {
            assert(lines@ == prevv.push(runs));
            assert(forall|k: int|
                0 <= k < i ==> (#[trigger] lines@[k]).deep_view() == target[k]);
        }
        i = i + 1;
    }
    proof {
        assert(lines.deep_view() =~= target);
    }
    lines
}

/// Renders an article body to styled lines: parses the markup through the
/// external document parser and maps every annotated run to its style.
pub fn render_article(body: &[u8]) -> (r: Vec<Vec<StyledSpan>>)
    ensures
        r.deep_view() == render_lines(rich_lines_of(body@)),
{
    let lines = parse_article(body);
    to_spans(&lines)
}

/// The style a single annotation maps to: the fixed mapping table.
pub open spec fn base_style(a: AnnotationV) -> Style {
    match a {
        AnnotationV::Default => default_style(),
        AnnotationV::Link(_) => Style { underline: true, ..default_style() },
        AnnotationV::Image(_) => Style { fg: Some(Color::Blue), ..default_style() },
        AnnotationV::Emphasis => Style { italic: true, ..default_style() },
        AnnotationV::Strong => Style { bold: true, ..default_style() },
        AnnotationV::Strikeout => Style { strikethrough: true, ..default_style() },
        AnnotationV::Code => Style { dim: true, bg: Some(Color::Black), ..default_style() },
        AnnotationV::Preformat(cont) => Style {
            fg: Some(
                if cont {
                    Color::LightMagenta
                } else {
                    Color::Magenta
                },
            ),
            ..default_style()
        },
    }
}

/// The precedence rank of a foreground colour: a preformatted continuation
/// line beats a preformatted first line, which beats an image.
pub open spec fn fg_rank(c: Option<Color>) -> int {
    match c {
        Some(Color::LightMagenta) => 3,
        Some(Color::Magenta) => 2,
        Some(Color::Blue) => 1,
        _ => 0,
    }
}

/// The union of two styles: attributes accumulate, and of two foreground
/// colours the one of higher precedence wins.
pub open spec fn style_join(s1: Style, s2: Style) -> Style {
    Style {
        underline: s1.underline || s2.underline,
        italic: s1.italic || s2.italic,
        bold: s1.bold || s2.bold,
        strikethrough: s1.strikethrough || s2.strikethrough,
        dim: s1.dim || s2.dim,
        fg: if fg_rank(s2.fg) > fg_rank(s1.fg) {
            s2.fg
        } else {
            s1.fg
        },
        bg: if s1.bg is Some {
            s1.bg
        } else {
            s2.bg
        },
    }
}

proof fn lemma_has_empty()
    ensures
        !has_link(Seq::<AnnotationV>::empty()),
        !has_image(Seq::<AnnotationV>::empty()),
        !has_emphasis(Seq::<AnnotationV>::empty()),
        !has_strong(Seq::<AnnotationV>::empty()),
        !has_strikeout(Seq::<AnnotationV>::empty()),
        !has_code(Seq::<AnnotationV>::empty()),
        !has_pre_first(Seq::<AnnotationV>::empty()),
        !has_pre_cont(Seq::<AnnotationV>::empty()),
{
}

proof fn lemma_has_concat(t1: Seq<AnnotationV>, t2: Seq<AnnotationV>)
    ensures
        has_link(t1 + t2) == (has_link(t1) || has_link(t2)),
        has_image(t1 + t2) == (has_image(t1) || has_image(t2)),
        has_emphasis(t1 + t2) == (has_emphasis(t1) || has_emphasis(t2)),
        has_strong(t1 + t2) == (has_strong(t1) || has_strong(t2)),
        has_strikeout(t1 + t2) == (has_strikeout(t1) || has_strikeout(t2)),
        has_code(t1 + t2) == (has_code(t1) || has_code(t2)),
        has_pre_first(t1 + t2) == (has_pre_first(t1) || has_pre_first(t2)),
        has_pre_cont(t1 + t2) == (has_pre_cont(t1) || has_pre_cont(t2)),
    decreases t2.len(),
{
    if t2.len() == 0 {
        assert(t1 + t2 =~= t1);
    } else {
        lemma_has_concat(t1, t2.drop_last());
        assert((t1 + t2).drop_last() =~= t1 + t2.drop_last());
        assert((t1 + t2).last() == t2.last());
    }
}

/// Annotation effects compose cumulatively and order-independently: the
/// style of a combined tag set is the union of the styles of its parts,
/// whichever way round they stand.
pub proof fn lemma_style_concat(t1: Seq<AnnotationV>, t2: Seq<AnnotationV>)
    ensures
        style_of(t1 + t2) == style_join(style_of(t1), style_of(t2)),
        style_of(t1 + t2) == style_of(t2 + t1),
{
    lemma_has_concat(t1, t2);
    lemma_has_concat(t2, t1);
}

/// Every single-element annotation set maps to exactly its table entry.
pub proof fn lemma_single_annotation(a: AnnotationV)
    ensures
        style_of(seq![a]) == base_style(a),
{
    let s = seq![a];
    assert(s.last() == a);
    assert(s.drop_last() =~= Seq::<AnnotationV>::empty());
    lemma_has_empty();
}

/// Every pairwise combination of annotations maps to the union of the two
/// table entries, foreground precedence included.
pub proof fn lemma_pair_annotation(a: AnnotationV, b: AnnotationV)
    ensures
        style_of(seq![a, b]) == style_join(base_style(a), base_style(b)),
{
    lemma_single_annotation(a);
    lemma_single_annotation(b);
    assert(seq![a] + seq![b] =~= seq![a, b]);
    lemma_style_concat(seq![a], seq![b]);
}

/// A document with no lines renders to no styled lines.
pub proof fn lemma_render_empty()
    ensures
        render_lines(Seq::<Seq<RunV>>::empty()).len() == 0,
{
}

/// One footnote line of the plain-text rendering: `[n]: target`, where
/// `n` counts from one.
pub open spec fn footnote_line(idx: nat, url: Seq<char>) -> Seq<char> {
    seq!['['] + dec_str(idx + 1) + seq![']', ':', ' '] + url
}

/// A decorator for the plain-text rendering path: markup becomes literal
/// characters, and every link target is collected for a numbered footnote
/// list. Its view is the sequence of link targets collected so far.
#[derive(Debug)]
pub struct PlainDecorator {
    links: Vec<String>,
}

impl View for PlainDecorator {
    type V = Seq<Seq<char>>;

    closed spec fn view(&self) -> Seq<Seq<char>> {
        self.links.deep_view()
    }
}

impl PlainDecorator {
    /// Creates a decorator with no links collected yet.
    pub fn new() -> (r: PlainDecorator)
        ensures
            r@ == Seq::<Seq<char>>::empty(),
    {
        let r = PlainDecorator { links: Vec::new() };
        proof {
            assert(r@ =~= Seq::<Seq<char>>::empty());
        }
        r
    }

    /// Collects the link target and opens the inline `[label][n]` form.
    pub fn decorate_link_start(&mut self, url: &str) -> (r: String)
        ensures
            final(self)@ == old(self)@.push(url@),
            r@ == seq!['['],
    {
        self.links.push(url.to_owned());
        proof {
            reveal_strlit("[");
            assert(self@ =~= old(self)@.push(url@));
            assert("["@ =~= seq!['[']);
        }
        "[".to_owned()
    }

    /// Closes the inline link form as `][n]`, numbering the link that was
    /// collected last.
    pub fn decorate_link_end(&mut self) -> (r: String)
        ensures
            *final(self) == *old(self),
            r@ == seq![']', '['] + dec_str(old(self)@.len()) + seq![']'],
    {
        let n = self.links.len();
        let mut s = "][".to_owned();
        let num = dec_string(n as u64);
        s.append(num.as_str());
        s.append("]");
        proof {
            reveal_strlit("][");
            reveal_strlit("]");
            assert(s@ =~= seq![']', '['] + dec_str(old(self)@.len()) + seq![']']);
        }
        s
    }

    /// Opens emphasis as a literal `*`.
    pub fn decorate_em_start(&mut self) -> (r: String)
        ensures
            *final(self) == *old(self),
            r@ == seq!['*'],
    {
        proof {
            reveal_strlit("*");
            assert("*"@ =~= seq!['*']);
        }
        "*".to_owned()
    }

    /// Closes emphasis as a literal `*`.
    pub fn decorate_em_end(&mut self) -> (r: String)
        ensures
            *final(self) == *old(self),
            r@ == seq!['*'],
    {
        proof {
            reveal_strlit("*");
            assert("*"@ =~= seq!['*']);
        }
        "*".to_owned()
    }

    /// Opens strong text as a literal `**`.
    pub fn decorate_strong_start(&mut self) -> (r: String)
        ensures
            *final(self) == *old(self),
            r@ == seq!['*', '*'],
    {
        proof {
            reveal_strlit("**");
            assert("**"@ =~= seq!['*', '*']);
        }
        "**".to_owned()
    }

    /// Closes strong text as a literal `**`.
    pub fn decorate_strong_end(&mut self) -> (r: String)
        ensures
            *final(self) == *old(self),
            r@ == seq!['*', '*'],
    {
        proof {
            reveal_strlit("**");
            assert("**"@ =~= seq!['*', '*']);
        }
        "**".to_owned()
    }

    /// Struck-out text carries no plain-text marker.
    pub fn decorate_strikeout_start(&mut self) -> (r: String)
        ensures
            *final(self) == *old(self),
            r@ == Seq::<char>::empty(),
    {
        proof {
            reveal_strlit("");
            assert(""@ =~= Seq::<char>::empty());
        }
        "".to_owned()
    }

    /// Struck-out text carries no plain-text marker.
    pub fn decorate_strikeout_end(&mut self) -> (r: String)
        ensures
            *final(self) == *old(self),
            r@ == Seq::<char>::empty(),
    {
        proof {
            reveal_strlit("");
            assert(""@ =~= Seq::<char>::empty());
        }
        "".to_owned()
    }

    /// Opens inline code as a literal backtick.
    pub fn decorate_code_start(&mut self) -> (r: String)
        ensures
            *final(self) == *old(self),
            r@ == seq!['`'],
    {
        proof {
            reveal_strlit("`");
            assert("`"@ =~= seq!['`']);
        }
        "`".to_owned()
    }

    /// Closes inline code as a literal backtick.
    pub fn decorate_code_end(&mut self) -> (r: String)
        ensures
            *final(self) == *old(self),
            r@ == seq!['`'],
    {
        proof {
            reveal_strlit("`");
            assert("`"@ =~= seq!['`']);
        }
        "`".to_owned()
    }

    /// A preformatted first line carries no plain-text annotation.
    pub fn decorate_preformat_first(&mut self)
        ensures
            *final(self) == *old(self),
    {
    }

    /// A preformatted continuation line carries no plain-text annotation.
    pub fn decorate_preformat_cont(&mut self)
        ensures
            *final(self) == *old(self),
    {
    }

    /// An image renders as its title in brackets.
    pub fn decorate_image(&mut self, title: &str) -> (r: String)
        ensures
            *final(self) == *old(self),
            r@ == seq!['['] + title@ + seq![']'],
    {
        let mut s = "[".to_owned();
        s.append(title);
        s.append("]");
        proof {
            reveal_strlit("[");
            reveal_strlit("]");
            assert(s@ =~= seq!['['] + title@ + seq![']']);
        }
        s
    }

    /// A header of depth `level` is prefixed by that many `#` characters
    /// and a space.
    pub fn header_prefix(&mut self, level: usize) -> (r: String)
        ensures
            *final(self) == *old(self),
            r@ == Seq::new(level as nat, |k: int| '#') + seq![' '],
    {
        let mut s = String::new();
        let mut i: usize = 0;
        while i < level
            invariant
                i <= level,
                s@ =~= Seq::new(i as nat, |k: int| '#'),
            decreases level - i,
        {
            s.append("#");
            proof {
                reveal_strlit("#");
                assert(s@ =~= Seq::new((i + 1) as nat, |k: int| '#'));
            }
            i = i + 1;
        }
        s.append(" ");
        proof {
            reveal_strlit(" ");
            assert(s@ =~= Seq::new(level as nat, |k: int| '#') + seq![' ']);
        }
        s
    }

    /// A quoted line is prefixed by `> `.
    pub fn quote_prefix(&mut self) -> (r: String)
        ensures
            *final(self) == *old(self),
            r@ == seq!['>', ' '],
    {
        proof {
            reveal_strlit("> ");
            assert("> "@ =~= seq!['>', ' ']);
        }
        "> ".to_owned()
    }

    /// An unordered list item is prefixed by `* `.
    pub fn unordered_item_prefix(&mut self) -> (r: String)
        ensures
            *final(self) == *old(self),
            r@ == seq!['*', ' '],
    {
        proof {
            reveal_strlit("* ");
            assert("* "@ =~= seq!['*', ' ']);
        }
        "* ".to_owned()
    }

    /// An ordered list item is prefixed by its number and `. `.
    pub fn ordered_item_prefix(&mut self, i: i64) -> (r: String)
        ensures
            *final(self) == *old(self),
            r@ == int_str(i as int) + seq!['.', ' '],
    {
        let mut s = int_string(i);
        s.append(". ");
        proof {
            reveal_strlit(". ");
            assert(s@ =~= int_str(i as int) + seq!['.', ' ']);
        }
        s
    }

    /// Resolves the collected links as footnote lines, `[n]: target`,
    /// numbered in order of collection from one.
    pub fn finalise(self) -> (r: Vec<String>)
        ensures
            r.deep_view() == Seq::new(self@.len(), |k: int| footnote_line(k as nat, self@[k])),
    {
        let ghost target: Seq<Seq<char>> = Seq::new(
            self@.len(),
            |k: int| footnote_line(k as nat, self@[k]),
        );
        let mut out: Vec<String> = Vec::new();
        let mut i: usize = 0;
        while i < self.links.len()
            invariant
                i <= self.links.len(),
                target == Seq::new(self@.len(), |k: int| footnote_line(k as nat, self@[k])),
                self@.len() == self.links@.len(),
                out@.len() == i,
                forall|k: int| 0 <= k < i ==> (#[trigger] out@[k])@ == target[k],
            decreases self.links.len() - i,
        {
            let mut s = "[".to_owned();
            let num = dec_string((i as u64) + 1);
            s.append(num.as_str());
            s.append("]: ");
            s.append(self.links[i].as_str());
            proof {
                reveal_strlit("[");
                reveal_strlit("]: ");
                assert(self@[i as int] == self.links@[i as int]@);
                assert(s@ =~= footnote_line(i as nat, self@[i as int]));
            }
            let ghost prevv = out@;
            out.push(s);
            proof {
                assert(out@ == prevv.push(s));
                assert(forall|k: int| 0 <= k < i ==> (#[trigger] out@[k])@ == target[k]);
            }
            i = i + 1;
        }
        proof {
            assert(out.deep_view() =~= target);
        }
        out
    }

    /// A sub-block starts from a fresh decorator with no links collected.
    pub fn make_subblock_decorator(&self) -> (r: PlainDecorator)
        ensures
            r@ == Seq::<Seq<char>>::empty(),
    {
        PlainDecorator::new()
    }
}

} // verus!
