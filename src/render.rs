//! The event pipeline: code-block headers cleaned, links rewritten and
//! quotes made curly, one event at a time, between the parser and the HTML
//! writer.

use vstd::prelude::*;
use crate::text::{whitespace, is_whitespace, chars_of, string_of, opt_view};
use crate::event::{CodeBlockKind, MdEvent, EventModel, models};
use crate::links::{fix, fix_html, fix_allowed, fix_html_allowed, fixed_dest, redirected, spliced, html_link_captures, html_link_gaps};
use pulldown_cmark::{Options, Parser};
use pulldown_cmark::CodeBlockKind::{Fenced, Indented};
use pulldown_cmark::Event::{End, Start, Text as CmarkText, Html as CmarkHtml};
use pulldown_cmark::Tag::{CodeBlock, Image, Link};
use crate::event::MdEvent::{CodeBlockStart, ImageStart, LinkStart};
use crate::quotes::{EventQuoteConverter, quote_step, convert_after};

verus! {

/// `s` without its white space.
pub open spec fn without_ws(s: Seq<char>) -> Seq<char>
    decreases s.len(),
{
    if s.len() == 0 {
        Seq::empty()
    } else if whitespace(s.last()) {
        without_ws(s.drop_last())
    } else {
        without_ws(s.drop_last()).push(s.last())
    }
}

/// A fenced code block's info string loses its white space; other events stay.
pub open spec fn cleaned(e: EventModel) -> EventModel {
    match e {
        EventModel::CodeBlockStart(Some(info)) => EventModel::CodeBlockStart(Some(without_ws(info))),
        _ => e,
    }
}

/// `r` is a rewriting of `e` that the link rules admit: link and image
/// destinations as `fix` rewrites them, HTML as `fix_html` does, and any
/// other event unchanged.
pub open spec fn adjusted(
    e: EventModel,
    path: Option<Seq<char>>,
    src_dir: Option<Seq<char>>,
    fallback: Option<Seq<char>>,
    r: EventModel,
) -> bool {
    match e {
        EventModel::LinkStart(d) => r matches EventModel::LinkStart(d2) && fix_allowed(
            d,
            path,
            src_dir,
            fallback,
            d2,
        ),
        EventModel::ImageStart(d) => r matches EventModel::ImageStart(d2) && fix_allowed(
            d,
            path,
            src_dir,
            fallback,
            d2,
        ),
        EventModel::Html(h) => r matches EventModel::Html(h2) && fix_html_allowed(
            h,
            path,
            src_dir,
            fallback,
            h2,
        ),
        _ => r == e,
    }
}

/// Whether text is converted after the first `n` events of `es`.
pub open spec fn converting_after(enabled: bool, es: Seq<EventModel>, n: int) -> bool
    decreases n,
{
    if n <= 0 {
        true
    } else {
        convert_after(enabled, converting_after(enabled, es, n - 1), es[n - 1])
    }
}

/// `r` is what the pipeline may make of the event at position `i` of `es`:
/// the event cleaned, its links rewritten, and its quotes converted in the
/// state that the events before it left.
pub open spec fn pipeline_step(
    es: Seq<EventModel>,
    i: int,
    curly_quotes: bool,
    path: Option<Seq<char>>,
    src_dir: Option<Seq<char>>,
    fallback: Option<Seq<char>>,
    r: EventModel,
) -> bool {
    exists|a: EventModel|
        adjusted(cleaned(es[i]), path, src_dir, fallback, a) && r == quote_step(
            curly_quotes,
            converting_after(curly_quotes, es, i),
            a,
        )
}

/// With no page, source directory or fallback, what a link destination
/// becomes.
pub open spec fn plain_dest(d: Seq<char>) -> Seq<char> {
    fixed_dest(d, None, None, None, true, false)
}

/// With no page, source directory or fallback, what an HTML fragment becomes.
pub open spec fn plain_html(h: Seq<char>) -> Seq<char> {
    let caps = html_link_captures(h);
    spliced(
        html_link_gaps(h),
        caps,
        caps.map_values(|c: (Seq<char>, Seq<char>)| plain_dest(c.1)),
        caps.len(),
    )
}

/// With no page, source directory or fallback, what an event becomes once
/// cleaned and its links rewritten.
pub open spec fn plain_adjusted(e: EventModel) -> EventModel {
    match cleaned(e) {
        EventModel::LinkStart(d) => EventModel::LinkStart(plain_dest(d)),
        EventModel::ImageStart(d) => EventModel::ImageStart(plain_dest(d)),
        EventModel::Html(h) => EventModel::Html(plain_html(h)),
        c => c,
    }
}

/// With no page, source directory or fallback, what the pipeline makes of
/// each event of `es`.
pub open spec fn plain_pipeline(es: Seq<EventModel>, curly_quotes: bool) -> Seq<EventModel> {
    Seq::new(
        es.len(),
        |i: int|
            quote_step(curly_quotes, converting_after(curly_quotes, es, i), plain_adjusted(es[i])),
    )
}

proof fn lemma_plain_fix(d: Seq<char>, r: Seq<char>)
    requires
        fix_allowed(d, None, None, None, r),
    ensures
        r == plain_dest(d),
{
    let (pe, fe) = choose|pe: bool, fe: bool| r == fixed_dest(d, None, None, None, pe, fe);
    assert(!redirected(None, None, pe, fe));
}

proof fn lemma_plain_step(es: Seq<EventModel>, i: int, curly_quotes: bool, r: EventModel)
    requires
        0 <= i < es.len(),
        pipeline_step(es, i, curly_quotes, None, None, None, r),
    ensures
        r == plain_pipeline(es, curly_quotes)[i],
{
    let a = choose|a: EventModel|
        adjusted(cleaned(es[i]), None, None, None, a) && r == quote_step(
            curly_quotes,
            converting_after(curly_quotes, es, i),
            a,
        );
    match cleaned(es[i]) {
        EventModel::LinkStart(d) => {
            lemma_plain_fix(d, a->LinkStart_0);
        },
        EventModel::ImageStart(d) => {
            lemma_plain_fix(d, a->ImageStart_0);
        },
        EventModel::Html(h) => {
            let h2 = a->Html_0;
            let caps = html_link_captures(h);
            let values = choose|values: Seq<Seq<char>>|
                {
                    &&& values.len() == caps.len()
                    &&& forall|k: int|
                        0 <= k < values.len() ==> fix_allowed(
                            #[trigger] html_link_captures(h)[k].1,
                            None,
                            None,
                            None,
                            values[k],
                        )
                    &&& h2 == spliced(html_link_gaps(h), caps, values, values.len())
                };
            let plain = caps.map_values(|c: (Seq<char>, Seq<char>)| plain_dest(c.1));
            assert forall|k: int| 0 <= k < values.len() implies values[k] == plain[k] by {
                lemma_plain_fix(html_link_captures(h)[k].1, values[k]);
            }
            assert(values == plain);
        },
        _ => {},
    }
}

/// Strips all white space from a fenced code block's info string.
pub fn clean_codeblock_headers(event: MdEvent) -> (r: MdEvent)
    ensures
        r@ == cleaned(event@),
{
    match event {
        MdEvent::CodeBlockStart(CodeBlockKind::Fenced(info)) => {
            let cs = chars_of(info.as_str());
            let mut out: Vec<char> = Vec::new();
            let mut i: usize = 0;
            while i < cs.len()
                invariant
                    cs@ == info@,
                    i <= cs.len(),
                    out@ == without_ws(cs@.subrange(0, i as int)),
                decreases cs.len() - i,
            {
                proof {
                    assert(cs@.subrange(0, i + 1).drop_last() == cs@.subrange(0, i as int));
                }
                if !is_whitespace(cs[i]) {
                    out.push(cs[i]);
                }
                i = i + 1;
            }
            proof {
                assert(cs@.subrange(0, cs.len() as int) == cs@);
            }
            MdEvent::CodeBlockStart(CodeBlockKind::Fenced(string_of(&out)))
        },
        _ => event,
    }
}

/// Rewrites the destinations of links and images, and the links inside raw
/// HTML.
pub fn adjust_links(event: MdEvent, path: Option<&str>, src_dir: Option<&str>, fallback_path: Option<&str>) -> (r: MdEvent)
    ensures
        adjusted(event@, opt_view(path), opt_view(src_dir), opt_view(fallback_path), r@),
{
    match event {
        MdEvent::LinkStart(dest) => MdEvent::LinkStart(fix(dest.as_str(), path, src_dir, fallback_path)),
        MdEvent::ImageStart(dest) => MdEvent::ImageStart(fix(dest.as_str(), path, src_dir, fallback_path)),
        MdEvent::Html(html) => MdEvent::Html(fix_html(html.as_str(), path, src_dir, fallback_path)),
        _ => event,
    }
}

/// Runs each event through header cleaning, link rewriting and, when
/// `curly_quotes` is set, quote conversion; the result has one event for
/// each event of the input.
pub fn transform_events(
    events: Vec<MdEvent>,
    curly_quotes: bool,
    path: Option<&str>,
    src_dir: Option<&str>,
    fallback_path: Option<&str>,
) -> (r: Vec<MdEvent>)
    ensures
        r@.len() == events@.len(),
        forall|i: int|
            0 <= i < r@.len() ==> pipeline_step(
                models(events@),
                i,
                curly_quotes,
                opt_view(path),
                opt_view(src_dir),
                opt_view(fallback_path),
                (#[trigger] r@[i])@,
            ),
{
    let ghost input = events@;
    let mut converter = EventQuoteConverter::new(curly_quotes);
    let mut out: Vec<MdEvent> = Vec::new();
    let mut pending = events;
    let mut rest: Vec<MdEvent> = Vec::new();
    while pending.len() > 0
        invariant
            pending@ == input.subrange(0, pending@.len() as int),
            pending@.len() + rest@.len() == input.len(),
            forall|k: int| 0 <= k < rest@.len() ==> #[trigger] rest@[k] == input[input.len() - 1 - k],
        decreases pending.len(),
    {
        let e = pending.pop().unwrap();
        rest.push(e);
    }
    while rest.len() > 0
        invariant
            out@.len() + rest@.len() == input.len(),
            forall|k: int| 0 <= k < rest@.len() ==> #[trigger] rest@[k] == input[input.len() - 1 - k],
            converter.enabled == curly_quotes,
            converter.convert_text == converting_after(curly_quotes, models(input), out@.len() as int),
            forall|i: int|
                0 <= i < out@.len() ==> pipeline_step(
                    models(input),
                    i,
                    curly_quotes,
                    opt_view(path),
                    opt_view(src_dir),
                    opt_view(fallback_path),
                    (#[trigger] out@[i])@,
                ),
        decreases rest.len(),
    {
        let ghost n = out@.len() as int;
        let ghost before = out@;
        let event = rest.pop().unwrap();
        assert(event == input[n]);
        let cleaned_event = clean_codeblock_headers(event);
        let adjusted_event = adjust_links(cleaned_event, path, src_dir, fallback_path);
        let ghost a = adjusted_event@;
        proof {
            assert(convert_after(curly_quotes, converter.convert_text, a) == convert_after(
                curly_quotes,
                converter.convert_text,
                input[n]@,
            ));
        }
        let converted = converter.convert(adjusted_event);
        out.push(converted);
        proof {
            assert(out@[n] == converted);
            assert(adjusted(cleaned(input[n]@), opt_view(path), opt_view(src_dir), opt_view(fallback_path), a));
            assert(out@[n]@ == quote_step(curly_quotes, converting_after(curly_quotes, models(input), n), a));
            assert forall|i: int| 0 <= i < out@.len() implies pipeline_step(
                models(input),
                i,
                curly_quotes,
                opt_view(path),
                opt_view(src_dir),
                opt_view(fallback_path),
                (#[trigger] out@[i])@,
            ) by {
                if i < n {
                    assert(out@[i] == before[i]);
                }
            }
        }
    }
    out
}


#[verifier::external_type_specification]
#[verifier::external_body]
pub struct ExParser<'a, 'b>(pulldown_cmark::Parser<'a, 'b>);

/// What the library reads of the events that the parser makes of `text`
/// (see `new_cmark_parser`), one model per event, in order.
pub uninterp spec fn parsed_events(text: Seq<char>) -> Seq<EventModel>;

/// The HTML that the writer makes of the events of `text`, each with the
/// strings of the model of the same position in `ms` in place of its own.
pub uninterp spec fn html_with(text: Seq<char>, ms: Seq<EventModel>) -> Seq<char>;

/// Relies on `pulldown_cmark::Parser::new_ext`: a parser over `text` with
/// tables, footnotes, strikethrough and task lists enabled.
#[verifier::external_body]
pub fn new_cmark_parser(text: &str) -> Parser<'_, '_> {
    let mut opts = Options::empty();
    opts.insert(Options::ENABLE_TABLES);
    opts.insert(Options::ENABLE_FOOTNOTES);
    opts.insert(Options::ENABLE_STRIKETHROUGH);
    opts.insert(Options::ENABLE_TASKLISTS);
    Parser::new_ext(text, opts)
}

/// Relies on the parser's `Iterator` impl: the events of `text`, each read
/// into the library's model; parsing depends on the text alone.
#[verifier::external_body]
fn parse_models(text: &str) -> (r: Vec<MdEvent>)
    ensures
        models(r@) == parsed_events(text@),
{
    new_cmark_parser(text).map(|e| match e {
        Start(CodeBlock(Indented)) => CodeBlockStart(CodeBlockKind::Indented),
        Start(CodeBlock(Fenced(i))) => CodeBlockStart(CodeBlockKind::Fenced(i.to_string())),
        End(CodeBlock(_)) => MdEvent::CodeBlockEnd,
        Start(Link(_, d, _)) => LinkStart(d.to_string()),
        Start(Image(_, d, _)) => ImageStart(d.to_string()),
        CmarkText(t) => MdEvent::Text(t.to_string()),
        CmarkHtml(h) => MdEvent::Html(h.to_string()),
        _ => MdEvent::Other,
    }).collect()
}

/// Relies on `pulldown_cmark::html::push_html`: the HTML of the events of
/// `text`, each with the strings of `ms` at its position in place of its own.
#[verifier::external_body]
fn html_of_models(text: &str, ms: Vec<MdEvent>) -> (r: String)
    ensures
        r@ == html_with(text@, models(ms@)),
{
    let events = new_cmark_parser(text).zip(ms).map(|em| match em {
        (Start(Link(k, _, t)), LinkStart(d)) => Start(Link(k, d.into(), t)),
        (Start(Image(k, _, t)), ImageStart(d)) => Start(Image(k, d.into(), t)),
        (_, CodeBlockStart(CodeBlockKind::Fenced(i))) => Start(CodeBlock(Fenced(i.into()))),
        (_, MdEvent::Text(t)) => CmarkText(t.into()),
        (_, MdEvent::Html(h)) => CmarkHtml(h.into()),
        (e, _) => e,
    });
    let mut out = String::new();
    pulldown_cmark::html::push_html(&mut out, events);
    out
}

/// Renders markdown to HTML, rewriting links relative to the page at `path`
/// and probing `src_dir` and its `fallback_path` for their targets, and
/// making quotes curly when `curly_quotes` is set: the HTML of the parsed
/// events, each as the pipeline rewrites it.
pub fn render_markdown_with_path(
    text: &str,
    curly_quotes: bool,
    path: Option<&str>,
    src_dir: Option<&str>,
    fallback_path: Option<&str>,
) -> (r: String)
    ensures
        exists|ms: Seq<EventModel>|
            {
                &&& ms.len() == parsed_events(text@).len()
                &&& forall|i: int|
                    0 <= i < ms.len() ==> pipeline_step(
                        parsed_events(text@),
                        i,
                        curly_quotes,
                        opt_view(path),
                        opt_view(src_dir),
                        opt_view(fallback_path),
                        #[trigger] ms[i],
                    )
                &&& r@ == html_with(text@, ms)
            },
{
    let events = parse_models(text);
    let changed = transform_events(events, curly_quotes, path, src_dir, fallback_path);
    let ghost ms = models(changed@);
    let r = html_of_models(text, changed);
    proof {
        assert forall|i: int| 0 <= i < ms.len() implies pipeline_step(
            parsed_events(text@),
            i,
            curly_quotes,
            opt_view(path),
            opt_view(src_dir),
            opt_view(fallback_path),
            #[trigger] ms[i],
        ) by {
            assert(ms[i] == changed@[i]@);
        }
    }
    r
}

/// Renders markdown to HTML, making quotes curly when `curly_quotes` is set;
/// with no page, source directory or fallback, every event's rewriting is
/// determined.
pub fn render_markdown(text: &str, curly_quotes: bool) -> (r: String)
    ensures
        r@ == html_with(text@, plain_pipeline(parsed_events(text@), curly_quotes)),
{
    let r = render_markdown_with_path(text, curly_quotes, None, None, None);
    proof {
        let es = parsed_events(text@);
        let ms = choose|ms: Seq<EventModel>|
            {
                &&& ms.len() == es.len()
                &&& forall|i: int|
                    0 <= i < ms.len() ==> pipeline_step(
                        es,
                        i,
                        curly_quotes,
                        None,
                        None,
                        None,
                        #[trigger] ms[i],
                    )
                &&& r@ == html_with(text@, ms)
            };
        assert forall|i: int| 0 <= i < ms.len() implies #[trigger] ms[i] == plain_pipeline(
            es,
            curly_quotes,
        )[i] by {
            lemma_plain_step(es, i, curly_quotes, ms[i]);
        }
        assert(ms == plain_pipeline(es, curly_quotes));
    }
    r
}

} // verus!
