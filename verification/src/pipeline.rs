//! The end-to-end pipeline: parse the input into events, run the escaping
//! pass, and serialize the rewritten events back into the target dialect.
//!
//! Parsing and serialization are the work of outside crates; what each of
//! them computes for a given input is deterministic, and is given a name here
//! (`parsed_events`, `rendered`) so that the contract of the whole pipeline
//! can say exactly which event stream is escaped and rendered.

use vstd::prelude::*;

use pulldown_cmark::Event;
use pulldown_cmark::Options;
use pulldown_cmark::Parser;
use pulldown_cmark::Tag;
use pulldown_cmark::TagEnd;

use crate::coalesce::coalesce;
use crate::coalesce::coalesce_events;
use crate::coalesce::lemma_coalesce_structure;
use crate::events::EventModel;
use crate::events::MdEvent;
use crate::stream::escape_events;
use crate::stream::escape_stream;
use crate::stream::lemma_structural_preservation;
use crate::stream::models;

verus! {

/// The event stream that the structural parser produces for the given text
/// under the extended grammar (base grammar plus strikethrough), with each
/// event classified as the escaper sees it. The stream is a function of the
/// text alone.
pub uninterp spec fn parsed_events(s: Seq<char>) -> Seq<EventModel>;

/// The text that the dialect serializer emits when the events of the given
/// text are re-emitted with their text-run and code-span payloads replaced
/// by the payloads of the given event stream, with code blocks fenced by 3
/// backticks. The output is a function of the text and the stream alone.
pub uninterp spec fn rendered(s: Seq<char>, events: Seq<EventModel>) -> Seq<char>;

/// Relies on pulldown_cmark::Parser::new_ext, with strikethrough enabled, to
/// split the text into structural events: text nodes become text runs,
/// inline code nodes become code spans, code-block start and end tags become
/// the context boundaries, and every other event is classified as a
/// pass-through. An empty input yields no events.
#[verifier::external_body]
fn parse_markdown(text: &str) -> (r: Vec<MdEvent>)
    ensures
        models(r@) == parsed_events(text@),
        text@.len() == 0 ==> r@.len() == 0,
{
    let mut opts = Options::empty();
    opts.insert(Options::ENABLE_STRIKETHROUGH);
    Parser::new_ext(text, opts).map(|ev| match ev {
        Event::Text(t) => MdEvent::TextRun(t.to_string()),
        Event::Code(t) => MdEvent::CodeSpan(t.to_string()),
        Event::Start(Tag::CodeBlock(_)) => MdEvent::CodeBlockStart,
        Event::End(TagEnd::CodeBlock) => MdEvent::CodeBlockEnd,
        _ => MdEvent::Other,
    }).collect()
}

/// Relies on pulldown_cmark::Parser::new_ext (with strikethrough, as above)
/// and pulldown_cmark_to_cmark::cmark_with_options, configured with a
/// 3-backtick code fence: the text's own events are paired positionally with
/// the given ones, text-run and code-span payloads are taken from the given
/// events exactly as they stand — so the backslashes the escaper inserted
/// reach the output as literal characters — and every other event keeps the
/// parser's event value, so its structural syntax is re-emitted faithfully.
/// An empty text with no events yields empty output.
#[verifier::external_body]
fn render_with(text: &str, events: &Vec<MdEvent>) -> (r: String)
    ensures
        r@ == rendered(text@, models(events@)),
        text@.len() == 0 && models(events@).len() == 0 ==> r@.len() == 0,
{
    let mut opts = Options::empty();
    opts.insert(Options::ENABLE_STRIKETHROUGH);
    let stream = Parser::new_ext(text, opts).zip(events.iter()).map(|(raw, e)| match e {
        MdEvent::TextRun(s) => Event::Text(s.clone().into()),
        MdEvent::CodeSpan(s) => Event::Code(s.clone().into()),
        _ => raw,
    });
    let mut ser = pulldown_cmark_to_cmark::Options::default();
    ser.code_block_token_count = 3;
    let mut out = String::new();
    pulldown_cmark_to_cmark::cmark_with_options(stream, &mut out, ser)
        .expect("writing to string failed!");
    out
}

/// Escapes the given text so that it is safe to send through the target chat
/// platform's restrictive Markdown mode: the text is parsed into structural
/// events, adjacent text runs are joined, literal text and code content are
/// re-escaped according to whether they stand inside a code span or code
/// block, and the events are rendered back into the dialect's concrete
/// syntax. Structural syntax (emphasis, links, code fences) is preserved,
/// not escaped.
pub fn tg_escape(text: &str) -> (r: String)
    ensures
        r@ == rendered(text@, escape_stream(coalesce(parsed_events(text@)))),
        text@.len() == 0 ==> r@.len() == 0,
{
    let events = parse_markdown(text);
    let joined = coalesce_events(events);
    let escaped = escape_events(joined);
    proof {
        if text@.len() == 0 {
            assert(coalesce(parsed_events(text@)) =~= Seq::<EventModel>::empty());
            assert(escape_stream(coalesce(parsed_events(text@)))
                =~= Seq::<EventModel>::empty());
        }
    }
    render_with(text, &escaped)
}

/// Law: across the whole rewriting part of the pipeline — joining text runs,
/// then escaping — every event that is not a text run reaches the serializer
/// exactly as the parser produced it, at its original position, so emphasis,
/// links and code fences are re-emitted as syntax and never as escaped text.
pub proof fn lemma_pipeline_preserves_structure(events: Seq<EventModel>)
    ensures
        escape_stream(coalesce(events)).len() == events.len(),
        forall|i: int|
            0 <= i < events.len() && !(events[i] is TextRun) && !(events[i] is CodeSpan)
                ==> #[trigger] escape_stream(coalesce(events))[i] == events[i],
{
    lemma_coalesce_structure(events);
    lemma_structural_preservation(coalesce(events));
}

} // verus!
