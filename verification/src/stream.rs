//! The context-sensitive escaper: a single stateful pass over the event
//! stream.
//!
//! The pass tracks whether the current position is inside a fenced code
//! block. Code-block boundaries toggle that state and pass through unchanged;
//! a code span's payload is always escaped with the code set; a text run's
//! payload is escaped with the code set inside a code block and with the
//! normal set elsewhere; every other event passes through unchanged.

use vstd::prelude::*;

use crate::charset::escape_payload;
use crate::charset::escape_payload_spec;
use crate::charset::is_code_reserved;
use crate::charset::lemma_escape_chars_no_reserved;
use crate::events::EventModel;
use crate::events::MdEvent;

verus! {

/// The models of a sequence of events.
pub open spec fn models(s: Seq<MdEvent>) -> Seq<EventModel> {
    s.map_values(|e: MdEvent| e@)
}

/// What the escaper does to one event under the given context.
pub open spec fn escape_event_spec(e: EventModel, inside_code: bool) -> EventModel {
    match e {
        EventModel::TextRun(s) => EventModel::TextRun(escape_payload_spec(s, inside_code)),
        EventModel::CodeSpan(s) => EventModel::CodeSpan(escape_payload_spec(s, true)),
        _ => e,
    }
}

/// The context in force after the given event: code-block boundaries toggle
/// it, every other event leaves it as it is.
pub open spec fn next_inside(e: EventModel, inside_code: bool) -> bool {
    match e {
        EventModel::CodeBlockStart => true,
        EventModel::CodeBlockEnd => false,
        _ => inside_code,
    }
}

/// The escaping pass over an event stream, starting in the given context.
pub open spec fn escape_stream_from(events: Seq<EventModel>, inside_code: bool) -> Seq<EventModel>
    decreases events.len(),
{
    if events.len() == 0 {
        Seq::empty()
    } else {
        seq![escape_event_spec(events[0], inside_code)] + escape_stream_from(
            events.drop_first(),
            next_inside(events[0], inside_code),
        )
    }
}

/// The escaping pass over a whole stream, which starts outside any code
/// block.
pub open spec fn escape_stream(events: Seq<EventModel>) -> Seq<EventModel> {
    escape_stream_from(events, false)
}

/// The context in force after a prefix of events, starting from the given
/// context.
pub open spec fn inside_code_after(events: Seq<EventModel>, inside_code: bool) -> bool
    decreases events.len(),
{
    if events.len() == 0 {
        inside_code
    } else {
        inside_code_after(events.drop_first(), next_inside(events[0], inside_code))
    }
}

/// Rewrites an event stream: escapes the payload of every text run and code
/// span according to its context and passes every other event through
/// unchanged, toggling the code-block context at the block boundaries.
pub fn escape_events(events: Vec<MdEvent>) -> (r: Vec<MdEvent>)
    ensures
        models(r@) == escape_stream(models(events@)),
{
    let ghost all: Seq<EventModel> = models(events@);
    let mut rest = events;
    let mut out: Vec<MdEvent> = Vec::new();
    let mut inside_code: bool = false;
    proof {
        assert(models(out@) + escape_stream_from(models(rest@), false) =~= escape_stream_from(
            all,
            false,
        ));
    }
    while rest.len() > 0
        invariant
            escape_stream_from(all, false) == models(out@) + escape_stream_from(
                models(rest@),
                inside_code,
            ),
        decreases rest.len(),
    {
        let ghost pre: Seq<EventModel> = models(rest@);
        let ghost ic: bool = inside_code;
        let e = rest.remove(0);
        proof {
            assert(e@ == pre[0]);
            assert(models(rest@) =~= pre.drop_first());
        }
        let pushed: MdEvent = match e {
            MdEvent::TextRun(s) => {
                let p = escape_payload(s.as_str(), inside_code);
                MdEvent::TextRun(p)
            },
            MdEvent::CodeSpan(s) => {
                let p = escape_payload(s.as_str(), true);
                MdEvent::CodeSpan(p)
            },
            MdEvent::CodeBlockStart => {
                inside_code = true;
                MdEvent::CodeBlockStart
            },
            MdEvent::CodeBlockEnd => {
                inside_code = false;
                MdEvent::CodeBlockEnd
            },
            MdEvent::Other => MdEvent::Other,
        };
        proof {
            assert(pushed@ == escape_event_spec(pre[0], ic));
            assert(inside_code == next_inside(pre[0], ic));
        }
        let ghost out_pre: Seq<EventModel> = models(out@);
        out.push(pushed);
        proof {
            assert(models(out@) =~= out_pre.push(pushed@));
            assert(out_pre.push(pushed@) =~= out_pre + seq![pushed@]);
            assert(escape_stream_from(pre, ic) == seq![escape_event_spec(pre[0], ic)]
                + escape_stream_from(pre.drop_first(), next_inside(pre[0], ic)));
            assert(out_pre + (seq![pushed@] + escape_stream_from(pre.drop_first(), inside_code))
                =~= (out_pre + seq![pushed@]) + escape_stream_from(pre.drop_first(), inside_code));
        }
    }
    proof {
        assert(models(rest@) =~= Seq::<EventModel>::empty());
        assert(models(out@) + escape_stream_from(models(rest@), inside_code) =~= models(out@));
    }
    out
}

/// The escaped stream is exactly as long as the input stream.
pub proof fn lemma_escape_stream_from_len(events: Seq<EventModel>, inside_code: bool)
    ensures
        escape_stream_from(events, inside_code).len() == events.len(),
    decreases events.len(),
{
    if events.len() > 0 {
        lemma_escape_stream_from_len(events.drop_first(), next_inside(events[0], inside_code));
    }
}

/// Each position of the escaped stream is the corresponding input event,
/// escaped under the context in force at that position.
pub proof fn lemma_escape_stream_from_index(events: Seq<EventModel>, inside_code: bool, i: int)
    requires
        0 <= i < events.len(),
    ensures
        escape_stream_from(events, inside_code).len() == events.len(),
        escape_stream_from(events, inside_code)[i] == escape_event_spec(
            events[i],
            inside_code_after(events.take(i), inside_code),
        ),
    decreases events.len(),
{
    lemma_escape_stream_from_len(events, inside_code);
    let rest = events.drop_first();
    let nb = next_inside(events[0], inside_code);
    if i == 0 {
        assert(events.take(0) =~= Seq::<EventModel>::empty());
        assert((seq![escape_event_spec(events[0], inside_code)] + escape_stream_from(rest, nb))[0]
            == escape_event_spec(events[0], inside_code));
    } else {
        lemma_escape_stream_from_index(rest, nb, i - 1);
        lemma_escape_stream_from_len(rest, nb);
        assert(escape_stream_from(events, inside_code)[i] == escape_stream_from(rest, nb)[i - 1]);
        assert(events.take(i).drop_first() =~= rest.take(i - 1));
        assert(events.take(i)[0] == events[0]);
        assert(inside_code_after(events.take(i), inside_code) == inside_code_after(
            rest.take(i - 1),
            nb,
        ));
    }
}

/// Law: the escaper preserves the stream's length and event-kind ordering,
/// and every event that is neither a text run nor a code span — emphasis and
/// link markers, code-fence boundaries, and the rest — passes through
/// unchanged, so real formatting syntax survives as syntax.
pub proof fn lemma_structural_preservation(events: Seq<EventModel>)
    ensures
        escape_stream(events).len() == events.len(),
        forall|i: int|
            0 <= i < events.len() && !(events[i] is TextRun) && !(events[i] is CodeSpan)
                ==> #[trigger] escape_stream(events)[i] == events[i],
        forall|i: int|
            0 <= i < events.len() ==> ((#[trigger] escape_stream(events)[i] is TextRun <==> events[i] is TextRun)
                && (escape_stream(events)[i] is CodeSpan <==> events[i] is CodeSpan)),
{
    lemma_escape_stream_from_len(events, false);
    assert forall|i: int| 0 <= i < events.len() implies ((#[trigger] escape_stream(events)[i] is TextRun
        <==> events[i] is TextRun) && (escape_stream(events)[i] is CodeSpan <==> events[i] is CodeSpan)
        && (!(events[i] is TextRun) && !(events[i] is CodeSpan) ==> escape_stream(events)[i]
        == events[i])) by {
        lemma_escape_stream_from_index(events, false, i);
    }
}

/// Law: a code span's payload is always escaped with the code set, whatever
/// the surrounding context; a span whose payload holds no backtick and no
/// backslash (and is not a single character) comes out unchanged, even where
/// it holds characters from the normal reserved set.
pub proof fn lemma_code_span_context(events: Seq<EventModel>, i: int, s: Seq<char>)
    requires
        0 <= i < events.len(),
        events[i] == EventModel::CodeSpan(s),
    ensures
        escape_stream(events).len() == events.len(),
        escape_stream(events)[i] == EventModel::CodeSpan(escape_payload_spec(s, true)),
        s.len() != 1 && (forall|j: int| 0 <= j < s.len() ==> !is_code_reserved(#[trigger] s[j]))
            ==> escape_stream(events)[i] == EventModel::CodeSpan(s),
{
    lemma_escape_stream_from_index(events, false, i);
    if s.len() != 1 && (forall|j: int| 0 <= j < s.len() ==> !is_code_reserved(#[trigger] s[j])) {
        lemma_escape_chars_no_reserved(s, true);
    }
}

/// Law: inside a fenced code block, a text run is escaped with the code set,
/// so only the backtick and the backslash are escaped there; every other
/// reserved character passes through literally.
pub proof fn lemma_code_block_isolation(events: Seq<EventModel>, i: int, s: Seq<char>)
    requires
        0 <= i < events.len(),
        events[i] == EventModel::TextRun(s),
        inside_code_after(events.take(i), false),
    ensures
        escape_stream(events).len() == events.len(),
        escape_stream(events)[i] == EventModel::TextRun(escape_payload_spec(s, true)),
        s.len() != 1 && (forall|j: int| 0 <= j < s.len() ==> !is_code_reserved(#[trigger] s[j]))
            ==> escape_stream(events)[i] == EventModel::TextRun(s),
{
    lemma_escape_stream_from_index(events, false, i);
    if s.len() != 1 && (forall|j: int| 0 <= j < s.len() ==> !is_code_reserved(#[trigger] s[j])) {
        lemma_escape_chars_no_reserved(s, true);
    }
}

/// Law: a text run outside any code block is escaped with the normal
/// reserved set.
pub proof fn lemma_text_run_context(events: Seq<EventModel>, i: int, s: Seq<char>)
    requires
        0 <= i < events.len(),
        events[i] == EventModel::TextRun(s),
        !inside_code_after(events.take(i), false),
    ensures
        escape_stream(events).len() == events.len(),
        escape_stream(events)[i] == EventModel::TextRun(escape_payload_spec(s, false)),
{
    lemma_escape_stream_from_index(events, false, i);
}

/// Law: a payload of exactly one character — for instance a lone reserved
/// punctuation character parsed as its own event — is never rewritten by the
/// escaper; its escaping is left to the serializer, which handles single
/// characters correctly on its own, so it is not double-escaped.
pub proof fn lemma_single_char_exemption(events: Seq<EventModel>, i: int, s: Seq<char>)
    requires
        0 <= i < events.len(),
        s.len() == 1,
        events[i] == EventModel::TextRun(s) || events[i] == EventModel::CodeSpan(s),
    ensures
        escape_stream(events).len() == events.len(),
        escape_stream(events)[i] == events[i],
{
    lemma_escape_stream_from_index(events, false, i);
}

} // verus!
