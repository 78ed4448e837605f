//! Joining of adjacent text runs.
//!
//! The structural parser hands literal text out in fragments: an unmatched
//! emphasis or strikethrough delimiter, or a backslash escape, each start a
//! new text run even in the middle of a word. The escaper must see such a
//! stretch of literal text as one payload: a fragment of a single character
//! would otherwise fall under the single-character exemption and be left to
//! the serializer, which escapes only its own special characters.
//!
//! So consecutive text runs are joined before escaping: the joined content
//! moves to the last run of the stretch and the earlier runs are left empty,
//! which keeps every event at its position for the serializer. One text run
//! is kept apart: a run that is exactly one backtick, the remnant of an
//! unmatched code-span delimiter. The serializer escapes a lone backtick
//! correctly on its own, and joining it into surrounding text would change
//! how the neighbouring characters are escaped at the run boundary.

use vstd::prelude::*;
use vstd::string::StringExecFns;

use crate::events::EventModel;
use crate::events::MdEvent;
use crate::stream::models;

verus! {

/// Whether an event takes part in the joining of adjacent text runs: every
/// text run does, except one that is exactly one backtick.
pub open spec fn joinable(e: EventModel) -> bool {
    match e {
        EventModel::TextRun(s) => s != seq!['`'],
        _ => false,
    }
}

/// The joining pass, carrying the text gathered from the run so far: a
/// joinable text run passes its content forward (leaving an empty run)
/// while its successor is joinable too, and flushes everything gathered
/// when it is the last of its stretch; every other event is unchanged.
pub open spec fn coalesce_from(events: Seq<EventModel>, acc: Seq<char>) -> Seq<EventModel>
    decreases events.len(),
{
    if events.len() == 0 {
        Seq::empty()
    } else {
        match events[0] {
            EventModel::TextRun(s) => {
                if s == seq!['`'] {
                    seq![events[0]] + coalesce_from(events.drop_first(), acc)
                } else if events.len() > 1 && joinable(events[1]) {
                    seq![EventModel::TextRun(Seq::empty())] + coalesce_from(
                        events.drop_first(),
                        acc + s,
                    )
                } else {
                    seq![EventModel::TextRun(acc + s)] + coalesce_from(
                        events.drop_first(),
                        Seq::empty(),
                    )
                }
            },
            _ => seq![events[0]] + coalesce_from(events.drop_first(), acc),
        }
    }
}

/// The joining pass over a whole stream, starting with nothing gathered.
pub open spec fn coalesce(events: Seq<EventModel>) -> Seq<EventModel> {
    coalesce_from(events, Seq::empty())
}

fn is_lone_backtick(s: &String) -> (r: bool)
    ensures
        r == (s@ == seq!['`']),
{
    proof {
        reveal_strlit("`");
        assert("`"@ =~= seq!['`']);
    }
    let bt = String::from_str("`");
    *s == bt
}

fn is_joinable(e: &MdEvent) -> (r: bool)
    ensures
        r == joinable(e@),
{
    match e {
        MdEvent::TextRun(s) => !is_lone_backtick(s),
        _ => false,
    }
}

/// Joins every stretch of consecutive text runs (lone backticks excepted)
/// into its last run, leaving the earlier runs empty, and passes every other
/// event through unchanged.
pub fn coalesce_events(events: Vec<MdEvent>) -> (r: Vec<MdEvent>)
    ensures
        models(r@) == coalesce(models(events@)),
{
    let ghost all: Seq<EventModel> = models(events@);
    let mut out: Vec<MdEvent> = Vec::new();
    let mut acc: String = String::new();
    let n = events.len();
    proof {
        assert(all.skip(0) =~= all);
        assert(models(out@) + coalesce_from(all, Seq::empty()) =~= coalesce_from(
            all,
            Seq::empty(),
        ));
    }
    for i in 0..n
        invariant
            n == events.len(),
            all == models(events@),
            coalesce_from(all, Seq::empty()) == models(out@) + coalesce_from(
                all.skip(i as int),
                acc@,
            ),
    {
        let ghost pre: Seq<EventModel> = all.skip(i as int);
        let ghost acc0: Seq<char> = acc@;
        proof {
            assert(pre[0] == all[i as int]);
            assert(pre.drop_first() =~= all.skip(i + 1));
            assert(pre.len() > 1 ==> pre[1] == all[i + 1]);
        }
        let ghost out_pre: Seq<EventModel> = models(out@);
        let pushed: MdEvent = match &events[i] {
            MdEvent::TextRun(s) => {
                if is_lone_backtick(s) {
                    MdEvent::TextRun(s.clone())
                } else if i + 1 < n && is_joinable(&events[i + 1]) {
                    acc.append(s.as_str());
                    MdEvent::TextRun(String::new())
                } else {
                    let merged = acc.concat(s.as_str());
                    acc = String::new();
                    MdEvent::TextRun(merged)
                }
            },
            MdEvent::CodeSpan(s) => MdEvent::CodeSpan(s.clone()),
            MdEvent::CodeBlockStart => MdEvent::CodeBlockStart,
            MdEvent::CodeBlockEnd => MdEvent::CodeBlockEnd,
            MdEvent::Other => MdEvent::Other,
        };
        out.push(pushed);
        proof {
            assert(models(events@)[i as int] == events@[i as int]@);
            assert(coalesce_from(pre, acc0) == seq![pushed@] + coalesce_from(
                pre.drop_first(),
                acc@,
            ));
            assert(models(out@) =~= out_pre.push(pushed@));
            assert(out_pre.push(pushed@) =~= out_pre + seq![pushed@]);
            assert(out_pre + (seq![pushed@] + coalesce_from(all.skip(i + 1), acc@)) =~= (out_pre
                + seq![pushed@]) + coalesce_from(all.skip(i + 1), acc@));
        }
    }
    proof {
        assert(all.skip(n as int) =~= Seq::<EventModel>::empty());
        assert(models(out@) + coalesce_from(Seq::<EventModel>::empty(), acc@) =~= models(out@));
    }
    out
}

/// The literal text an event carries: a text run's payload, nothing for any
/// other event.
pub open spec fn event_text(e: EventModel) -> Seq<char> {
    match e {
        EventModel::TextRun(s) => s,
        _ => Seq::empty(),
    }
}

/// All the literal text of a stream, in order.
pub open spec fn text_content(events: Seq<EventModel>) -> Seq<char>
    decreases events.len(),
{
    if events.len() == 0 {
        Seq::empty()
    } else {
        event_text(events[0]) + text_content(events.drop_first())
    }
}

proof fn lemma_text_content_cons(e: EventModel, tail: Seq<EventModel>)
    ensures
        text_content(seq![e] + tail) == event_text(e) + text_content(tail),
{
    assert((seq![e] + tail).len() > 0);
    assert((seq![e] + tail)[0] == e);
    assert((seq![e] + tail).drop_first() =~= tail);
}

proof fn lemma_coalesce_from_text(events: Seq<EventModel>, acc: Seq<char>)
    requires
        acc.len() == 0 || (events.len() > 0 && joinable(events[0])),
    ensures
        text_content(coalesce_from(events, acc)) == acc + text_content(events),
    decreases events.len(),
{
    if events.len() == 0 {
        assert(acc =~= Seq::<char>::empty());
        assert(acc + text_content(events) =~= Seq::<char>::empty());
    } else {
        let rest = events.drop_first();
        match events[0] {
            EventModel::TextRun(s) => {
                if s == seq!['`'] {
                    lemma_coalesce_from_text(rest, acc);
                    lemma_text_content_cons(events[0], coalesce_from(rest, acc));
                    assert(acc =~= Seq::<char>::empty());
                    assert(s + (acc + text_content(rest)) =~= acc + (s + text_content(rest)));
                } else if events.len() > 1 && joinable(events[1]) {
                    lemma_coalesce_from_text(rest, acc + s);
                    lemma_text_content_cons(
                        EventModel::TextRun(Seq::empty()),
                        coalesce_from(rest, acc + s),
                    );
                    assert(Seq::<char>::empty() + ((acc + s) + text_content(rest)) =~= acc + (s
                        + text_content(rest)));
                } else {
                    lemma_coalesce_from_text(rest, Seq::empty());
                    lemma_text_content_cons(
                        EventModel::TextRun(acc + s),
                        coalesce_from(rest, Seq::empty()),
                    );
                    assert((acc + s) + (Seq::<char>::empty() + text_content(rest)) =~= acc + (s
                        + text_content(rest)));
                }
            },
            _ => {
                lemma_coalesce_from_text(rest, acc);
                lemma_text_content_cons(events[0], coalesce_from(rest, acc));
                assert(event_text(events[0]) =~= Seq::<char>::empty());
                assert(Seq::<char>::empty() + (acc + text_content(rest)) =~= acc
                    + (Seq::<char>::empty() + text_content(rest)));
            },
        }
    }
}

/// Law: joining text runs loses no literal text and invents none — the
/// stream's literal text, read in order, is exactly the same before and
/// after the pass.
pub proof fn lemma_coalesce_preserves_text(events: Seq<EventModel>)
    ensures
        text_content(coalesce(events)) == text_content(events),
{
    lemma_coalesce_from_text(events, Seq::empty());
    assert(Seq::<char>::empty() + text_content(events) =~= text_content(events));
}

proof fn lemma_coalesce_from_index(events: Seq<EventModel>, acc: Seq<char>, i: int)
    requires
        0 <= i < events.len(),
    ensures
        coalesce_from(events, acc).len() == events.len(),
        events[i] is TextRun <==> coalesce_from(events, acc)[i] is TextRun,
        !(events[i] is TextRun) ==> coalesce_from(events, acc)[i] == events[i],
    decreases events.len(),
{
    lemma_coalesce_from_len(events, acc);
    let rest = events.drop_first();
    if i > 0 {
        match events[0] {
            EventModel::TextRun(s) => {
                if s == seq!['`'] {
                    lemma_coalesce_from_index(rest, acc, i - 1);
                } else if events.len() > 1 && joinable(events[1]) {
                    lemma_coalesce_from_index(rest, acc + s, i - 1);
                } else {
                    lemma_coalesce_from_index(rest, Seq::empty(), i - 1);
                }
            },
            _ => {
                lemma_coalesce_from_index(rest, acc, i - 1);
            },
        }
    }
}

proof fn lemma_coalesce_from_len(events: Seq<EventModel>, acc: Seq<char>)
    ensures
        coalesce_from(events, acc).len() == events.len(),
    decreases events.len(),
{
    if events.len() > 0 {
        let rest = events.drop_first();
        match events[0] {
            EventModel::TextRun(s) => {
                if s == seq!['`'] {
                    lemma_coalesce_from_len(rest, acc);
                } else if events.len() > 1 && joinable(events[1]) {
                    lemma_coalesce_from_len(rest, acc + s);
                } else {
                    lemma_coalesce_from_len(rest, Seq::empty());
                }
            },
            _ => {
                lemma_coalesce_from_len(rest, acc);
            },
        }
    }
}

/// Law: joining text runs changes no event's position or kind, and every
/// event that is not a text run — emphasis and link markers, code spans,
/// code-fence boundaries — passes through unchanged.
pub proof fn lemma_coalesce_structure(events: Seq<EventModel>)
    ensures
        coalesce(events).len() == events.len(),
        forall|i: int|
            0 <= i < events.len() ==> (#[trigger] events[i] is TextRun <==> coalesce(
                events,
            )[i] is TextRun),
        forall|i: int|
            0 <= i < events.len() && !(events[i] is TextRun) ==> #[trigger] coalesce(events)[i]
                == events[i],
{
    lemma_coalesce_from_len(events, Seq::empty());
    assert forall|i: int| 0 <= i < events.len() implies ((#[trigger] events[i] is TextRun
        <==> coalesce(events)[i] is TextRun) && (!(events[i] is TextRun) ==> coalesce(events)[i]
        == events[i])) by {
        lemma_coalesce_from_index(events, Seq::empty(), i);
    }
}

} // verus!
