//! An outline of a document, for a log: one line for each element that
//! opens, each element that closes and each run of text, indented by its
//! depth in the document.

use vstd::prelude::*;
use vstd::string::*;
use crate::document::{Event, EventView, events_view, label_of, read_events, xml_events};
use crate::text::{indent, indentation, trim, trimmed};

verus! {

/// The place of the first failure among the events, or their number where
/// none is a failure.
pub open spec fn failure_at(events: Seq<EventView>) -> int
    decreases events.len(),
{
    if events.len() == 0 || events.first() is Failure {
        0
    } else {
        1 + failure_at(events.drop_first())
    }
}

/// How many elements are open after the events: every start opens one, every
/// end closes one if one is open.
pub open spec fn depth_after(events: Seq<EventView>) -> nat
    decreases events.len(),
{
    if events.len() == 0 {
        0
    } else {
        let before = depth_after(events.drop_last());
        match events.last() {
            EventView::Start { .. } => before + 1,
            EventView::End { .. } => if before > 0 {
                (before - 1) as nat
            } else {
                0
            },
            _ => before,
        }
    }
}

/// The line for an event that comes when `depth` elements are open: `+` and
/// the name for a start, `-` and the name one level up for an end, the text
/// without the white space at its ends between two `|` for text, and no line
/// for anything else.
pub open spec fn line_of(depth: nat, event: EventView) -> Option<Seq<char>> {
    match event {
        EventView::Start { name, .. } => Some(indentation(depth) + seq!['+'] + label_of(name)),
        EventView::End { name } => {
            let up = if depth > 0 {
                (depth - 1) as nat
            } else {
                0
            };
            Some(indentation(up) + seq!['-'] + label_of(name))
        },
        EventView::Text(text) => Some(indentation(depth) + seq!['|'] + trimmed(text) + seq!['|']),
        _ => None,
    }
}

/// The lines for a run of events, in order.
pub open spec fn lines_of(events: Seq<EventView>) -> Seq<Seq<char>>
    decreases events.len(),
{
    if events.len() == 0 {
        Seq::empty()
    } else {
        let before = lines_of(events.drop_last());
        match line_of(depth_after(events.drop_last()), events.last()) {
            Some(line) => before.push(line),
            None => before,
        }
    }
}

/// The outline of a document: the lines for its events before the first
/// failure.
pub open spec fn outline_of(events: Seq<EventView>) -> Seq<Seq<char>> {
    lines_of(events.take(failure_at(events)))
}

/// The lines of a list, each by its characters.
pub open spec fn lines_view(lines: Seq<String>) -> Seq<Seq<char>> {
    lines.map_values(|line: String| line@)
}

/// Where no event before `at` is a failure and the one at `at`, if there is
/// one, is a failure, the first failure is at `at`.
pub proof fn lemma_failure_at(events: Seq<EventView>, at: int)
    requires
        0 <= at <= events.len(),
        forall|k: int| 0 <= k < at ==> !(events[k] is Failure),
        at < events.len() ==> events[at] is Failure,
    ensures
        failure_at(events) == at,
    decreases at,
{
    if at > 0 {
        let rest = events.drop_first();
        assert forall|k: int| 0 <= k < at - 1 implies !(rest[k] is Failure) by {
            assert(rest[k] == events[k + 1]);
        }
        lemma_failure_at(rest, at - 1);
    }
}

/// No more elements are open than events have come.
pub proof fn lemma_depth_is_bounded(events: Seq<EventView>)
    ensures
        depth_after(events) <= events.len(),
    decreases events.len(),
{
    if events.len() > 0 {
        lemma_depth_is_bounded(events.drop_last());
    }
}

/// The outline of a run of events.
pub fn outline(events: &Vec<Event>) -> (lines: Vec<String>)
    ensures
        lines_view(lines@) == outline_of(events_view(events@)),
{
    let ghost all = events_view(events@);
    let mut lines: Vec<String> = Vec::new();
    let mut depth: usize = 0;
    let mut i: usize = 0;
    assert(lines_view(lines@) =~= Seq::empty());
    while i < events.len()
        invariant
            all == events_view(events@),
            i <= events.len(),
            forall|k: int| 0 <= k < i ==> !(all[k] is Failure),
            depth == depth_after(all.take(i as int)),
            lines_view(lines@) == lines_of(all.take(i as int)),
        decreases events.len() - i,
    {
        let ghost before = lines_view(lines@);
        proof {
            assert(all.take(i + 1).drop_last() =~= all.take(i as int));
            assert(all.take(i + 1).last() == events@[i as int]@);
            lemma_depth_is_bounded(all.take(i as int));
            reveal_strlit("+");
            reveal_strlit("-");
            reveal_strlit("|");
            assert("+"@ =~= seq!['+']);
            assert("-"@ =~= seq!['-']);
            assert("|"@ =~= seq!['|']);
        }
        match &events[i] {
            Event::Failure(_) => {
                proof {
                    lemma_failure_at(all, i as int);
                }
                return lines;
            },
            Event::Start { name, .. } => {
                let mut line = indent(depth);
                line.append("+");
                line.append(name.label().as_str());
                lines.push(line);
                depth += 1;
                assert(lines_view(lines@) =~= before.push(line@));
            },
            Event::End { name } => {
                if depth > 0 {
                    depth -= 1;
                }
                let mut line = indent(depth);
                line.append("-");
                line.append(name.label().as_str());
                lines.push(line);
                assert(lines_view(lines@) =~= before.push(line@));
            },
            Event::Text(text) => {
                let mut line = indent(depth);
                line.append("|");
                line.append(trim(text.as_str()));
                line.append("|");
                lines.push(line);
                assert(lines_view(lines@) =~= before.push(line@));
            },
            Event::Other => {},
        }
        i += 1;
    }
    proof {
        lemma_failure_at(all, i as int);
    }
    lines
}

/// The outline of an XML document.
pub fn read_outline(document: &[u8]) -> (lines: Vec<String>)
    ensures
        lines_view(lines@) == outline_of(xml_events(document@)),
{
    let events = read_events(document);
    outline(&events)
}

} // verus!
