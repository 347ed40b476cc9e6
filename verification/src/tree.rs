use vstd::prelude::*;

use crate::event::Event;
use crate::event::EventV;
use crate::event::Note;
use crate::event::NoteV;
use crate::event::clone_notes;

verus! {

/// Mathematical model of a [`Span`]: a finished node of the reconstructed
/// call tree.
#[verifier::ext_equal]
pub ghost struct SpanV {
    pub name: Seq<char>,
    pub start_ns: u64,
    pub end_ns: u64,
    pub delta: u64,
    pub depth: u16,
    pub children: Seq<SpanV>,
    pub notes: Seq<NoteV>,
    pub collapsable: bool,
}

/// A named timespan: a reconstructed, closed, hierarchical timing interval
/// with children and notes.  Produced only by the tree builder and never
/// mutated afterwards.
#[derive(Debug, PartialEq)]
pub struct Span {
    /// The name of the span.
    pub name: String,
    /// The timestamp of the start of the span.
    pub start_ns: u64,
    /// The timestamp of the end of the span.  For a collapsed span this is
    /// the end of the last merged sibling.
    pub end_ns: u64,
    /// The time that elapsed between start_ns and end_ns, or the sum of the
    /// merged durations for a collapsed span.
    pub delta: u64,
    /// How deep this span is in the tree; roots are at depth zero.
    pub depth: u16,
    /// Ordered spans that occurred inside this one.
    pub children: Vec<Span>,
    /// Ordered notes that occurred inside this span.
    pub notes: Vec<Note>,
    /// Whether this span asked to be merged into an identically named,
    /// identically deep immediately preceding sibling.
    pub collapsable: bool,
}

/// Model of an ordered list of spans, elementwise.
pub open spec fn spans_view(ss: Seq<Span>) -> Seq<SpanV>
    decreases ss, 0int,
{
    if ss.len() <= 0 {
        Seq::empty()
    } else {
        spans_view(ss.subrange(0, ss.len() - 1)).push(span_view(ss[ss.len() - 1]))
    }
}

/// Model of one span, modelling its children recursively.
pub open spec fn span_view(s: Span) -> SpanV
    decreases s, 1int,
{
    SpanV {
        name: s.name@,
        start_ns: s.start_ns,
        end_ns: s.end_ns,
        delta: s.delta,
        depth: s.depth,
        children: spans_view(s.children@),
        notes: s.notes.deep_view(),
        collapsable: s.collapsable,
    }
}

/// `spans_view` is the elementwise image of `span_view`.
pub proof fn lemma_spans_view_len(ss: Seq<Span>)
    ensures
        spans_view(ss).len() == ss.len(),
        forall|i: int| 0 <= i < ss.len() ==> spans_view(ss)[i] == span_view(ss[i]),
    decreases ss.len(),
{
    if ss.len() > 0 {
        lemma_spans_view_len(ss.subrange(0, ss.len() - 1));
        assert forall|i: int| 0 <= i < ss.len() implies spans_view(ss)[i] == span_view(ss[i]) by {
            if i < ss.len() - 1 {
                assert(ss.subrange(0, ss.len() - 1)[i] == ss[i]);
            }
        }
    }
}

impl DeepView for Span {
    type V = SpanV;

    open spec fn deep_view(&self) -> SpanV {
        span_view(*self)
    }
}

/// The depth of a child one level below `d`; nesting deeper than `u16::MAX`
/// saturates there.
pub open spec fn depth_succ(d: u16) -> u16 {
    if d == u16::MAX {
        d
    } else {
        (d + 1) as u16
    }
}

/// The merged node a collapse produces: the surviving sibling keeps its start
/// and children but takes the newcomer's end and the summed duration
/// (saturating at `u64::MAX`).
pub open spec fn merge_into_last(last: SpanV, c: SpanV) -> SpanV {
    SpanV { end_ns: c.end_ns, delta: last.delta.saturating_add(c.delta), ..last }
}

/// The sibling-collapse condition: the parent already has a child, the new
/// child asked to collapse, is a leaf, and the immediately preceding sibling
/// has the same name and depth.
pub open spec fn can_collapse(acc: Seq<SpanV>, c: SpanV) -> bool {
    &&& acc.len() > 0
    &&& c.collapsable
    &&& c.children.len() == 0
    &&& acc.last().name == c.name
    &&& acc.last().depth == c.depth
}

/// Appends a freshly built child to a sibling list, merging it into the
/// immediately preceding sibling when the collapse rule applies.
pub open spec fn append_or_collapse(acc: Seq<SpanV>, c: SpanV) -> Seq<SpanV> {
    if can_collapse(acc, c) {
        acc.update(acc.len() - 1, merge_into_last(acc.last(), c))
    } else {
        acc.push(c)
    }
}

/// Appends the result of building one event, which is nothing when the event
/// was still open.
pub open spec fn opt_append(acc: Seq<SpanV>, c: Option<SpanV>) -> Seq<SpanV> {
    match c {
        Some(cv) => append_or_collapse(acc, cv),
        None => acc,
    }
}

/// The cursor position after one event's subtree has been consumed, clamped
/// so that the traversal always advances and never leaves the log.
pub open spec fn advance(j: int, j2: int, len: int) -> int {
    if j2 <= j {
        j + 1
    } else if j2 > len {
        len
    } else {
        j2
    }
}

/// Builds the node for the event at position `i` of the log: `None` when the
/// event is still open (an unterminated span is dropped), otherwise the span
/// together with the children consumed from the directly subsequent events.
/// Also yields the cursor position of the first event not consumed.
pub open spec fn span_at(events: Seq<EventV>, i: int, depth: u16) -> (Option<SpanV>, int)
    decreases events.len() - i, 1int,
{
    if i < 0 || i >= events.len() {
        (None, i + 1)
    } else {
        let e = events[i];
        if e.end_ns is Some && e.delta is Some {
            let r = children_at(events, i + 1, e.id, depth_succ(depth), Seq::empty());
            (
                Some(
                    SpanV {
                        name: e.name,
                        start_ns: e.start_ns,
                        end_ns: e.end_ns->0,
                        delta: e.delta->0,
                        depth: depth,
                        children: r.0,
                        notes: e.notes,
                        collapsable: e.collapse,
                    },
                ),
                r.1,
            )
        } else {
            (None, i + 1)
        }
    }
}

/// Consumes the run of events, starting at `j`, whose parent is `pid`,
/// building each child recursively and applying the collapse rule; stops at
/// the first event with a different parent.  `acc` holds the children built
/// so far.
pub open spec fn children_at(
    events: Seq<EventV>,
    j: int,
    pid: u32,
    depth: u16,
    acc: Seq<SpanV>,
) -> (Seq<SpanV>, int)
    decreases events.len() - j, 2int,
{
    if j < 0 || j >= events.len() || events[j].parent != Some(pid) {
        (acc, j)
    } else {
        let r = span_at(events, j, depth);
        let j3 = advance(j, r.1, events.len() as int);
        children_at(events, j3, pid, depth, opt_append(acc, r.0))
    }
}

/// Builds the ordered forest for the whole log from position `i` on: each
/// event at the cursor becomes a root at depth zero (collapse never applies
/// between roots), and the cursor then skips the events its subtree consumed.
pub open spec fn forest_at(events: Seq<EventV>, i: int, acc: Seq<SpanV>) -> Seq<SpanV>
    decreases events.len() - i, 2int,
{
    if i < 0 || i >= events.len() {
        acc
    } else {
        let r = span_at(events, i, 0);
        let j3 = advance(i, r.1, events.len() as int);
        forest_at(
            events,
            j3,
            match r.0 {
                Some(c) => acc.push(c),
                None => acc,
            },
        )
    }
}

/// The ordered forest of hierarchical span nodes that a flat event log
/// denotes.  This is the whole meaning of the tree builder: one forward
/// pass, children contiguous after their parent, unterminated spans dropped,
/// adjacent identically named collapse-marked leaf siblings merged.
pub open spec fn build_forest(events: Seq<EventV>) -> Seq<SpanV> {
    forest_at(events, 0, Seq::empty())
}

/// The cursor that `span_at` returns stays inside the log and makes
/// progress.
pub proof fn lemma_span_at_bounds(events: Seq<EventV>, i: int, depth: u16)
    requires
        0 <= i < events.len(),
    ensures
        i < span_at(events, i, depth).1 <= events.len(),
    decreases events.len() - i, 1int,
{
    let e = events[i];
    if e.end_ns is Some && e.delta is Some {
        lemma_children_at_bounds(events, i + 1, e.id, depth_succ(depth), Seq::empty());
    }
}

/// The cursor that `children_at` returns stays inside the log and never goes
/// backwards.
pub proof fn lemma_children_at_bounds(
    events: Seq<EventV>,
    j: int,
    pid: u32,
    depth: u16,
    acc: Seq<SpanV>,
)
    requires
        0 <= j <= events.len(),
    ensures
        j <= children_at(events, j, pid, depth, acc).1 <= events.len(),
    decreases events.len() - j, 2int,
{
    if j < events.len() && events[j].parent == Some(pid) {
        lemma_span_at_bounds(events, j, depth);
        let r = span_at(events, j, depth);
        let j3 = advance(j, r.1, events.len() as int);
        lemma_children_at_bounds(events, j3, pid, depth, opt_append(acc, r.0));
    }
}

/// Appends a freshly built child to the sibling list, merging it into the
/// immediately preceding sibling when the collapse rule applies.
fn push_or_collapse(children: &mut Vec<Span>, child: Span)
    ensures
        final(children).deep_view() == append_or_collapse(
            old(children).deep_view(),
            child.deep_view(),
        ),
{
    let mut do_merge = false;
    if children.len() > 0 && child.collapsable && child.children.len() == 0 {
        let last = &children[children.len() - 1];
        if last.name == child.name && last.depth == child.depth {
            do_merge = true;
        }
    }
    proof {
        assert(do_merge == can_collapse(children.deep_view(), child.deep_view()));
    }
    if do_merge {
        let mut last = children.pop().unwrap();
        last.end_ns = child.end_ns;
        last.delta = last.delta.saturating_add(child.delta);
        children.push(last);
        proof {
            assert(children.deep_view() =~~= append_or_collapse(
                old(children).deep_view(),
                child.deep_view(),
            ));
        }
    } else {
        children.push(child);
        proof {
            assert(children.deep_view() =~~= append_or_collapse(
                old(children).deep_view(),
                child.deep_view(),
            ));
        }
    }
}

/// Builds the span for the closed event at `cursor`, consuming the directly
/// subsequent events that are its children; yields `None`, consuming nothing
/// further, when the event is still open.  Also returns the position of the
/// first event it did not consume.
pub fn event_to_span(events: &Vec<Event>, cursor: usize, depth: u16) -> (r: (Option<Span>, usize))
    requires
        cursor < events@.len(),
    ensures
        ({
            let s = span_at(events.deep_view(), cursor as int, depth);
            &&& r.0.deep_view() == s.0
            &&& r.1 == s.1
            &&& cursor < r.1 <= events@.len()
        }),
    decreases events@.len() - cursor,
{
    let ghost dv = events.deep_view();
    proof {
        lemma_span_at_bounds(dv, cursor as int, depth);
    }
    let n = events.len();
    let e = &events[cursor];
    if e.end_ns.is_some() && e.delta.is_some() {
        let depth1 = if depth == u16::MAX {
            depth
        } else {
            depth + 1
        };
        let pid = e.id;
        let mut children: Vec<Span> = Vec::new();
        let mut j: usize = cursor + 1;
        proof {
            assert(children.deep_view() =~= Seq::<SpanV>::empty());
        }
        while j < n && events[j].parent.is_some() && events[j].parent.unwrap() == pid
            invariant
                n == events@.len(),
                cursor as int + 1 <= j as int <= events@.len(),
                dv == events.deep_view(),
                depth1 == depth_succ(depth),
                children_at(dv, cursor as int + 1, pid, depth1, Seq::empty()) == children_at(
                    dv,
                    j as int,
                    pid,
                    depth1,
                    children.deep_view(),
                ),
            decreases events@.len() - j,
        {
            proof {
                assert(dv[j as int].parent == Some(pid));
            }
            let ghost before = children.deep_view();
            let rr = event_to_span(events, j, depth1);
            let ghost s = span_at(dv, j as int, depth1);
            proof {
                assert(advance(j as int, s.1, events@.len() as int) == s.1);
            }
            match rr.0 {
                Some(c) => push_or_collapse(&mut children, c),
                None => (),
            }
            proof {
                assert(children.deep_view() == opt_append(before, s.0));
                assert(children_at(dv, j as int, pid, depth1, before) == children_at(
                    dv,
                    s.1,
                    pid,
                    depth1,
                    opt_append(before, s.0),
                ));
            }
            j = rr.1;
        }
        proof {
            assert(children_at(dv, j as int, pid, depth1, children.deep_view()) == (
                children.deep_view(),
                j as int,
            ));
        }
        let span = Span {
            name: e.name.clone(),
            start_ns: e.start_ns,
            end_ns: e.end_ns.unwrap(),
            delta: e.delta.unwrap(),
            depth,
            children,
            notes: clone_notes(&e.notes),
            collapsable: e.collapse,
        };
        proof {
            lemma_spans_view_len(span.children@);
            assert(spans_view(span.children@) =~= span.children.deep_view());
            assert(span.deep_view() =~~= span_at(dv, cursor as int, depth).0->0);
        }
        (Some(span), j)
    } else {
        (None, cursor + 1)
    }
}

/// Pure transform from a flat event log to the ordered forest of span trees:
/// one forward pass, every event visited once, unterminated spans dropped.
pub fn convert_events_to_span(events: &Vec<Event>) -> (forest: Vec<Span>)
    ensures
        forest.deep_view() == build_forest(events.deep_view()),
{
    let ghost dv = events.deep_view();
    let mut v: Vec<Span> = Vec::new();
    let mut i: usize = 0;
    proof {
        assert(v.deep_view() =~= Seq::<SpanV>::empty());
    }
    while i < events.len()
        invariant
            i <= events@.len(),
            dv == events.deep_view(),
            build_forest(dv) == forest_at(dv, i as int, v.deep_view()),
        decreases events@.len() - i,
    {
        let rr = event_to_span(events, i, 0);
        let ghost s = span_at(dv, i as int, 0);
        proof {
            assert(advance(i as int, s.1, events@.len() as int) == s.1);
        }
        let ghost before = v.deep_view();
        match rr.0 {
            Some(sp) => {
                v.push(sp);
                proof {
                    assert(v.deep_view() =~~= before.push(s.0->0));
                }
            },
            None => (),
        }
        i = rr.1;
    }
    v
}

} // verus!
