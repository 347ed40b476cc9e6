use vstd::prelude::*;

use crate::event::EventV;
use crate::tree::SpanV;
use crate::tree::advance;
use crate::tree::append_or_collapse;
use crate::tree::build_forest;
use crate::tree::can_collapse;
use crate::tree::children_at;
use crate::tree::forest_at;
use crate::tree::lemma_children_at_bounds;
use crate::tree::lemma_span_at_bounds;
use crate::tree::opt_append;
use crate::tree::span_at;

verus! {

/// The tree builder is a pure function of the event log: building the same
/// closed log twice yields identical forests.
pub proof fn lemma_tree_builder_deterministic(log_a: Seq<EventV>, log_b: Seq<EventV>)
    requires
        log_a == log_b,
    ensures
        build_forest(log_a) == build_forest(log_b),
{
}

/// An empty log builds an empty forest; after a clear, the spans are empty.
pub proof fn lemma_empty_log_empty_forest(events: Seq<EventV>)
    requires
        events.len() == 0,
    ensures
        build_forest(events) == Seq::<SpanV>::empty(),
{
}

/// Number of nodes in one span tree.
pub open spec fn count_span(s: SpanV) -> nat
    decreases s, 1int,
{
    1 + count_spans(s.children)
}

/// Number of nodes in a forest, all depths counted.
pub open spec fn count_spans(ss: Seq<SpanV>) -> nat
    decreases ss, 0int,
{
    if ss.len() <= 0 {
        0
    } else {
        count_spans(ss.subrange(0, ss.len() - 1)) + count_span(ss[ss.len() - 1])
    }
}

/// A log in which every span was closed by a plain `end`: both end fields
/// set and no collapse requests.
pub open spec fn all_closed_plain(events: Seq<EventV>) -> bool {
    forall|k: int|
        0 <= k < events.len() ==> (#[trigger] events[k]).end_ns is Some && events[k].delta is Some
            && !events[k].collapse
}

proof fn lemma_count_spans_push(ss: Seq<SpanV>, c: SpanV)
    ensures
        count_spans(ss.push(c)) == count_spans(ss) + count_span(c),
{
    assert(ss.push(c).subrange(0, ss.push(c).len() - 1) =~= ss);
    assert(ss.push(c)[ss.push(c).len() - 1] == c);
}

proof fn lemma_span_at_count(events: Seq<EventV>, i: int, depth: u16)
    requires
        all_closed_plain(events),
        0 <= i < events.len(),
    ensures
        span_at(events, i, depth).0 is Some,
        count_span(span_at(events, i, depth).0->0) == span_at(events, i, depth).1 - i,
        i < span_at(events, i, depth).1 <= events.len(),
    decreases events.len() - i, 1int,
{
    lemma_span_at_bounds(events, i, depth);
    let e = events[i];
    lemma_children_at_count(
        events,
        i + 1,
        e.id,
        crate::tree::depth_succ(depth),
        Seq::empty(),
    );
}

proof fn lemma_children_at_count(
    events: Seq<EventV>,
    j: int,
    pid: u32,
    depth: u16,
    acc: Seq<SpanV>,
)
    requires
        all_closed_plain(events),
        0 <= j <= events.len(),
    ensures
        count_spans(children_at(events, j, pid, depth, acc).0) == count_spans(acc) + (children_at(
            events,
            j,
            pid,
            depth,
            acc,
        ).1 - j),
        j <= children_at(events, j, pid, depth, acc).1 <= events.len(),
    decreases events.len() - j, 2int,
{
    lemma_children_at_bounds(events, j, pid, depth, acc);
    if j < events.len() && events[j].parent == Some(pid) {
        lemma_span_at_count(events, j, depth);
        let r = span_at(events, j, depth);
        let c = r.0->0;
        assert(!c.collapsable);
        assert(!can_collapse(acc, c));
        lemma_count_spans_push(acc, c);
        let j3 = advance(j, r.1, events.len() as int);
        lemma_children_at_count(events, j3, pid, depth, opt_append(acc, r.0));
    }
}

proof fn lemma_forest_at_count(events: Seq<EventV>, i: int, acc: Seq<SpanV>)
    requires
        all_closed_plain(events),
        0 <= i <= events.len(),
    ensures
        count_spans(forest_at(events, i, acc)) == count_spans(acc) + (events.len() - i),
    decreases events.len() - i,
{
    if i < events.len() {
        lemma_span_at_count(events, i, 0);
        let r = span_at(events, i, 0);
        lemma_count_spans_push(acc, r.0->0);
        let j3 = advance(i, r.1, events.len() as int);
        lemma_forest_at_count(events, j3, acc.push(r.0->0));
    }
}

/// For every well-formed, fully matched start/end log closed without
/// collapse requests, the forest's total node count, all depths included,
/// equals the number of matched start/end pairs, that is the number of
/// events.
pub proof fn lemma_forest_node_count(events: Seq<EventV>)
    requires
        all_closed_plain(events),
    ensures
        count_spans(build_forest(events)) == events.len(),
{
    lemma_forest_at_count(events, 0, Seq::empty());
}

/// One node of the forest took its name and start from a closed event of
/// the log, and so did, recursively, each of its children.
pub open spec fn node_from_closed(events: Seq<EventV>, s: SpanV) -> bool
    decreases s, 1int,
{
    &&& exists|k: int|
        0 <= k < events.len() && (#[trigger] events[k]).end_ns is Some && events[k].name == s.name
            && events[k].start_ns == s.start_ns
    &&& nodes_from_closed(events, s.children)
}

/// Every node of the forest, at every depth, took its name and start from a
/// closed event of the log.
pub open spec fn nodes_from_closed(events: Seq<EventV>, ss: Seq<SpanV>) -> bool
    decreases ss, 0int,
{
    if ss.len() <= 0 {
        true
    } else {
        nodes_from_closed(events, ss.subrange(0, ss.len() - 1)) && node_from_closed(
            events,
            ss[ss.len() - 1],
        )
    }
}

proof fn lemma_nodes_from_closed_index(events: Seq<EventV>, ss: Seq<SpanV>)
    ensures
        nodes_from_closed(events, ss) <==> (forall|i: int|
            0 <= i < ss.len() ==> node_from_closed(events, #[trigger] ss[i])),
    decreases ss.len(),
{
    if ss.len() > 0 {
        let head = ss.subrange(0, ss.len() - 1);
        lemma_nodes_from_closed_index(events, head);
        assert forall|i: int| 0 <= i < head.len() implies head[i] == ss[i] by {}
    }
}

proof fn lemma_nodes_from_append(events: Seq<EventV>, acc: Seq<SpanV>, c: SpanV)
    requires
        nodes_from_closed(events, acc),
        node_from_closed(events, c),
    ensures
        nodes_from_closed(events, append_or_collapse(acc, c)),
{
    lemma_nodes_from_closed_index(events, acc);
    if can_collapse(acc, c) {
        let last = acc.last();
        let merged = crate::tree::merge_into_last(last, c);
        assert(merged.name == last.name && merged.start_ns == last.start_ns && merged.children
            == last.children);
        assert(node_from_closed(events, merged));
        lemma_nodes_from_closed_index(events, acc.update(acc.len() - 1, merged));
    } else {
        lemma_nodes_from_closed_index(events, acc.push(c));
    }
}

proof fn lemma_span_at_from_closed(events: Seq<EventV>, i: int, depth: u16)
    requires
        0 <= i < events.len(),
    ensures
        span_at(events, i, depth).0 is Some ==> node_from_closed(
            events,
            span_at(events, i, depth).0->0,
        ),
    decreases events.len() - i, 1int,
{
    let e = events[i];
    if e.end_ns is Some && e.delta is Some {
        lemma_children_at_from_closed(
            events,
            i + 1,
            e.id,
            crate::tree::depth_succ(depth),
            Seq::empty(),
        );
        let c = span_at(events, i, depth).0->0;
        assert(events[i].end_ns is Some && events[i].name == c.name && events[i].start_ns
            == c.start_ns);
    }
}

proof fn lemma_children_at_from_closed(
    events: Seq<EventV>,
    j: int,
    pid: u32,
    depth: u16,
    acc: Seq<SpanV>,
)
    requires
        0 <= j <= events.len(),
        nodes_from_closed(events, acc),
    ensures
        nodes_from_closed(events, children_at(events, j, pid, depth, acc).0),
    decreases events.len() - j, 2int,
{
    if j < events.len() && events[j].parent == Some(pid) {
        lemma_span_at_bounds(events, j, depth);
        lemma_span_at_from_closed(events, j, depth);
        let r = span_at(events, j, depth);
        match r.0 {
            Some(c) => lemma_nodes_from_append(events, acc, c),
            None => (),
        }
        let j3 = advance(j, r.1, events.len() as int);
        lemma_children_at_from_closed(events, j3, pid, depth, opt_append(acc, r.0));
    }
}

proof fn lemma_forest_at_from_closed(events: Seq<EventV>, i: int, acc: Seq<SpanV>)
    requires
        0 <= i <= events.len(),
        nodes_from_closed(events, acc),
    ensures
        nodes_from_closed(events, forest_at(events, i, acc)),
    decreases events.len() - i,
{
    if i < events.len() {
        lemma_span_at_bounds(events, i, 0);
        lemma_span_at_from_closed(events, i, 0);
        let r = span_at(events, i, 0);
        let acc2 = match r.0 {
            Some(c) => acc.push(c),
            None => acc,
        };
        match r.0 {
            Some(c) => {
                lemma_nodes_from_closed_index(events, acc);
                lemma_nodes_from_closed_index(events, acc.push(c));
            },
            None => (),
        }
        let j3 = advance(i, r.1, events.len() as int);
        lemma_forest_at_from_closed(events, j3, acc2);
    }
}

/// Unterminated-span exclusion: every node of the built forest, at every
/// depth, comes from an event that was closed; an event started but never
/// ended contributes no node.
pub proof fn lemma_unterminated_excluded(events: Seq<EventV>)
    ensures
        nodes_from_closed(events, build_forest(events)),
{
    lemma_forest_at_from_closed(events, 0, Seq::empty());
}


/// Collapse law: two identically named leaf spans opened and closed back to
/// back as siblings, the second marked collapsible, merge into exactly one
/// node whose duration is the sum of both and whose end is the second
/// span's end.
pub proof fn lemma_collapse_law(parent: EventV, a1: EventV, a2: EventV)
    requires
        parent.id == 0,
        parent.parent is None,
        parent.end_ns is Some,
        parent.delta is Some,
        a1.id == 1,
        a1.parent == Some(0u32),
        a1.end_ns is Some,
        a1.delta is Some,
        a2.id == 2,
        a2.parent == Some(0u32),
        a2.end_ns is Some,
        a2.delta is Some,
        a1.name == a2.name,
        a2.collapse,
    ensures
        ({
            let f = build_forest(seq![parent, a1, a2]);
            &&& f.len() == 1
            &&& f[0].name == parent.name
            &&& f[0].children.len() == 1
            &&& f[0].children[0].name == a1.name
            &&& f[0].children[0].start_ns == a1.start_ns
            &&& f[0].children[0].end_ns == a2.end_ns->0
            &&& f[0].children[0].delta == (a1.delta->0).saturating_add(a2.delta->0)
        }),
{
    let events = seq![parent, a1, a2];
    assert(events[0] == parent && events[1] == a1 && events[2] == a2);
    assert(children_at(events, 2, 1, 2, Seq::<SpanV>::empty()) == (Seq::<SpanV>::empty(), 2int));
    let r1 = span_at(events, 1, 1);
    assert(r1.1 == 2 && r1.0 is Some);
    let c1 = r1.0->0;
    assert(c1.children.len() == 0 && c1.name == a1.name && c1.depth == 1);
    assert(children_at(events, 3, 2, 2, Seq::<SpanV>::empty()) == (Seq::<SpanV>::empty(), 3int));
    let r2 = span_at(events, 2, 1);
    assert(r2.1 == 3 && r2.0 is Some);
    let c2 = r2.0->0;
    assert(c2.children.len() == 0 && c2.name == a2.name && c2.depth == 1 && c2.collapsable);
    let acc1 = opt_append(Seq::<SpanV>::empty(), r1.0);
    assert(acc1 =~= seq![c1]);
    assert(can_collapse(acc1, c2));
    let merged = crate::tree::merge_into_last(c1, c2);
    let acc2 = opt_append(acc1, r2.0);
    assert(acc2 =~= seq![merged]);
    assert(children_at(events, 3, 0, 1, acc2) == (acc2, 3int));
    assert(children_at(events, 2, 0, 1, acc1) == (acc2, 3int));
    assert(children_at(events, 1, 0, 1, Seq::<SpanV>::empty()) == (acc2, 3int));
    let r0 = span_at(events, 0, 0);
    assert(r0.1 == 3 && r0.0 is Some);
    let root = r0.0->0;
    assert(root.children =~= seq![merged]);
    assert(forest_at(events, 3, seq![root]) =~= seq![root]);
    assert(build_forest(events) =~= seq![root]);
}

/// Non-collapse: an intervening differently named sibling between two
/// identically named collapse-marked leaves prevents any merge; all three
/// children stay, in order.
pub proof fn lemma_non_collapse_intervening(parent: EventV, a1: EventV, b: EventV, a2: EventV)
    requires
        parent.id == 0,
        parent.parent is None,
        parent.end_ns is Some,
        parent.delta is Some,
        a1.id == 1,
        a1.parent == Some(0u32),
        a1.end_ns is Some,
        a1.delta is Some,
        b.id == 2,
        b.parent == Some(0u32),
        b.end_ns is Some,
        b.delta is Some,
        a2.id == 3,
        a2.parent == Some(0u32),
        a2.end_ns is Some,
        a2.delta is Some,
        a1.name == a2.name,
        b.name != a1.name,
        a2.collapse,
    ensures
        ({
            let f = build_forest(seq![parent, a1, b, a2]);
            &&& f.len() == 1
            &&& f[0].children.len() == 3
            &&& f[0].children[0].name == a1.name
            &&& f[0].children[0].delta == a1.delta->0
            &&& f[0].children[1].name == b.name
            &&& f[0].children[2].name == a2.name
            &&& f[0].children[2].delta == a2.delta->0
        }),
{
    let events = seq![parent, a1, b, a2];
    assert(events[0] == parent && events[1] == a1 && events[2] == b && events[3] == a2);
    assert(children_at(events, 2, 1, 2, Seq::<SpanV>::empty()) == (Seq::<SpanV>::empty(), 2int));
    let r1 = span_at(events, 1, 1);
    let c1 = r1.0->0;
    assert(r1.1 == 2 && r1.0 is Some);
    assert(children_at(events, 3, 2, 2, Seq::<SpanV>::empty()) == (Seq::<SpanV>::empty(), 3int));
    let rb = span_at(events, 2, 1);
    let cb = rb.0->0;
    assert(rb.1 == 3 && rb.0 is Some);
    assert(children_at(events, 4, 3, 2, Seq::<SpanV>::empty()) == (Seq::<SpanV>::empty(), 4int));
    let r2 = span_at(events, 3, 1);
    let c2 = r2.0->0;
    assert(r2.1 == 4 && r2.0 is Some);
    let acc1 = opt_append(Seq::<SpanV>::empty(), r1.0);
    assert(acc1 =~= seq![c1]);
    assert(!can_collapse(acc1, cb));
    let acc2 = opt_append(acc1, rb.0);
    assert(acc2 =~= seq![c1, cb]);
    assert(acc2.last().name == b.name && c2.name == a2.name);
    assert(!can_collapse(acc2, c2));
    let acc3 = opt_append(acc2, r2.0);
    assert(acc3 =~= seq![c1, cb, c2]);
    assert(children_at(events, 4, 0, 1, acc3) == (acc3, 4int));
    assert(children_at(events, 3, 0, 1, acc2) == (acc3, 4int));
    assert(children_at(events, 2, 0, 1, acc1) == (acc3, 4int));
    assert(children_at(events, 1, 0, 1, Seq::<SpanV>::empty()) == (acc3, 4int));
    let r0 = span_at(events, 0, 0);
    assert(r0.1 == 4 && r0.0 is Some);
    let root = r0.0->0;
    assert(root.children =~= seq![c1, cb, c2]);
    assert(forest_at(events, 4, seq![root]) =~= seq![root]);
    assert(build_forest(events) =~= seq![root]);
}


/// `s` took its name and start from a closed event in `[lo, hi)` whose
/// parent is `pid`: a span opened directly under that parent, after it.
pub open spec fn child_sourced(
    events: Seq<EventV>,
    pid: u32,
    lo: int,
    hi: int,
    s: SpanV,
) -> bool {
    exists|k: int|
        lo <= k < hi && (#[trigger] events[k]).parent == Some(pid) && events[k].end_ns is Some
            && events[k].name == s.name && events[k].start_ns == s.start_ns
}

/// Every span of `ss` is sourced as `child_sourced` says.
pub open spec fn children_sourced(
    events: Seq<EventV>,
    pid: u32,
    lo: int,
    hi: int,
    ss: Seq<SpanV>,
) -> bool {
    forall|m: int| 0 <= m < ss.len() ==> child_sourced(events, pid, lo, hi, #[trigger] ss[m])
}

proof fn lemma_children_at_sourced(
    events: Seq<EventV>,
    j: int,
    pid: u32,
    depth: u16,
    acc: Seq<SpanV>,
    lo: int,
)
    requires
        0 <= lo <= j <= events.len(),
        children_sourced(events, pid, lo, j, acc),
    ensures
        children_sourced(
            events,
            pid,
            lo,
            children_at(events, j, pid, depth, acc).1,
            children_at(events, j, pid, depth, acc).0,
        ),
        j <= children_at(events, j, pid, depth, acc).1 <= events.len(),
    decreases events.len() - j, 2int,
{
    lemma_children_at_bounds(events, j, pid, depth, acc);
    if j < events.len() && events[j].parent == Some(pid) {
        lemma_span_at_bounds(events, j, depth);
        let r = span_at(events, j, depth);
        let j3 = advance(j, r.1, events.len() as int);
        let acc2 = opt_append(acc, r.0);
        assert(children_sourced(events, pid, lo, j3, acc2)) by {
            assert forall|m: int| 0 <= m < acc2.len() implies child_sourced(
                events,
                pid,
                lo,
                j3,
                acc2[m],
            ) by {
                match r.0 {
                    Some(c) => {
                        assert(c.name == events[j].name && c.start_ns == events[j].start_ns);
                        if can_collapse(acc, c) {
                            if m < acc.len() - 1 {
                                assert(acc2[m] == acc[m]);
                            } else {
                                let merged = crate::tree::merge_into_last(acc.last(), c);
                                assert(acc2[m] == merged);
                                assert(merged.name == acc.last().name && merged.start_ns
                                    == acc.last().start_ns);
                                assert(child_sourced(events, pid, lo, j, acc.last()));
                            }
                        } else {
                            if m < acc.len() {
                                assert(acc2[m] == acc[m]);
                            } else {
                                assert(acc2[m] == c);
                            }
                        }
                    },
                    None => {
                        assert(acc2[m] == acc[m]);
                    },
                }
            }
        }
        lemma_children_at_sourced(events, j3, pid, depth, acc2, lo);
    }
}

/// Each node's direct children are spans opened directly under it: every
/// child of the node built for the closed event at `i` takes its name and
/// start from a later event whose parent is that event's id, inside the
/// block of events the node consumed.
pub proof fn lemma_children_have_matching_parent(events: Seq<EventV>, i: int, depth: u16)
    requires
        0 <= i < events.len(),
        span_at(events, i, depth).0 is Some,
    ensures
        children_sourced(
            events,
            events[i].id,
            i + 1,
            span_at(events, i, depth).1,
            span_at(events, i, depth).0->0.children,
        ),
{
    let e = events[i];
    lemma_children_at_sourced(
        events,
        i + 1,
        e.id,
        crate::tree::depth_succ(depth),
        Seq::empty(),
        i + 1,
    );
}


} // verus!
