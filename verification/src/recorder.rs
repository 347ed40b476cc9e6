use vstd::prelude::*;

use crate::event::Event;
use crate::event::EventV;
use crate::event::Note;
use crate::event::NoteV;

verus! {

/// A caller broke the stack discipline: spans must be closed in strict LIFO
/// order, by name, and notes need an open span.
#[derive(Clone, Copy, Debug, PartialEq, Eq, Structural)]
pub enum RecordError {
    /// `end` or `note` was called while no span was open.
    NoOpenSpan,
    /// `end` was called with a name that differs from the innermost open
    /// span's name.
    NameMismatch,
}

/// Per-thread recording state: an append-only event log and the stack of
/// currently open span ids.  Timestamps are supplied by the caller as
/// nanoseconds since the thread's epoch.
#[derive(Debug)]
pub struct Recorder {
    /// The id the next `start` will allocate; equals the log's length.
    pub next_id: u32,
    /// The append-only event log, ordered by id.
    pub events: Vec<Event>,
    /// Ids of the currently open spans, innermost last.
    pub open_stack: Vec<u32>,
}

impl Recorder {
    /// Structural well-formedness: ids are the log positions, the open stack
    /// points at open events in strictly increasing order, and parents appear
    /// earlier in the log than their children.
    pub open spec fn wf(self) -> bool {
        &&& self.next_id == self.events@.len()
        &&& forall|i: int|
            0 <= i < self.events@.len() ==> (#[trigger] self.events@[i]).id == i as u32
        &&& forall|k: int|
            0 <= k < self.open_stack@.len() ==> (#[trigger] self.open_stack@[k]) < self.events@.len()
        &&& forall|k: int|
            0 <= k < self.open_stack@.len() ==> self.events@[#[trigger] self.open_stack@[k] as int].end_ns is None
        &&& forall|k1: int, k2: int|
            0 <= k1 < k2 < self.open_stack@.len() ==> self.open_stack@[k1] < self.open_stack@[k2]
        &&& forall|i: int|
            0 <= i < self.events@.len() && (#[trigger] self.events@[i]).parent is Some
                ==> self.events@[i].parent->0 < i as u32
        &&& forall|i: int|
            0 <= i < self.events@.len()
                ==> ((#[trigger] self.events@[i]).end_ns is Some <==> self.events@[i].delta is Some)
    }

    /// A fresh recorder: empty log, no open spans, ids restart at zero.
    pub fn new() -> (r: Recorder)
        ensures
            r.wf(),
            r.events@.len() == 0,
            r.open_stack@.len() == 0,
            r.next_id == 0,
    {
        Recorder { next_id: 0, events: Vec::new(), open_stack: Vec::new() }
    }

    /// The start timestamp of the innermost open span, or zero if none is
    /// open.  A clock that feeds `end` must not run behind this value.
    pub fn open_top_start_ns(&self) -> (r: u64)
        requires
            self.wf(),
        ensures
            r == self.top_start_ns(),
    {
        if self.open_stack.len() > 0 {
            let id = self.open_stack[self.open_stack.len() - 1];
            self.events[id as usize].start_ns
        } else {
            0
        }
    }

    /// Start timestamp of the innermost open span, zero when none is open.
    pub open spec fn top_start_ns(self) -> u64 {
        if self.open_stack@.len() > 0 {
            self.events@[self.open_stack@.last() as int].start_ns
        } else {
            0
        }
    }

    /// The event the next successful `start` will append.
    pub open spec fn fresh_event(self, name: Seq<char>, now_ns: u64) -> EventV {
        EventV {
            id: self.events@.len() as u32,
            parent: if self.open_stack@.len() > 0 {
                Some(self.open_stack@.last())
            } else {
                None
            },
            name: name,
            collapse: false,
            start_ns: now_ns,
            end_ns: None,
            delta: None,
            notes: Seq::empty(),
        }
    }
}

/// Starts a new span named `name` at `now_ns` nanoseconds since the thread's
/// epoch: allocates the next id, records the innermost open span as parent,
/// appends the open event to the log and pushes it onto the open stack.
pub fn start(rec: &mut Recorder, name: String, now_ns: u64)
    requires
        old(rec).wf(),
        old(rec).events@.len() < u32::MAX,
    ensures
        final(rec).wf(),
        final(rec).events.deep_view() == old(rec).events.deep_view().push(
            old(rec).fresh_event(name@, now_ns),
        ),
        final(rec).open_stack@ == old(rec).open_stack@.push(old(rec).next_id),
        final(rec).next_id == old(rec).next_id + 1,
{
    let id = rec.next_id;
    rec.next_id = rec.next_id + 1;
    let parent = if rec.open_stack.len() > 0 {
        Some(rec.open_stack[rec.open_stack.len() - 1])
    } else {
        None
    };
    let this = Event {
        id,
        parent,
        name,
        collapse: false,
        start_ns: now_ns,
        end_ns: None,
        delta: None,
        notes: Vec::new(),
    };
    rec.events.push(this);
    rec.open_stack.push(id);
    proof {
        assert(rec.events.deep_view() =~~= old(rec).events.deep_view().push(
            old(rec).fresh_event(name@, now_ns),
        ));
    }
}

/// What a successful close at `now_ns` does to the innermost open event:
/// stamps the end, stores the elapsed delta and the collapse request.
pub open spec fn closed_event(e: EventV, collapse: bool, now_ns: u64) -> EventV {
    EventV {
        collapse: collapse,
        end_ns: Some(now_ns),
        delta: Some((now_ns - e.start_ns) as u64),
        ..e
    }
}

/// Closes the innermost open span.  Fails with `NoOpenSpan` when the stack is
/// empty and with `NameMismatch` when the innermost open span is not named
/// `name`; either failure leaves the recorder unchanged.  On success the span
/// is popped, stamped with `now_ns` and its delta, and the delta is returned.
pub(crate) fn end_impl(rec: &mut Recorder, name: &String, collapse: bool, now_ns: u64) -> (r: Result<
    u64,
    RecordError,
>)
    requires
        old(rec).wf(),
        old(rec).open_stack@.len() > 0 && old(rec).events@[old(rec).open_stack@.last() as int].name@
            == name@ ==> now_ns >= old(rec).top_start_ns(),
    ensures
        final(rec).wf(),
        end_spec(*old(rec), name@, collapse, now_ns, *final(rec), r),
{
    if rec.open_stack.len() == 0 {
        return Err(RecordError::NoOpenSpan);
    }
    let current_id = rec.open_stack[rec.open_stack.len() - 1];
    let matches_name = {
        let event = &rec.events[current_id as usize];
        event.name == *name
    };
    if !matches_name {
        return Err(RecordError::NameMismatch);
    }
    let _popped = rec.open_stack.pop();
    let ghost top = old(rec).open_stack@.last() as int;
    let mut event = rec.events.remove(current_id as usize);
    let delta = now_ns - event.start_ns;
    event.end_ns = Some(now_ns);
    event.collapse = collapse;
    event.delta = Some(delta);
    rec.events.insert(current_id as usize, event);
    proof {
        assert(rec.events.deep_view() =~= old(rec).events.deep_view().update(
            top,
            closed_event(old(rec).events.deep_view()[top], collapse, now_ns),
        ));
        assert forall|k1: int, k2: int|
            0 <= k1 < k2 < rec.open_stack@.len() implies rec.open_stack@[k1]
            < rec.open_stack@[k2] by {
            assert(rec.open_stack@[k1] == old(rec).open_stack@[k1]);
            assert(rec.open_stack@[k2] == old(rec).open_stack@[k2]);
        }
    }
    Ok(delta)
}

/// Closes the innermost open span named `name` and returns the elapsed
/// nanoseconds.
pub fn end(rec: &mut Recorder, name: &String, now_ns: u64) -> (r: Result<u64, RecordError>)
    requires
        old(rec).wf(),
        old(rec).open_stack@.len() > 0 && old(rec).events@[old(rec).open_stack@.last() as int].name@
            == name@ ==> now_ns >= old(rec).top_start_ns(),
    ensures
        final(rec).wf(),
        end_spec(*old(rec), name@, false, now_ns, *final(rec), r),
{
    end_impl(rec, name, false, now_ns)
}

/// Closes the innermost open span like [`end`], marking it eligible to
/// collapse into an identically named, identically deep immediately preceding
/// sibling when the tree is built.
pub fn end_collapse(rec: &mut Recorder, name: &String, now_ns: u64) -> (r: Result<
    u64,
    RecordError,
>)
    requires
        old(rec).wf(),
        old(rec).open_stack@.len() > 0 && old(rec).events@[old(rec).open_stack@.last() as int].name@
            == name@ ==> now_ns >= old(rec).top_start_ns(),
    ensures
        final(rec).wf(),
        end_spec(*old(rec), name@, true, now_ns, *final(rec), r),
{
    end_impl(rec, name, true, now_ns)
}

/// Closes the innermost open span like [`end`] and hands `result` back
/// unchanged; useful where wrapping a returned expression is easier than
/// binding it.
pub fn end_with<R>(rec: &mut Recorder, name: &String, now_ns: u64, result: R) -> (r: (
    Result<u64, RecordError>,
    R,
))
    requires
        old(rec).wf(),
        old(rec).open_stack@.len() > 0 && old(rec).events@[old(rec).open_stack@.last() as int].name@
            == name@ ==> now_ns >= old(rec).top_start_ns(),
    ensures
        final(rec).wf(),
        end_spec(*old(rec), name@, false, now_ns, *final(rec), r.0),
        r.1 == result,
{
    let e = end_impl(rec, name, false, now_ns);
    (e, result)
}

/// Full specification of a close: relates the recorder before and after an
/// `end`-family call and its result.
pub open spec fn end_spec(
    pre: Recorder,
    name: Seq<char>,
    collapse: bool,
    now_ns: u64,
    post: Recorder,
    r: Result<u64, RecordError>,
) -> bool {
    &&& pre.open_stack@.len() == 0 ==> r == Err::<u64, RecordError>(RecordError::NoOpenSpan) && post
        == pre
    &&& pre.open_stack@.len() > 0 && pre.events@[pre.open_stack@.last() as int].name@ != name ==> r
        == Err::<u64, RecordError>(RecordError::NameMismatch) && post == pre
    &&& pre.open_stack@.len() > 0 && pre.events@[pre.open_stack@.last() as int].name@ == name ==> {
        let top = pre.open_stack@.last() as int;
        let e = pre.events.deep_view()[top];
        &&& r == Ok::<u64, RecordError>((now_ns - e.start_ns) as u64)
        &&& post.events.deep_view() == pre.events.deep_view().update(
            top,
            closed_event(e, collapse, now_ns),
        )
        &&& post.open_stack@ == pre.open_stack@.drop_last()
        &&& post.next_id == pre.next_id
    }
}

/// Records a note on the innermost open span, stamped `now_ns`.  Fails with
/// `NoOpenSpan`, leaving the recorder unchanged, when no span is open.
pub fn note(rec: &mut Recorder, name: String, description: Option<String>, now_ns: u64) -> (r:
    Result<(), RecordError>)
    requires
        old(rec).wf(),
    ensures
        final(rec).wf(),
        old(rec).open_stack@.len() == 0 ==> r == Err::<(), RecordError>(RecordError::NoOpenSpan)
            && *final(rec) == *old(rec),
        old(rec).open_stack@.len() > 0 ==> {
            let top = old(rec).open_stack@.last() as int;
            let e = old(rec).events.deep_view()[top];
            &&& r == Ok::<(), RecordError>(())
            &&& final(rec).events.deep_view() == old(rec).events.deep_view().update(
                top,
                EventV {
                    notes: e.notes.push(
                        NoteV {
                            name: name@,
                            description: match description {
                                Some(d) => Some(d@),
                                None => None,
                            },
                            instant: now_ns,
                        },
                    ),
                    ..e
                },
            )
            &&& final(rec).open_stack@ == old(rec).open_stack@
            &&& final(rec).next_id == old(rec).next_id
        },
{
    if rec.open_stack.len() == 0 {
        return Err(RecordError::NoOpenSpan);
    }
    let current_id = rec.open_stack[rec.open_stack.len() - 1];
    let ghost top = old(rec).open_stack@.last() as int;
    let mut event = rec.events.remove(current_id as usize);
    event.notes.push(Note { name, description, instant: now_ns });
    rec.events.insert(current_id as usize, event);
    proof {
        let e = old(rec).events.deep_view()[top];
        assert(rec.events.deep_view() =~~= old(rec).events.deep_view().update(
            top,
            EventV {
                notes: e.notes.push(rec.events.deep_view()[top].notes.last()),
                ..e
            },
        ));
    }
    Ok(())
}

} // verus!
