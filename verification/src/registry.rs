use vstd::prelude::*;

use crate::event::Event;
use crate::event::EventV;
use crate::recorder::Recorder;
use crate::tree::Span;
use crate::tree::SpanV;
use crate::tree::build_forest;
use crate::tree::convert_events_to_span;

verus! {

/// Mathematical model of a retired per-thread log.
#[verifier::ext_equal]
pub ghost struct ThreadLogV {
    pub id: usize,
    pub name: Option<Seq<char>>,
    pub events: Seq<EventV>,
}

/// One retired recording: the raw event log a thread had accumulated when it
/// was committed, together with the thread's id and optional name.
#[derive(Debug)]
pub struct ThreadLog {
    /// The retiring thread's id.
    pub id: usize,
    /// The retiring thread's name, when it had one.
    pub name: Option<String>,
    /// The thread's raw event log, moved here unchanged.
    pub events: Vec<Event>,
}

impl DeepView for ThreadLog {
    type V = ThreadLogV;

    open spec fn deep_view(&self) -> ThreadLogV {
        ThreadLogV {
            id: self.id,
            name: match self.name {
                Some(ref n) => Some(n@),
                None => None,
            },
            events: self.events.deep_view(),
        }
    }
}

/// Mathematical model of a [`Thread`].
#[verifier::ext_equal]
pub ghost struct ThreadV {
    pub id: usize,
    pub name: Option<Seq<char>>,
    pub spans: Seq<SpanV>,
}

/// A collection of spans that happened on a single thread.
#[derive(Debug, PartialEq)]
pub struct Thread {
    /// The thread's id.
    pub id: usize,
    /// The thread's name, when it had one.
    pub name: Option<String>,
    /// The thread's reconstructed top-level forest, in log order.
    pub spans: Vec<Span>,
}

impl DeepView for Thread {
    type V = ThreadV;

    open spec fn deep_view(&self) -> ThreadV {
        ThreadV {
            id: self.id,
            name: match self.name {
                Some(ref n) => Some(n@),
                None => None,
            },
            spans: self.spans.deep_view(),
        }
    }
}

/// The process-wide store of retired per-thread event logs: an append log in
/// retirement order, with repeated retirements of one thread id kept as
/// separate entries.  Callers serialize access to it; the library itself
/// never blocks.
#[derive(Debug)]
pub struct Registry {
    /// Retired logs, in retirement order.
    pub entries: Vec<ThreadLog>,
}

impl Registry {
    /// A fresh, empty registry.
    pub fn new() -> (r: Registry)
        ensures
            r.entries@.len() == 0,
    {
        Registry { entries: Vec::new() }
    }
}

/// The `Thread` value a retired log denotes: its forest is rebuilt from its
/// raw events.
pub open spec fn thread_of_log(l: ThreadLogV) -> ThreadV {
    ThreadV { id: l.id, name: l.name, spans: build_forest(l.events) }
}

/// Retires the calling thread's recording now rather than at teardown: moves
/// the accumulated log into the registry (a no-op when nothing was recorded)
/// and leaves a fresh, empty recorder behind.  The caller supplies its thread
/// id and optional name.
pub fn commit_thread(
    rec: &mut Recorder,
    registry: &mut Registry,
    thread_id: usize,
    thread_name: Option<String>,
)
    requires
        old(rec).wf(),
    ensures
        final(rec).wf(),
        final(rec).events@.len() == 0,
        final(rec).open_stack@.len() == 0,
        final(rec).next_id == 0,
        old(rec).events@.len() == 0 ==> final(registry).entries@ == old(registry).entries@,
        old(rec).events@.len() > 0 ==> final(registry).entries.deep_view() == old(
            registry,
        ).entries.deep_view().push(
            ThreadLogV {
                id: thread_id,
                name: match thread_name {
                    Some(n) => Some(n@),
                    None => None,
                },
                events: old(rec).events.deep_view(),
            },
        ),
{
    let mut taken = Recorder::new();
    core::mem::swap(rec, &mut taken);
    if taken.events.len() == 0 {
        return;
    }
    let entry = ThreadLog { id: thread_id, name: thread_name, events: taken.events };
    registry.entries.push(entry);
    proof {
        assert(registry.entries.deep_view() =~~= old(registry).entries.deep_view().push(
            registry.entries.deep_view().last(),
        ));
    }
}

/// Empties the registry and resets the calling thread's own recorder; other
/// threads' in-flight recordings are unaffected and will reappear when they
/// retire.
pub fn clear(rec: &mut Recorder, registry: &mut Registry)
    ensures
        final(rec).wf(),
        final(rec).events@.len() == 0,
        final(rec).open_stack@.len() == 0,
        final(rec).next_id == 0,
        final(registry).entries@.len() == 0,
{
    *rec = Recorder::new();
    registry.entries.clear();
}

/// The forest of spans the calling thread's current log denotes; spans still
/// open are not part of it.
pub fn spans(rec: &Recorder) -> (out: Vec<Span>)
    ensures
        out.deep_view() == build_forest(rec.events.deep_view()),
{
    convert_events_to_span(&rec.events)
}

/// Copies an optional thread name, preserving its value.
fn clone_opt_name(name: &Option<String>) -> (r: Option<String>)
    ensures
        match (r, name) {
            (Some(a), Some(b)) => a@ == b@,
            (None, None) => true,
            _ => false,
        },
{
    match name {
        Some(n) => Some(n.clone()),
        None => None,
    }
}

/// A `Thread` value for every retired entry plus the caller's own live,
/// tree-built spans; the caller's own thread is always first.  The caller
/// supplies its thread id and optional name.
pub fn threads(rec: &Recorder, registry: &Registry, my_id: usize, my_name: Option<String>) -> (out:
    Vec<Thread>)
    ensures
        out.deep_view().len() == registry.entries@.len() + 1,
        out.deep_view()[0] == (ThreadV {
            id: my_id,
            name: match my_name {
                Some(n) => Some(n@),
                None => None,
            },
            spans: build_forest(rec.events.deep_view()),
        }),
        forall|i: int|
            1 <= i <= registry.entries@.len() ==> out.deep_view()[i] == thread_of_log(
                registry.entries.deep_view()[i - 1],
            ),
{
    let my_spans = convert_events_to_span(&rec.events);
    let mut out: Vec<Thread> = Vec::new();
    out.push(Thread { id: my_id, name: my_name, spans: my_spans });
    let mut i: usize = 0;
    while i < registry.entries.len()
        invariant
            i <= registry.entries@.len(),
            out.deep_view().len() == i + 1,
            out.deep_view()[0] == (ThreadV {
                id: my_id,
                name: match my_name {
                    Some(n) => Some(n@),
                    None => None,
                },
                spans: build_forest(rec.events.deep_view()),
            }),
            forall|k: int|
                1 <= k <= i ==> out.deep_view()[k] == thread_of_log(
                    registry.entries.deep_view()[k - 1],
                ),
        decreases registry.entries@.len() - i,
    {
        let entry = &registry.entries[i];
        let entry_spans = convert_events_to_span(&entry.events);
        let name = clone_opt_name(&entry.name);
        let ghost prev = out.deep_view();
        out.push(Thread { id: entry.id, name, spans: entry_spans });
        i = i + 1;
        proof {
            assert forall|k: int|
                1 <= k <= i implies out.deep_view()[k] == thread_of_log(
                registry.entries.deep_view()[k - 1],
            ) by {
                if k == i {
                    assert(out.deep_view()[k] =~~= thread_of_log(
                        registry.entries.deep_view()[k - 1],
                    ));
                } else {
                    assert(out.deep_view()[k] == prev[k]);
                }
            }
        }
    }
    out
}

} // verus!
