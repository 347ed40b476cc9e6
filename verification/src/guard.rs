use vstd::prelude::*;

use crate::recorder::RecordError;
use crate::recorder::Recorder;
use crate::recorder::end_impl;
use crate::recorder::end_spec;
use crate::recorder::start;

verus! {

/// A scoped handle for one started span.  Closing consumes the guard, so a
/// span can never be closed twice through it; a host-side wrapper may close
/// it on scope exit.
pub struct SpanGuard {
    /// The name the span was started under; the eventual close uses it.
    pub name: String,
    /// Whether the eventual close will mark the span collapse-eligible.
    pub collapse: bool,
}

/// Starts a span named `name` at `now_ns` and returns the guard that will
/// close it.
pub fn start_guard(rec: &mut Recorder, name: String, now_ns: u64) -> (g: SpanGuard)
    requires
        old(rec).wf(),
        old(rec).events@.len() < u32::MAX,
    ensures
        final(rec).wf(),
        final(rec).events.deep_view() == old(rec).events.deep_view().push(
            old(rec).fresh_event(name@, now_ns),
        ),
        final(rec).open_stack@ == old(rec).open_stack@.push(old(rec).next_id),
        final(rec).next_id == old(rec).next_id + 1,
        g.name@ == name@,
        g.collapse == false,
{
    let guard_name = name.clone();
    start(rec, name, now_ns);
    SpanGuard { name: guard_name, collapse: false }
}

impl SpanGuard {
    /// Closes the guarded span at `now_ns`, exactly once: the guard is
    /// consumed.
    pub fn end(self, rec: &mut Recorder, now_ns: u64) -> (r: Result<u64, RecordError>)
        requires
            old(rec).wf(),
            old(rec).open_stack@.len() > 0 && old(rec).events@[old(
                rec,
            ).open_stack@.last() as int].name@ == self.name@ ==> now_ns >= old(rec).top_start_ns(),
        ensures
            final(rec).wf(),
            end_spec(*old(rec), self.name@, self.collapse, now_ns, *final(rec), r),
    {
        end_impl(rec, &self.name, self.collapse, now_ns)
    }

    /// Closes the guarded span at `now_ns` and marks it collapse-eligible:
    /// when the tree is built it may merge into an identically named,
    /// identically deep immediately preceding sibling.  Consumes the guard.
    pub fn end_collapse(self, rec: &mut Recorder, now_ns: u64) -> (r: Result<u64, RecordError>)
        requires
            old(rec).wf(),
            old(rec).open_stack@.len() > 0 && old(rec).events@[old(
                rec,
            ).open_stack@.last() as int].name@ == self.name@ ==> now_ns >= old(rec).top_start_ns(),
        ensures
            final(rec).wf(),
            end_spec(*old(rec), self.name@, true, now_ns, *final(rec), r),
    {
        end_impl(rec, &self.name, true, now_ns)
    }
}

} // verus!
