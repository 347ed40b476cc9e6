//! An in-process instrumentation library: callers mark the start and end of
//! named, possibly nested, timed intervals ("spans"), and the library
//! reconstructs a per-thread hierarchical call tree from the flat event log.
//!
//! Timestamps enter as plain nanosecond counts since a per-thread epoch, so
//! the whole recording state machine, the tree builder with its
//! sibling-collapse rule, and the cross-thread registry are verified; a host
//! wrapper owns the clock, the thread-local state and the lock around the
//! shared registry.

use vstd::prelude::*;

pub mod event;
pub mod guard;
pub mod laws;
pub mod recorder;
pub mod registry;
pub mod speedscope;
pub mod tree;

verus! {

pub use crate::event::Event;
pub use crate::event::Note;
pub use crate::guard::SpanGuard;
pub use crate::guard::start_guard;
pub use crate::recorder::RecordError;
pub use crate::recorder::Recorder;
pub use crate::recorder::end;
pub use crate::recorder::end_collapse;
pub use crate::recorder::end_with;
pub use crate::recorder::note;
pub use crate::recorder::start;
pub use crate::registry::Registry;
pub use crate::registry::Thread;
pub use crate::registry::ThreadLog;
pub use crate::registry::clear;
pub use crate::registry::commit_thread;
pub use crate::registry::spans;
pub use crate::registry::threads;
pub use crate::speedscope::SpeedscopeFile;
pub use crate::speedscope::spans_to_speedscope;
pub use crate::tree::Span;
pub use crate::tree::convert_events_to_span;
pub use crate::tree::event_to_span;

} // verus!
