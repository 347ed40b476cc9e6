use vstd::prelude::*;

verus! {

/// Mathematical model of a [`Note`].
#[verifier::ext_equal]
pub ghost struct NoteV {
    pub name: Seq<char>,
    pub description: Option<Seq<char>>,
    pub instant: u64,
}

/// Mathematical model of an [`Event`].
#[verifier::ext_equal]
pub ghost struct EventV {
    pub id: u32,
    pub parent: Option<u32>,
    pub name: Seq<char>,
    pub collapse: bool,
    pub start_ns: u64,
    pub end_ns: Option<u64>,
    pub delta: Option<u64>,
    pub notes: Seq<NoteV>,
}

/// A point-in-time annotation attached to the span that was open when it was
/// recorded.
#[derive(Debug, PartialEq)]
pub struct Note {
    /// A short name describing what happened at some instant in time.
    pub name: String,
    /// A longer description.
    pub description: Option<String>,
    /// The time that the note was added, in nanoseconds since the thread's
    /// epoch.
    pub instant: u64,
}

impl DeepView for Note {
    type V = NoteV;

    open spec fn deep_view(&self) -> NoteV {
        NoteV {
            name: self.name@,
            description: match self.description {
                Some(ref d) => Some(d@),
                None => None,
            },
            instant: self.instant,
        }
    }
}

impl Clone for Note {
    /// Cloning preserves the note's value.
    fn clone(&self) -> (r: Self)
        ensures
            r.deep_view() == self.deep_view(),
    {
        Note {
            name: self.name.clone(),
            description: match self.description {
                Some(ref d) => Some(d.clone()),
                None => None,
            },
            instant: self.instant,
        }
    }
}

/// A flat, append-only record of one start/end pair before tree
/// reconstruction.  One thread's log is an ordered sequence of these.
#[derive(Debug)]
pub struct Event {
    /// Unique within a thread's log, monotonically increasing from zero.
    pub id: u32,
    /// Id of the innermost span that was still open when this event started,
    /// or `None` if this event is top-level.
    pub parent: Option<u32>,
    /// The label of the span, compared by value.
    pub name: String,
    /// Whether this event requested collapsing with a preceding sibling.
    pub collapse: bool,
    /// Nanoseconds since the thread's epoch at which the span was opened.
    pub start_ns: u64,
    /// Nanoseconds since the thread's epoch at which the span was closed;
    /// absent while the span is still open.
    pub end_ns: Option<u64>,
    /// `end_ns - start_ns`, present only once the span is closed.
    pub delta: Option<u64>,
    /// Ordered point-in-time annotations recorded while this span was the
    /// innermost open one.
    pub notes: Vec<Note>,
}

impl DeepView for Event {
    type V = EventV;

    open spec fn deep_view(&self) -> EventV {
        EventV {
            id: self.id,
            parent: self.parent,
            name: self.name@,
            collapse: self.collapse,
            start_ns: self.start_ns,
            end_ns: self.end_ns,
            delta: self.delta,
            notes: self.notes.deep_view(),
        }
    }
}

/// Copies an ordered list of notes, preserving its value.
pub fn clone_notes(notes: &Vec<Note>) -> (r: Vec<Note>)
    ensures
        r.deep_view() == notes.deep_view(),
{
    let mut r: Vec<Note> = Vec::new();
    let mut i: usize = 0;
    while i < notes.len()
        invariant
            i <= notes.len(),
            r@.len() == i,
            forall|k: int| 0 <= k < i ==> r.deep_view()[k] == notes.deep_view()[k],
        decreases notes.len() - i,
    {
        let n = notes[i].clone();
        proof {
            assert(n.deep_view() == notes@[i as int].deep_view());
        }
        r.push(n);
        i = i + 1;
    }
    proof {
        assert(r.deep_view() =~= notes.deep_view());
    }
    r
}

} // verus!
