use vstd::prelude::*;

use crate::tree::Span;
use crate::tree::SpanV;
use crate::tree::lemma_spans_view_len;
use crate::tree::spans_view;
use indexmap::IndexSet;
use std::collections::hash_map::RandomState;

verus! {

/// What a frame-table entry holds, as plain values: the interned name and the
/// optional source location.
pub type FrameKey = (Seq<char>, Option<Seq<char>>, Option<u32>, Option<u32>);

/// A deduplicated, interned span name, used as an index in exported
/// visualization data.  The source-location fields stay empty here; the
/// schema has room for them.
#[derive(Debug, Clone, PartialEq, Eq, Hash)]
pub struct Frame {
    /// The span name this frame stands for.
    pub name: String,
    /// Source file, unused by this exporter.
    pub file: Option<String>,
    /// Source line, unused by this exporter.
    pub line: Option<u32>,
    /// Source column, unused by this exporter.
    pub col: Option<u32>,
}

impl DeepView for Frame {
    type V = FrameKey;

    open spec fn deep_view(&self) -> FrameKey {
        (
            self.name@,
            match self.file {
                Some(ref f) => Some(f@),
                None => None,
            },
            self.line,
            self.col,
        )
    }
}

/// The key a span name is interned under.
pub open spec fn frame_key_of_name(n: Seq<char>) -> FrameKey {
    (n, None, None, None)
}

impl Frame {
    /// A frame for a bare span name, with no source location.
    pub fn new(name: String) -> (f: Frame)
        ensures
            f.deep_view() == frame_key_of_name(name@),
    {
        Frame { name, file: None, line: None, col: None }
    }
}

/// Whether an exported event opens or closes a frame.
#[derive(Debug, Clone, Copy, PartialEq, Eq, Structural)]
pub enum EventType {
    /// The frame becomes active.
    OpenFrame,
    /// The frame stops being active.
    CloseFrame,
}

/// One exported open/close event: at which timestamp which interned frame
/// opens or closes.
#[derive(Debug, Clone, Copy, PartialEq, Eq, Structural)]
pub struct Event {
    /// Open or close.
    pub event_type: EventType,
    /// Nanoseconds since the thread's epoch.
    pub at: u64,
    /// Index into the shared frame table.
    pub frame: usize,
}

/// The unit the exported values are measured in.
#[derive(Debug, Clone, Copy, PartialEq, Eq, Structural)]
pub enum ValueUnit {
    Bytes,
    Microseconds,
    Milliseconds,
    Nanoseconds,
    NoUnit,
    Seconds,
}

/// Mathematical model of a [`Profile`].
#[verifier::ext_equal]
pub ghost enum ProfileV {
    Sampled {
        name: Seq<char>,
        unit: ValueUnit,
        start_value: u64,
        end_value: u64,
        samples: Seq<Seq<usize>>,
        weights: Seq<u64>,
    },
    Evented {
        name: Seq<char>,
        unit: ValueUnit,
        start_value: u64,
        end_value: u64,
        events: Seq<Event>,
    },
}

/// One exported profile.  This exporter emits one `Evented` profile per
/// top-level span; `Sampled` is part of the schema for completeness.
#[derive(Debug)]
pub enum Profile {
    /// A sampled profile: stacks and their weights.
    Sampled {
        name: String,
        unit: ValueUnit,
        start_value: u64,
        end_value: u64,
        samples: Vec<Vec<usize>>,
        weights: Vec<u64>,
    },
    /// An evented profile: a flat list of frame open/close events.
    Evented { name: String, unit: ValueUnit, start_value: u64, end_value: u64, events: Vec<Event> },
}

impl DeepView for Event {
    type V = Event;

    open spec fn deep_view(&self) -> Event {
        *self
    }
}

impl DeepView for Profile {
    type V = ProfileV;

    open spec fn deep_view(&self) -> ProfileV {
        match *self {
            Profile::Sampled {
                ref name,
                unit,
                start_value,
                end_value,
                ref samples,
                ref weights,
            } => ProfileV::Sampled {
                name: name@,
                unit,
                start_value,
                end_value,
                samples: samples.deep_view(),
                weights: weights@,
            },
            Profile::Evented { ref name, unit, start_value, end_value, ref events } => {
                ProfileV::Evented {
                    name: name@,
                    unit,
                    start_value,
                    end_value,
                    events: events@,
                }
            },
        }
    }
}

/// The deduplicated frame table every profile's events index into.
#[derive(Debug)]
pub struct Shared {
    /// Interned frames, in first-appearance order.
    pub frames: Vec<Frame>,
}

/// Mathematical model of a [`SpeedscopeFile`].
#[verifier::ext_equal]
pub ghost struct SpeedscopeFileV {
    pub schema: Seq<char>,
    pub profiles: Seq<ProfileV>,
    pub frames: Seq<FrameKey>,
    pub active_profile_index: Option<u64>,
    pub exporter: Option<Seq<char>>,
    pub name: Option<Seq<char>>,
}

/// A whole exported document: one evented profile per top-level span plus the
/// shared frame table.
#[derive(Debug)]
pub struct SpeedscopeFile {
    /// The fixed schema URL.
    pub schema: &'static str,
    /// One profile per top-level span, in forest order.
    pub profiles: Vec<Profile>,
    /// The shared frame table.
    pub shared: Shared,
    /// Which profile a viewer should open first; this exporter leaves it
    /// unset.
    pub active_profile_index: Option<u64>,
    /// The producing tool's name; this exporter leaves it unset.
    pub exporter: Option<String>,
    /// A document name; this exporter leaves it unset.
    pub name: Option<String>,
}

impl DeepView for SpeedscopeFile {
    type V = SpeedscopeFileV;

    open spec fn deep_view(&self) -> SpeedscopeFileV {
        SpeedscopeFileV {
            schema: self.schema@,
            profiles: self.profiles.deep_view(),
            frames: self.shared.frames.deep_view(),
            active_profile_index: self.active_profile_index,
            exporter: match self.exporter {
                Some(ref e) => Some(e@),
                None => None,
            },
            name: match self.name {
                Some(ref n) => Some(n@),
                None => None,
            },
        }
    }
}

/// The fixed URL of the schema the export conforms to.
pub open spec fn schema_url_spec() -> Seq<char> {
    "https://www.speedscope.app/file-format-schema.json"@
}

/// No two entries of the frame table are equal.
pub open spec fn no_dup(t: Seq<FrameKey>) -> bool {
    forall|i: int, j: int| 0 <= i < j < t.len() ==> t[i] != t[j]
}

/// Position of the first occurrence of `k` in `t`.
pub open spec fn first_idx(t: Seq<FrameKey>, k: FrameKey) -> int
    decreases t.len(),
{
    if t.len() <= 0 {
        0
    } else if t[0] == k {
        0
    } else {
        1 + first_idx(t.subrange(1, t.len() as int), k)
    }
}

/// `first_idx` finds `k` when `t` contains it.
pub proof fn lemma_first_idx(t: Seq<FrameKey>, k: FrameKey)
    requires
        t.contains(k),
    ensures
        0 <= first_idx(t, k) < t.len(),
        t[first_idx(t, k)] == k,
    decreases t.len(),
{
    if t.len() > 0 && t[0] != k {
        let rest = t.subrange(1, t.len() as int);
        assert(t.contains(k) ==> rest.contains(k)) by {
            let w = choose|w: int| 0 <= w < t.len() && t[w] == k;
            assert(rest[w - 1] == t[w]);
        }
        lemma_first_idx(rest, k);
    }
}

/// In a duplicate-free table the index of an occurrence is `first_idx`.
pub proof fn lemma_first_idx_unique(t: Seq<FrameKey>, k: FrameKey, i: int)
    requires
        no_dup(t),
        0 <= i < t.len(),
        t[i] == k,
    ensures
        first_idx(t, k) == i,
{
    assert(t.contains(k));
    lemma_first_idx(t, k);
    let f = first_idx(t, k);
    if f != i {
        assert(t[f] == t[i]);
    }
}

/// Interning: an equal entry keeps the table and yields its position; a new
/// one is appended and yields the old length.
pub open spec fn intern(t: Seq<FrameKey>, k: FrameKey) -> (Seq<FrameKey>, int) {
    if t.contains(k) {
        (t, first_idx(t, k))
    } else {
        (t.push(k), t.len() as int)
    }
}

/// The open/close events a single span subtree contributes, in pre-order:
/// open at `start_ns`, the children's events, close at `end_ns`, both ends
/// referencing the span name's interned frame.  Also yields the grown frame
/// table.
pub open spec fn ss_span(s: SpanV, t: Seq<FrameKey>) -> (Seq<Event>, Seq<FrameKey>)
    decreases s, 1int,
{
    let r = intern(t, frame_key_of_name(s.name));
    let kids = ss_spans(s.children, r.0);
    (
        seq![Event { event_type: EventType::OpenFrame, at: s.start_ns, frame: r.1 as usize }]
            + kids.0 + seq![
            Event { event_type: EventType::CloseFrame, at: s.end_ns, frame: r.1 as usize },
        ],
        kids.1,
    )
}

/// The events an ordered list of spans contributes, threading the frame table
/// left to right.
pub open spec fn ss_spans(ss: Seq<SpanV>, t: Seq<FrameKey>) -> (Seq<Event>, Seq<FrameKey>)
    decreases ss, 0int,
{
    if ss.len() <= 0 {
        (Seq::empty(), t)
    } else {
        let h = ss_span(ss[0], t);
        let rest = ss_spans(ss.subrange(1, ss.len() as int), h.1);
        (h.0 + rest.0, rest.1)
    }
}

/// One evented profile per top-level span, in forest order, threading one
/// shared frame table through all of them.
pub open spec fn ss_profiles(ss: Seq<SpanV>, t: Seq<FrameKey>) -> (Seq<ProfileV>, Seq<FrameKey>)
    decreases ss, 0int,
{
    if ss.len() <= 0 {
        (Seq::empty(), t)
    } else {
        let h = ss_span(ss[0], t);
        let rest = ss_profiles(ss.subrange(1, ss.len() as int), h.1);
        (
            seq![
                ProfileV::Evented {
                    name: ss[0].name,
                    unit: ValueUnit::Nanoseconds,
                    start_value: ss[0].start_ns,
                    end_value: ss[0].end_ns,
                    events: h.0,
                },
            ] + rest.0,
            rest.1,
        )
    }
}

/// What an interned frame set holds, as plain values, in insertion order.
pub uninterp spec fn frame_seq(s: IndexSet<Frame, RandomState>) -> Seq<FrameKey>;

#[verifier::external_type_specification]
#[verifier::external_body]
#[verifier::reject_recursive_types(T)]
#[verifier::reject_recursive_types(S)]
pub struct ExIndexSet<T, S>(IndexSet<T, S>);

/// Relies on indexmap::IndexSet::new: a fresh set holds nothing.
#[verifier::external_body]
fn new_frame_set() -> (s: IndexSet<Frame, RandomState>)
    ensures
        frame_seq(s) == Seq::<FrameKey>::empty(),
{
    IndexSet::new()
}

/// Relies on indexmap::IndexSet::insert_full: an equivalent item (equality of
/// a `Frame` is equality of its fields) leaves the set and its order
/// untouched and yields the existing item's index and `false`; a new item is
/// appended and yields its index, the old length, and `true`.
#[verifier::external_body]
fn frame_set_insert_full(s: &mut IndexSet<Frame, RandomState>, f: Frame) -> (r: (usize, bool))
    ensures
        ({
            let t = frame_seq(*old(s));
            let k = f.deep_view();
            &&& t.contains(k) ==> frame_seq(*final(s)) == t && r.1 == false && 0 <= r.0 < t.len()
                && t[r.0 as int] == k
            &&& !t.contains(k) ==> frame_seq(*final(s)) == t.push(k) && r.1 == true && r.0
                == t.len()
        }),
{
    s.insert_full(f)
}

/// Relies on indexmap::IndexSet::into_iter: the items come out in insertion
/// order.
#[verifier::external_body]
fn frame_set_into_vec(s: IndexSet<Frame, RandomState>) -> (v: Vec<Frame>)
    ensures
        v.deep_view() == frame_seq(s),
{
    s.into_iter().collect()
}

/// Walks one span subtree in pre-order, interning its names into `frames`
/// and appending its open/close events to `events`.
pub fn span_extend_events(
    frames: &mut IndexSet<Frame, RandomState>,
    events: &mut Vec<Event>,
    span: &Span,
)
    requires
        no_dup(frame_seq(*old(frames))),
    ensures
        ({
            let h = ss_span(span.deep_view(), frame_seq(*old(frames)));
            &&& final(events)@ == old(events)@ + h.0
            &&& frame_seq(*final(frames)) == h.1
            &&& no_dup(frame_seq(*final(frames)))
        }),
    decreases *span,
{
    let ghost t0 = frame_seq(*frames);
    let key = Frame::new(span.name.clone());
    let (fidx, _inserted) = frame_set_insert_full(frames, key);
    proof {
        let k = frame_key_of_name(span.name@);
        if t0.contains(k) {
            lemma_first_idx_unique(t0, k, fidx as int);
        } else {
            assert(no_dup(frame_seq(*frames))) by {
                assert forall|a: int, b: int|
                    0 <= a < b < t0.push(k).len() implies t0.push(k)[a] != t0.push(k)[b] by {
                    if b == t0.len() {
                        assert(!t0.contains(k));
                        assert(t0[a] == t0.push(k)[a]);
                    }
                }
            }
        }
        assert((frame_seq(*frames), fidx as int) == intern(t0, k));
    }
    let ghost t1 = frame_seq(*frames);
    events.push(Event { event_type: EventType::OpenFrame, at: span.start_ns, frame: fidx });
    let ghost after_open = events@;
    let ghost kids_dv = spans_view(span.children@);
    proof {
        lemma_spans_view_len(span.children@);
    }
    proof {
        assert(kids_dv.subrange(0, kids_dv.len() as int) =~= kids_dv);
        assert(events@.subrange(after_open.len() as int, events@.len() as int) =~= Seq::<
            Event,
        >::empty());
        assert(Seq::<Event>::empty() + ss_spans(kids_dv, t1).0 =~= ss_spans(kids_dv, t1).0);
    }
    let mut k: usize = 0;
    while k < span.children.len()
        invariant
            k <= span.children@.len(),
            kids_dv == spans_view(span.children@),
            kids_dv.len() == span.children@.len(),
            forall|m: int| 0 <= m < span.children@.len() ==> kids_dv[m] == span.children@[m].deep_view(),
            no_dup(frame_seq(*frames)),
            ({
                let whole = ss_spans(kids_dv, t1);
                let rest = ss_spans(kids_dv.subrange(k as int, kids_dv.len() as int), frame_seq(*frames));
                &&& whole.0 == events@.subrange(after_open.len() as int, events@.len() as int) + rest.0
                &&& whole.1 == rest.1
            }),
            events@.len() >= after_open.len(),
            events@.subrange(0, after_open.len() as int) == after_open,
        decreases span.children@.len() - k,
    {
        let ghost tk = frame_seq(*frames);
        let ghost done = events@;
        span_extend_events(frames, events, &span.children[k]);
        proof {
            let remaining = kids_dv.subrange(k as int, kids_dv.len() as int);
            let remaining2 = kids_dv.subrange(k as int + 1, kids_dv.len() as int);
            assert(remaining[0] == kids_dv[k as int]);
            assert(remaining.subrange(1, remaining.len() as int) =~= remaining2);
            let h = ss_span(kids_dv[k as int], tk);
            assert(ss_spans(remaining, tk).0 == h.0 + ss_spans(remaining2, h.1).0);
            assert(events@.subrange(after_open.len() as int, events@.len() as int) =~= done.subrange(
                after_open.len() as int,
                done.len() as int,
            ) + h.0);
            assert(ss_spans(kids_dv, t1).0 =~= events@.subrange(
                after_open.len() as int,
                events@.len() as int,
            ) + ss_spans(remaining2, frame_seq(*frames)).0);
            assert(events@.subrange(0, after_open.len() as int) =~= after_open);
        }
        k = k + 1;
    }
    proof {
        let whole = ss_spans(kids_dv, t1);
        assert(kids_dv.subrange(kids_dv.len() as int, kids_dv.len() as int) =~= Seq::<
            SpanV,
        >::empty());
        assert(whole.0 =~= events@.subrange(after_open.len() as int, events@.len() as int));
        assert(whole.1 == frame_seq(*frames));
    }
    let ghost body_events = events@;
    events.push(Event { event_type: EventType::CloseFrame, at: span.end_ns, frame: fidx });
    proof {
        let h = ss_span(span.deep_view(), t0);
        let kids = ss_spans(kids_dv, t1);
        assert(span.deep_view().children == kids_dv);
        assert(body_events =~= after_open + kids.0);
        assert(after_open =~= old(events)@ + seq![
            Event { event_type: EventType::OpenFrame, at: span.start_ns, frame: fidx },
        ]);
        assert(events@ =~= old(events)@ + h.0);
    }
}

/// Converts a span forest to the speedscope profile format: one evented
/// profile per top-level span, every span name interned once into the shared
/// frame table.
pub fn spans_to_speedscope(spans: Vec<Span>) -> (r: SpeedscopeFile)
    ensures
        ({
            let p = ss_profiles(spans.deep_view(), Seq::empty());
            &&& r.deep_view() == (SpeedscopeFileV {
                schema: schema_url_spec(),
                profiles: p.0,
                frames: p.1,
                active_profile_index: None,
                exporter: None,
                name: None,
            })
            &&& no_dup(r.deep_view().frames)
        }),
{
    let ghost dv = spans.deep_view();
    let mut frames: IndexSet<Frame, RandomState> = new_frame_set();
    let mut profiles: Vec<Profile> = Vec::new();
    let mut i: usize = 0;
    proof {
        assert(no_dup(frame_seq(frames)));
        assert(dv.subrange(0, dv.len() as int) =~= dv);
    }
    while i < spans.len()
        invariant
            i <= spans@.len(),
            dv == spans.deep_view(),
            dv.len() == spans@.len(),
            no_dup(frame_seq(*&frames)),
            ({
                let whole = ss_profiles(dv, Seq::empty());
                let rest = ss_profiles(dv.subrange(i as int, dv.len() as int), frame_seq(*&frames));
                &&& whole.0 == profiles.deep_view() + rest.0
                &&& whole.1 == rest.1
            }),
        decreases spans@.len() - i,
    {
        let ghost tk = frame_seq(*&frames);
        let ghost done = profiles.deep_view();
        let span = &spans[i];
        let mut events: Vec<Event> = Vec::new();
        span_extend_events(&mut frames, &mut events, span);
        proof {
            assert(events@ =~= Seq::<Event>::empty() + events@);
        }
        let name = clone_string(&span.name);
        let profile = Profile::Evented {
            name,
            unit: ValueUnit::Nanoseconds,
            start_value: span.start_ns,
            end_value: span.end_ns,
            events,
        };
        let ghost prev = profiles.deep_view();
        profiles.push(profile);
        proof {
            let remaining = dv.subrange(i as int, dv.len() as int);
            let remaining2 = dv.subrange(i as int + 1, dv.len() as int);
            assert(remaining[0] == dv[i as int]);
            assert(remaining.subrange(1, remaining.len() as int) =~= remaining2);
            let h = ss_span(dv[i as int], tk);
            assert(ss_profiles(remaining, tk).0 == seq![
                ProfileV::Evented {
                    name: dv[i as int].name,
                    unit: ValueUnit::Nanoseconds,
                    start_value: dv[i as int].start_ns,
                    end_value: dv[i as int].end_ns,
                    events: h.0,
                },
            ] + ss_profiles(remaining2, h.1).0);
            assert forall|m: int| 0 <= m < prev.len() implies profiles.deep_view()[m] == prev[m] by {
                assert(profiles@[m] == profiles@.drop_last()[m]);
            }
            assert(profiles.deep_view()[prev.len() as int] =~~= (ProfileV::Evented {
                name: dv[i as int].name,
                unit: ValueUnit::Nanoseconds,
                start_value: dv[i as int].start_ns,
                end_value: dv[i as int].end_ns,
                events: h.0,
            }));
            assert(ss_profiles(dv, Seq::empty()).0 =~= profiles.deep_view() + ss_profiles(
                remaining2,
                frame_seq(*&frames),
            ).0);
        }
        i = i + 1;
    }
    let frame_vec = frame_set_into_vec(frames);
    let r = SpeedscopeFile {
        schema: "https://www.speedscope.app/file-format-schema.json",
        profiles,
        shared: Shared { frames: frame_vec },
        active_profile_index: None,
        exporter: None,
        name: None,
    };
    proof {
        let p = ss_profiles(dv, Seq::empty());
        assert(dv.subrange(dv.len() as int, dv.len() as int) =~= Seq::<SpanV>::empty());
        assert(r.deep_view().profiles =~= p.0);
        assert(r.deep_view() =~~= (SpeedscopeFileV {
            schema: schema_url_spec(),
            profiles: p.0,
            frames: p.1,
            active_profile_index: None,
            exporter: None,
            name: None,
        }));
    }
    r
}

/// Copies a string, preserving its value.
fn clone_string(s: &String) -> (r: String)
    ensures
        r@ == s@,
{
    s.clone()
}

} // verus!
