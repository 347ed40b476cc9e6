use flame::speedscope::{EventType, ValueUnit};
use flame::{
    convert_events_to_span, end, end_collapse, spans, spans_to_speedscope, start, Event, Recorder,
};

fn s(v: &str) -> String {
    v.to_string()
}

fn rec_abc_collapsed() -> Recorder {
    let mut rec = Recorder::new();
    start(&mut rec, s("p"), 0);
    start(&mut rec, s("a"), 1);
    end(&mut rec, &s("a"), 3).unwrap();
    start(&mut rec, s("a"), 4);
    end_collapse(&mut rec, &s("a"), 9).unwrap();
    end(&mut rec, &s("p"), 10).unwrap();
    rec
}

#[test]
fn adjacent_identical_leaves_collapse_into_one_node() {
    let rec = rec_abc_collapsed();
    let forest = spans(&rec);
    assert_eq!(forest.len(), 1);
    let p = &forest[0];
    assert_eq!(p.children.len(), 1);
    let a = &p.children[0];
    assert_eq!(a.name, "a");
    assert_eq!(a.start_ns, 1);
    assert_eq!(a.end_ns, 9);
    // The merged duration is the sum, not end minus start.
    assert_eq!(a.delta, 2 + 5);
    assert_ne!(a.delta, a.end_ns - a.start_ns);
}

#[test]
fn collapse_chains_across_three_identical_leaves() {
    let mut rec = Recorder::new();
    start(&mut rec, s("p"), 0);
    for k in 0..3u64 {
        start(&mut rec, s("a"), 10 * k + 1);
        end_collapse(&mut rec, &s("a"), 10 * k + 3).unwrap();
    }
    end(&mut rec, &s("p"), 40).unwrap();
    let forest = spans(&rec);
    assert_eq!(forest[0].children.len(), 1);
    assert_eq!(forest[0].children[0].delta, 6);
    assert_eq!(forest[0].children[0].end_ns, 23);
}

#[test]
fn differently_named_sibling_blocks_the_merge() {
    let mut rec = Recorder::new();
    start(&mut rec, s("p"), 0);
    start(&mut rec, s("a"), 1);
    end(&mut rec, &s("a"), 2).unwrap();
    start(&mut rec, s("b"), 3);
    end(&mut rec, &s("b"), 4).unwrap();
    start(&mut rec, s("a"), 5);
    end_collapse(&mut rec, &s("a"), 6).unwrap();
    end(&mut rec, &s("p"), 7).unwrap();
    let forest = spans(&rec);
    let names: Vec<&str> = forest[0].children.iter().map(|c| c.name.as_str()).collect();
    assert_eq!(names, vec!["a", "b", "a"]);
}

#[test]
fn different_depth_blocks_the_merge() {
    let mut rec = Recorder::new();
    start(&mut rec, s("p"), 0);
    start(&mut rec, s("a"), 1);
    end(&mut rec, &s("a"), 2).unwrap();
    start(&mut rec, s("b"), 3);
    start(&mut rec, s("a"), 4);
    end_collapse(&mut rec, &s("a"), 5).unwrap();
    end(&mut rec, &s("b"), 6).unwrap();
    end(&mut rec, &s("p"), 7).unwrap();
    let forest = spans(&rec);
    let p = &forest[0];
    assert_eq!(p.children.len(), 2);
    assert_eq!(p.children[0].name, "a");
    assert_eq!(p.children[0].delta, 1);
    assert_eq!(p.children[1].name, "b");
    assert_eq!(p.children[1].children.len(), 1);
    assert_eq!(p.children[1].children[0].name, "a");
    assert_eq!(p.children[1].children[0].depth, 2);
}

#[test]
fn a_collapse_marked_non_leaf_is_not_merged() {
    let mut rec = Recorder::new();
    start(&mut rec, s("p"), 0);
    start(&mut rec, s("a"), 1);
    end(&mut rec, &s("a"), 2).unwrap();
    start(&mut rec, s("a"), 3);
    start(&mut rec, s("inner"), 4);
    end(&mut rec, &s("inner"), 5).unwrap();
    end_collapse(&mut rec, &s("a"), 6).unwrap();
    end(&mut rec, &s("p"), 7).unwrap();
    let forest = spans(&rec);
    assert_eq!(forest[0].children.len(), 2);
}

fn contains_name(list: &[flame::Span], name: &str) -> bool {
    list.iter()
        .any(|sp| sp.name == name || contains_name(&sp.children, name))
}

#[test]
fn unterminated_span_never_appears() {
    let mut rec = Recorder::new();
    start(&mut rec, s("open-forever"), 0);
    start(&mut rec, s("closed"), 1);
    end(&mut rec, &s("closed"), 2).unwrap();
    let forest = spans(&rec);
    assert!(!contains_name(&forest, "open-forever"));
    assert!(contains_name(&forest, "closed"));
}

#[test]
fn building_twice_yields_identical_forests() {
    let rec = rec_abc_collapsed();
    let once = convert_events_to_span(&rec.events);
    let twice = convert_events_to_span(&rec.events);
    assert_eq!(once, twice);
}

#[test]
fn node_count_equals_matched_pairs() {
    let mut rec = Recorder::new();
    let names = ["a", "b", "c", "d", "e"];
    start(&mut rec, s(names[0]), 0);
    start(&mut rec, s(names[1]), 1);
    end(&mut rec, &s(names[1]), 2).unwrap();
    start(&mut rec, s(names[2]), 3);
    start(&mut rec, s(names[3]), 4);
    end(&mut rec, &s(names[3]), 5).unwrap();
    end(&mut rec, &s(names[2]), 6).unwrap();
    end(&mut rec, &s(names[0]), 7).unwrap();
    start(&mut rec, s(names[4]), 8);
    end(&mut rec, &s(names[4]), 9).unwrap();
    let forest = spans(&rec);
    assert_eq!(count_nodes(&forest), 5);
}

fn count_nodes(list: &[flame::Span]) -> usize {
    list.iter().map(|sp| 1 + count_nodes(&sp.children)).sum()
}

#[test]
fn builder_accepts_a_hand_written_log() {
    let events = vec![
        Event {
            id: 0,
            parent: None,
            name: s("root"),
            collapse: false,
            start_ns: 0,
            end_ns: Some(10),
            delta: Some(10),
            notes: Vec::new(),
        },
        Event {
            id: 1,
            parent: Some(0),
            name: s("kid"),
            collapse: false,
            start_ns: 2,
            end_ns: Some(6),
            delta: Some(4),
            notes: Vec::new(),
        },
    ];
    let forest = convert_events_to_span(&events);
    assert_eq!(forest.len(), 1);
    assert_eq!(forest[0].name, "root");
    assert_eq!(forest[0].children[0].name, "kid");
    assert_eq!(forest[0].children[0].depth, 1);
}

#[test]
fn speedscope_interns_each_name_once() {
    let mut rec = Recorder::new();
    start(&mut rec, s("alpha"), 0);
    start(&mut rec, s("beta"), 1);
    end(&mut rec, &s("beta"), 2).unwrap();
    end(&mut rec, &s("alpha"), 3).unwrap();
    start(&mut rec, s("beta"), 4);
    end(&mut rec, &s("beta"), 5).unwrap();
    let file = spans_to_speedscope(spans(&rec));
    assert_eq!(
        file.schema,
        "https://www.speedscope.app/file-format-schema.json"
    );
    assert_eq!(file.profiles.len(), 2);
    let frame_names: Vec<&str> = file
        .shared
        .frames
        .iter()
        .map(|f| f.name.as_str())
        .collect();
    // "beta" appears twice in the forest but is interned once.
    assert_eq!(frame_names, vec!["alpha", "beta"]);
    assert!(file.active_profile_index.is_none());
    assert!(file.exporter.is_none());
    assert!(file.name.is_none());
}

#[test]
fn speedscope_emits_balanced_events_in_preorder() {
    let mut rec = Recorder::new();
    start(&mut rec, s("outer"), 0);
    start(&mut rec, s("inner"), 2);
    end(&mut rec, &s("inner"), 5).unwrap();
    end(&mut rec, &s("outer"), 9).unwrap();
    let file = spans_to_speedscope(spans(&rec));
    assert_eq!(file.profiles.len(), 1);
    match &file.profiles[0] {
        flame::speedscope::Profile::Evented {
            name,
            unit,
            start_value,
            end_value,
            events,
        } => {
            assert_eq!(name.as_str(), "outer");
            assert!(matches!(unit, ValueUnit::Nanoseconds));
            assert_eq!(*start_value, 0);
            assert_eq!(*end_value, 9);
            assert_eq!(events.len(), 4);
            assert!(matches!(events[0].event_type, EventType::OpenFrame));
            assert_eq!((events[0].at, events[0].frame), (0, 0));
            assert!(matches!(events[1].event_type, EventType::OpenFrame));
            assert_eq!((events[1].at, events[1].frame), (2, 1));
            assert!(matches!(events[2].event_type, EventType::CloseFrame));
            assert_eq!((events[2].at, events[2].frame), (5, 1));
            assert!(matches!(events[3].event_type, EventType::CloseFrame));
            assert_eq!((events[3].at, events[3].frame), (9, 0));
        }
        _ => panic!("expected an evented profile"),
    }
}

#[test]
fn speedscope_of_nothing_is_empty() {
    let file = spans_to_speedscope(Vec::new());
    assert!(file.profiles.is_empty());
    assert!(file.shared.frames.is_empty());
}

#[test]
fn top_level_spans_never_collapse() {
    let mut rec = Recorder::new();
    start(&mut rec, s("r"), 0);
    end_collapse(&mut rec, &s("r"), 1).unwrap();
    start(&mut rec, s("r"), 2);
    end_collapse(&mut rec, &s("r"), 3).unwrap();
    let forest = spans(&rec);
    // The collapse rule applies between siblings under a parent, not between
    // roots of the forest.
    assert_eq!(forest.len(), 2);
}

#[test]
fn a_leaf_may_merge_into_a_sibling_that_has_children() {
    let mut rec = Recorder::new();
    start(&mut rec, s("p"), 0);
    start(&mut rec, s("a"), 1);
    start(&mut rec, s("inner"), 2);
    end(&mut rec, &s("inner"), 3).unwrap();
    end(&mut rec, &s("a"), 4).unwrap();
    start(&mut rec, s("a"), 5);
    end_collapse(&mut rec, &s("a"), 7).unwrap();
    end(&mut rec, &s("p"), 8).unwrap();
    let forest = spans(&rec);
    // Only the newcomer must be a leaf; the surviving sibling keeps its
    // children and gains the newcomer's duration.
    assert_eq!(forest[0].children.len(), 1);
    let a = &forest[0].children[0];
    assert_eq!(a.delta, 3 + 2);
    assert_eq!(a.children.len(), 1);
}

#[test]
fn collapse_keeps_the_survivors_notes() {
    let mut rec = Recorder::new();
    start(&mut rec, s("p"), 0);
    start(&mut rec, s("a"), 1);
    flame::note(&mut rec, s("kept"), None, 2).unwrap();
    end(&mut rec, &s("a"), 3).unwrap();
    start(&mut rec, s("a"), 4);
    flame::note(&mut rec, s("dropped-with-the-merged-span"), None, 5).unwrap();
    end_collapse(&mut rec, &s("a"), 6).unwrap();
    end(&mut rec, &s("p"), 7).unwrap();
    let forest = spans(&rec);
    let a = &forest[0].children[0];
    // The merged-away span is discarded whole; the survivor keeps its notes.
    assert_eq!(a.notes.len(), 1);
    assert_eq!(a.notes[0].name, "kept");
}
