use flame::{
    clear, commit_thread, end, end_collapse, end_with, note, spans, start, start_guard, threads,
    RecordError, Recorder, Registry,
};

fn s(v: &str) -> String {
    v.to_string()
}

#[test]
fn nested_pair_builds_one_root_with_one_child() {
    let mut rec = Recorder::new();
    start(&mut rec, s("a"), 0);
    start(&mut rec, s("b"), 10);
    assert_eq!(end(&mut rec, &s("b"), 20), Ok(10));
    assert_eq!(end(&mut rec, &s("a"), 30), Ok(30));
    let forest = spans(&rec);
    assert_eq!(forest.len(), 1);
    let a = &forest[0];
    assert_eq!(a.name, "a");
    assert_eq!(a.depth, 0);
    assert_eq!(a.start_ns, 0);
    assert_eq!(a.end_ns, 30);
    assert_eq!(a.delta, 30);
    assert_eq!(a.children.len(), 1);
    let b = &a.children[0];
    assert_eq!(b.name, "b");
    assert_eq!(b.depth, 1);
    assert_eq!(b.delta, 10);
    assert!(a.delta >= b.delta);
    assert!(b.children.is_empty());
}

#[test]
fn end_with_wrong_name_reports_mismatch() {
    let mut rec = Recorder::new();
    start(&mut rec, s("x"), 0);
    assert_eq!(end(&mut rec, &s("y"), 5), Err(RecordError::NameMismatch));
    // The failed close left the recorder untouched: "x" is still open.
    assert_eq!(end(&mut rec, &s("x"), 9), Ok(9));
}

#[test]
fn end_without_open_span_reports_no_open_span() {
    let mut rec = Recorder::new();
    assert_eq!(end(&mut rec, &s("z"), 0), Err(RecordError::NoOpenSpan));
}

#[test]
fn note_without_open_span_reports_no_open_span() {
    let mut rec = Recorder::new();
    assert_eq!(
        note(&mut rec, s("lost"), None, 3),
        Err(RecordError::NoOpenSpan)
    );
}

#[test]
fn note_lands_on_innermost_open_span() {
    let mut rec = Recorder::new();
    start(&mut rec, s("outer"), 0);
    start(&mut rec, s("inner"), 5);
    assert_eq!(
        note(&mut rec, s("tick"), Some(s("something interesting")), 7),
        Ok(())
    );
    end(&mut rec, &s("inner"), 10).unwrap();
    end(&mut rec, &s("outer"), 20).unwrap();
    let forest = spans(&rec);
    let inner = &forest[0].children[0];
    assert_eq!(inner.notes.len(), 1);
    assert_eq!(inner.notes[0].name, "tick");
    assert_eq!(
        inner.notes[0].description.as_deref(),
        Some("something interesting")
    );
    assert_eq!(inner.notes[0].instant, 7);
    assert!(forest[0].notes.is_empty());
}

#[test]
fn end_with_hands_back_the_result() {
    let mut rec = Recorder::new();
    start(&mut rec, s("work"), 0);
    let (closed, answer) = end_with(&mut rec, &s("work"), 8, 42u32);
    assert_eq!(closed, Ok(8));
    assert_eq!(answer, 42);
}

#[test]
fn guard_closes_exactly_once() {
    let mut rec = Recorder::new();
    let g = start_guard(&mut rec, s("guarded"), 2);
    let delta = g.end(&mut rec, 9).unwrap();
    assert_eq!(delta, 7);
    let forest = spans(&rec);
    assert_eq!(forest.len(), 1);
    assert_eq!(forest[0].name, "guarded");
}

#[test]
fn guard_end_collapse_marks_merge() {
    let mut rec = Recorder::new();
    start(&mut rec, s("p"), 0);
    start(&mut rec, s("leaf"), 1);
    end(&mut rec, &s("leaf"), 3).unwrap();
    let g = start_guard(&mut rec, s("leaf"), 4);
    g.end_collapse(&mut rec, 9).unwrap();
    end(&mut rec, &s("p"), 10).unwrap();
    let forest = spans(&rec);
    assert_eq!(forest[0].children.len(), 1);
    assert_eq!(forest[0].children[0].delta, 2 + 5);
    assert_eq!(forest[0].children[0].end_ns, 9);
}

#[test]
fn lifo_discipline_over_three_levels() {
    let mut rec = Recorder::new();
    start(&mut rec, s("a"), 0);
    start(&mut rec, s("b"), 1);
    start(&mut rec, s("c"), 2);
    assert_eq!(end(&mut rec, &s("a"), 3), Err(RecordError::NameMismatch));
    assert_eq!(end(&mut rec, &s("c"), 4), Ok(2));
    assert_eq!(end(&mut rec, &s("b"), 5), Ok(4));
    assert_eq!(end(&mut rec, &s("a"), 6), Ok(6));
    let forest = spans(&rec);
    assert_eq!(forest.len(), 1);
    assert_eq!(forest[0].children[0].children[0].name, "c");
}

#[test]
fn retired_log_shows_up_for_other_threads() {
    // Thread t1 records two top-level spans and retires its log.
    let mut registry = Registry::new();
    let mut rec1 = Recorder::new();
    start(&mut rec1, s("first"), 0);
    end(&mut rec1, &s("first"), 5).unwrap();
    start(&mut rec1, s("second"), 6);
    end(&mut rec1, &s("second"), 9).unwrap();
    commit_thread(&mut rec1, &mut registry, 11, Some(s("t1")));
    assert_eq!(rec1.events.len(), 0);

    // Thread t2 asks for every thread's spans: itself first, then t1.
    let rec2 = Recorder::new();
    let all = threads(&rec2, &registry, 22, Some(s("t2")));
    assert_eq!(all.len(), 2);
    assert_eq!(all[0].id, 22);
    assert_eq!(all[0].name.as_deref(), Some("t2"));
    assert!(all[0].spans.is_empty());
    assert_eq!(all[1].id, 11);
    assert_eq!(all[1].name.as_deref(), Some("t1"));
    assert_eq!(all[1].spans.len(), 2);
    assert_eq!(all[1].spans[0].name, "first");
    assert_eq!(all[1].spans[1].name, "second");
}

#[test]
fn committing_an_empty_recorder_registers_nothing() {
    let mut registry = Registry::new();
    let mut rec = Recorder::new();
    commit_thread(&mut rec, &mut registry, 7, None);
    let all = threads(&rec, &registry, 7, None);
    assert_eq!(all.len(), 1);
}

#[test]
fn repeated_retirement_appends_separate_entries() {
    let mut registry = Registry::new();
    let mut rec = Recorder::new();
    start(&mut rec, s("one"), 0);
    end(&mut rec, &s("one"), 1).unwrap();
    commit_thread(&mut rec, &mut registry, 5, None);
    start(&mut rec, s("two"), 0);
    end(&mut rec, &s("two"), 2).unwrap();
    commit_thread(&mut rec, &mut registry, 5, None);
    let all = threads(&rec, &registry, 5, None);
    assert_eq!(all.len(), 3);
    assert_eq!(all[1].spans[0].name, "one");
    assert_eq!(all[2].spans[0].name, "two");
}

#[test]
fn clear_empties_everything_and_restarts_the_timeline() {
    let mut registry = Registry::new();
    let mut rec = Recorder::new();
    start(&mut rec, s("old"), 100);
    end(&mut rec, &s("old"), 200).unwrap();
    commit_thread(&mut rec, &mut registry, 1, None);
    start(&mut rec, s("live"), 300);
    clear(&mut rec, &mut registry);
    assert!(spans(&rec).is_empty());
    assert_eq!(threads(&rec, &registry, 1, None).len(), 1);
    // A fresh pair after the clear gets a fresh zero-based timeline.
    start(&mut rec, s("fresh"), 0);
    assert_eq!(end(&mut rec, &s("fresh"), 4), Ok(4));
    let forest = spans(&rec);
    assert_eq!(forest.len(), 1);
    assert_eq!(forest[0].start_ns, 0);
    assert_eq!(forest[0].end_ns, 4);
}

#[test]
fn open_top_start_ns_tracks_the_innermost_span() {
    let mut rec = Recorder::new();
    assert_eq!(rec.open_top_start_ns(), 0);
    start(&mut rec, s("a"), 17);
    assert_eq!(rec.open_top_start_ns(), 17);
    start(&mut rec, s("b"), 23);
    assert_eq!(rec.open_top_start_ns(), 23);
    end(&mut rec, &s("b"), 30).unwrap();
    assert_eq!(rec.open_top_start_ns(), 17);
}

#[test]
fn retiring_with_an_open_span_drops_it_from_the_tree() {
    let mut registry = Registry::new();
    let mut rec = Recorder::new();
    start(&mut rec, s("done"), 0);
    end(&mut rec, &s("done"), 1).unwrap();
    start(&mut rec, s("still-open"), 2);
    commit_thread(&mut rec, &mut registry, 3, None);
    let all = threads(&rec, &registry, 4, None);
    assert_eq!(all.len(), 2);
    assert_eq!(all[1].spans.len(), 1);
    assert_eq!(all[1].spans[0].name, "done");
}
