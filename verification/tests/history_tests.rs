use oxipaint::canvas::Color;
use oxipaint::history::{Diff, History, SparsePixelDelta};

fn one_delta(index: usize, shade: u8) -> Diff {
    let delta = SparsePixelDelta {
        index,
        before: Color::rgba(255, 255, 255, 255),
        after: Color::rgba(shade, shade, shade, 255),
    };
    Diff::new_sparse(vec![delta])
}

#[test]
fn new_history_is_empty() {
    let mut history = History::new();
    assert_eq!(history.len(), 0);
    assert_eq!(history.cursor(), 0);
    assert!(history.undo().is_none());
    assert!(history.redo().is_none());
}

#[test]
fn record_then_undo_then_redo() {
    let mut history = History::new();
    history.record(one_delta(3, 0));
    assert_eq!(history.len(), 1);
    assert_eq!(history.cursor(), 1);

    let undone = history.undo().expect("one diff to undo");
    assert_eq!(undone.len(), 1);
    assert_eq!(undone.delta_at(0).index, 3);
    assert_eq!(history.cursor(), 0);
    assert!(history.undo().is_none());

    let redone = history.redo().expect("one diff to redo");
    assert_eq!(redone.delta_at(0).index, 3);
    assert_eq!(history.cursor(), 1);
    assert!(history.redo().is_none());
}

#[test]
fn record_after_undo_discards_redo_tail() {
    let mut history = History::new();
    history.record(one_delta(0, 10));
    history.record(one_delta(1, 20));
    history.record(one_delta(2, 30));
    assert_eq!(history.len(), 3);

    history.undo().expect("undo third");
    history.undo().expect("undo second");
    assert_eq!(history.cursor(), 1);

    // Recording now drops the two undone diffs.
    history.record(one_delta(7, 40));
    assert_eq!(history.len(), 2);
    assert_eq!(history.cursor(), 2);
    assert_eq!(history.entry(0).delta_at(0).index, 0);
    assert_eq!(history.entry(1).delta_at(0).index, 7);

    // The stale future is gone: redo finds nothing.
    assert!(history.redo().is_none());
}

#[test]
fn entry_and_duplicate_preserve_deltas() {
    let mut history = History::new();
    let diff = Diff::new_sparse(vec![
        SparsePixelDelta {
            index: 1,
            before: Color::rgba(0, 0, 0, 0),
            after: Color::rgba(1, 1, 1, 1),
        },
        SparsePixelDelta {
            index: 9,
            before: Color::rgba(2, 2, 2, 2),
            after: Color::rgba(3, 3, 3, 3),
        },
    ]);
    let copy = diff.duplicate();
    assert_eq!(copy.len(), 2);
    assert_eq!(copy.delta_at(1).index, 9);
    history.record(diff);
    let stored = history.entry(0);
    assert_eq!(stored.len(), 2);
    assert_eq!(stored.delta_at(0).after, Color::rgba(1, 1, 1, 1));
}
