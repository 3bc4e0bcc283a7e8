//! The order of the walk, stated by recursion, and the proof that the
//! machine of `traversal` writes its rows in exactly that order.

use crate::page::PageView;
use crate::traversal::{walk, ActionView, FrameView, TraversalView};
use crate::user::UserView;
use vstd::prelude::*;

verus! {

/// The rows that belong below a manager, by recursion over the hierarchy:
/// for each report in the order given, the report's row, then all rows of
/// the subtree below that report, then the next report; page after page.
///
/// `directory` gives the page behind each query. `bound` limits how deep the
/// recursion may nest; the result is `None` where it does not suffice, as it
/// never does where the reports run in a cycle.
pub open spec fn rows_below(
    directory: spec_fn(Seq<char>) -> PageView,
    frame: FrameView,
    bound: nat,
) -> Option<Seq<Seq<char>>>
    decreases bound,
{
    if frame.pending.len() > 0 {
        if bound == 0 {
            None
        } else {
            let reportee = frame.pending[0];
            let child = FrameView::opening(reportee.id, reportee.display_name);
            let rest = FrameView { pending: frame.pending.drop_first(), ..frame };
            match (
                rows_below(directory, child, (bound - 1) as nat),
                rows_below(directory, rest, (bound - 1) as nat),
            ) {
                (Some(subtree), Some(others)) => Some(
                    seq![reportee.row_under(frame.manager_id, frame.manager_name)] + subtree
                        + others,
                ),
                _ => None,
            }
        }
    } else if frame.cursor is Some {
        if bound == 0 {
            None
        } else {
            rows_below(
                directory,
                frame.filled(directory(frame.cursor->0)),
                (bound - 1) as nat,
            )
        }
    } else {
        Some(Seq::empty())
    }
}

/// A bound that suffices can be raised at will: the rows stay the same.
pub proof fn law_rows_do_not_depend_on_bound(
    directory: spec_fn(Seq<char>) -> PageView,
    frame: FrameView,
    bound: nat,
    higher: nat,
)
    requires
        rows_below(directory, frame, bound) is Some,
        bound <= higher,
    ensures
        rows_below(directory, frame, higher) == rows_below(directory, frame, bound),
    decreases bound,
{
    if frame.pending.len() > 0 {
        let reportee = frame.pending[0];
        let child = FrameView::opening(reportee.id, reportee.display_name);
        let rest = FrameView { pending: frame.pending.drop_first(), ..frame };
        law_rows_do_not_depend_on_bound(
            directory,
            child,
            (bound - 1) as nat,
            (higher - 1) as nat,
        );
        law_rows_do_not_depend_on_bound(
            directory,
            rest,
            (bound - 1) as nat,
            (higher - 1) as nat,
        );
    } else if frame.cursor is Some {
        law_rows_do_not_depend_on_bound(
            directory,
            frame.filled(directory(frame.cursor->0)),
            (bound - 1) as nat,
            (higher - 1) as nat,
        );
    }
}

/// The rows with the row of an action, if it has one, put in front.
pub open spec fn after_action(action: ActionView, rows: Seq<Seq<char>>) -> Seq<Seq<char>> {
    match action.row() {
        Some(row) => seq![row] + rows,
        None => rows,
    }
}

impl TraversalView {
    /// Drives the walk against a directory for at most `steps` answers: each
    /// outstanding query is answered with the page behind it. Gives the
    /// state reached and the rows written on the way.
    pub open spec fn drive(self, directory: spec_fn(Seq<char>) -> PageView, steps: nat) -> (
        TraversalView,
        Seq<Seq<char>>,
    )
        decreases steps,
    {
        if steps == 0 || self.outstanding() is None {
            (self, Seq::empty())
        } else {
            let (next, action) = self.deliver(Ok(directory(self.outstanding()->0)));
            let (last, rows) = next.drive(directory, (steps - 1) as nat);
            (last, after_action(action, rows))
        }
    }
}

/// Walks on from a stack whose top frame has its page, then drives the walk.
spec fn settle(directory: spec_fn(Seq<char>) -> PageView, stack: Seq<FrameView>, steps: nat) -> (
    TraversalView,
    Seq<Seq<char>>,
) {
    let (next, action) = walk(stack);
    let (last, rows) = (TraversalView { stack: next, failure: None }).drive(directory, steps);
    (last, after_action(action, rows))
}

/// Completing a frame on top of a stack writes the frame's rows and then
/// goes on as the stack below would have gone on alone.
proof fn lemma_frame_then_below(
    directory: spec_fn(Seq<char>) -> PageView,
    frame: FrameView,
    below: Seq<FrameView>,
    bound: nat,
) -> (steps: nat)
    requires
        rows_below(directory, frame, bound) is Some,
    ensures
        forall|more: nat|
            ({
                let (last, rows) = #[trigger] settle(directory, below, more);
                settle(directory, below.push(frame), steps + more) == (
                    last,
                    rows_below(directory, frame, bound)->0 + rows,
                )
            }),
    decreases bound,
{
    let stack = below.push(frame);
    assert(stack.drop_last() =~= below);
    assert(stack.last() == frame);
    if frame.pending.len() > 0 {
        let reportee = frame.pending[0];
        let child = FrameView::opening(reportee.id, reportee.display_name);
        let rest = FrameView { pending: frame.pending.drop_first(), ..frame };
        let row = reportee.row_under(frame.manager_id, frame.manager_name);
        let subtree = rows_below(directory, child, (bound - 1) as nat)->0;
        let others = rows_below(directory, rest, (bound - 1) as nat)->0;
        let upper = below.push(rest);
        let opened = upper.push(child);
        let first = lemma_frame_then_below(directory, child, upper, (bound - 1) as nat);
        let second = lemma_frame_then_below(directory, rest, below, (bound - 1) as nat);
        assert(opened.last() == child);
        assert forall|more: nat|
            ({
                let (last, rows) = #[trigger] settle(directory, below, more);
                settle(directory, stack, first + second + more) == (
                    last,
                    rows_below(directory, frame, bound)->0 + rows,
                )
            }) by {
            let (last, rows) = settle(directory, below, more);
            let steps = (first + second + more) as nat;
            // the walk from `stack` writes the report's row and opens the report
            assert(walk(stack).0 == opened);
            // from there on it is the walk from the opened stack
            assert(walk(opened) == (opened, ActionView::Request { row: None, url: child.cursor->0 }));
            assert(settle(directory, opened, steps) == (TraversalView {
                stack: opened,
                failure: None,
            }).drive(directory, steps));
            assert(settle(directory, stack, steps).1 =~= seq![row] + settle(
                directory,
                opened,
                steps,
            ).1);
            let mid = settle(directory, upper, (second + more) as nat);
            assert(mid == (last, others + rows));
            assert(settle(directory, opened, (first + (second + more)) as nat) == (
                mid.0,
                subtree + mid.1,
            ));
            assert(seq![row] + (subtree + (others + rows)) =~= (seq![row] + subtree + others)
                + rows);
        }
        (first + second) as nat
    } else if frame.cursor is Some {
        let page = directory(frame.cursor->0);
        let filled = frame.filled(page);
        let inner = lemma_frame_then_below(directory, filled, below, (bound - 1) as nat);
        assert forall|more: nat|
            ({
                let (last, rows) = #[trigger] settle(directory, below, more);
                settle(directory, stack, inner + 1 + more) == (
                    last,
                    rows_below(directory, frame, bound)->0 + rows,
                )
            }) by {
            let state = TraversalView { stack, failure: None };
            let steps = (inner + 1 + more) as nat;
            assert(walk(stack) == (stack, ActionView::Request { row: None, url: frame.cursor->0 }));
            assert(state.outstanding() == frame.cursor);
            assert(state.deliver(Ok(page)).0.failure == state.failure);
            assert(state.drive(directory, steps) == settle(
                directory,
                below.push(filled),
                (inner + more) as nat,
            ));
        }
        (inner + 1) as nat
    } else {
        assert(walk(stack) == walk(below));
        assert forall|more: nat|
            ({
                let (last, rows) = #[trigger] settle(directory, below, more);
                settle(directory, stack, 0 + more) == (
                    last,
                    rows_below(directory, frame, bound)->0 + rows,
                )
            }) by {
            let (last, rows) = settle(directory, below, more);
            assert(Seq::<Seq<char>>::empty() + rows =~= rows);
        }
        0
    }
}

/// The machine walks depth-first. Where the recursion below the root comes
/// to an end within some bound, the machine, driven against the same
/// directory, comes to its end too, after the number of answers that this
/// proof returns; it has then written the root's row first and after it
/// exactly the rows of the recursion, in the recursion's order.
pub proof fn law_walk_is_depth_first(
    directory: spec_fn(Seq<char>) -> PageView,
    root: UserView,
    bound: nat,
) -> (steps: nat)
    requires
        rows_below(directory, FrameView::opening(root.id, root.display_name), bound) is Some,
    ensures
        ({
            let (first, action) = TraversalView::start(root);
            let (last, rows) = first.drive(directory, steps);
            &&& action.row() == Some(root.root_row())
            &&& last == TraversalView { stack: Seq::empty(), failure: None }
            &&& rows == rows_below(
                directory,
                FrameView::opening(root.id, root.display_name),
                bound,
            )->0
        }),
{
    let frame = FrameView::opening(root.id, root.display_name);
    let below = Seq::<FrameView>::empty();
    let steps = lemma_frame_then_below(directory, frame, below, bound);
    let stack = below.push(frame);
    assert(stack =~= seq![frame]);
    let (last, rows) = settle(directory, below, 0);
    assert(settle(directory, stack, (steps + 0) as nat) == (
        last,
        rows_below(directory, frame, bound)->0 + rows,
    ));
    assert(walk(below) == (below, ActionView::Finished));
    assert(rows =~= Seq::<Seq<char>>::empty());
    assert(rows_below(directory, frame, bound)->0 + rows =~= rows_below(
        directory,
        frame,
        bound,
    )->0);
    assert(walk(stack) == (stack, ActionView::Request { row: None, url: frame.cursor->0 }));
    steps
}

} // verus!
