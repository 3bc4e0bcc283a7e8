//! The walk over a management hierarchy, as a machine that never waits.
//!
//! The machine says which query to send and which row to write; whoever
//! drives it sends the query and hands the answer back. Users are visited
//! depth-first: a user's row is written, then the whole subtree below that
//! user is walked, then the next user of the same manager follows. The
//! machine holds a stack of managers whose reports are not all visited yet,
//! so the depth of a hierarchy costs memory, never call depth.
//!
//! The directory is taken to be a tree. A user who is listed under two
//! managers is walked twice, and a cycle is walked without end.

use crate::client::{reports_query, reports_url, DirectoryError, MAX_CONCURRENT_REQUESTS};
use crate::limiter::{LimiterView, Limiter};
use crate::page::{after_page, yielded, Cursor, PageView, UsersResponse};
use crate::user::{User, UserView};
use vstd::prelude::*;
use vstd::string::*;

verus! {

/// A manager whose reports are being walked: the users of the current page
/// that are not visited yet, and the query for the next page, if any.
pub struct FrameView {
    pub manager_id: Seq<char>,
    pub manager_name: Seq<char>,
    pub pending: Seq<UserView>,
    pub cursor: Option<Seq<char>>,
}

impl FrameView {
    /// The frame of a manager whose first page of reports is yet to come.
    pub open spec fn opening(manager_id: Seq<char>, manager_name: Seq<char>) -> FrameView {
        FrameView {
            manager_id,
            manager_name,
            pending: Seq::empty(),
            cursor: Some(reports_query(manager_id)),
        }
    }

    /// The frame once `page` has come as the answer to its query.
    pub open spec fn filled(self, page: PageView) -> FrameView {
        FrameView {
            pending: yielded(self.cursor, page),
            cursor: after_page(self.cursor, page),
            ..self
        }
    }
}

/// What the machine asks of its driver.
pub enum ActionView {
    /// Write the row, if there is one, then send the query and hand back the
    /// answer.
    Request { row: Option<Seq<char>>, url: Seq<char> },
    /// The walk is complete.
    Finished,
    /// A directory call failed: the walk has ended and nothing more is
    /// written.
    Aborted,
}

impl ActionView {
    /// The row that the action has written, if any.
    pub open spec fn row(self) -> Option<Seq<char>> {
        match self {
            ActionView::Request { row, .. } => row,
            _ => None,
        }
    }
}

/// Goes on with the walk from a stack whose top frame has its page: the next
/// unvisited user of the top frame is written and opened, or the top frame's
/// next page is asked for, or, where the top frame is done, the walk goes on
/// below it.
pub open spec fn walk(stack: Seq<FrameView>) -> (Seq<FrameView>, ActionView)
    decreases stack.len(),
{
    if stack.len() == 0 {
        (stack, ActionView::Finished)
    } else {
        let top = stack.last();
        if top.pending.len() > 0 {
            let reportee = top.pending[0];
            let rest = FrameView { pending: top.pending.drop_first(), ..top };
            let child = FrameView::opening(reportee.id, reportee.display_name);
            (
                stack.drop_last().push(rest).push(child),
                ActionView::Request {
                    row: Some(reportee.row_under(top.manager_id, top.manager_name)),
                    url: reports_query(reportee.id),
                },
            )
        } else if top.cursor is Some {
            (stack, ActionView::Request { row: None, url: top.cursor->0 })
        } else {
            walk(stack.drop_last())
        }
    }
}

/// The state of a walk. While the stack holds a frame, one query is
/// outstanding: that of the top frame's cursor.
pub struct TraversalView {
    pub stack: Seq<FrameView>,
    pub failure: Option<DirectoryError>,
}

impl TraversalView {
    /// Whether the machine waits for an answer.
    pub open spec fn awaiting(self) -> bool {
        self.stack.len() > 0
    }

    /// How many directory calls are outstanding.
    pub open spec fn in_flight(self) -> nat {
        if self.awaiting() {
            1
        } else {
            0
        }
    }

    /// The query that is outstanding, if any.
    pub open spec fn outstanding(self) -> Option<Seq<char>> {
        if self.awaiting() {
            self.stack.last().cursor
        } else {
            None
        }
    }

    /// What every state of a walk has: a failed walk holds no frame, and the
    /// top frame is the one that waits for its page.
    pub open spec fn well_formed(self) -> bool {
        self.awaiting() ==> {
            &&& self.failure is None
            &&& self.stack.last().pending.len() == 0
            &&& self.stack.last().cursor is Some
        }
    }

    /// The first state and action of the walk from `root`: the root's row
    /// and the query for the root's reports.
    pub open spec fn start(root: UserView) -> (TraversalView, ActionView) {
        (
            TraversalView {
                stack: seq![FrameView::opening(root.id, root.display_name)],
                failure: None,
            },
            ActionView::Request { row: Some(root.root_row()), url: reports_query(root.id) },
        )
    }

    /// The state and action after the answer to the outstanding query. An
    /// error ends the walk and is kept as it came. A walk that has ended
    /// stays as it is, whatever it is handed.
    pub open spec fn deliver(self, answer: Result<PageView, DirectoryError>) -> (
        TraversalView,
        ActionView,
    ) {
        if !self.awaiting() {
            (
                self,
                if self.failure is Some {
                    ActionView::Aborted
                } else {
                    ActionView::Finished
                },
            )
        } else {
            match answer {
                Err(error) => (
                    TraversalView { stack: Seq::empty(), failure: Some(error) },
                    ActionView::Aborted,
                ),
                Ok(page) => {
                    let top = self.stack.last().filled(page);
                    let (stack, action) = walk(self.stack.drop_last().push(top));
                    (TraversalView { stack, failure: self.failure }, action)
                },
            }
        }
    }
}

/// The rows that a run of actions has written, in order.
pub open spec fn rows_of(actions: Seq<ActionView>) -> Seq<Seq<char>>
    decreases actions.len(),
{
    if actions.len() == 0 {
        Seq::empty()
    } else {
        match actions[0].row() {
            Some(row) => seq![row] + rows_of(actions.drop_first()),
            None => rows_of(actions.drop_first()),
        }
    }
}

impl TraversalView {
    /// The state after a run of answers, handed in one after the other, and
    /// the action that followed each.
    pub open spec fn run(self, answers: Seq<Result<PageView, DirectoryError>>) -> (
        TraversalView,
        Seq<ActionView>,
    )
        decreases answers.len(),
    {
        if answers.len() == 0 {
            (self, Seq::empty())
        } else {
            let (next, action) = self.deliver(answers[0]);
            let (last, actions) = next.run(answers.drop_first());
            (last, seq![action] + actions)
        }
    }
}

/// A walk that has ended stays as it is whatever it is handed: every answer
/// is met with the same closing action, and no row is written.
pub proof fn law_ended_walk_stays(
    state: TraversalView,
    answers: Seq<Result<PageView, DirectoryError>>,
)
    requires
        !state.awaiting(),
    ensures
        state.run(answers).0 == state,
        state.run(answers).1.len() == answers.len(),
        forall|i: int|
            0 <= i < answers.len() ==> #[trigger] state.run(answers).1[i] == if state.failure
                is Some {
                ActionView::Aborted
            } else {
                ActionView::Finished
            },
        rows_of(state.run(answers).1) == Seq::<Seq<char>>::empty(),
    decreases answers.len(),
{
    if answers.len() > 0 {
        law_ended_walk_stays(state, answers.drop_first());
        let actions = state.run(answers).1;
        assert(actions.drop_first() =~= state.run(answers.drop_first()).1);
    }
}

/// One failed directory call ends the walk, wherever it stands: the error is
/// kept as it came, and whatever is handed in afterwards, the walk answers
/// that it was aborted and writes no further row.
pub proof fn law_failure_aborts(
    state: TraversalView,
    error: DirectoryError,
    later: Seq<Result<PageView, DirectoryError>>,
)
    requires
        state.awaiting(),
    ensures
        ({
            let (last, actions) = state.run(seq![Err(error)] + later);
            &&& last == TraversalView { stack: Seq::empty(), failure: Some(error) }
            &&& actions.len() == later.len() + 1
            &&& forall|i: int| 0 <= i < actions.len() ==> actions[i] == ActionView::Aborted
            &&& rows_of(actions) == Seq::<Seq<char>>::empty()
        }),
{
    let answers = seq![Err::<PageView, DirectoryError>(error)] + later;
    let ended = TraversalView { stack: Seq::empty(), failure: Some(error) };
    assert(answers.drop_first() =~= later);
    law_ended_walk_stays(ended, later);
    let actions = state.run(answers).1;
    assert(actions.drop_first() =~= ended.run(later).1);
}

/// Walking on keeps the stack well-formed: whenever it asks for a page, the
/// top frame is the one that waits for it, with the query that was named.
pub proof fn lemma_walk_well_formed(stack: Seq<FrameView>)
    ensures
        ({
            let (next, action) = walk(stack);
            match action {
                ActionView::Request { row, url } => {
                    &&& next.len() > 0
                    &&& next.last().pending.len() == 0
                    &&& next.last().cursor == Some(url)
                },
                ActionView::Finished => next.len() == 0,
                ActionView::Aborted => false,
            }
        }),
    decreases stack.len(),
{
    if stack.len() > 0 {
        let top = stack.last();
        if top.pending.len() == 0 && top.cursor is None {
            lemma_walk_well_formed(stack.drop_last());
        }
    }
}

/// An answer as plain values: the page, or the error as it is.
pub open spec fn answer_view(answer: Result<UsersResponse, DirectoryError>) -> Result<
    PageView,
    DirectoryError,
> {
    match answer {
        Ok(page) => Ok(page@),
        Err(error) => Err(error),
    }
}

/// What the machine asks of its driver.
#[derive(Clone, Debug, PartialEq, Eq)]
pub enum Action {
    /// Write the row, if there is one, then send the query and hand back the
    /// answer.
    Request { row: Option<String>, url: String },
    /// The walk is complete.
    Finished,
    /// A directory call failed: the walk has ended and nothing more is
    /// written.
    Aborted,
}

impl View for Action {
    type V = ActionView;

    open spec fn view(&self) -> ActionView {
        match self {
            Action::Request { row, url } => ActionView::Request {
                row: row.deep_view(),
                url: url@,
            },
            Action::Finished => ActionView::Finished,
            Action::Aborted => ActionView::Aborted,
        }
    }
}

struct Frame {
    manager_id: String,
    manager_name: String,
    items: Vec<User>,
    position: usize,
    cursor: Cursor,
}

impl Frame {
    spec fn wf(self) -> bool {
        self.position <= self.items.len()
    }

    spec fn view(self) -> FrameView {
        FrameView {
            manager_id: self.manager_id@,
            manager_name: self.manager_name@,
            pending: self.items.deep_view().skip(self.position as int),
            cursor: self.cursor@,
        }
    }
}

spec fn frames_wf(stack: Seq<Frame>) -> bool {
    forall|i: int| 0 <= i < stack.len() ==> (#[trigger] stack[i]).wf()
}

spec fn frames_view(stack: Seq<Frame>) -> Seq<FrameView> {
    stack.map_values(|frame: Frame| frame.view())
}

proof fn lemma_without_top(stack: Seq<Frame>)
    requires
        frames_wf(stack),
        stack.len() > 0,
    ensures
        frames_wf(stack.drop_last()),
        frames_view(stack.drop_last()) == frames_view(stack).drop_last(),
        frames_view(stack).last() == stack.last().view(),
{
    assert forall|i: int| 0 <= i < stack.drop_last().len() implies (
    #[trigger] stack.drop_last()[i]).wf() by {
        assert(stack.drop_last()[i] == stack[i]);
    }
    assert(frames_view(stack.drop_last()) =~= frames_view(stack).drop_last());
}

proof fn lemma_with_top(below: Seq<Frame>, frame: Frame)
    requires
        frames_wf(below),
        frame.wf(),
    ensures
        frames_wf(below.push(frame)),
        frames_view(below.push(frame)) == frames_view(below).push(frame.view()),
{
    assert(frames_view(below.push(frame)) =~= frames_view(below).push(frame.view()));
}

fn open_frame(manager: &User) -> (r: (Frame, String))
    ensures
        r.0.wf(),
        r.0.view() == FrameView::opening(manager@.id, manager@.display_name),
        r.1@ == reports_query(manager@.id),
{
    let url = reports_url(manager.id.as_str());
    let frame = Frame {
        manager_id: manager.id.clone(),
        manager_name: manager.display_name.clone(),
        items: Vec::new(),
        position: 0,
        cursor: Cursor::new(url.clone()),
    };
    proof {
        assert(frame.view().pending =~= Seq::<UserView>::empty());
    }
    (frame, url)
}

fn walk_on(stack: &mut Vec<Frame>) -> (action: Action)
    requires
        frames_wf(old(stack)@),
    ensures
        frames_wf(final(stack)@),
        (frames_view(final(stack)@), action@) == walk(frames_view(old(stack)@)),
{
    loop
        invariant
            frames_wf(stack@),
            walk(frames_view(stack@)) == walk(frames_view(old(stack)@)),
        decreases stack.len(),
    {
        let ghost before = stack@;
        let mut frame = match stack.pop() {
            Some(frame) => frame,
            None => {
                return Action::Finished;
            },
        };
        let ghost top = frame.view();
        let ghost below = stack@;
        proof {
            assert(below =~= before.drop_last());
            lemma_without_top(before);
        }
        if frame.position < frame.items.len() {
            let reportee = &frame.items[frame.position];
            let row = reportee.to_row_under(frame.manager_id.as_str(), frame.manager_name.as_str());
            let (child, url) = open_frame(reportee);
            proof {
                assert(top.pending[0] == reportee@);
            }
            frame.position = frame.position + 1;
            proof {
                assert(frame.view().pending =~= top.pending.drop_first());
                lemma_with_top(below, frame);
                lemma_with_top(below.push(frame), child);
            }
            stack.push(frame);
            stack.push(child);
            return Action::Request { row: Some(row), url };
        }
        match frame.cursor.pending() {
            Some(query) => {
                let url = String::from_str(query);
                stack.push(frame);
                proof {
                    assert(stack@ =~= before);
                }
                return Action::Request { row: None, url };
            },
            None => {},
        }
    }
}

/// A walk in progress.
pub struct Traversal {
    stack: Vec<Frame>,
    failure: Option<DirectoryError>,
    limiter: Limiter,
}

impl View for Traversal {
    type V = TraversalView;

    closed spec fn view(&self) -> TraversalView {
        TraversalView { stack: frames_view(self.stack@), failure: self.failure }
    }
}

impl Traversal {
    #[verifier::type_invariant]
    spec fn inv(self) -> bool {
        &&& frames_wf(self.stack@)
        &&& self@.well_formed()
        &&& self.limiter@ == LimiterView {
            capacity: MAX_CONCURRENT_REQUESTS as nat,
            in_flight: self@.in_flight(),
        }
    }

    fn ended(failure: Option<DirectoryError>) -> (r: Traversal)
        ensures
            r@ == (TraversalView { stack: Seq::empty(), failure }),
    {
        let r = Traversal {
            stack: Vec::new(),
            failure,
            limiter: Limiter::new(MAX_CONCURRENT_REQUESTS),
        };
        proof {
            assert(r@.stack =~= Seq::<FrameView>::empty());
        }
        r
    }

    /// Starts the walk from `root`. The first action writes the root's row
    /// and asks for the root's reports.
    pub fn begin(root: &User) -> (r: (Traversal, Action))
        ensures
            (r.0@, r.1@) == TraversalView::start(root@),
            r.0@.well_formed(),
    {
        let (frame, url) = open_frame(root);
        let row = root.to_root_row();
        let mut stack: Vec<Frame> = Vec::new();
        stack.push(frame);
        let mut limiter = Limiter::new(MAX_CONCURRENT_REQUESTS);
        let admitted = limiter.try_acquire();
        assert(admitted);
        proof {
            assert(frames_view(stack@) =~= seq![frame.view()]);
        }
        let traversal = Traversal { stack, failure: None, limiter };
        (traversal, Action::Request { row: Some(row), url })
    }

    fn advance(self, answer: Result<UsersResponse, DirectoryError>) -> (r: (Traversal, Action))
        ensures
            (r.0@, r.1@) == self@.deliver(answer_view(answer)),
    {
        proof {
            use_type_invariant(&self);
        }
        let Traversal { mut stack, failure, mut limiter } = self;
        let ghost before = stack@;
        let mut frame = match stack.pop() {
            Some(frame) => frame,
            None => {
                let action = if failure.is_some() {
                    Action::Aborted
                } else {
                    Action::Finished
                };
                return (Traversal { stack, failure, limiter }, action);
            },
        };
        limiter.release();
        let page = match answer {
            Ok(page) => page,
            Err(error) => {
                return (Traversal::ended(Some(error)), Action::Aborted);
            },
        };
        let ghost top = frame.view();
        let ghost below = stack@;
        frame.items = frame.cursor.accept(page);
        frame.position = 0;
        proof {
            assert(below =~= before.drop_last());
            lemma_without_top(before);
            assert(frame.view().pending =~= yielded(top.cursor, page@));
            lemma_with_top(below, frame);
            lemma_walk_well_formed(frames_view(below.push(frame)));
        }
        stack.push(frame);
        let action = walk_on(&mut stack);
        match action {
            Action::Request { .. } => {
                let admitted = limiter.try_acquire();
                assert(admitted);
            },
            _ => {},
        }
        (Traversal { stack, failure, limiter }, action)
    }

    /// Takes the answer to the outstanding query and says what to do next.
    pub fn deliver(&mut self, answer: Result<UsersResponse, DirectoryError>) -> (action: Action)
        ensures
            (final(self)@, action@) == old(self)@.deliver(answer_view(answer)),
            final(self)@.well_formed(),
    {
        let mut state = Traversal::ended(None);
        std::mem::swap(self, &mut state);
        let (next, action) = state.advance(answer);
        proof {
            use_type_invariant(&next);
        }
        *self = next;
        action
    }

    /// Whether the machine waits for an answer.
    pub fn is_awaiting(&self) -> (r: bool)
        ensures
            r == self@.awaiting(),
    {
        self.stack.len() > 0
    }

    /// The error that ended the walk, as it was handed in.
    pub fn failure(&self) -> (r: Option<&DirectoryError>)
        ensures
            r == match self@.failure {
                Some(error) => Some(&error),
                None => None,
            },
    {
        self.failure.as_ref()
    }

    /// How many directory calls are outstanding: one while the machine
    /// waits, none otherwise, and so never more than the run-wide bound.
    pub fn in_flight(&self) -> (r: usize)
        ensures
            r == self@.in_flight(),
            r <= MAX_CONCURRENT_REQUESTS,
    {
        proof {
            use_type_invariant(self);
        }
        self.limiter.in_flight()
    }
}

} // verus!
