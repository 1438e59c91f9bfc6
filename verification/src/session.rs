//! The lock loop: what the [`Action`]s set during a pass over the outputs mean,
//! when a password check is started, and when the lock ends.
//!
//! A pass renders every output once. While it runs, each output's [`Action`]
//! is registered into a [`Pass`]; at its end, [`LockLoop::finish_pass`] says
//! what the loop does next.

use std::collections::VecDeque;
use std::path::PathBuf;

use vstd::prelude::*;

use crate::{option_string_view, Action};

verus! {

/// what has been asked for during one pass over the outputs.
pub struct Pass {
    /// some output asked for the lock to end without a password check
    pub should_break: bool,
    /// the password to check at the end of the pass, if any
    pub should_auth: Option<String>,
}

/// the model of a [`Pass`]
pub struct PassView {
    pub should_break: bool,
    pub should_auth: Option<Seq<char>>,
}

impl View for Pass {
    type V = PassView;

    open spec fn view(&self) -> PassView {
        PassView { should_break: self.should_break, should_auth: option_string_view(self.should_auth) }
    }
}

/// the pass in which nothing has been asked for yet
pub open spec fn empty_pass() -> PassView {
    PassView { should_break: false, should_auth: None }
}

/// what registering `exit` does to a pass, while a password check is (or is not) running
pub open spec fn pass_after(doing_auth: bool, pass: PassView, exit: Action) -> PassView {
    match exit {
        Action::ForceExit => PassView { should_break: true, should_auth: pass.should_auth },
        Action::PasswdCheck(passwd) => if doing_auth {
            pass
        } else {
            PassView { should_break: pass.should_break, should_auth: Some(passwd@) }
        },
        _ => pass,
    }
}

/// the pass after registering each of `exits`, in order
pub open spec fn pass_over(doing_auth: bool, pass: PassView, exits: Seq<Action>) -> PassView
    decreases exits.len(),
{
    if exits.len() == 0 {
        pass
    } else {
        pass_after(doing_auth, pass_over(doing_auth, pass, exits.drop_last()), exits.last())
    }
}

/// the password of the last [`Action::PasswdCheck`] among `exits`
pub open spec fn last_password(exits: Seq<Action>) -> Option<Seq<char>>
    decreases exits.len(),
{
    if exits.len() == 0 {
        None
    } else {
        match exits.last() {
            Action::PasswdCheck(passwd) => Some(passwd@),
            _ => last_password(exits.drop_last()),
        }
    }
}

/// whether some of `exits` is [`Action::ForceExit`]
pub open spec fn has_force_exit(exits: Seq<Action>) -> bool {
    exists|i: int| 0 <= i < exits.len() && exits[i] is ForceExit
}

/// what the lock loop does once a pass over all outputs is over
pub enum LoopStep {
    /// end the lock
    Exit,
    /// a password check is running: look whether its result has arrived
    PollWorker,
    /// start a check of this password
    CheckPassword(String),
    /// go on with the next pass
    Continue,
}

/// the model of a [`LoopStep`]
pub enum StepView {
    Exit,
    PollWorker,
    CheckPassword(Seq<char>),
    Continue,
}

impl View for LoopStep {
    type V = StepView;

    open spec fn view(&self) -> StepView {
        match self {
            LoopStep::Exit => StepView::Exit,
            LoopStep::PollWorker => StepView::PollWorker,
            LoopStep::CheckPassword(p) => StepView::CheckPassword(p@),
            LoopStep::Continue => StepView::Continue,
        }
    }
}

/// the step taken at the end of `pass`, and whether a password check is
/// running afterwards
pub open spec fn step_after(doing_auth: bool, pass: PassView) -> (bool, StepView) {
    if pass.should_break {
        (doing_auth, StepView::Exit)
    } else if doing_auth {
        (doing_auth, StepView::PollWorker)
    } else if pass.should_auth is Some {
        (true, StepView::CheckPassword(pass.should_auth->0))
    } else {
        (doing_auth, StepView::Continue)
    }
}

/// whether a password check is running after its result `reply` was looked for
pub open spec fn doing_auth_after_reply(doing_auth: bool, reply: Option<bool>) -> bool {
    if reply is Some {
        false
    } else {
        doing_auth
    }
}

/// the state that the lock loop keeps from one pass to the next.
pub struct LockLoop {
    doing_auth: bool,
    recreate: VecDeque<u32>,
}

/// the model of a [`LockLoop`]
pub struct LockLoopView {
    /// a password check has been started and its result has not arrived
    pub doing_auth: bool,
    /// the names of the outputs whose surface must be recreated, oldest first
    pub recreate: Seq<u32>,
}

impl View for LockLoop {
    type V = LockLoopView;

    closed spec fn view(&self) -> LockLoopView {
        LockLoopView { doing_auth: self.doing_auth, recreate: self.recreate@ }
    }
}

/// the copy of a path, as `Clone` gives it.
#[verifier::external_body]
fn clone_path(path: &PathBuf) -> (copy: PathBuf)
    ensures
        copy == *path,
{
    path.clone()
}

impl LockLoop {
    /// the loop before its first pass: no password check runs and no surface
    /// waits to be recreated
    pub fn new() -> (l: Self)
        ensures
            !l@.doing_auth,
            l@.recreate == Seq::<u32>::empty(),
    {
        LockLoop { doing_auth: false, recreate: VecDeque::new() }
    }

    /// whether a password check is running
    pub fn doing_auth(&self) -> (b: bool)
        ensures
            b == self@.doing_auth,
    {
        self.doing_auth
    }

    /// a pass in which nothing has been asked for yet
    pub fn begin_pass(&self) -> (pass: Pass)
        ensures
            pass@ == empty_pass(),
    {
        Pass { should_break: false, should_auth: None }
    }

    /// register what an output's ui asked for in `exit`.
    ///
    /// - [`Action::ForceExit`] makes the pass end the lock;
    /// - [`Action::PasswdCheck`] sets the password to check, unless a check is
    ///   already running, in which case it is ignored; a later one replaces an
    ///   earlier one;
    /// - [`Action::TakeScreenshot`] records in `screenshot` where this output's
    ///   frame is to be saved.
    pub fn register(&self, pass: &mut Pass, screenshot: &mut Option<PathBuf>, exit: &Action)
        ensures
            final(pass)@ == pass_after(self@.doing_auth, old(pass)@, *exit),
            *final(screenshot) == (match *exit {
                Action::TakeScreenshot(path) => Some(path),
                _ => *old(screenshot),
            }),
    {
        match exit {
            Action::Nothing => {},
            Action::TakeScreenshot(path) => {
                *screenshot = Some(clone_path(path));
            },
            Action::ForceExit => {
                pass.should_break = true;
            },
            Action::PasswdCheck(passwd) => {
                if !self.doing_auth {
                    pass.should_auth = Some(passwd.clone());
                }
            },
        }
    }

    /// the step to take once every output has been rendered in `pass`:
    /// the lock ends if some output asked for it; otherwise a running check is
    /// polled; otherwise a password asked for starts a check.
    pub fn finish_pass(&mut self, pass: Pass) -> (step: LoopStep)
        ensures
            (final(self)@.doing_auth, step@) == step_after(old(self)@.doing_auth, pass@),
            final(self)@.recreate == old(self)@.recreate,
    {
        if pass.should_break {
            LoopStep::Exit
        } else if self.doing_auth {
            LoopStep::PollWorker
        } else {
            match pass.should_auth {
                Some(passwd) => {
                    self.doing_auth = true;
                    LoopStep::CheckPassword(passwd)
                },
                None => LoopStep::Continue,
            }
        }
    }

    /// take in what the password check answered so far: `None` if it has not
    /// answered yet, `Some(true)` if the password matched, `Some(false)` if not.
    /// Returns whether the lock ends; once an answer arrives, a new check may start.
    pub fn password_result(&mut self, reply: Option<bool>) -> (exit: bool)
        ensures
            exit == (reply == Some(true)),
            final(self)@.doing_auth == doing_auth_after_reply(old(self)@.doing_auth, reply),
            final(self)@.recreate == old(self)@.recreate,
    {
        match reply {
            Some(matched) => {
                self.doing_auth = false;
                matched
            },
            None => false,
        }
    }

    /// whether the surface of output `name` is to be recreated now: it is when
    /// `name` is the oldest entry that waits, which is then taken off the queue.
    pub fn take_recreation(&mut self, name: u32) -> (due: bool)
        ensures
            due == (old(self)@.recreate.len() > 0 && old(self)@.recreate[0] == name),
            final(self)@.recreate == (if due {
                old(self)@.recreate.drop_first()
            } else {
                old(self)@.recreate
            }),
            final(self)@.doing_auth == old(self)@.doing_auth,
    {
        let due = self.recreate.len() > 0 && self.recreate[0] == name;
        if due {
            let _ = self.recreate.pop_front();
        }
        due
    }

    /// the surface of output `name` was lost while rendering: queue it to be
    /// recreated.
    pub fn surface_lost(&mut self, name: u32)
        ensures
            final(self)@.recreate == old(self)@.recreate.push(name),
            final(self)@.doing_auth == old(self)@.doing_auth,
    {
        self.recreate.push_back(name);
    }
}

/// taking output `name`'s turn in the recreation queue `queue`: whether its
/// surface is recreated, and the queue afterwards (see [`LockLoop::take_recreation`])
pub open spec fn take_turn(queue: Seq<u32>, name: u32) -> (bool, Seq<u32>) {
    if queue.len() > 0 && queue[0] == name {
        (true, queue.drop_first())
    } else {
        (false, queue)
    }
}

/// one pass over the outputs named in `order`, as the lock loop makes it: each
/// output first takes its turn in the recreation queue, then is rendered, and is
/// queued again when `lost` says its surface was lost. Gives, for each output,
/// whether its surface was recreated, and the queue at the end of the pass.
pub open spec fn recreation_pass(queue: Seq<u32>, order: Seq<u32>, lost: Seq<bool>) -> (Seq<bool>, Seq<u32>)
    decreases order.len(),
{
    if order.len() == 0 {
        (Seq::empty(), queue)
    } else {
        let (due, after_turn) = take_turn(queue, order[0]);
        let after_frame = if lost[0] { after_turn.push(order[0]) } else { after_turn };
        let (rest_due, end) = recreation_pass(after_frame, order.drop_first(), lost.drop_first());
        (seq![due] + rest_due, end)
    }
}

/// the names in `order` whose flag in `lost` is set, in order
pub open spec fn lost_names(order: Seq<u32>, lost: Seq<bool>) -> Seq<u32>
    decreases order.len(),
{
    if order.len() == 0 {
        Seq::empty()
    } else {
        (if lost[0] { seq![order[0]] } else { Seq::empty() }) + lost_names(order.drop_first(), lost.drop_first())
    }
}

proof fn lemma_lost_names_within(order: Seq<u32>, lost: Seq<bool>)
    requires
        lost.len() == order.len(),
    ensures
        forall|k: int| 0 <= k < lost_names(order, lost).len() ==> order.contains(#[trigger] lost_names(order, lost)[k]),
    decreases order.len(),
{
    if order.len() > 0 {
        lemma_lost_names_within(order.drop_first(), lost.drop_first());
        let head: Seq<u32> = if lost[0] { seq![order[0]] } else { Seq::empty() };
        let rest = lost_names(order.drop_first(), lost.drop_first());
        assert forall|k: int| 0 <= k < lost_names(order, lost).len() implies order.contains(#[trigger] lost_names(order, lost)[k]) by {
            if k < head.len() {
                assert(order[0] == lost_names(order, lost)[k]);
            } else {
                assert(lost_names(order, lost)[k] == rest[k - head.len()]);
                assert(order.drop_first().contains(rest[k - head.len()]));
                let j = choose|j: int| 0 <= j < order.drop_first().len() && order.drop_first()[j] == rest[k - head.len()];
                assert(order[j + 1] == rest[k - head.len()]);
            }
        }
    }
}

proof fn lemma_recreation_pass_general(order: Seq<u32>, prev: Seq<bool>, lost: Seq<bool>, tail: Seq<u32>)
    requires
        order.no_duplicates(),
        prev.len() == order.len(),
        lost.len() == order.len(),
        forall|k: int| 0 <= k < tail.len() ==> !order.contains(#[trigger] tail[k]),
    ensures
        recreation_pass(lost_names(order, prev) + tail, order, lost) == (prev, tail + lost_names(order, lost)),
    decreases order.len(),
{
    if order.len() == 0 {
        assert(lost_names(order, prev) + tail =~= tail);
        assert(tail + lost_names(order, lost) =~= tail);
        assert(prev =~= Seq::<bool>::empty());
    } else {
        let o = order[0];
        let rest = order.drop_first();
        let prev_rest = prev.drop_first();
        let lost_rest = lost.drop_first();
        let queue = lost_names(order, prev) + tail;
        let rest_queue = lost_names(rest, prev_rest) + tail;
        assert(forall|k: int| 0 <= k < rest.len() ==> rest[k] == order[k + 1]);
        assert(!rest.contains(o)) by {
            if rest.contains(o) {
                let j = choose|j: int| 0 <= j < rest.len() && rest[j] == o;
                assert(order[j + 1] == order[0]);
            }
        }
        assert(rest.no_duplicates()) by {
            assert forall|i: int, j: int| 0 <= i < rest.len() && 0 <= j < rest.len() && i != j implies rest[i] != rest[j] by {
                assert(order[i + 1] != order[j + 1]);
            }
        }
        assert forall|k: int| 0 <= k < tail.len() implies !rest.contains(#[trigger] tail[k]) by {
            if rest.contains(tail[k]) {
                let j = choose|j: int| 0 <= j < rest.len() && rest[j] == tail[k];
                assert(order[j + 1] == tail[k]);
                assert(order.contains(tail[k]));
            }
        }
        let new_tail = if lost[0] { tail.push(o) } else { tail };
        assert forall|k: int| 0 <= k < new_tail.len() implies !rest.contains(#[trigger] new_tail[k]) by {
            if k < tail.len() {
                assert(new_tail[k] == tail[k]);
            }
        }
        lemma_recreation_pass_general(rest, prev_rest, lost_rest, new_tail);
        lemma_lost_names_within(rest, prev_rest);
        let (due, after_turn) = take_turn(queue, o);
        if prev[0] {
            assert(queue =~= seq![o] + rest_queue);
            assert(due && after_turn =~= rest_queue);
        } else {
            assert(queue =~= rest_queue);
            if rest_queue.len() > 0 {
                if lost_names(rest, prev_rest).len() > 0 {
                    assert(rest_queue[0] == lost_names(rest, prev_rest)[0]);
                    assert(rest.contains(lost_names(rest, prev_rest)[0]));
                } else {
                    assert(rest_queue[0] == tail[0]);
                    assert(order.contains(order[0]));
                }
            }
            assert(!due && after_turn == rest_queue);
        }
        let after_frame = if lost[0] { after_turn.push(o) } else { after_turn };
        assert(after_frame =~= lost_names(rest, prev_rest) + new_tail);
        let (rest_due, end) = recreation_pass(after_frame, rest, lost_rest);
        assert(rest_due == prev_rest);
        assert(seq![due] + rest_due =~= prev);
        let head: Seq<u32> = if lost[0] { seq![o] } else { Seq::empty() };
        assert(lost_names(order, lost) == head + lost_names(rest, lost_rest));
        assert(new_tail + lost_names(rest, lost_rest) =~= tail + lost_names(order, lost));
    }
}

/// A surface lost while rendering is recreated on the next pass, at its own
/// output's turn, and no other surface is: when the outputs are visited in the
/// same order on each pass (each name once) and the queue holds the outputs whose
/// surface was lost on the previous pass, the outputs whose surface is recreated
/// are exactly those, and the queue at the end holds exactly the outputs lost
/// on this pass, in order.
pub proof fn lemma_lost_surface_recreated_next_pass(order: Seq<u32>, prev_lost: Seq<bool>, lost: Seq<bool>)
    requires
        order.no_duplicates(),
        prev_lost.len() == order.len(),
        lost.len() == order.len(),
    ensures
        recreation_pass(lost_names(order, prev_lost), order, lost) == (prev_lost, lost_names(order, lost)),
{
    let empty = Seq::<u32>::empty();
    lemma_recreation_pass_general(order, prev_lost, lost, empty);
    assert(lost_names(order, prev_lost) + empty =~= lost_names(order, prev_lost));
    assert(empty + lost_names(order, lost) =~= lost_names(order, lost));
}

proof fn lemma_pass_over_parts(doing_auth: bool, pass: PassView, exits: Seq<Action>)
    ensures
        pass_over(doing_auth, pass, exits).should_break == (pass.should_break || has_force_exit(exits)),
        pass_over(doing_auth, pass, exits).should_auth == (if !doing_auth && last_password(exits) is Some {
            last_password(exits)
        } else {
            pass.should_auth
        }),
    decreases exits.len(),
{
    if exits.len() > 0 {
        let front = exits.drop_last();
        lemma_pass_over_parts(doing_auth, pass, front);
        assert(has_force_exit(exits) == (has_force_exit(front) || exits.last() is ForceExit)) by {
            if has_force_exit(exits) {
                let i = choose|i: int| 0 <= i < exits.len() && exits[i] is ForceExit;
                if i < exits.len() - 1 {
                    assert(front[i] is ForceExit);
                }
            }
            if has_force_exit(front) {
                let i = choose|i: int| 0 <= i < front.len() && front[i] is ForceExit;
                assert(exits[i] is ForceExit);
            }
        }
    }
}

/// What a pass over the outputs ends in: the lock ends if any output asked for
/// [`Action::ForceExit`], whatever passwords were asked for; otherwise, while a
/// check runs, its result is polled and every new password is ignored;
/// otherwise a check starts for the password of the last
/// [`Action::PasswdCheck`] registered in the pass (if different outputs asked
/// for different passwords, only the last one is considered).
pub proof fn lemma_pass_outcome(doing_auth: bool, exits: Seq<Action>)
    ensures
        step_after(doing_auth, pass_over(doing_auth, empty_pass(), exits)) == (if has_force_exit(exits) {
            (doing_auth, StepView::Exit)
        } else if doing_auth {
            (doing_auth, StepView::PollWorker)
        } else if last_password(exits) is Some {
            (true, StepView::CheckPassword(last_password(exits)->0))
        } else {
            (doing_auth, StepView::Continue)
        }),
{
    lemma_pass_over_parts(doing_auth, empty_pass(), exits);
}

/// While a password check runs, the passwords asked for are ignored: they leave
/// the pass as it was.
pub proof fn lemma_passwords_ignored_while_checking(pass: PassView, exits: Seq<Action>)
    ensures
        pass_over(true, pass, exits).should_auth == pass.should_auth,
{
    lemma_pass_over_parts(true, pass, exits);
}

/// At most one password check runs at a time: a check starts only when none
/// runs, and then one runs; it stops running only once its answer arrives, and
/// the lock ends exactly when that answer is that the password matched.
pub proof fn lemma_one_check_at_a_time(doing_auth: bool, pass: PassView, reply: Option<bool>)
    ensures
        step_after(doing_auth, pass).1 is CheckPassword ==> !doing_auth && step_after(doing_auth, pass).0,
        !(step_after(doing_auth, pass).1 is CheckPassword) ==> step_after(doing_auth, pass).0 == doing_auth,
        doing_auth_after_reply(doing_auth, reply) == (doing_auth && reply is None),
{
}

} // verus!
