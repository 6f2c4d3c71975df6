//! Work on a list of items, one request at a time.
//!
//! A [`Worklist`] says which item comes next; the caller works on it and reports whether that
//! succeeded. Items that cannot be worked on are passed over; whether they count as failures, and
//! whether the work ends with the first failure, depends on the job.

use vstd::prelude::*;

use crate::types::Error;

verus! {

/// What is done with the items of a list.
#[derive(Clone, Copy, Debug, PartialEq, Eq, Structural)]
pub enum Job {
    /// Verify users.
    VerifyUsers,
    /// Verify the user's own devices.
    VerifyDevices,
    /// Find the rooms of aliases.
    ResolveAliases,
    /// Create rooms.
    CreateRooms,
    /// Show information on rooms.
    ShowRooms,
    /// Set aliases of a room.
    SetAliases,
    /// Delete aliases.
    DeleteAliases,
    /// Answer invitations.
    AnswerInvites,
    /// Remove the contents of events.
    Redact,
    /// Call the REST interface.
    Rest,
    /// Upload media.
    Upload,
    /// Download media.
    Download,
    /// Delete media.
    DeleteMedia,
}

impl Job {
    /// The error with which the job ends where it failed.
    pub open spec fn error(self) -> Error {
        match self {
            Job::VerifyUsers => Error::VerifyFailed,
            Job::VerifyDevices => Error::VerifyFailed,
            Job::ResolveAliases => Error::ResolveRoomAliasFailed,
            Job::CreateRooms => Error::CreateRoomFailed,
            Job::ShowRooms => Error::InvalidRoom,
            Job::SetAliases => Error::RoomSetAliasFailed,
            Job::DeleteAliases => Error::RoomDeleteAliasFailed,
            Job::AnswerInvites => Error::RoomInvitesFailed,
            Job::Redact => Error::RoomRedactFailed,
            Job::Rest => Error::RestFailed,
            Job::Upload => Error::MediaUploadFailed,
            Job::Download => Error::MediaDownloadFailed,
            Job::DeleteMedia => Error::MediaDeleteFailed,
        }
    }

    /// The error with which the job ends where it failed.
    pub fn failure(self) -> (e: Error)
        ensures
            e == self.error(),
    {
        match self {
            Job::VerifyUsers => Error::VerifyFailed,
            Job::VerifyDevices => Error::VerifyFailed,
            Job::ResolveAliases => Error::ResolveRoomAliasFailed,
            Job::CreateRooms => Error::CreateRoomFailed,
            Job::ShowRooms => Error::InvalidRoom,
            Job::SetAliases => Error::RoomSetAliasFailed,
            Job::DeleteAliases => Error::RoomDeleteAliasFailed,
            Job::AnswerInvites => Error::RoomInvitesFailed,
            Job::Redact => Error::RoomRedactFailed,
            Job::Rest => Error::RestFailed,
            Job::Upload => Error::MediaUploadFailed,
            Job::Download => Error::MediaDownloadFailed,
            Job::DeleteMedia => Error::MediaDeleteFailed,
        }
    }

    /// Whether the work ends with the first failure: that is so of the user's own devices, of rooms
    /// to show and of aliases.
    pub open spec fn stops(self) -> bool {
        self == Job::VerifyDevices || self == Job::ShowRooms || self == Job::SetAliases || self
            == Job::DeleteAliases
    }

    /// Whether the work ends with the first failure.
    fn is_stopping(self) -> (r: bool)
        ensures
            r == self.stops(),
    {
        self == Job::VerifyDevices || self == Job::ShowRooms || self == Job::SetAliases || self
            == Job::DeleteAliases
    }

    /// Whether items that cannot be worked on are no failures: that is so of rooms to show.
    pub open spec fn forgives(self) -> bool {
        self == Job::ShowRooms
    }
}

/// The first position from `i` on at which there is something to work on.
pub open spec fn ready_from(ready: Seq<bool>, i: int) -> int
    decreases ready.len() - i,
{
    if i < 0 || i >= ready.len() {
        ready.len() as int
    } else if ready[i] {
        i
    } else {
        ready_from(ready, i + 1)
    }
}

/// The state of a list of work as a mathematical value.
pub struct WorkState {
    pub job: Job,
    /// Which items can be worked on.
    pub ready: Seq<bool>,
    /// The position of the item that is being worked on.
    pub at: int,
    /// Whether anything failed so far.
    pub failed: bool,
}

impl WorkState {
    /// The position is that of an item that can be worked on, or the end.
    pub open spec fn wf(self) -> bool {
        0 <= self.at <= self.ready.len() && (self.at < self.ready.len() ==> self.ready[self.at])
    }

    /// The state at the next item from a position on. An item that cannot be worked on is a
    /// failure, unless the job forgives that.
    pub open spec fn moved(self, i: int) -> WorkState {
        let next = ready_from(self.ready, i);
        let missed = !self.job.forgives() && next > i;
        WorkState {
            at: if missed && self.job.stops() {
                self.ready.len() as int
            } else {
                next
            },
            failed: self.failed || missed,
            ..self
        }
    }

    /// The state once the item is done. A failure ends the work where the job stops with it.
    pub open spec fn after(self, ok: bool) -> WorkState {
        if self.at >= self.ready.len() {
            self
        } else if !ok && self.job.stops() {
            WorkState { at: self.ready.len() as int, failed: true, ..self }
        } else {
            (WorkState { failed: self.failed || !ok, ..self }).moved(self.at + 1)
        }
    }

    /// The state once work on the item failed and is to be tried again.
    pub open spec fn again(self) -> WorkState {
        WorkState { failed: true, ..self }
    }

    /// The result of the work.
    pub open spec fn result(self) -> Result<(), Error> {
        if self.failed {
            Err(self.job.error())
        } else {
            Ok(())
        }
    }

    /// The state after a run of outcomes.
    pub open spec fn run(self, outcomes: Seq<bool>) -> WorkState
        decreases outcomes.len(),
    {
        if outcomes.len() == 0 {
            self
        } else {
            self.run(outcomes.drop_last()).after(outcomes.last())
        }
    }
}

/// The state in which work on a list begins.
pub open spec fn work_start(job: Job, ready: Seq<bool>) -> WorkState {
    (WorkState { job, ready, at: 0, failed: false }).moved(0)
}

/// A list that is being worked on.
#[derive(Debug)]
pub struct Worklist {
    job: Job,
    ready: Vec<bool>,
    at: usize,
    failed: bool,
}

impl View for Worklist {
    type V = WorkState;

    closed spec fn view(&self) -> WorkState {
        WorkState { job: self.job, ready: self.ready@, at: self.at as int, failed: self.failed }
    }
}

/// The first position from `from` on at which there is something to work on.
fn find_ready(ready: &Vec<bool>, from: usize) -> (i: usize)
    requires
        from <= ready.len(),
    ensures
        i == ready_from(ready@, from as int),
        from <= i <= ready.len(),
        i < ready.len() ==> ready@[i as int],
{
    let mut i: usize = from;
    while i < ready.len() && !ready[i]
        invariant
            from <= i <= ready.len(),
            ready_from(ready@, from as int) == ready_from(ready@, i as int),
        decreases ready.len() - i,
    {
        i += 1;
    }
    i
}

impl Worklist {
    /// The position is that of an item that can be worked on, or the end.
    #[verifier::type_invariant]
    spec fn inv(self) -> bool {
        self@.wf()
    }

    /// Begins a job, given which of its items can be worked on.
    pub fn start(job: Job, ready: Vec<bool>) -> (w: Worklist)
        ensures
            w@ == work_start(job, ready@),
            w@.wf(),
    {
        let next = find_ready(&ready, 0);
        let failed = job != Job::ShowRooms && next > 0;
        let at: usize = if failed && job.is_stopping() {
            ready.len()
        } else {
            next
        };
        Worklist { job, ready, at, failed }
    }

    /// The position of the item that comes next.
    pub fn next_item(&self) -> (r: Option<usize>)
        ensures
            match r {
                Some(i) => i == self@.at && i < self@.ready.len() && self@.ready[i as int],
                None => self@.at == self@.ready.len(),
            },
    {
        proof {
            use_type_invariant(self);
        }
        if self.at < self.ready.len() {
            Some(self.at)
        } else {
            None
        }
    }

    /// Takes note of the outcome for the item.
    pub fn report(&mut self, ok: bool)
        ensures
            final(self)@ == old(self)@.after(ok),
            final(self)@.wf(),
    {
        proof {
            use_type_invariant(&*self);
        }
        if self.at >= self.ready.len() {
            return;
        }
        if !ok {
            self.failed = true;
            if self.job.is_stopping() {
                self.at = self.ready.len();
                return;
            }
        }
        let from = self.at + 1;
        let next = find_ready(&self.ready, from);
        let missed = self.job != Job::ShowRooms && next > from;
        if missed {
            self.failed = true;
        }
        if missed && self.job.is_stopping() {
            self.at = self.ready.len();
        } else {
            self.at = next;
        }
    }

    /// Takes note of a failure after which the same item is tried again.
    pub fn report_retry(&mut self)
        ensures
            final(self)@ == old(self)@.again(),
            final(self)@.wf(),
    {
        proof {
            use_type_invariant(&*self);
        }
        self.failed = true;
    }

    /// The result of the work: the error of the job where anything failed.
    pub fn finish(self) -> (r: Result<(), Error>)
        ensures
            r == self@.result(),
    {
        if self.failed {
            Err(self.job.failure())
        } else {
            Ok(())
        }
    }
}

/// Whether all items before a position can be worked on.
pub open spec fn all_ready(ready: Seq<bool>, n: int) -> bool {
    forall|i: int| 0 <= i < n && i < ready.len() ==> #[trigger] ready[i]
}

/// Moving to the next item passes over no item that can be worked on.
proof fn lemma_ready_from(ready: Seq<bool>, i: int)
    requires
        0 <= i <= ready.len(),
    ensures
        i <= ready_from(ready, i) <= ready.len(),
        forall|j: int| i <= j < ready_from(ready, i) ==> !#[trigger] ready[j],
        ready_from(ready, i) < ready.len() ==> ready[ready_from(ready, i)],
    decreases ready.len() - i,
{
    if i < ready.len() && !ready[i] {
        lemma_ready_from(ready, i + 1);
    }
}

/// A job that stops with the first failure ends with it, be it an item that could not be worked on
/// or one that was worked on in vain; every other goes on to the next item.
pub proof fn law_first_failure_stops(w: WorkState)
    requires
        w.wf(),
        w.at < w.ready.len(),
    ensures
        w.job.stops() ==> w.after(false).at == w.ready.len() && w.after(false).result() == Err::<
            (),
            Error,
        >(w.job.error()),
        !w.job.stops() ==> w.after(false).at == w.after(true).at,
        !w.job.stops() || w.job.forgives() ==> w.after(true).at == ready_from(w.ready, w.at + 1),
        w.job.stops() && !w.job.forgives() && w.at + 1 < w.ready.len() && !w.ready[w.at + 1]
            ==> w.after(true).at == w.ready.len() && w.after(true).result() == Err::<(), Error>(
            w.job.error(),
        ),
{
    if w.at + 1 < w.ready.len() {
        lemma_ready_from(w.ready, w.at + 2);
    }
}

/// Work on a list fails exactly where an outcome was a failure or, unless the job forgives that,
/// an item could not be worked on.
pub proof fn law_work_fails_with_any_item(job: Job, ready: Seq<bool>, outcomes: Seq<bool>)
    requires
        forall|i: int|
            0 <= i < outcomes.len() ==> (#[trigger] work_start(job, ready).run(
                outcomes.take(i),
            )).at < ready.len(),
    ensures
        work_start(job, ready).run(outcomes).wf(),
        work_start(job, ready).run(outcomes).ready == ready,
        work_start(job, ready).run(outcomes).job == job,
        work_start(job, ready).run(outcomes).result() is Err <==> outcomes.contains(false) || (
        !job.forgives() && !all_ready(ready, work_start(job, ready).run(outcomes).at)),
    decreases outcomes.len(),
{
    let w = work_start(job, ready);
    if outcomes.len() == 0 {
        lemma_ready_from(ready, 0);
        if w.at > 0 {
            assert(!ready[0]);
        }
    } else {
        let head = outcomes.drop_last();
        let last = outcomes.len() - 1;
        assert forall|i: int| 0 <= i < head.len() implies (#[trigger] w.run(head.take(i))).at
            < ready.len() by {
            assert(head.take(i) =~= outcomes.take(i));
            assert(w.run(outcomes.take(i)).at < ready.len());
        }
        law_work_fails_with_any_item(job, ready, head);
        assert(outcomes.take(last) =~= head);
        assert(w.run(outcomes.take(last)).at < ready.len());
        let before = w.run(head);
        let after = w.run(outcomes);
        lemma_ready_from(ready, before.at + 1);
        if all_ready(ready, before.at) && after.at == before.at + 1 {
            assert(all_ready(ready, after.at));
        }
        if after.at > before.at + 1 && (outcomes.last() || !job.stops()) {
            assert(!ready[before.at + 1]);
        }
        if !all_ready(ready, before.at) {
            let k = choose|k: int| 0 <= k < before.at && k < ready.len() && !#[trigger] ready[k];
            assert(0 <= k < after.at && !ready[k]);
        }
        if outcomes.contains(false) {
            let k = choose|k: int| 0 <= k < outcomes.len() && outcomes[k] == false;
            if k < last {
                assert(head[k] == false);
            }
        }
        if head.contains(false) {
            let k = choose|k: int| 0 <= k < head.len() && head[k] == false;
            assert(outcomes[k] == false);
        }
        if !outcomes.last() {
            assert(outcomes[last] == false);
        }
    }
}

/// Every job but the two that verify fails with an error of its own.
pub proof fn law_each_job_has_its_error(a: Job, b: Job)
    ensures
        a.error() == b.error() && a != b ==> a.error() == Error::VerifyFailed,
        Job::VerifyUsers.error() == Error::VerifyFailed,
        Job::VerifyDevices.error() == Error::VerifyFailed,
        Job::Upload.error() == Error::MediaUploadFailed,
        Job::Download.error() == Error::MediaDownloadFailed,
        Job::DeleteMedia.error() == Error::MediaDeleteFailed,
        Job::ShowRooms.error() == Error::InvalidRoom,
        a.stops() <==> a == Job::VerifyDevices || a == Job::ShowRooms || a == Job::SetAliases || a
            == Job::DeleteAliases,
        a.forgives() <==> a == Job::ShowRooms,
{
}

/// The item that comes next is the first that can be worked on, and none between is left out that
/// could be.
pub proof fn law_next_item_is_the_first_ready(ready: Seq<bool>, i: int)
    requires
        0 <= i <= ready.len(),
    ensures
        i <= ready_from(ready, i) <= ready.len(),
        ready_from(ready, i) < ready.len() ==> ready[ready_from(ready, i)],
        forall|j: int| i <= j < ready_from(ready, i) ==> !(#[trigger] ready[j]),
    decreases ready.len() - i,
{
    if i < ready.len() && !ready[i] {
        law_next_item_is_the_first_ready(ready, i + 1);
    }
}

/// With everything ready and no failure every item has its turn, one after the other, and the work
/// succeeds; a try that is to be repeated stays with its item and counts as a failure.
pub proof fn law_every_item_has_its_turn(job: Job, ready: Seq<bool>, n: nat)
    requires
        forall|i: int| 0 <= i < ready.len() ==> #[trigger] ready[i],
        n <= ready.len(),
    ensures
        work_start(job, ready).run(Seq::new(n, |i: int| true)).at == n,
        work_start(job, ready).run(Seq::new(n, |i: int| true)).result() is Ok,
        work_start(job, ready).run(Seq::new(n, |i: int| true)).again().at == n,
        work_start(job, ready).run(Seq::new(n, |i: int| true)).again().result() is Err,
        work_start(job, ready).run(Seq::new(n, |i: int| true)).ready == ready,
        work_start(job, ready).run(Seq::new(n, |i: int| true)).job == job,
    decreases n,
{
    let outcomes = Seq::new(n, |i: int| true);
    if n > 0 {
        law_every_item_has_its_turn(job, ready, (n - 1) as nat);
        assert(outcomes.drop_last() =~= Seq::new((n - 1) as nat, |i: int| true));
        let w = work_start(job, ready).run(outcomes.drop_last());
        assert(w.at == n - 1);
        if n < ready.len() {
            assert(ready[n as int]);
        }
    } else {
        if ready.len() > 0 {
            assert(ready[0]);
        }
    }
}

} // verus!
