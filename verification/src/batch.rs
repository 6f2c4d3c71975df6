//! Operations on lists of rooms and users, run one request at a time.
//!
//! A [`Batch`] says which request comes next; the caller makes the request and reports whether it
//! succeeded.

use vstd::prelude::*;

use crate::delivery::successes;
use crate::ids::{is_user_id, room_id_ok, user_id_ok};
use crate::room_info::{parse_room_id, room_id_in};
use crate::text::{
    law_absent_text_is_not_replaced, lemma_occurs_contains, occurs, opt_text, replace_text,
    replaced, texts,
};
use crate::types::Error;

verus! {

/// What is done with each room of a batch.
#[derive(Clone, Copy, Debug, PartialEq, Eq, Structural)]
pub enum RoomAction {
    Leave,
    Forget,
    Join,
    Invite,
    Ban,
    Unban,
    Kick,
    GetVisibility,
    GetState,
    JoinedMembers,
    EnableEncryption,
}

impl RoomAction {
    /// Whether the action is done for each user of a list.
    pub open spec fn wants_users(self) -> bool {
        self == RoomAction::Invite || self == RoomAction::Ban || self == RoomAction::Unban || self
            == RoomAction::Kick
    }

    /// Whether the room must be found among the known rooms first.
    pub open spec fn opens_room(self) -> bool {
        self != RoomAction::Join
    }

    /// Whether the action fails where there is nothing to do.
    pub open spec fn wants_targets(self) -> bool {
        self != RoomAction::Leave && self != RoomAction::Forget
    }

    /// The sign in front of which a backslash is removed from user ids.
    pub open spec fn user_sign(self) -> Seq<char> {
        if self == RoomAction::Ban || self == RoomAction::Unban {
            "!"@
        } else {
            "@"@
        }
    }

    /// The error that a failure gives.
    pub open spec fn error(self) -> Error {
        match self {
            RoomAction::Leave => Error::LeaveRoomFailed,
            RoomAction::Forget => Error::ForgetRoomFailed,
            RoomAction::Join => Error::JoinRoomFailed,
            RoomAction::Invite => Error::InviteRoomFailed,
            RoomAction::Ban => Error::BanRoomFailed,
            RoomAction::Unban => Error::UnbanRoomFailed,
            RoomAction::Kick => Error::KickRoomFailed,
            RoomAction::GetVisibility => Error::RoomGetVisibilityFailed,
            RoomAction::GetState => Error::RoomGetStateFailed,
            RoomAction::JoinedMembers => Error::JoinedMembersFailed,
            RoomAction::EnableEncryption => Error::EnableEncryptionFailed,
        }
    }

    /// Whether the action is done for each user of a list.
    pub fn needs_users(&self) -> (r: bool)
        ensures
            r == self.wants_users(),
    {
        *self == RoomAction::Invite || *self == RoomAction::Ban || *self == RoomAction::Unban
            || *self == RoomAction::Kick
    }

    /// The error that a failure gives.
    pub fn failure(&self) -> (e: Error)
        ensures
            e == self.error(),
    {
        match self {
            RoomAction::Leave => Error::LeaveRoomFailed,
            RoomAction::Forget => Error::ForgetRoomFailed,
            RoomAction::Join => Error::JoinRoomFailed,
            RoomAction::Invite => Error::InviteRoomFailed,
            RoomAction::Ban => Error::BanRoomFailed,
            RoomAction::Unban => Error::UnbanRoomFailed,
            RoomAction::Kick => Error::KickRoomFailed,
            RoomAction::GetVisibility => Error::RoomGetVisibilityFailed,
            RoomAction::GetState => Error::RoomGetStateFailed,
            RoomAction::JoinedMembers => Error::JoinedMembersFailed,
            RoomAction::EnableEncryption => Error::EnableEncryptionFailed,
        }
    }
}

/// The valid room ids of a list, in order.
pub open spec fn valid_rooms(list: Seq<Seq<char>>) -> Seq<Seq<char>>
    decreases list.len(),
{
    if list.len() == 0 {
        list
    } else {
        match room_id_in(list.last()) {
            Some(id) => valid_rooms(list.drop_last()).push(id),
            None => valid_rooms(list.drop_last()),
        }
    }
}

/// Whether the list holds a text that is no valid room id.
pub open spec fn some_room_invalid(list: Seq<Seq<char>>) -> bool {
    exists|i: int| 0 <= i < list.len() && room_id_in(#[trigger] list[i]) is None
}

/// The user id that a text on the command line gives, with the escape in front of the sign
/// removed, where it is valid.
pub open spec fn user_id_in(text: Seq<char>, sign: Seq<char>) -> Option<Seq<char>> {
    let id = replaced(text, "\\"@ + sign, sign);
    if user_id_ok(id) {
        Some(id)
    } else {
        None
    }
}

/// The valid user ids of a list, in order.
pub open spec fn valid_users(list: Seq<Seq<char>>, sign: Seq<char>) -> Seq<Seq<char>>
    decreases list.len(),
{
    if list.len() == 0 {
        list
    } else {
        match user_id_in(list.last(), sign) {
            Some(id) => valid_users(list.drop_last(), sign).push(id),
            None => valid_users(list.drop_last(), sign),
        }
    }
}

/// Whether the list holds a text that is no valid user id.
pub open spec fn some_user_invalid(list: Seq<Seq<char>>, sign: Seq<char>) -> bool {
    exists|i: int| 0 <= i < list.len() && user_id_in(#[trigger] list[i], sign) is None
}

/// The valid room ids of a list, and whether it holds anything else.
pub fn parse_rooms(list: &Vec<String>) -> (r: (Vec<String>, bool))
    ensures
        texts(r.0@) == valid_rooms(texts(list@)),
        r.1 == some_room_invalid(texts(list@)),
{
    let mut out: Vec<String> = Vec::new();
    let mut bad = false;
    let mut i: usize = 0;
    let ghost all = texts(list@);
    assert(all.take(0) =~= Seq::empty());
    assert(texts(out@) =~= Seq::empty());
    while i < list.len()
        invariant
            i <= list.len(),
            all == texts(list@),
            texts(out@) == valid_rooms(all.take(i as int)),
            bad == exists|j: int| 0 <= j < i && room_id_in(#[trigger] all[j]) is None,
        decreases list.len() - i,
    {
        let ghost before = texts(out@);
        assert(all.take(i + 1).drop_last() =~= all.take(i as int));
        assert(all[i as int] == list@[i as int]@);
        match parse_room_id(list[i].as_str()) {
            Some(id) => {
                let ghost t = id@;
                out.push(id);
                assert(texts(out@) =~= before.push(t));
            },
            None => {
                bad = true;
            },
        }
        i += 1;
    }
    assert(all.take(all.len() as int) =~= all);
    (out, bad)
}

/// The user id that a text on the command line gives, where it is valid.
pub fn parse_user_id(text: &str, sign: &str) -> (r: Option<String>)
    ensures
        opt_text(r) == user_id_in(text@, sign@),
{
    let mut escaped = "\\".to_string();
    escaped.append(sign);
    let id = replace_text(text, escaped.as_str(), sign);
    if is_user_id(id.as_str()) {
        Some(id)
    } else {
        None
    }
}

/// The valid user ids of a list, and whether it holds anything else.
pub fn parse_users(list: &Vec<String>, sign: &str) -> (r: (Vec<String>, bool))
    ensures
        texts(r.0@) == valid_users(texts(list@), sign@),
        r.1 == some_user_invalid(texts(list@), sign@),
{
    let mut out: Vec<String> = Vec::new();
    let mut bad = false;
    let mut i: usize = 0;
    let ghost all = texts(list@);
    assert(all.take(0) =~= Seq::empty());
    assert(texts(out@) =~= Seq::empty());
    while i < list.len()
        invariant
            i <= list.len(),
            all == texts(list@),
            texts(out@) == valid_users(all.take(i as int), sign@),
            bad == exists|j: int| 0 <= j < i && user_id_in(#[trigger] all[j], sign@) is None,
        decreases list.len() - i,
    {
        let ghost before = texts(out@);
        assert(all.take(i + 1).drop_last() =~= all.take(i as int));
        assert(all[i as int] == list@[i as int]@);
        match parse_user_id(list[i].as_str(), sign) {
            Some(id) => {
                let ghost t = id@;
                out.push(id);
                assert(texts(out@) =~= before.push(t));
            },
            None => {
                bad = true;
            },
        }
        i += 1;
    }
    assert(all.take(all.len() as int) =~= all);
    (out, bad)
}

/// A batch that is being worked on.
#[derive(Debug)]
pub struct Batch {
    action: RoomAction,
    rooms: Vec<String>,
    users: Vec<String>,
    room_at: usize,
    opened: bool,
    user_at: usize,
    failed: bool,
}

/// The state of a batch as a mathematical value.
pub struct BatchState {
    pub action: RoomAction,
    pub rooms: Seq<Seq<char>>,
    pub users: Seq<Seq<char>>,
    /// The position of the room that is being worked on.
    pub room_at: int,
    /// Whether that room was found.
    pub opened: bool,
    /// The position of the user that is being worked on.
    pub user_at: int,
    /// Whether anything failed so far.
    pub failed: bool,
}

/// The request that comes next.
#[derive(Debug)]
pub enum BatchStep {
    /// Look the room up among the known rooms.
    OpenRoom(String),
    /// Do the action with the room.
    Act(String),
    /// Do the action with the room and the user.
    ActOnUser(String, String),
    /// There is nothing left to do.
    Finished,
}

/// The request that comes next, as a mathematical value.
pub enum BatchRequest {
    OpenRoom(Seq<char>),
    Act(Seq<char>),
    ActOnUser(Seq<char>, Seq<char>),
    Finished,
}

impl View for BatchStep {
    type V = BatchRequest;

    open spec fn view(&self) -> BatchRequest {
        match self {
            BatchStep::OpenRoom(room) => BatchRequest::OpenRoom(room@),
            BatchStep::Act(room) => BatchRequest::Act(room@),
            BatchStep::ActOnUser(room, user) => BatchRequest::ActOnUser(room@, user@),
            BatchStep::Finished => BatchRequest::Finished,
        }
    }
}

impl BatchState {
    /// The positions lie within the lists.
    pub open spec fn wf(self) -> bool {
        &&& 0 <= self.room_at <= self.rooms.len()
        &&& if self.action.wants_users() {
            0 <= self.user_at < self.users.len()
        } else {
            self.user_at == 0
        }
        &&& !self.opened ==> self.user_at == 0
    }

    /// The request that comes next.
    pub open spec fn request(self) -> BatchRequest {
        if self.room_at >= self.rooms.len() {
            BatchRequest::Finished
        } else {
            let room = self.rooms[self.room_at];
            if self.action.opens_room() && !self.opened {
                BatchRequest::OpenRoom(room)
            } else if self.action.wants_users() {
                BatchRequest::ActOnUser(room, self.users[self.user_at])
            } else {
                BatchRequest::Act(room)
            }
        }
    }

    /// The state at the beginning of the next room.
    pub open spec fn at_next_room(self) -> BatchState {
        BatchState { room_at: self.room_at + 1, opened: false, user_at: 0, ..self }
    }

    /// The state once the outcome of the request is known.
    pub open spec fn after(self, ok: bool) -> BatchState {
        let noted = BatchState { failed: self.failed || !ok, ..self };
        match self.request() {
            BatchRequest::Finished => self,
            BatchRequest::OpenRoom(_) => if ok {
                BatchState { opened: true, ..self }
            } else {
                noted.at_next_room()
            },
            BatchRequest::Act(_) => noted.at_next_room(),
            BatchRequest::ActOnUser(_, _) => if self.user_at + 1 < self.users.len() {
                BatchState { user_at: self.user_at + 1, ..noted }
            } else {
                noted.at_next_room()
            },
        }
    }

    /// The state after a run of outcomes.
    pub open spec fn run(self, outcomes: Seq<bool>) -> BatchState
        decreases outcomes.len(),
    {
        if outcomes.len() == 0 {
            self
        } else {
            self.run(outcomes.drop_last()).after(outcomes.last())
        }
    }

    /// How many requests can still come.
    pub open spec fn requests_left(self) -> int {
        let per_room = 1 + self.users.len() + 1;
        (self.rooms.len() - self.room_at) * per_room - self.user_at - (if self.opened {
            1int
        } else {
            0int
        })
    }
}

/// The state in which a batch begins.
pub open spec fn batch_start(
    action: RoomAction,
    rooms: Seq<Seq<char>>,
    users: Seq<Seq<char>>,
) -> BatchState {
    BatchState {
        action,
        rooms: valid_rooms(rooms),
        users: if action.wants_users() {
            valid_users(users, action.user_sign())
        } else {
            Seq::empty()
        },
        room_at: 0,
        opened: false,
        user_at: 0,
        failed: some_room_invalid(rooms) || (action.wants_users() && some_user_invalid(
            users,
            action.user_sign(),
        )),
    }
}

/// Whether a batch can begin: there is a room, and a user where one is needed. Leaving and
/// forgetting begin in any case.
pub open spec fn batch_begins(action: RoomAction, rooms: Seq<Seq<char>>, users: Seq<Seq<char>>) -> bool {
    action.wants_targets() ==> {
        &&& valid_rooms(rooms).len() > 0
        &&& action.wants_users() ==> valid_users(users, action.user_sign()).len() > 0
    }
}

impl View for Batch {
    type V = BatchState;

    closed spec fn view(&self) -> BatchState {
        BatchState {
            action: self.action,
            rooms: texts(self.rooms@),
            users: texts(self.users@),
            room_at: self.room_at as int,
            opened: self.opened,
            user_at: self.user_at as int,
            failed: self.failed,
        }
    }
}

impl Batch {
    /// The positions lie within the lists.
    #[verifier::type_invariant]
    spec fn inv(self) -> bool {
        self@.wf()
    }

    /// Begins a batch. Texts that are no valid room or user ids are left out and count as
    /// failures; where nothing is left to do that is an error.
    pub fn start(action: RoomAction, room_ids: &Vec<String>, user_ids: &Vec<String>) -> (r: Result<
        Batch,
        Error,
    >)
        ensures
            batch_begins(action, texts(room_ids@), texts(user_ids@)) ==> (r matches Ok(b) && b@
                == batch_start(action, texts(room_ids@), texts(user_ids@)) && b@.wf()),
            !batch_begins(action, texts(room_ids@), texts(user_ids@)) ==> (r matches Err(e) && e
                == action.error()),
    {
        let (rooms, bad_room) = parse_rooms(room_ids);
        let mut failed = bad_room;
        let mut users: Vec<String> = Vec::new();
        assert(texts(users@) =~= Seq::empty());
        if action.needs_users() {
            let sign = if action == RoomAction::Ban || action == RoomAction::Unban {
                "!"
            } else {
                "@"
            };
            let (valid, bad_user) = parse_users(user_ids, sign);
            users = valid;
            failed = failed || bad_user;
            if users.len() == 0 {
                return Err(action.failure());
            }
        }
        if rooms.len() == 0 && action != RoomAction::Leave && action != RoomAction::Forget {
            return Err(action.failure());
        }
        Ok(Batch { action, rooms, users, room_at: 0, opened: false, user_at: 0, failed })
    }

    /// The request that comes next.
    pub fn next_step(&self) -> (step: BatchStep)
        ensures
            step@ == self@.request(),
    {
        proof {
            use_type_invariant(self);
        }
        if self.room_at >= self.rooms.len() {
            return BatchStep::Finished;
        }
        let room = self.rooms[self.room_at].clone();
        assert(room@ == self@.rooms[self@.room_at]);
        if self.action != RoomAction::Join && !self.opened {
            BatchStep::OpenRoom(room)
        } else if self.action.needs_users() {
            let user = self.users[self.user_at].clone();
            assert(user@ == self@.users[self@.user_at]);
            BatchStep::ActOnUser(room, user)
        } else {
            BatchStep::Act(room)
        }
    }

    /// Takes note of the outcome of the request.
    pub fn report(&mut self, ok: bool)
        ensures
            final(self)@ == old(self)@.after(ok),
            final(self)@.wf(),
    {
        proof {
            use_type_invariant(&*self);
        }
        if self.room_at >= self.rooms.len() {
            return;
        }
        let opening = self.action != RoomAction::Join && !self.opened;
        if opening && ok {
            self.opened = true;
            return;
        }
        if !ok {
            self.failed = true;
        }
        if !opening && self.action.needs_users() && self.users.len() - self.user_at > 1 {
            self.user_at = self.user_at + 1;
        } else {
            self.room_at = self.room_at + 1;
            self.user_at = 0;
            self.opened = false;
        }
    }

    /// The result of the batch: success where nothing failed.
    pub fn finish(&self) -> (r: Result<(), Error>)
        ensures
            !self@.failed ==> r is Ok,
            self@.failed ==> (r matches Err(e) && e == self@.action.error()),
    {
        if self.failed {
            Err(self.action.failure())
        } else {
            Ok(())
        }
    }
}

/// A batch that has not finished takes a step forward with every outcome, so it comes to an end.
pub proof fn law_batch_comes_to_an_end(b: BatchState, ok: bool)
    requires
        b.wf(),
        !(b.request() is Finished),
    ensures
        b.after(ok).wf(),
        0 <= b.after(ok).requests_left() < b.requests_left(),
{
    let per_room = 1 + b.users.len() + 1;
    let left = b.rooms.len() - b.room_at;
    assert(left * per_room == (left - 1) * per_room + per_room) by (nonlinear_arith)
        requires
            per_room >= 2,
    ;
    assert((left - 1) * per_room >= 0) by (nonlinear_arith)
        requires
            left >= 1,
            per_room >= 2,
    ;
}

/// A batch fails exactly where an id on the command line was not valid or a request failed.
pub proof fn law_batch_fails_with_any_request(b: BatchState, outcomes: Seq<bool>)
    requires
        b.wf(),
        forall|i: int|
            0 <= i < outcomes.len() ==> !((#[trigger] b.run(outcomes.take(i))).request() is Finished),
    ensures
        b.run(outcomes).wf(),
        b.run(outcomes).failed == (b.failed || outcomes.contains(false)),
    decreases outcomes.len(),
{
    if outcomes.len() > 0 {
        let head = outcomes.drop_last();
        assert forall|i: int| 0 <= i < head.len() implies !((#[trigger] b.run(
            head.take(i),
        )).request() is Finished) by {
            assert(head.take(i) =~= outcomes.take(i));
            assert(!(b.run(outcomes.take(i)).request() is Finished));
        }
        law_batch_fails_with_any_request(b, head);
        let last = outcomes.len() - 1;
        assert(outcomes.take(last) =~= head);
        assert(!(b.run(outcomes.take(last)).request() is Finished));
        if outcomes.contains(false) {
            let k = choose|k: int| 0 <= k < outcomes.len() && outcomes[k] == false;
            if k < last {
                assert(head[k] == false);
            }
        }
        if head.contains(false) {
            let k = choose|k: int| 0 <= k < head.len() && head[k] == false;
            assert(outcomes[k] == false);
        }
        if !outcomes.last() {
            assert(outcomes[last] == false);
        }
    }
}

/// Every room and user with which a request is made is among the valid ids of the command line.
pub proof fn law_batch_keeps_to_its_lists(b: BatchState, ok: bool)
    requires
        b.wf(),
    ensures
        b.after(ok).rooms == b.rooms,
        b.after(ok).users == b.users,
        b.after(ok).action == b.action,
        match b.request() {
            BatchRequest::OpenRoom(room) => b.rooms.contains(room),
            BatchRequest::Act(room) => b.rooms.contains(room),
            BatchRequest::ActOnUser(room, user) => b.rooms.contains(room) && b.users.contains(user),
            BatchRequest::Finished => true,
        },
{
}

/// How many requests there are for each room: one to find it, where that is needed, and one for
/// each user, or one for the room.
pub open spec fn requests_per_room(state: BatchState) -> nat {
    let found: nat = if state.action.opens_room() {
        1
    } else {
        0
    };
    if state.action.wants_users() {
        found + state.users.len()
    } else {
        found + 1
    }
}

/// After all of `q` rooms and `r` requests of the next, everything having succeeded, the batch is
/// at that request.
proof fn lemma_batch_position(state: BatchState, q: nat, r: nat)
    requires
        state.wf(),
        state.room_at == 0,
        !state.opened,
        q <= state.rooms.len(),
        r < requests_per_room(state),
        q == state.rooms.len() ==> r == 0,
    ensures
        state.run(successes(q * requests_per_room(state) + r)) == (BatchState {
            room_at: q as int,
            opened: r > 0,
            user_at: if r > 0 && state.action.wants_users() {
                r - 1
            } else {
                0
            },
            ..state
        }),
    decreases q, r,
{
    let per = requests_per_room(state);
    let n = q * per + r;
    assert(q * per >= 0) by (nonlinear_arith)
        requires
            q >= 0,
            per >= 0,
    ;
    if r > 0 {
        lemma_batch_position(state, q, (r - 1) as nat);
        assert(successes(n).drop_last() =~= successes(q * per + (r - 1) as nat));
    } else if q > 0 {
        lemma_batch_position(state, (q - 1) as nat, (per - 1) as nat);
        assert(q * per == (q - 1) * per + per) by (nonlinear_arith)
            requires
                q > 0,
        ;
        assert(successes(n).drop_last() =~= successes((q - 1) as nat * per + (per - 1) as nat));
    } else {
        assert(q * per == 0) by (nonlinear_arith)
            requires
                q == 0,
        ;
    }
}

/// Every valid user is worked on in every valid room: room by room, and in each room one user
/// after the other.
pub proof fn law_every_user_in_every_room(
    action: RoomAction,
    rooms: Seq<Seq<char>>,
    users: Seq<Seq<char>>,
    j: nat,
    i: nat,
)
    requires
        action.wants_users(),
        j < valid_rooms(rooms).len(),
        i < valid_users(users, action.user_sign()).len(),
    ensures
        ({
            let state = batch_start(action, rooms, users);
            let per = requests_per_room(state);
            &&& state.run(successes(j * per)).request() == BatchRequest::OpenRoom(
                valid_rooms(rooms)[j as int],
            )
            &&& state.run(successes(j * per + 1 + i)).request() == BatchRequest::ActOnUser(
                valid_rooms(rooms)[j as int],
                valid_users(users, action.user_sign())[i as int],
            )
            &&& state.run(successes(valid_rooms(rooms).len() * per)).request()
                == BatchRequest::Finished
        }),
{
    let state = batch_start(action, rooms, users);
    let per = requests_per_room(state);
    lemma_batch_position(state, j, 0);
    lemma_batch_position(state, j, 1 + i);
    lemma_batch_position(state, valid_rooms(rooms).len(), 0);
    assert(j * per + 1 + i == j * per + (1 + i));
}

/// Every valid room is worked on, one after the other.
pub proof fn law_every_room_has_its_turn(action: RoomAction, rooms: Seq<Seq<char>>, j: nat)
    requires
        !action.wants_users(),
        j < valid_rooms(rooms).len(),
    ensures
        ({
            let state = batch_start(action, rooms, Seq::empty());
            let per = requests_per_room(state);
            &&& state.run(successes((j * per + per - 1) as nat)).request() == BatchRequest::Act(
                valid_rooms(rooms)[j as int],
            )
            &&& state.run(successes(valid_rooms(rooms).len() * per)).request()
                == BatchRequest::Finished
        }),
{
    let state = batch_start(action, rooms, Seq::empty());
    let per = requests_per_room(state);
    lemma_batch_position(state, j, (per - 1) as nat);
    lemma_batch_position(state, valid_rooms(rooms).len(), 0);
    assert(j * per >= 0) by (nonlinear_arith)
        requires
            j >= 0,
            per >= 0,
    ;
}

/// Each action fails with an error of its own.
pub proof fn law_each_action_has_its_error(a: RoomAction, b: RoomAction)
    ensures
        a.error() == b.error() ==> a == b,
        RoomAction::Join.error() == Error::JoinRoomFailed,
        RoomAction::Leave.error() == Error::LeaveRoomFailed,
        RoomAction::Ban.error() == Error::BanRoomFailed,
        RoomAction::Kick.error() == Error::KickRoomFailed,
{
}

/// Users are worked on exactly where users are invited, banned, unbanned or kicked; only to join a
/// room it need not be known; only leaving and forgetting may have nothing to do.
pub proof fn law_what_actions_need(a: RoomAction)
    ensures
        a.wants_users() <==> a == RoomAction::Invite || a == RoomAction::Ban || a
            == RoomAction::Unban || a == RoomAction::Kick,
        !a.opens_room() <==> a == RoomAction::Join,
        !a.wants_targets() <==> a == RoomAction::Leave || a == RoomAction::Forget,
{
}

/// Of the rooms and users on the command line the valid ones are kept, in their order; each is
/// taken as it is given where it has no backslash.
pub proof fn law_valid_ids_are_kept(
    a: Seq<Seq<char>>,
    b: Seq<Seq<char>>,
    t: Seq<char>,
    sign: Seq<char>,
)
    requires
        !t.contains('\\'),
    ensures
        valid_rooms(a + b) == valid_rooms(a) + valid_rooms(b),
        valid_users(a + b, sign) == valid_users(a, sign) + valid_users(b, sign),
        room_id_ok(t) ==> valid_rooms(seq![t]) == seq![t],
        !room_id_ok(t) ==> valid_rooms(seq![t]).len() == 0,
        user_id_ok(t) ==> user_id_in(t, sign) == Some(t) && valid_users(seq![t], sign) == seq![t],
        !user_id_ok(t) ==> user_id_in(t, sign) is None && valid_users(seq![t], sign).len() == 0,
{
    crate::room_info::law_room_id_is_taken_as_given(t);
    reveal_strlit("\\");
    let escape = "\\"@ + sign;
    assert(escape[0] == '\\');
    if occurs(t, escape) {
        lemma_occurs_contains(t, escape, 0);
    }
    law_absent_text_is_not_replaced(t, escape, sign);
    let none = Seq::<Seq<char>>::empty();
    assert(seq![t].drop_last() =~= none);
    assert(valid_rooms(none) =~= none);
    assert(valid_users(none, sign) =~= none);
    assert(none.push(t) =~= seq![t]);
    lemma_valid_in_pieces(a, b, sign);
}

/// The valid ids of two lists follow one another.
proof fn lemma_valid_in_pieces(a: Seq<Seq<char>>, b: Seq<Seq<char>>, sign: Seq<char>)
    ensures
        valid_rooms(a + b) == valid_rooms(a) + valid_rooms(b),
        valid_users(a + b, sign) == valid_users(a, sign) + valid_users(b, sign),
    decreases b.len(),
{
    if b.len() == 0 {
        assert(a + b =~= a);
        assert(valid_rooms(a) + valid_rooms(b) =~= valid_rooms(a));
        assert(valid_users(a, sign) + valid_users(b, sign) =~= valid_users(a, sign));
    } else {
        lemma_valid_in_pieces(a, b.drop_last(), sign);
        assert((a + b).drop_last() =~= a + b.drop_last());
        assert((a + b).last() == b.last());
        assert(valid_rooms(a + b) =~= valid_rooms(a) + valid_rooms(b));
        assert(valid_users(a + b, sign) =~= valid_users(a, sign) + valid_users(b, sign));
    }
}

/// An escaped user id is taken without the backslash before its sign.
pub proof fn law_user_escape_is_undone(t: Seq<char>, sign: Seq<char>)
    requires
        sign.len() > 0,
        !t.contains('\\'),
        user_id_ok(sign + t),
    ensures
        user_id_in("\\"@ + sign + t, sign) == Some(sign + t),
{
    reveal_strlit("\\");
    let escape = "\\"@ + sign;
    let s = escape + t;
    assert(escape[0] == '\\');
    if occurs(t, escape) {
        lemma_occurs_contains(t, escape, 0);
    }
    law_absent_text_is_not_replaced(t, escape, sign);
    assert(s.subrange(0, escape.len() as int) =~= escape);
    assert(crate::text::occurs_at(s, escape, 0));
    assert(s.skip(escape.len() as int) =~= t);
}

/// A batch begins with what is valid and has failed already where something was not; without a
/// valid room, or a valid user where one is needed, only leaving and forgetting begin.
pub proof fn law_batch_begins_with_what_is_valid(
    action: RoomAction,
    rooms: Seq<Seq<char>>,
    users: Seq<Seq<char>>,
)
    ensures
        batch_start(action, rooms, users).action == action,
        batch_start(action, rooms, users).rooms == valid_rooms(rooms),
        action.wants_users() ==> batch_start(action, rooms, users).users == valid_users(
            users,
            action.user_sign(),
        ),
        batch_start(action, rooms, users).failed <==> (exists|i: int|
            0 <= i < rooms.len() && room_id_in(#[trigger] rooms[i]) is None) || (
        action.wants_users() && exists|i: int|
            0 <= i < users.len() && user_id_in(#[trigger] users[i], action.user_sign()) is None),
        action == RoomAction::Leave || action == RoomAction::Forget ==> batch_begins(
            action,
            rooms,
            users,
        ),
        action == RoomAction::Join || action == RoomAction::GetState ==> (batch_begins(
            action,
            rooms,
            users,
        ) <==> valid_rooms(rooms).len() > 0),
        action == RoomAction::Invite || action == RoomAction::Kick ==> (batch_begins(
            action,
            rooms,
            users,
        ) <==> valid_rooms(rooms).len() > 0 && valid_users(users, "@"@).len() > 0),
        action == RoomAction::Ban || action == RoomAction::Unban ==> (batch_begins(
            action,
            rooms,
            users,
        ) <==> valid_rooms(rooms).len() > 0 && valid_users(users, "!"@).len() > 0),
{
}

/// A room that is not found is left for the next one; a failure with one user does not keep the
/// others from their turn.
pub proof fn law_batch_goes_on_after_failures(b: BatchState)
    requires
        b.wf(),
        !(b.request() is Finished),
    ensures
        b.request() is OpenRoom ==> b.after(false).room_at == b.room_at + 1 && b.after(false).failed
            && !b.after(false).opened,
        b.request() is OpenRoom ==> b.after(true) == (BatchState { opened: true, ..b }),
        !(b.request() is OpenRoom) ==> b.after(false) == (BatchState { failed: true, ..b.after(true) }),
        b.after(true).failed == b.failed,
        b.request() is ActOnUser && b.user_at + 1 < b.users.len() ==> b.after(true).room_at == b.room_at
            && b.after(true).user_at == b.user_at + 1,
{
}

} // verus!
