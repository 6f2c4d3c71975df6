//! Sending messages, files and events to rooms, one request at a time.
//!
//! A [`Delivery`] says what comes next; the caller does it and reports whether it succeeded.

use vstd::prelude::*;

use crate::room_info::{parse_room_id, room_id_in};
use crate::text::{copy_texts, texts};
use crate::types::Error;

verus! {

/// What is sent.
#[derive(Clone, Copy, Debug, PartialEq, Eq, Structural)]
pub enum Cargo {
    Messages,
    Files,
    Events,
}

impl Cargo {
    /// The error where something could not be sent.
    pub open spec fn error(self) -> Error {
        match self {
            Cargo::Events => Error::EventSendFailed,
            _ => Error::SendFailed,
        }
    }
}

/// Why a delivery ends before its end.
#[derive(Clone, Copy, Debug, PartialEq, Eq, Structural)]
pub enum Stop {
    /// The user is not in the room.
    UnknownRoom,
    /// The path of a file has no file name.
    NoFileName,
}

impl Stop {
    /// The error that ends the delivery.
    pub open spec fn error(self) -> Error {
        match self {
            Stop::UnknownRoom => Error::InvalidRoom,
            Stop::NoFileName => Error::InvalidFile,
        }
    }
}

/// The state of a delivery as a mathematical value.
pub struct DeliveryState {
    pub cargo: Cargo,
    /// The rooms as they are given on the command line.
    pub rooms: Seq<Seq<char>>,
    /// How many things are sent to each room.
    pub count: nat,
    pub room_at: int,
    pub opened: bool,
    pub item_at: int,
    /// Whether something could not be sent.
    pub failed: bool,
    pub stopped: Option<Stop>,
}

/// What comes next.
#[derive(Debug)]
pub enum DeliveryStep {
    /// Look the room up among the known rooms.
    OpenRoom(String),
    /// Send the item at that position to the room.
    Send(String, usize),
    /// There is nothing left to do.
    Finished,
}

/// What comes next, as a mathematical value.
pub enum DeliveryRequest {
    OpenRoom(Seq<char>),
    Send(Seq<char>, int),
    Finished,
}

impl View for DeliveryStep {
    type V = DeliveryRequest;

    open spec fn view(&self) -> DeliveryRequest {
        match self {
            DeliveryStep::OpenRoom(room) => DeliveryRequest::OpenRoom(room@),
            DeliveryStep::Send(room, i) => DeliveryRequest::Send(room@, *i as int),
            DeliveryStep::Finished => DeliveryRequest::Finished,
        }
    }
}

impl DeliveryState {
    /// The positions lie within the lists.
    pub open spec fn wf(self) -> bool {
        &&& 0 <= self.room_at <= self.rooms.len()
        &&& self.opened ==> 0 <= self.item_at < self.count
        &&& !self.opened ==> self.item_at == 0
    }

    /// Whether the delivery has ended.
    pub open spec fn ended(self) -> bool {
        self.stopped is Some || self.room_at >= self.rooms.len()
    }

    /// Whether the room that is being worked on has a valid id.
    pub open spec fn room_valid(self) -> bool {
        self.ended() || room_id_in(self.rooms[self.room_at]) is Some
    }

    /// What comes next.
    pub open spec fn request(self) -> DeliveryRequest {
        if self.ended() {
            DeliveryRequest::Finished
        } else {
            let room = room_id_in(self.rooms[self.room_at])->0;
            if !self.opened {
                DeliveryRequest::OpenRoom(room)
            } else {
                DeliveryRequest::Send(room, self.item_at)
            }
        }
    }

    /// The state at the beginning of the next room.
    pub open spec fn at_next_room(self) -> DeliveryState {
        DeliveryState { room_at: self.room_at + 1, opened: false, item_at: 0, ..self }
    }

    /// The state once the outcome is known. A room that is not known ends the delivery.
    pub open spec fn after(self, ok: bool) -> DeliveryState {
        if self.ended() {
            self
        } else if !self.opened {
            if !ok {
                DeliveryState { stopped: Some(Stop::UnknownRoom), ..self }
            } else if self.count == 0 {
                self.at_next_room()
            } else {
                DeliveryState { opened: true, ..self }
            }
        } else {
            let noted = DeliveryState { failed: self.failed || !ok, ..self };
            if self.item_at + 1 < self.count {
                DeliveryState { item_at: self.item_at + 1, ..noted }
            } else {
                noted.at_next_room()
            }
        }
    }

    /// The result of the delivery.
    pub open spec fn result(self) -> Result<(), Error> {
        match self.stopped {
            Some(stop) => Err(stop.error()),
            None => if self.failed {
                Err(self.cargo.error())
            } else {
                Ok(())
            },
        }
    }

    /// The state after a run of outcomes.
    pub open spec fn run(self, outcomes: Seq<bool>) -> DeliveryState
        decreases outcomes.len(),
    {
        if outcomes.len() == 0 {
            self
        } else {
            self.run(outcomes.drop_last()).after(outcomes.last())
        }
    }

    /// How many requests can still come.
    pub open spec fn requests_left(self) -> int {
        if self.stopped is Some {
            0
        } else {
            (self.rooms.len() - self.room_at) * (self.count + 2) - self.item_at - (if self.opened {
                1int
            } else {
                0int
            })
        }
    }
}

/// Whether a delivery of nothing looks at no room at all.
pub open spec fn skips_rooms(cargo: Cargo, count: nat) -> bool {
    count == 0 && cargo != Cargo::Events
}

/// The state in which a delivery begins. Without messages or files it has ended.
pub open spec fn delivery_start(cargo: Cargo, rooms: Seq<Seq<char>>, count: nat) -> DeliveryState {
    DeliveryState {
        cargo,
        rooms,
        count,
        room_at: if skips_rooms(cargo, count) {
            rooms.len() as int
        } else {
            0
        },
        opened: false,
        item_at: 0,
        failed: false,
        stopped: None,
    }
}

/// A delivery that is being worked on.
#[derive(Debug)]
pub struct Delivery {
    cargo: Cargo,
    rooms: Vec<String>,
    count: usize,
    room_at: usize,
    opened: bool,
    item_at: usize,
    failed: bool,
    stopped: Option<Stop>,
}

impl View for Delivery {
    type V = DeliveryState;

    closed spec fn view(&self) -> DeliveryState {
        DeliveryState {
            cargo: self.cargo,
            rooms: texts(self.rooms@),
            count: self.count as nat,
            room_at: self.room_at as int,
            opened: self.opened,
            item_at: self.item_at as int,
            failed: self.failed,
            stopped: self.stopped,
        }
    }
}

impl Delivery {
    /// The positions lie within the lists.
    #[verifier::type_invariant]
    spec fn inv(self) -> bool {
        self@.wf()
    }

    /// Begins to send `count` things to each of the rooms. Without rooms that is an error.
    pub fn start(cargo: Cargo, rooms: &Vec<String>, count: usize) -> (r: Result<Delivery, Error>)
        ensures
            rooms@.len() == 0 ==> (r matches Err(e) && e == Error::InvalidRoom),
            rooms@.len() > 0 ==> (r matches Ok(d) && d@ == delivery_start(
                cargo,
                texts(rooms@),
                count as nat,
            ) && d@.wf()),
    {
        if rooms.len() == 0 {
            return Err(Error::InvalidRoom);
        }
        let room_at: usize = if count == 0 && cargo != Cargo::Events {
            rooms.len()
        } else {
            0
        };
        Ok(
            Delivery {
                cargo,
                rooms: copy_texts(rooms),
                count,
                room_at,
                opened: false,
                item_at: 0,
                failed: false,
                stopped: None,
            },
        )
    }

    /// Whether the room that is being worked on has a valid id.
    pub fn has_valid_room(&self) -> (r: bool)
        ensures
            r == self@.room_valid(),
    {
        proof {
            use_type_invariant(self);
        }
        if self.stopped.is_some() || self.room_at >= self.rooms.len() {
            return true;
        }
        assert(self@.rooms[self@.room_at] == self.rooms@[self.room_at as int]@);
        parse_room_id(self.rooms[self.room_at].as_str()).is_some()
    }

    /// What comes next.
    pub fn next_step(&self) -> (step: DeliveryStep)
        requires
            self@.room_valid(),
        ensures
            step@ == self@.request(),
    {
        proof {
            use_type_invariant(self);
        }
        if self.stopped.is_some() || self.room_at >= self.rooms.len() {
            return DeliveryStep::Finished;
        }
        assert(self@.rooms[self@.room_at] == self.rooms@[self.room_at as int]@);
        match parse_room_id(self.rooms[self.room_at].as_str()) {
            Some(room) => if !self.opened {
                DeliveryStep::OpenRoom(room)
            } else {
                DeliveryStep::Send(room, self.item_at)
            },
            None => DeliveryStep::Finished,
        }
    }

    /// Takes note of the outcome.
    pub fn report(&mut self, ok: bool)
        ensures
            final(self)@ == old(self)@.after(ok),
            final(self)@.wf(),
    {
        proof {
            use_type_invariant(&*self);
        }
        if self.stopped.is_some() || self.room_at >= self.rooms.len() {
            return;
        }
        if !self.opened {
            if !ok {
                self.stopped = Some(Stop::UnknownRoom);
            } else if self.count == 0 {
                self.room_at = self.room_at + 1;
            } else {
                self.opened = true;
            }
            return;
        }
        if !ok {
            self.failed = true;
        }
        if self.count - self.item_at > 1 {
            self.item_at = self.item_at + 1;
        } else {
            self.room_at = self.room_at + 1;
            self.item_at = 0;
            self.opened = false;
        }
    }

    /// Ends the delivery because the path of a file has no file name.
    pub fn stop_without_file_name(&mut self)
        ensures
            final(self)@ == (DeliveryState { stopped: Some(Stop::NoFileName), ..old(self)@ }),
    {
        proof {
            use_type_invariant(&*self);
        }
        self.stopped = Some(Stop::NoFileName);
    }

    /// The result of the delivery.
    pub fn finish(&self) -> (r: Result<(), Error>)
        ensures
            r == self@.result(),
    {
        match self.stopped {
            Some(Stop::UnknownRoom) => Err(Error::InvalidRoom),
            Some(Stop::NoFileName) => Err(Error::InvalidFile),
            None => if self.failed {
                match self.cargo {
                    Cargo::Events => Err(Error::EventSendFailed),
                    _ => Err(Error::SendFailed),
                }
            } else {
                Ok(())
            },
        }
    }
}

/// A delivery that has not ended takes a step forward with every outcome, so it comes to an end.
pub proof fn law_delivery_comes_to_an_end(d: DeliveryState, ok: bool)
    requires
        d.wf(),
        !d.ended(),
    ensures
        d.after(ok).wf(),
        0 <= d.after(ok).requests_left() < d.requests_left(),
{
    let per_room = d.count + 2;
    let left = d.rooms.len() - d.room_at;
    assert(left * per_room == (left - 1) * per_room + per_room) by (nonlinear_arith)
        requires
            per_room >= 2,
    ;
    assert((left - 1) * per_room >= 0) by (nonlinear_arith)
        requires
            left >= 1,
            per_room >= 2,
    ;
}

/// A delivery succeeds exactly where every room was known and everything could be sent.
pub proof fn law_delivery_succeeds_iff_all_sent(d: DeliveryState, outcomes: Seq<bool>)
    requires
        d.wf(),
        d.stopped is None,
        !d.failed,
        forall|i: int| 0 <= i < outcomes.len() ==> !(#[trigger] d.run(outcomes.take(i))).ended(),
    ensures
        d.run(outcomes).wf(),
        d.run(outcomes).result() is Ok <==> !outcomes.contains(false),
    decreases outcomes.len(),
{
    if outcomes.len() > 0 {
        let head = outcomes.drop_last();
        assert forall|i: int| 0 <= i < head.len() implies !(#[trigger] d.run(
            head.take(i),
        )).ended() by {
            assert(head.take(i) =~= outcomes.take(i));
            assert(!d.run(outcomes.take(i)).ended());
        }
        law_delivery_succeeds_iff_all_sent(d, head);
        let last = outcomes.len() - 1;
        assert(outcomes.take(last) =~= head);
        assert(!d.run(outcomes.take(last)).ended());
        if outcomes.contains(false) {
            let k = choose|k: int| 0 <= k < outcomes.len() && outcomes[k] == false;
            if k < last {
                assert(head[k] == false);
            }
        }
        if head.contains(false) {
            let k = choose|k: int| 0 <= k < head.len() && head[k] == false;
            assert(outcomes[k] == false);
        }
        if !outcomes.last() {
            assert(outcomes[last] == false);
        }
    }
}

/// A run of successes.
pub open spec fn successes(n: nat) -> Seq<bool> {
    Seq::new(n, |i: int| true)
}

/// After all of `q` rooms and `r` requests of the next, everything having succeeded, the delivery
/// is at that request.
proof fn lemma_position(cargo: Cargo, rooms: Seq<Seq<char>>, count: nat, q: nat, r: nat)
    requires
        !skips_rooms(cargo, count),
        q <= rooms.len(),
        r <= count,
        q == rooms.len() ==> r == 0,
    ensures
        delivery_start(cargo, rooms, count).run(successes(q * (count + 1) + r)) == (DeliveryState {
            room_at: q as int,
            opened: r > 0,
            item_at: if r > 0 {
                r - 1
            } else {
                0
            },
            ..delivery_start(cargo, rooms, count)
        }),
    decreases q, r,
{
    let n = q * (count + 1) + r;
    assert(q * (count + 1) >= 0) by (nonlinear_arith)
        requires
            q >= 0,
            count >= 0,
    ;
    if r > 0 {
        lemma_position(cargo, rooms, count, q, (r - 1) as nat);
        assert(successes(n).drop_last() =~= successes(q * (count + 1) + (r - 1) as nat));
    } else if q > 0 {
        lemma_position(cargo, rooms, count, (q - 1) as nat, count);
        assert(q * (count + 1) == (q - 1) * (count + 1) + count + 1) by (nonlinear_arith)
            requires
                q > 0,
        ;
        assert(successes(n).drop_last() =~= successes((q - 1) as nat * (count + 1) + count));
    } else {
        assert(q * (count + 1) == 0) by (nonlinear_arith)
            requires
                q == 0,
        ;
    }
}

/// Everything goes to every room: room by room, and in each room one thing after the other. When
/// all of it was sent, the delivery has ended with success.
pub proof fn law_everything_goes_to_every_room(
    cargo: Cargo,
    rooms: Seq<Seq<char>>,
    count: nat,
    j: nat,
    i: nat,
)
    requires
        j < rooms.len(),
        i < count,
    ensures
        delivery_start(cargo, rooms, count).run(successes(j * (count + 1))).request()
            == DeliveryRequest::OpenRoom(room_id_in(rooms[j as int])->0),
        delivery_start(cargo, rooms, count).run(successes(j * (count + 1) + 1 + i)).request()
            == DeliveryRequest::Send(room_id_in(rooms[j as int])->0, i as int),
        delivery_start(cargo, rooms, count).run(successes(rooms.len() * (count + 1))).ended(),
        delivery_start(cargo, rooms, count).run(
            successes(rooms.len() * (count + 1)),
        ).result() is Ok,
{
    lemma_position(cargo, rooms, count, j, 0);
    lemma_position(cargo, rooms, count, j, 1 + i);
    lemma_position(cargo, rooms, count, rooms.len(), 0);
    assert(j * (count + 1) + 1 + i == j * (count + 1) + (1 + i));
}

/// A delivery that failed tells what could not be sent, and one that stopped why: the room or the
/// file. What stopped it goes before what failed.
pub proof fn law_result_tells_the_cause(d: DeliveryState)
    ensures
        d.result() is Ok <==> d.stopped is None && !d.failed,
        d.stopped == Some(Stop::UnknownRoom) ==> d.result() == Err::<(), Error>(Error::InvalidRoom),
        d.stopped == Some(Stop::NoFileName) ==> d.result() == Err::<(), Error>(Error::InvalidFile),
        d.stopped is None && d.failed && d.cargo == Cargo::Events ==> d.result() == Err::<(), Error>(
            Error::EventSendFailed,
        ),
        d.stopped is None && d.failed && d.cargo != Cargo::Events ==> d.result() == Err::<(), Error>(
            Error::SendFailed,
        ),
{
}

/// A room that is not known ends the delivery at once; a thing that could not be sent does not
/// keep the others from being sent.
pub proof fn law_only_unknown_rooms_stop(d: DeliveryState)
    requires
        d.wf(),
        !d.ended(),
    ensures
        !d.opened ==> d.after(false).stopped == Some(Stop::UnknownRoom) && d.after(false).ended(),
        d.opened ==> d.after(false).stopped is None && d.after(false).failed,
        d.opened ==> d.after(false) == (DeliveryState { failed: true, ..d.after(true) }),
        d.after(true).failed == d.failed,
        d.after(true).stopped is None,
{
}

/// Without messages or files no room is looked at, while events ask for every room.
pub proof fn law_nothing_to_send(rooms: Seq<Seq<char>>, count: nat)
    ensures
        delivery_start(Cargo::Messages, rooms, 0).ended(),
        delivery_start(Cargo::Files, rooms, 0).ended(),
        rooms.len() > 0 ==> !delivery_start(Cargo::Events, rooms, 0).ended(),
        rooms.len() > 0 && count > 0 ==> !delivery_start(Cargo::Messages, rooms, count).ended(),
        delivery_start(Cargo::Messages, rooms, count).result() is Ok,
{
}

/// A room that comes next is worked on only where its id is valid; when all is done there is
/// nothing left that could be wrong.
pub proof fn law_next_room_must_be_valid(d: DeliveryState)
    ensures
        d.ended() ==> d.room_valid() && d.request() is Finished,
        !d.ended() ==> (d.room_valid() <==> room_id_in(d.rooms[d.room_at]) is Some),
        !d.ended() && d.room_valid() ==> (d.request() matches DeliveryRequest::OpenRoom(id)
            ==> room_id_in(d.rooms[d.room_at]) == Some(id)),
{
}

} // verus!
