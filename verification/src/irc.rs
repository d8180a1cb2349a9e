//! The IRC-like daemon core: messages, rooms and the message handler.
//!
//! The handler answers pings, and keeps room membership on joins and leaves.
//! Writing lines to the console and the JSON wire format are the
//! application's part; `console_line` computes what the daemon shows.

use crate::crypto::{CryptoSession, Identity};
use crate::text::{decimal, push_decimal, string_views};
use vstd::prelude::*;
use vstd::string::*;

verus! {

/// A protocol message.
#[derive(Debug)]
pub enum Message {
    /// Text message in a room or DM
    Text { from: String, room: String, body: String },
    /// Emote (/me)
    Emote { from: String, room: String, action: String },
    /// Honesty vector broadcast (signed)
    Honesty { from: String, vector: String },
    /// Challenge-verify request
    Verify { from: String, target: String, question: String },
    /// Challenge response
    VerifyResponse { from: String, target: String, answer: String, correct: bool },
    /// Join room
    Join { from: String, room: String },
    /// Leave room
    Leave { from: String, room: String },
    /// Change display name
    Nick { from: String, previous: String, new: String },
    /// Share current music track from music.vaked.dev
    Music { from: String, track: String, choreography: String, position: (usize, usize) },
    /// Mood status from choreography
    Status { from: String, mood: String },
    /// Generate shared ternary matrix with peer (using seed exchange)
    Quant { from: String, target: String, seed: String },
    /// System message
    System { body: String },
    /// Ping
    Ping,
    /// Pong
    Pong,
}

impl Clone for Message {
    /// A copy with the same variant and equal fields.
    fn clone(&self) -> (copy: Self)
        ensures
            copy == *self,
    {
        match self {
            Message::Text { from, room, body } => Message::Text {
                from: from.clone(),
                room: room.clone(),
                body: body.clone(),
            },
            Message::Emote { from, room, action } => Message::Emote {
                from: from.clone(),
                room: room.clone(),
                action: action.clone(),
            },
            Message::Honesty { from, vector } => Message::Honesty {
                from: from.clone(),
                vector: vector.clone(),
            },
            Message::Verify { from, target, question } => Message::Verify {
                from: from.clone(),
                target: target.clone(),
                question: question.clone(),
            },
            Message::VerifyResponse { from, target, answer, correct } => Message::VerifyResponse {
                from: from.clone(),
                target: target.clone(),
                answer: answer.clone(),
                correct: *correct,
            },
            Message::Join { from, room } => Message::Join { from: from.clone(), room: room.clone() },
            Message::Leave { from, room } => Message::Leave {
                from: from.clone(),
                room: room.clone(),
            },
            Message::Nick { from, previous, new } => Message::Nick {
                from: from.clone(),
                previous: previous.clone(),
                new: new.clone(),
            },
            Message::Music { from, track, choreography, position } => Message::Music {
                from: from.clone(),
                track: track.clone(),
                choreography: choreography.clone(),
                position: (position.0, position.1),
            },
            Message::Status { from, mood } => Message::Status {
                from: from.clone(),
                mood: mood.clone(),
            },
            Message::Quant { from, target, seed } => Message::Quant {
                from: from.clone(),
                target: target.clone(),
                seed: seed.clone(),
            },
            Message::System { body } => Message::System { body: body.clone() },
            Message::Ping => Message::Ping,
            Message::Pong => Message::Pong,
        }
    }
}

/// What travels on the wire: the sender's route id, the encrypted payload
/// and a sequence number for replay protection.
#[derive(Clone, Debug)]
pub struct Envelope {
    pub from: String,
    pub payload: Vec<u8>,
    pub seq: u64,
}

/// A room and its members.
#[derive(Clone, Debug)]
pub struct Room {
    pub name: String,
    pub members: Vec<String>,
}

/// A room as name and member names.
pub open spec fn room_view(r: Room) -> (Seq<char>, Seq<Seq<char>>) {
    (r.name@, string_views(r.members@))
}

/// The rooms as names and member names.
pub open spec fn rooms_view(rooms: Seq<Room>) -> Seq<(Seq<char>, Seq<Seq<char>>)> {
    rooms.map_values(|r: Room| room_view(r))
}

/// Whether `i` is the first position of a room called `name`.
pub open spec fn is_first_room(rooms: Seq<(Seq<char>, Seq<Seq<char>>)>, name: Seq<char>, i: int) -> bool {
    &&& 0 <= i < rooms.len()
    &&& rooms[i].0 == name
    &&& forall|j: int| 0 <= j < i ==> rooms[j].0 != name
}

/// The position of the first room called `name`, or the number of rooms if
/// there is none.
pub open spec fn room_index(rooms: Seq<(Seq<char>, Seq<Seq<char>>)>, name: Seq<char>) -> int {
    if exists|i: int| is_first_room(rooms, name, i) {
        choose|i: int| is_first_room(rooms, name, i)
    } else {
        rooms.len() as int
    }
}

/// Members after `who` joins: unchanged if already there, else appended.
pub open spec fn with_member(members: Seq<Seq<char>>, who: Seq<char>) -> Seq<Seq<char>> {
    if members.contains(who) {
        members
    } else {
        members.push(who)
    }
}

/// The test "is not `who`".
pub open spec fn other_than(who: Seq<char>) -> spec_fn(Seq<char>) -> bool {
    |m: Seq<char>| m != who
}

/// Members after `who` leaves: every entry equal to `who` removed.
pub open spec fn without_member(members: Seq<Seq<char>>, who: Seq<char>) -> Seq<Seq<char>> {
    members.filter(other_than(who))
}

/// Rooms after `from` joins `room`: added to the first room of that name,
/// or a new room holding only `from` when there is none.
pub open spec fn rooms_after_join(
    rooms: Seq<(Seq<char>, Seq<Seq<char>>)>,
    from: Seq<char>,
    room: Seq<char>,
) -> Seq<(Seq<char>, Seq<Seq<char>>)> {
    let i = room_index(rooms, room);
    if i < rooms.len() {
        rooms.update(i, (rooms[i].0, with_member(rooms[i].1, from)))
    } else {
        rooms.push((room, seq![from]))
    }
}

/// Rooms after `from` leaves `room`: removed from the first room of that
/// name; nothing changes when there is none.
pub open spec fn rooms_after_leave(
    rooms: Seq<(Seq<char>, Seq<Seq<char>>)>,
    from: Seq<char>,
    room: Seq<char>,
) -> Seq<(Seq<char>, Seq<Seq<char>>)> {
    let i = room_index(rooms, room);
    if i < rooms.len() {
        rooms.update(i, (rooms[i].0, without_member(rooms[i].1, from)))
    } else {
        rooms
    }
}

/// Room names are distinct and no room lists a member twice.
pub open spec fn rooms_wf(rooms: Seq<(Seq<char>, Seq<Seq<char>>)>) -> bool {
    &&& forall|i: int, j: int| 0 <= i < j < rooms.len() ==> rooms[i].0 != rooms[j].0
    &&& forall|i: int| 0 <= i < rooms.len() ==> (#[trigger] rooms[i]).1.no_duplicates()
}

proof fn lemma_room_index_found(rooms: Seq<(Seq<char>, Seq<Seq<char>>)>, name: Seq<char>, i: int)
    requires
        is_first_room(rooms, name, i),
    ensures
        room_index(rooms, name) == i,
{
    let k = choose|k: int| is_first_room(rooms, name, k);
    assert(is_first_room(rooms, name, k));
    if k < i {
        assert(rooms[k].0 != name);
    } else if k > i {
        assert(rooms[i].0 != name);
    }
}

proof fn lemma_room_index_absent(rooms: Seq<(Seq<char>, Seq<Seq<char>>)>, name: Seq<char>)
    requires
        forall|j: int| 0 <= j < rooms.len() ==> rooms[j].0 != name,
    ensures
        room_index(rooms, name) == rooms.len(),
{
    if exists|i: int| is_first_room(rooms, name, i) {
        let k = choose|i: int| is_first_room(rooms, name, i);
        assert(rooms[k].0 == name);
    }
}

proof fn lemma_room_index_bounds(rooms: Seq<(Seq<char>, Seq<Seq<char>>)>, name: Seq<char>)
    ensures
        0 <= room_index(rooms, name) <= rooms.len(),
        room_index(rooms, name) < rooms.len() ==> is_first_room(
            rooms,
            name,
            room_index(rooms, name),
        ),
        room_index(rooms, name) == rooms.len() ==> forall|j: int|
            0 <= j < rooms.len() ==> rooms[j].0 != name,
{
    if exists|i: int| is_first_room(rooms, name, i) {
        let k = choose|i: int| is_first_room(rooms, name, i);
        assert(is_first_room(rooms, name, k));
    } else {
        assert forall|j: int| 0 <= j < rooms.len() implies rooms[j].0 != name by {
            if rooms[j].0 == name {
                lemma_first_position_exists(rooms, name, j);
            }
        }
    }
}

proof fn lemma_first_position_exists(
    rooms: Seq<(Seq<char>, Seq<Seq<char>>)>,
    name: Seq<char>,
    j: int,
)
    requires
        0 <= j < rooms.len(),
        rooms[j].0 == name,
    ensures
        exists|i: int| is_first_room(rooms, name, i),
    decreases j,
{
    if forall|k: int| 0 <= k < j ==> rooms[k].0 != name {
        assert(is_first_room(rooms, name, j));
    } else {
        let k = choose|k: int| 0 <= k < j && rooms[k].0 != name == false;
        lemma_first_position_exists(rooms, name, k);
    }
}

/// Filtering keeps a list free of duplicates and drops the removed entry.
proof fn lemma_without_member(members: Seq<Seq<char>>, who: Seq<char>)
    ensures
        members.no_duplicates() ==> without_member(members, who).no_duplicates(),
        !without_member(members, who).contains(who),
    decreases members.len(),
{
    let pred = other_than(who);
    if members.len() > 0 {
        let rest = members.drop_last();
        let last = members.last();
        lemma_without_member(rest, who);
        assert(rest.push(last) == members);
        rest.lemma_filter_push(last, pred);
        if members.no_duplicates() {
            assert(rest.no_duplicates());
            if pred(last) {
                if rest.filter(pred).contains(last) {
                    rest.lemma_filter_contains_rev(pred, last);
                    let k = choose|k: int| 0 <= k < rest.len() && rest[k] == last;
                    assert(members[k] == members[members.len() - 1]);
                }
            }
        }
        if pred(last) {
            assert(rest.filter(pred).push(last) =~= without_member(members, who));
        }
    } else {
        assert(without_member(members, who) =~= Seq::<Seq<char>>::empty()) by {
            reveal(Seq::filter);
        }
    }
}

/// After a join, the room exists and lists the member; membership of
/// every other position is unchanged.
pub proof fn lemma_join_adds_member(
    rooms: Seq<(Seq<char>, Seq<Seq<char>>)>,
    from: Seq<char>,
    room: Seq<char>,
)
    ensures
        exists|i: int|
            0 <= i < rooms_after_join(rooms, from, room).len() && (#[trigger] rooms_after_join(
                rooms,
                from,
                room,
            )[i]).0 == room && rooms_after_join(rooms, from, room)[i].1.contains(from),
{
    lemma_room_index_bounds(rooms, room);
    let after = rooms_after_join(rooms, from, room);
    let i = room_index(rooms, room);
    if i < rooms.len() {
        let members = with_member(rooms[i].1, from);
        if !rooms[i].1.contains(from) {
            assert(members[members.len() - 1] == from);
        }
        assert(after[i].1 == members);
    } else {
        assert(after[rooms.len() as int].1 == seq![from]);
        assert(seq![from][0] == from);
    }
}

/// Joining twice is the same as joining once.
pub proof fn lemma_join_idempotent(
    rooms: Seq<(Seq<char>, Seq<Seq<char>>)>,
    from: Seq<char>,
    room: Seq<char>,
)
    ensures
        rooms_after_join(rooms_after_join(rooms, from, room), from, room) == rooms_after_join(
            rooms,
            from,
            room,
        ),
{
    lemma_room_index_bounds(rooms, room);
    let once = rooms_after_join(rooms, from, room);
    let i = room_index(rooms, room);
    if i < rooms.len() {
        assert forall|j: int| 0 <= j < i implies once[j].0 != room by {}
        assert(is_first_room(once, room, i));
        lemma_room_index_found(once, room, i);
        let members = with_member(rooms[i].1, from);
        if !rooms[i].1.contains(from) {
            assert(members[members.len() - 1] == from);
        }
        assert(members.contains(from));
        assert(once.update(i, (once[i].0, with_member(once[i].1, from))) =~= once);
    } else {
        let n = rooms.len() as int;
        assert forall|j: int| 0 <= j < n implies once[j].0 != room by {}
        assert(is_first_room(once, room, n));
        lemma_room_index_found(once, room, n);
        assert(seq![from][0] == from);
        assert(seq![from].contains(from));
        assert(once.update(n, (once[n].0, with_member(once[n].1, from))) =~= once);
    }
}

/// Joins and leaves keep room names distinct and member lists free of
/// duplicates.
pub proof fn lemma_handle_keeps_rooms_wf(
    rooms: Seq<(Seq<char>, Seq<Seq<char>>)>,
    from: Seq<char>,
    room: Seq<char>,
)
    requires
        rooms_wf(rooms),
    ensures
        rooms_wf(rooms_after_join(rooms, from, room)),
        rooms_wf(rooms_after_leave(rooms, from, room)),
{
    lemma_room_index_bounds(rooms, room);
    let i = room_index(rooms, room);
    let joined = rooms_after_join(rooms, from, room);
    let left = rooms_after_leave(rooms, from, room);
    if i < rooms.len() {
        let members = with_member(rooms[i].1, from);
        assert(rooms[i].1.no_duplicates());
        assert(members.no_duplicates()) by {
            if !rooms[i].1.contains(from) {
                assert forall|a: int, b: int|
                    0 <= a < members.len() && 0 <= b < members.len() && a != b implies members[a]
                    != members[b] by {
                    if a == members.len() - 1 {
                        assert(rooms[i].1[b] == members[b]);
                    } else if b == members.len() - 1 {
                        assert(rooms[i].1[a] == members[a]);
                    }
                }
            }
        }
        assert forall|k: int| 0 <= k < joined.len() implies (#[trigger] joined[k]).1.no_duplicates() by {
            if k != i {
                assert(joined[k] == rooms[k]);
            }
        }
        lemma_without_member(rooms[i].1, from);
        assert forall|k: int| 0 <= k < left.len() implies (#[trigger] left[k]).1.no_duplicates() by {
            if k != i {
                assert(left[k] == rooms[k]);
            }
        }
    } else {
        assert forall|a: int, b: int| 0 <= a < b < joined.len() implies joined[a].0 != joined[b].0 by {
            if b == rooms.len() {
                assert(rooms[a].0 != room);
            }
        }
        assert forall|k: int| 0 <= k < joined.len() implies (#[trigger] joined[k]).1.no_duplicates() by {
            if k == rooms.len() {
                assert(joined[k].1 == seq![from]);
            }
        }
    }
}

/// Removing a member that is not listed changes nothing.
proof fn lemma_without_absent_member(members: Seq<Seq<char>>, who: Seq<char>)
    requires
        !members.contains(who),
    ensures
        without_member(members, who) == members,
    decreases members.len(),
{
    if members.len() == 0 {
        assert(without_member(members, who) =~= members) by {
            reveal(Seq::filter);
        }
    } else {
        let rest = members.drop_last();
        let last = members.last();
        assert(rest.push(last) == members);
        assert forall|x: Seq<char>| rest.contains(x) implies members.contains(x) by {
            let k = choose|k: int| 0 <= k < rest.len() && rest[k] == x;
            assert(members[k] == x);
        }
        lemma_without_absent_member(rest, who);
        assert(last != who);
        rest.lemma_filter_push(last, other_than(who));
    }
}

/// Leave undoes join: when the first room of that name exists and does not
/// list the member, joining and then leaving gives the rooms back unchanged.
pub proof fn lemma_leave_undoes_join(
    rooms: Seq<(Seq<char>, Seq<Seq<char>>)>,
    from: Seq<char>,
    room: Seq<char>,
)
    requires
        room_index(rooms, room) < rooms.len(),
        !rooms[room_index(rooms, room)].1.contains(from),
    ensures
        rooms_after_leave(rooms_after_join(rooms, from, room), from, room) == rooms,
{
    lemma_room_index_bounds(rooms, room);
    let i = room_index(rooms, room);
    let members = rooms[i].1;
    let joined = rooms_after_join(rooms, from, room);
    assert(joined == rooms.update(i, (rooms[i].0, members.push(from))));
    assert forall|j: int| 0 <= j < i implies joined[j].0 != room by {}
    assert(is_first_room(joined, room, i));
    lemma_room_index_found(joined, room, i);
    members.lemma_filter_push(from, other_than(from));
    lemma_without_absent_member(members, from);
    assert(without_member(members.push(from), from) == members);
    assert(rooms_after_leave(joined, from, room) =~= rooms);
}

/// After a leave, with distinct room names, no room of that name lists the
/// member.
pub proof fn lemma_leave_removes_member(
    rooms: Seq<(Seq<char>, Seq<Seq<char>>)>,
    from: Seq<char>,
    room: Seq<char>,
)
    requires
        rooms_wf(rooms),
    ensures
        forall|k: int|
            0 <= k < rooms_after_leave(rooms, from, room).len() && (#[trigger] rooms_after_leave(
                rooms,
                from,
                room,
            )[k]).0 == room ==> !rooms_after_leave(rooms, from, room)[k].1.contains(from),
{
    lemma_room_index_bounds(rooms, room);
    let i = room_index(rooms, room);
    let left = rooms_after_leave(rooms, from, room);
    if i < rooms.len() {
        lemma_without_member(rooms[i].1, from);
        assert forall|k: int| 0 <= k < left.len() && (#[trigger] left[k]).0 == room implies !left[k].1.contains(from) by {
            if k != i {
                assert(rooms[k].0 == room);
                if k < i {
                } else {
                    assert(rooms[i].0 != rooms[k].0);
                }
            }
        }
    }
}

/// The IRC daemon: our identity, the rooms, known peers and the session.
pub struct IrcDaemon {
    pub identity: Identity,
    pub rooms: Vec<Room>,
    pub peers: Vec<String>,
    pub crypto: Option<CryptoSession>,
}

/// The position of the first room called `name`.
fn find_room(rooms: &Vec<Room>, name: &String) -> (i: usize)
    ensures
        i as int == room_index(rooms_view(rooms@), name@),
        i <= rooms@.len(),
{
    let ghost view = rooms_view(rooms@);
    let mut i: usize = 0;
    while i < rooms.len()
        invariant
            i <= rooms@.len(),
            view == rooms_view(rooms@),
            forall|j: int| 0 <= j < i ==> view[j].0 != name@,
        decreases rooms@.len() - i,
    {
        if rooms[i].name == *name {
            assert(view[i as int].0 == name@);
            assert(is_first_room(view, name@, i as int));
            proof {
                lemma_room_index_found(view, name@, i as int);
            }
            return i;
        }
        i = i + 1;
    }
    proof {
        lemma_room_index_absent(view, name@);
    }
    i
}

/// Whether `who` is in `members`.
fn has_member(members: &Vec<String>, who: &String) -> (found: bool)
    ensures
        found == string_views(members@).contains(who@),
{
    let mut i: usize = 0;
    while i < members.len()
        invariant
            i <= members@.len(),
            forall|j: int| 0 <= j < i ==> members@[j]@ != who@,
        decreases members@.len() - i,
    {
        if members[i] == *who {
            assert(string_views(members@)[i as int] == who@);
            return true;
        }
        i = i + 1;
    }
    assert(!string_views(members@).contains(who@)) by {
        if string_views(members@).contains(who@) {
            let k = choose|k: int|
                0 <= k < string_views(members@).len() && string_views(members@)[k] == who@;
            assert(members@[k]@ == who@);
        }
    }
    false
}

/// The members other than `who`, in order.
fn members_without(members: &Vec<String>, who: &String) -> (kept: Vec<String>)
    ensures
        string_views(kept@) == without_member(string_views(members@), who@),
{
    let ghost pred = other_than(who@);
    let mut kept: Vec<String> = Vec::new();
    let mut i: usize = 0;
    while i < members.len()
        invariant
            i <= members@.len(),
            pred == other_than(who@),
            string_views(kept@) == string_views(members@.take(i as int)).filter(pred),
        decreases members@.len() - i,
    {
        let ghost before = members@.take(i as int);
        assert(members@.take(i + 1) == before.push(members@[i as int]));
        assert(string_views(before.push(members@[i as int])) == string_views(before).push(
            members@[i as int]@,
        ));
        proof {
            string_views(before).lemma_filter_push(members@[i as int]@, pred);
        }
        if members[i] != *who {
            let ghost kept_before = kept@;
            kept.push(members[i].clone());
            assert(string_views(kept@) == string_views(kept_before).push(members@[i as int]@));
        }
        i = i + 1;
    }
    assert(members@.take(members@.len() as int) == members@);
    kept
}

impl IrcDaemon {
    /// The rooms as names and member names.
    pub open spec fn rooms_model(self) -> Seq<(Seq<char>, Seq<Seq<char>>)> {
        rooms_view(self.rooms@)
    }

    /// A daemon with our identity, the empty room "#general", no peers and a
    /// fresh session.
    pub fn new(identity: Identity) -> (daemon: Self)
        ensures
            daemon.identity == identity,
            daemon.rooms_model() == seq![("#general"@, Seq::<Seq<char>>::empty())],
            daemon.peers@.len() == 0,
            daemon.crypto is Some,
            daemon.crypto matches Some(s) ==> s.counter() == 0,
    {
        let general = Room { name: String::from_str("#general"), members: Vec::new() };
        let daemon = IrcDaemon {
            identity,
            rooms: vec![general],
            peers: Vec::new(),
            crypto: Some(CryptoSession::new()),
        };
        assert(daemon.rooms_model() =~= seq![("#general"@, Seq::<Seq<char>>::empty())]) by {
            assert(string_views(daemon.rooms@[0].members@) =~= Seq::<Seq<char>>::empty());
        }
        daemon
    }

    /// Handles one message. A ping is answered with a pong. A join adds the
    /// sender to the room (creating the room if it does not exist) and is
    /// announced as "<from> joined <room>"; a leave removes the sender from
    /// the room and is announced as "<from> left <room>". Other messages
    /// change nothing and get no answer.
    pub fn handle(&mut self, msg: Message) -> (response: Option<Message>)
        ensures
            final(self).identity == old(self).identity,
            final(self).peers == old(self).peers,
            final(self).crypto == old(self).crypto,
            msg is Ping ==> response == Some(Message::Pong) && final(self).rooms == old(self).rooms,
            msg matches Message::Join { from, room } ==> {
                &&& response matches Some(Message::System { body }) && body@ == from@
                    + " joined "@ + room@
                &&& final(self).rooms_model() == rooms_after_join(
                    old(self).rooms_model(),
                    from@,
                    room@,
                )
            },
            msg matches Message::Leave { from, room } ==> {
                &&& response matches Some(Message::System { body }) && body@ == from@
                    + " left "@ + room@
                &&& final(self).rooms_model() == rooms_after_leave(
                    old(self).rooms_model(),
                    from@,
                    room@,
                )
            },
            !(msg is Ping || msg is Join || msg is Leave) ==> response is None && final(self).rooms == old(self).rooms,
            rooms_wf(old(self).rooms_model()) ==> rooms_wf(final(self).rooms_model()),
    {
        match msg {
            Message::Ping => Some(Message::Pong),
            Message::Join { from, room } => {
                proof {
                    lemma_room_index_bounds(old(self).rooms_model(), room@);
                    if rooms_wf(old(self).rooms_model()) {
                        lemma_handle_keeps_rooms_wf(old(self).rooms_model(), from@, room@);
                    }
                }
                let i = find_room(&self.rooms, &room);
                if i < self.rooms.len() {
                    let mut r = self.rooms.remove(i);
                    let present = has_member(&r.members, &from);
                    if !present {
                        r.members.push(from.clone());
                        assert(string_views(r.members@) =~= string_views(
                            old(self).rooms@[i as int].members@,
                        ).push(from@));
                    }
                    self.rooms.insert(i, r);
                    assert(self.rooms_model() =~= rooms_after_join(
                        old(self).rooms_model(),
                        from@,
                        room@,
                    ));
                } else {
                    let mut members: Vec<String> = Vec::new();
                    members.push(from.clone());
                    self.rooms.push(Room { name: room.clone(), members });
                    assert(self.rooms_model() =~= rooms_after_join(
                        old(self).rooms_model(),
                        from@,
                        room@,
                    )) by {
                        let last = self.rooms@[self.rooms@.len() - 1];
                        assert(string_views(last.members@) =~= seq![from@]);
                    }
                }
                let mut body = from.clone();
                body.append(" joined ");
                body.append(room.as_str());
                Some(Message::System { body })
            },
            Message::Leave { from, room } => {
                proof {
                    lemma_room_index_bounds(old(self).rooms_model(), room@);
                    if rooms_wf(old(self).rooms_model()) {
                        lemma_handle_keeps_rooms_wf(old(self).rooms_model(), from@, room@);
                    }
                }
                let i = find_room(&self.rooms, &room);
                if i < self.rooms.len() {
                    let r = self.rooms.remove(i);
                    let kept = members_without(&r.members, &from);
                    self.rooms.insert(i, Room { name: r.name, members: kept });
                    assert(self.rooms_model() =~= rooms_after_leave(
                        old(self).rooms_model(),
                        from@,
                        room@,
                    ));
                }
                let mut body = from.clone();
                body.append(" left ");
                body.append(room.as_str());
                Some(Message::System { body })
            },
            _ => None,
        }
    }

    /// The line the daemon shows for a message: "[<from>] <body>" for text,
    /// "[<from>] shared honesty vector" for an honesty broadcast, and
    /// "[<from>] ♫ <track> (<choreography> track <a>/<b>)" for music. Other
    /// messages show nothing.
    pub fn console_line(msg: &Message) -> (line: Option<String>)
        ensures
            msg matches Message::Text { from, body, .. } ==> line matches Some(s) && s@ == "["@
                + from@ + "] "@ + body@,
            msg matches Message::Honesty { from, .. } ==> line matches Some(s) && s@ == "["@
                + from@ + "] shared honesty vector"@,
            msg matches Message::Music { from, track, choreography, position } ==> line matches Some(
                s,
            ) && s@ == "["@ + from@ + "] ♫ "@ + track@ + " ("@ + choreography@ + " track "@
                + decimal(position.0 as nat) + "/"@ + decimal(position.1 as nat) + ")"@,
            !(msg is Text || msg is Honesty || msg is Music) ==> line is None,
    {
        match msg {
            Message::Text { from, body, .. } => {
                let mut s = String::from_str("[");
                s.append(from.as_str());
                s.append("] ");
                s.append(body.as_str());
                Some(s)
            },
            Message::Honesty { from, .. } => {
                let mut s = String::from_str("[");
                s.append(from.as_str());
                s.append("] shared honesty vector");
                Some(s)
            },
            Message::Music { from, track, choreography, position } => {
                let mut s = String::from_str("[");
                s.append(from.as_str());
                s.append("] ♫ ");
                s.append(track.as_str());
                s.append(" (");
                s.append(choreography.as_str());
                s.append(" track ");
                push_decimal(&mut s, position.0);
                s.append("/");
                push_decimal(&mut s, position.1);
                s.append(")");
                Some(s)
            },
            _ => None,
        }
    }
}

} // verus!
