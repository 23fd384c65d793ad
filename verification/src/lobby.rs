//! The lobby: rooms that players create, join and leave until a game server
//! is deployed for them.

use vstd::prelude::*;
use vstd::string::*;
use crate::deployment::{
    deploy_call, deploy_call_of, deploy_fault, fault_of, interpret_outcome, session_after,
    DeployOutcome, DeployRequest,
};
use crate::text::{format_padded, same_text, zero_padded};

verus! {

/// The largest number of players a room may be configured for.
pub const MAX_ROOM_PLAYERS: u32 = 16;

/// The player limit of a room whose creator names none.
pub const DEFAULT_ROOM_PLAYERS: u32 = 4;

/// The characters of a text that may be missing.
pub open spec fn opt_text(o: Option<String>) -> Option<Seq<char>> {
    match o {
        Some(s) => Some(s@),
        None => None,
    }
}

/// How to reach the game server deployed for a room.
#[derive(Debug, PartialEq, Eq)]
pub struct SessionInfo {
    pub session_id: Option<String>,
    pub game_server_ip: Option<String>,
    pub game_server_port: Option<u16>,
    pub connect_token: Option<String>,
    pub deployment_status: String,
}

/// A session record as a value of specifications.
pub struct SessionInfoView {
    pub session_id: Option<Seq<char>>,
    pub game_server_ip: Option<Seq<char>>,
    pub game_server_port: Option<u16>,
    pub connect_token: Option<Seq<char>>,
    pub deployment_status: Seq<char>,
}

impl View for SessionInfo {
    type V = SessionInfoView;

    open spec fn view(&self) -> SessionInfoView {
        SessionInfoView {
            session_id: opt_text(self.session_id),
            game_server_ip: opt_text(self.game_server_ip),
            game_server_port: self.game_server_port,
            connect_token: opt_text(self.connect_token),
            deployment_status: self.deployment_status@,
        }
    }
}

/// A room of the lobby.
#[derive(Debug, PartialEq, Eq)]
pub struct LobbyRoom {
    pub id: String,
    pub host_name: String,
    pub game_mode: String,
    pub created_at: u64,
    pub started: bool,
    pub current_players: u32,
    pub max_players: u32,
    pub session_info: Option<SessionInfo>,
}

/// A room as a value of specifications.
pub struct RoomView {
    pub id: Seq<char>,
    pub host_name: Seq<char>,
    pub game_mode: Seq<char>,
    pub created_at: u64,
    pub started: bool,
    pub current_players: u32,
    pub max_players: u32,
    pub session_info: Option<SessionInfoView>,
}

impl View for LobbyRoom {
    type V = RoomView;

    open spec fn view(&self) -> RoomView {
        RoomView {
            id: self.id@,
            host_name: self.host_name@,
            game_mode: self.game_mode@,
            created_at: self.created_at,
            started: self.started,
            current_players: self.current_players,
            max_players: self.max_players,
            session_info: match self.session_info {
                Some(info) => Some(info@),
                None => None,
            },
        }
    }
}

/// A copy of a text that may be missing.
fn copy_text(o: &Option<String>) -> (c: Option<String>)
    ensures
        opt_text(c) == opt_text(*o),
{
    match o {
        Some(s) => Some(s.clone()),
        None => None,
    }
}

impl Clone for SessionInfo {
    fn clone(&self) -> (copy: Self)
        ensures
            copy@ == self@,
    {
        SessionInfo {
            session_id: copy_text(&self.session_id),
            game_server_ip: copy_text(&self.game_server_ip),
            game_server_port: self.game_server_port,
            connect_token: copy_text(&self.connect_token),
            deployment_status: self.deployment_status.clone(),
        }
    }
}

impl Clone for LobbyRoom {
    fn clone(&self) -> (copy: Self)
        ensures
            copy@ == self@,
    {
        LobbyRoom {
            id: self.id.clone(),
            host_name: self.host_name.clone(),
            game_mode: self.game_mode.clone(),
            created_at: self.created_at,
            started: self.started,
            current_players: self.current_players,
            max_players: self.max_players,
            session_info: match &self.session_info {
                Some(info) => Some(info.clone()),
                None => None,
            },
        }
    }
}

/// What a client sends to open a room.
#[derive(Clone, Debug, PartialEq, Eq)]
pub struct CreateRoomRequest {
    pub host_name: String,
    pub game_mode: String,
    pub max_players: Option<u32>,
}

/// What a client sends to join a room.
#[derive(Clone, Debug, PartialEq, Eq)]
pub struct JoinRoomRequest {
    pub player_name: Option<String>,
}

/// What a client sends to leave a room.
#[derive(Clone, Debug, PartialEq, Eq)]
pub struct LeaveRoomRequest {
    pub player_name: Option<String>,
}

/// How full the lobby is.
#[derive(Clone, Copy, Debug, PartialEq, Eq)]
pub struct LobbyStatus {
    pub max_rooms: usize,
    pub active_rooms: usize,
    pub total_rooms: usize,
}

/// Why the deployment of a game server failed.
#[derive(Clone, Debug, PartialEq, Eq)]
pub enum DeploymentError {
    /// No reply arrived in time.
    Timeout,
    /// Nobody listens on the deployment subject.
    NoResponders,
    /// The deployment service answered with an error of its own.
    ServiceError { code: usize, message: String },
    /// The request failed in another way.
    Other,
}

/// Why a lobby operation was refused.
#[derive(Clone, Debug, PartialEq, Eq)]
pub enum LobbyError {
    /// As many rooms are waiting as the lobby allows.
    CapacityExceeded { max_rooms: usize },
    /// No room has the id.
    NotFound,
    /// The room's game has started.
    AlreadyStarted,
    /// The room has as many players as it takes.
    Full,
    /// The room's game server could not be deployed.
    Deployment(DeploymentError),
}

// ---------------------------------------------------------------------------
// The model: a sequence of rooms with distinct ids
// ---------------------------------------------------------------------------

/// Some room has the id.
pub open spec fn holds_id(rooms: Seq<RoomView>, id: Seq<char>) -> bool {
    exists|i: int| 0 <= i < rooms.len() && (#[trigger] rooms[i]).id == id
}

/// Where the room with the id stands, where some room has it.
pub open spec fn position_of(rooms: Seq<RoomView>, id: Seq<char>) -> int {
    choose|i: int| 0 <= i < rooms.len() && (#[trigger] rooms[i]).id == id
}

/// No two rooms have one id.
pub open spec fn distinct_ids(rooms: Seq<RoomView>) -> bool {
    forall|i: int, j: int|
        0 <= i < j < rooms.len() ==> (#[trigger] rooms[i]).id != (#[trigger] rooms[j]).id
}

/// A room's player counts are in range.
pub open spec fn room_ok(room: RoomView) -> bool {
    &&& 1 <= room.max_players <= MAX_ROOM_PLAYERS
    &&& room.current_players <= room.max_players
}

/// What holds of the rooms of every store.
pub open spec fn rooms_ok(rooms: Seq<RoomView>) -> bool {
    &&& distinct_ids(rooms)
    &&& forall|i: int| 0 <= i < rooms.len() ==> room_ok(#[trigger] rooms[i])
}

/// The number of rooms whose game has not started.
pub open spec fn active_count(rooms: Seq<RoomView>) -> nat
    decreases rooms.len(),
{
    if rooms.len() == 0 {
        0
    } else {
        active_count(rooms.drop_last()) + if rooms.last().started {
            0nat
        } else {
            1nat
        }
    }
}

/// The id of the `n`-th room: `ROOM` and `n` in at least three digits.
pub open spec fn room_label(n: nat) -> Seq<char> {
    seq!['R', 'O', 'O', 'M'] + zero_padded(n, 3)
}

/// An id begins with `ROOM`.
pub open spec fn is_room_id(id: Seq<char>) -> bool {
    id.len() >= 4 && id.subrange(0, 4) == seq!['R', 'O', 'O', 'M']
}

/// The player limit of a new room: the requested one, brought into
/// `1..=MAX_ROOM_PLAYERS`, or the default where none is requested.
pub open spec fn player_limit(requested: Option<u32>) -> u32 {
    match requested {
        None => DEFAULT_ROOM_PLAYERS,
        Some(n) => if n < 1 {
            1
        } else if n > MAX_ROOM_PLAYERS {
            MAX_ROOM_PLAYERS
        } else {
            n
        },
    }
}

/// The room that a creation at time `now` opens, or `None` where the lobby is
/// at capacity.
pub open spec fn created(
    rooms: Seq<RoomView>,
    max_rooms: nat,
    host_name: Seq<char>,
    game_mode: Seq<char>,
    requested: Option<u32>,
    now: u64,
) -> Option<RoomView> {
    if active_count(rooms) >= max_rooms {
        None
    } else {
        Some(
            RoomView {
                id: room_label(rooms.len() + 1),
                host_name,
                game_mode,
                created_at: now,
                started: false,
                current_players: 1,
                max_players: player_limit(requested),
                session_info: None,
            },
        )
    }
}

/// The rooms once `room` is stored: it takes the place of the room with its
/// id, or comes last where no room has it.
pub open spec fn with_room(rooms: Seq<RoomView>, room: RoomView) -> Seq<RoomView> {
    if holds_id(rooms, room.id) {
        rooms.update(position_of(rooms, room.id), room)
    } else {
        rooms.push(room)
    }
}

/// What joining the room `id` gives: the room with one player more, or the
/// reason for the refusal.
pub open spec fn joined(rooms: Seq<RoomView>, id: Seq<char>) -> Result<RoomView, LobbyError> {
    if !holds_id(rooms, id) {
        Err(LobbyError::NotFound)
    } else {
        let room = rooms[position_of(rooms, id)];
        if room.started {
            Err(LobbyError::AlreadyStarted)
        } else if room.current_players >= room.max_players {
            Err(LobbyError::Full)
        } else {
            Ok(RoomView { current_players: (room.current_players + 1) as u32, ..room })
        }
    }
}

/// The rooms after a player has left the room `id`: the room has one player
/// less, and is gone where it is empty and its game has not started.
pub open spec fn after_leave(rooms: Seq<RoomView>, id: Seq<char>) -> Seq<RoomView> {
    if !holds_id(rooms, id) {
        rooms
    } else {
        let at = position_of(rooms, id);
        let room = rooms[at];
        let left: u32 = if room.current_players > 0 {
            (room.current_players - 1) as u32
        } else {
            0
        };
        if left == 0 && !room.started {
            rooms.remove(at)
        } else {
            rooms.update(at, RoomView { current_players: left, ..room })
        }
    }
}

/// Whether the room `id` can be started.
pub open spec fn startable(rooms: Seq<RoomView>, id: Seq<char>) -> Result<(), LobbyError> {
    if !holds_id(rooms, id) {
        Err(LobbyError::NotFound)
    } else if rooms[position_of(rooms, id)].started {
        Err(LobbyError::AlreadyStarted)
    } else {
        Ok(())
    }
}

/// The room once its deployment has ended with `result`: it holds the
/// session record, and is started where the deployment succeeded.
pub open spec fn deployed_room(room: RoomView, result: DeployOutcome) -> RoomView {
    RoomView {
        started: room.started || deploy_fault(result) is None,
        session_info: Some(session_after(result)),
        ..room
    }
}

/// The rooms once the deployment for the room `id` has ended with `result`.
pub open spec fn after_deployment(
    rooms: Seq<RoomView>,
    id: Seq<char>,
    result: DeployOutcome,
) -> Seq<RoomView> {
    if !holds_id(rooms, id) {
        rooms
    } else {
        let at = position_of(rooms, id);
        rooms.update(at, deployed_room(rooms[at], result))
    }
}

/// Where a room created at `created_at` goes in a listing: behind every
/// room that is no younger.
pub open spec fn slot_for(listed: Seq<RoomView>, created_at: u64) -> int
    decreases listed.len(),
{
    if listed.len() == 0 {
        0
    } else if listed.last().created_at <= created_at {
        listed.len() as int
    } else {
        slot_for(listed.drop_last(), created_at)
    }
}

/// The rooms that wait for players, oldest first; rooms of one age stay in
/// the order in which the store holds them.
pub open spec fn listing(rooms: Seq<RoomView>) -> Seq<RoomView>
    decreases rooms.len(),
{
    if rooms.len() == 0 {
        Seq::empty()
    } else {
        let earlier = listing(rooms.drop_last());
        let room = rooms.last();
        if room.started {
            earlier
        } else {
            earlier.insert(slot_for(earlier, room.created_at), room)
        }
    }
}

/// No room comes before an older one.
pub open spec fn oldest_first(listed: Seq<RoomView>) -> bool {
    forall|i: int, j: int|
        0 <= i < j < listed.len() ==> (#[trigger] listed[i]).created_at <= (
        #[trigger] listed[j]).created_at
}

/// Rooms as values of specifications.
pub open spec fn views(rooms: Seq<LobbyRoom>) -> Seq<RoomView> {
    rooms.map_values(|r: LobbyRoom| r@)
}

/// The slot of a room lies in the listing, behind the rooms that are no
/// younger and before those that are.
pub proof fn lemma_slot_for(listed: Seq<RoomView>, created_at: u64)
    ensures
        0 <= slot_for(listed, created_at) <= listed.len(),
        forall|k: int|
            slot_for(listed, created_at) <= k < listed.len() ==> (#[trigger] listed[k]).created_at
                > created_at,
        slot_for(listed, created_at) > 0 ==> listed[slot_for(listed, created_at) - 1].created_at
            <= created_at,
    decreases listed.len(),
{
    if listed.len() > 0 && listed.last().created_at > created_at {
        let front = listed.drop_last();
        lemma_slot_for(front, created_at);
        assert forall|k: int| 0 <= k < front.len() implies front[k] == listed[k] by {}
    }
}

/// A listing holds the waiting rooms of the store and no others, as many as
/// wait, oldest first.
pub proof fn lemma_listing(rooms: Seq<RoomView>)
    ensures
        oldest_first(listing(rooms)),
        listing(rooms).len() == active_count(rooms),
        forall|i: int| 0 <= i < listing(rooms).len() ==> !(#[trigger] listing(rooms)[i]).started,
        forall|room: RoomView| #[trigger]
            listing(rooms).contains(room) <==> rooms.contains(room) && !room.started,
    decreases rooms.len(),
{
    let listed = listing(rooms);
    if rooms.len() == 0 {
        assert forall|room: RoomView| #[trigger]
            listed.contains(room) <==> rooms.contains(room) && !room.started by {}
    } else {
        let front = rooms.drop_last();
        let last = rooms.last();
        let earlier = listing(front);
        lemma_listing(front);
        assert forall|k: int| 0 <= k < front.len() implies front[k] == rooms[k] by {}
        if last.started {
            assert forall|room: RoomView| #[trigger]
                listed.contains(room) <==> rooms.contains(room) && !room.started by {
                if earlier.contains(room) {
                    let k = choose|k: int| 0 <= k < front.len() && front[k] == room;
                    assert(rooms[k] == room);
                }
                if rooms.contains(room) && !room.started {
                    let k = choose|k: int| 0 <= k < rooms.len() && rooms[k] == room;
                    assert(k < front.len());
                    assert(front[k] == room);
                }
            }
        } else {
            let at = slot_for(earlier, last.created_at);
            lemma_slot_for(earlier, last.created_at);
            assert(listed == earlier.insert(at, last));
            assert forall|i: int, j: int| 0 <= i < j < listed.len() implies (
            #[trigger] listed[i]).created_at <= (#[trigger] listed[j]).created_at by {
                if j < at {
                    assert(listed[i] == earlier[i] && listed[j] == earlier[j]);
                } else if j == at {
                    assert(listed[i] == earlier[i]);
                    if at > 0 {
                        assert(earlier[i].created_at <= earlier[at - 1].created_at || i == at - 1);
                    }
                } else if i < at {
                    assert(listed[i] == earlier[i] && listed[j] == earlier[j - 1]);
                } else if i == at {
                    assert(listed[j] == earlier[j - 1]);
                } else {
                    assert(listed[i] == earlier[i - 1] && listed[j] == earlier[j - 1]);
                }
            }
            assert forall|i: int| 0 <= i < listed.len() implies !(#[trigger] listed[i]).started by {
                if i < at {
                    assert(listed[i] == earlier[i]);
                } else if i > at {
                    assert(listed[i] == earlier[i - 1]);
                }
            }
            assert forall|room: RoomView| #[trigger]
                listed.contains(room) <==> rooms.contains(room) && !room.started by {
                if listed.contains(room) {
                    let k = choose|k: int| 0 <= k < listed.len() && listed[k] == room;
                    if k < at {
                        assert(earlier[k] == room);
                        assert(earlier.contains(room));
                    } else if k > at {
                        assert(earlier[k - 1] == room);
                        assert(earlier.contains(room));
                    } else {
                        assert(rooms[rooms.len() - 1] == room);
                    }
                    if earlier.contains(room) {
                        let m = choose|m: int| 0 <= m < front.len() && front[m] == room;
                        assert(rooms[m] == room);
                    }
                }
                if rooms.contains(room) && !room.started {
                    let k = choose|k: int| 0 <= k < rooms.len() && rooms[k] == room;
                    if k < front.len() {
                        assert(front[k] == room);
                        assert(earlier.contains(room));
                        let m = choose|m: int| 0 <= m < earlier.len() && earlier[m] == room;
                        if m < at {
                            assert(listed[m] == room);
                        } else {
                            assert(listed[m + 1] == room);
                        }
                    } else {
                        assert(listed[at] == room);
                    }
                }
            }
        }
    }
}

/// With distinct ids, a room is found where it stands.
pub proof fn lemma_position_of(rooms: Seq<RoomView>, at: int)
    requires
        distinct_ids(rooms),
        0 <= at < rooms.len(),
    ensures
        holds_id(rooms, rooms[at].id),
        position_of(rooms, rooms[at].id) == at,
{
    let id = rooms[at].id;
    assert(rooms[at].id == id);
    let found = position_of(rooms, id);
    assert(0 <= found < rooms.len() && rooms[found].id == id);
    if found < at {
        assert(rooms[found].id != rooms[at].id);
    } else if at < found {
        assert(rooms[at].id != rooms[found].id);
    }
}

// ---------------------------------------------------------------------------
// The store
// ---------------------------------------------------------------------------

impl Default for LobbyStore {
    /// An empty store that allows no rooms.
    fn default() -> (store: Self)
        ensures
            store.rooms() == Seq::<RoomView>::empty(),
            store.capacity() == 0,
    {
        LobbyStore::new(0)
    }
}

/// The player limit of a new room.
pub fn clamp_players(requested: Option<u32>) -> (limit: u32)
    ensures
        limit == player_limit(requested),
        1 <= limit <= MAX_ROOM_PLAYERS,
{
    match requested {
        None => DEFAULT_ROOM_PLAYERS,
        Some(n) => if n < 1 {
            1
        } else if n > MAX_ROOM_PLAYERS {
            MAX_ROOM_PLAYERS
        } else {
            n
        },
    }
}

/// Reads the system clock (`SystemTime::now`) as whole seconds since the Unix
/// epoch, 0 where the clock stands before it. Nothing is claimed of the value.
#[verifier::external_body]
fn now_secs() -> u64 {
    match std::time::SystemTime::now().duration_since(std::time::UNIX_EPOCH) {
        Ok(elapsed) => elapsed.as_secs(),
        Err(_) => 0,
    }
}

/// The rooms of one lobby and the number of waiting rooms it allows.
#[derive(Debug)]
pub struct LobbyStore {
    rooms: Vec<LobbyRoom>,
    max_rooms: usize,
}

impl LobbyStore {
    #[verifier::type_invariant]
    spec fn inv(self) -> bool {
        rooms_ok(views(self.rooms@))
    }

    /// The rooms of the store, in the order in which they came.
    pub closed spec fn rooms(&self) -> Seq<RoomView> {
        views(self.rooms@)
    }

    /// The number of waiting rooms the store allows.
    pub closed spec fn capacity(&self) -> nat {
        self.max_rooms as nat
    }

    /// An empty store that allows `max_rooms` waiting rooms.
    pub fn new(max_rooms: usize) -> (store: Self)
        ensures
            store.rooms() == Seq::<RoomView>::empty(),
            store.capacity() == max_rooms,
    {
        let store = LobbyStore { rooms: Vec::new(), max_rooms };
        assert(views(store.rooms@) =~= Seq::<RoomView>::empty());
        store
    }

    /// The number of waiting rooms the store allows.
    pub fn max_rooms(&self) -> (max_rooms: usize)
        ensures
            max_rooms == self.capacity(),
    {
        self.max_rooms
    }

    /// Where the room `id` stands.
    fn locate(&self, id: &str) -> (at: Option<usize>)
        ensures
            rooms_ok(self.rooms()),
            match at {
                Some(i) => holds_id(self.rooms(), id@) && i == position_of(self.rooms(), id@) && i
                    < self.rooms.len(),
                None => !holds_id(self.rooms(), id@),
            },
    {
        proof {
            use_type_invariant(self);
        }
        let mut i: usize = 0;
        while i < self.rooms.len()
            invariant
                i <= self.rooms.len(),
                rooms_ok(self.rooms()),
                forall|k: int| 0 <= k < i ==> (#[trigger] self.rooms()[k]).id != id@,
            decreases self.rooms.len() - i,
        {
            if same_text(self.rooms[i].id.as_str(), id) {
                proof {
                    assert(self.rooms()[i as int].id == id@);
                    lemma_position_of(self.rooms(), i as int);
                }
                return Some(i);
            }
            i = i + 1;
        }
        None
    }

    /// The number of rooms whose game has not started.
    fn count_active(&self) -> (count: usize)
        ensures
            count == active_count(self.rooms()),
    {
        let mut count: usize = 0;
        let mut i: usize = 0;
        assert(self.rooms().take(0) =~= Seq::<RoomView>::empty());
        while i < self.rooms.len()
            invariant
                i <= self.rooms.len(),
                count <= i,
                count == active_count(self.rooms().take(i as int)),
            decreases self.rooms.len() - i,
        {
            assert(self.rooms().take(i + 1).drop_last() == self.rooms().take(i as int));
            if !self.rooms[i].started {
                count = count + 1;
            }
            i = i + 1;
        }
        assert(self.rooms().take(i as int) == self.rooms());
        count
    }

    /// The room `id`, if the store holds it.
    pub fn get_room(&self, id: &str) -> (found: Option<LobbyRoom>)
        ensures
            match found {
                Some(room) => holds_id(self.rooms(), id@) && room@ == self.rooms()[position_of(
                    self.rooms(),
                    id@,
                )],
                None => !holds_id(self.rooms(), id@),
            },
    {
        match self.locate(id) {
            Some(i) => Some(self.rooms[i].clone()),
            None => None,
        }
    }

    /// The waiting rooms, oldest first.
    pub fn list_rooms(&self) -> (listed: Vec<LobbyRoom>)
        ensures
            views(listed@) == listing(self.rooms()),
            oldest_first(views(listed@)),
            listed.len() == active_count(self.rooms()),
            forall|i: int| 0 <= i < listed.len() ==> !(#[trigger] listed[i]).started,
            forall|room: RoomView| #[trigger]
                views(listed@).contains(room) <==> self.rooms().contains(room) && !room.started,
    {
        let mut listed: Vec<LobbyRoom> = Vec::new();
        let mut i: usize = 0;
        assert(self.rooms().take(0) =~= Seq::<RoomView>::empty());
        assert(views(listed@) =~= Seq::<RoomView>::empty());
        while i < self.rooms.len()
            invariant
                i <= self.rooms.len(),
                views(listed@) == listing(self.rooms().take(i as int)),
            decreases self.rooms.len() - i,
        {
            assert(self.rooms().take(i + 1).drop_last() == self.rooms().take(i as int));
            if !self.rooms[i].started {
                let created_at: u64 = self.rooms[i].created_at;
                let ghost before = views(listed@);
                let mut at: usize = listed.len();
                assert(before.take(at as int) == before);
                while at > 0 && listed[at - 1].created_at > created_at
                    invariant
                        at <= listed.len(),
                        before == views(listed@),
                        slot_for(before, created_at) == slot_for(before.take(at as int), created_at),
                    decreases at,
                {
                    assert(before.take(at as int).drop_last() == before.take(at - 1));
                    at = at - 1;
                }
                assert(slot_for(before, created_at) == at) by {
                    if at > 0 {
                        assert(before.take(at as int).last() == before[at - 1]);
                    }
                }
                let room = self.rooms[i].clone();
                listed.insert(at, room);
                assert(views(listed@) =~= before.insert(at as int, room@));
            }
            i = i + 1;
        }
        proof {
            assert(self.rooms().take(i as int) == self.rooms());
            lemma_listing(self.rooms());
            assert forall|k: int| 0 <= k < listed.len() implies !(#[trigger] listed[k]).started by {
                assert(!views(listed@)[k].started);
            }
        }
        listed
    }

    /// Stores `room` in place of the room with its id, or behind all others.
    fn put(&mut self, room: LobbyRoom)
        requires
            room_ok(room@),
        ensures
            final(self).rooms() == with_room(old(self).rooms(), room@),
            final(self).capacity() == old(self).capacity(),
    {
        let at = self.locate(room.id.as_str());
        let ghost before = self.rooms();
        let ghost added = room@;
        let mut rooms: Vec<LobbyRoom> = Vec::new();
        core::mem::swap(&mut self.rooms, &mut rooms);
        match at {
            Some(i) => {
                rooms.set(i, room);
                assert(views(rooms@) =~= before.update(i as int, added));
            },
            None => {
                rooms.push(room);
                assert(views(rooms@) =~= before.push(added));
            },
        }
        proof {
            let after = views(rooms@);
            assert forall|i: int, j: int| 0 <= i < j < after.len() implies (
            #[trigger] after[i]).id != (#[trigger] after[j]).id by {
                if i < before.len() {
                    assert(after[i].id == before[i].id);
                }
                if j < before.len() {
                    assert(after[j].id == before[j].id);
                }
            }
            assert forall|i: int| 0 <= i < after.len() implies room_ok(#[trigger] after[i]) by {
                if i < before.len() && after[i] != added {
                    assert(after[i] == before[i]);
                }
            }
        }
        self.rooms = rooms;
    }

    /// Replaces the room at `at` by `room`, which has the same id.
    fn replace(&mut self, at: usize, room: LobbyRoom)
        requires
            at < old(self).rooms().len(),
            room@.id == old(self).rooms()[at as int].id,
            room_ok(room@),
        ensures
            final(self).rooms() == old(self).rooms().update(at as int, room@),
            final(self).capacity() == old(self).capacity(),
    {
        proof {
            use_type_invariant(&*self);
        }
        let ghost before = self.rooms();
        let ghost added = room@;
        let mut rooms: Vec<LobbyRoom> = Vec::new();
        core::mem::swap(&mut self.rooms, &mut rooms);
        rooms.set(at, room);
        proof {
            let after = views(rooms@);
            assert(after =~= before.update(at as int, added));
            assert forall|i: int, j: int| 0 <= i < j < after.len() implies (
            #[trigger] after[i]).id != (#[trigger] after[j]).id by {
                assert(after[i].id == before[i].id);
                assert(after[j].id == before[j].id);
            }
            assert forall|i: int| 0 <= i < after.len() implies room_ok(#[trigger] after[i]) by {
                if i != at {
                    assert(after[i] == before[i]);
                }
            }
        }
        self.rooms = rooms;
    }

    /// Takes the room at `at` out of the store.
    fn discard(&mut self, at: usize)
        requires
            at < old(self).rooms().len(),
        ensures
            final(self).rooms() == old(self).rooms().remove(at as int),
            final(self).capacity() == old(self).capacity(),
    {
        proof {
            use_type_invariant(&*self);
        }
        let ghost before = self.rooms();
        let mut rooms: Vec<LobbyRoom> = Vec::new();
        core::mem::swap(&mut self.rooms, &mut rooms);
        rooms.remove(at);
        proof {
            let after = views(rooms@);
            assert(after =~= before.remove(at as int));
            assert forall|i: int, j: int| 0 <= i < j < after.len() implies (
            #[trigger] after[i]).id != (#[trigger] after[j]).id by {
                let a = if i < at { i } else { i + 1 };
                let b = if j < at { j } else { j + 1 };
                assert(after[i] == before[a]);
                assert(after[j] == before[b]);
            }
            assert forall|i: int| 0 <= i < after.len() implies room_ok(#[trigger] after[i]) by {
                let a = if i < at { i } else { i + 1 };
                assert(after[i] == before[a]);
            }
        }
        self.rooms = rooms;
    }

    /// Opens a room at the time `now`, given in seconds since the Unix epoch.
    ///
    /// Refused where as many rooms are waiting as the store allows. The new
    /// room has its creator as its one player; its id counts the rooms of the
    /// store, so it may be the id of a room that was there before, whose
    /// place the new room then takes.
    pub fn create_room_at(&mut self, request: CreateRoomRequest, now: u64) -> (outcome: Result<
        LobbyRoom,
        LobbyError,
    >)
        ensures
            final(self).capacity() == old(self).capacity(),
            outcome matches Ok(opened) ==> {
                &&& 1 <= opened.max_players <= MAX_ROOM_PLAYERS
                &&& opened.current_players == 1
                &&& !opened.started
                &&& is_room_id(opened.id@)
            },
            match created(
                old(self).rooms(),
                old(self).capacity(),
                request.host_name@,
                request.game_mode@,
                request.max_players,
                now,
            ) {
                Some(room) => {
                    &&& outcome matches Ok(opened)
                    &&& opened@ == room
                    &&& final(self).rooms() == with_room(old(self).rooms(), room)
                },
                None => {
                    &&& outcome == Err::<LobbyRoom, LobbyError>(
                        LobbyError::CapacityExceeded { max_rooms: old(self).capacity() as usize },
                    )
                    &&& final(self).rooms() == old(self).rooms()
                },
            },
    {
        let active = self.count_active();
        if active >= self.max_rooms {
            return Err(LobbyError::CapacityExceeded { max_rooms: self.max_rooms });
        }
        let number: u128 = (self.rooms.len() as u128) + 1;
        let mut id = String::from_str("ROOM");
        proof {
            reveal_strlit("ROOM");
            assert("ROOM"@ =~= seq!['R', 'O', 'O', 'M']);
        }
        let digits = format_padded(number, 3);
        id.append(digits.as_str());
        let room = LobbyRoom {
            id,
            host_name: request.host_name,
            game_mode: request.game_mode,
            created_at: now,
            started: false,
            current_players: 1,
            max_players: clamp_players(request.max_players),
            session_info: None,
        };
        let opened = room.clone();
        assert(opened.id@.subrange(0, 4) =~= seq!['R', 'O', 'O', 'M']);
        self.put(room);
        Ok(opened)
    }

    /// Opens a room now. See [`LobbyStore::create_room_at`], which this calls
    /// with the time that the system clock shows.
    pub fn create_room(&mut self, request: CreateRoomRequest) -> (outcome: Result<
        LobbyRoom,
        LobbyError,
    >)
        ensures
            final(self).capacity() == old(self).capacity(),
            outcome is Ok <==> active_count(old(self).rooms()) < old(self).capacity(),
            match outcome {
                Ok(opened) => {
                    &&& 1 <= opened.max_players <= MAX_ROOM_PLAYERS
                    &&& opened.current_players == 1
                    &&& !opened.started
                    &&& is_room_id(opened.id@)
                    &&& created(
                        old(self).rooms(),
                        old(self).capacity(),
                        request.host_name@,
                        request.game_mode@,
                        request.max_players,
                        opened.created_at,
                    ) == Some(opened@)
                    &&& final(self).rooms() == with_room(old(self).rooms(), opened@)
                },
                Err(refusal) => {
                    &&& refusal == LobbyError::CapacityExceeded {
                        max_rooms: old(self).capacity() as usize,
                    }
                    &&& final(self).rooms() == old(self).rooms()
                },
            },
    {
        let now = now_secs();
        self.create_room_at(request, now)
    }

    /// Adds a player to the room `id`.
    ///
    /// Refused where the store has no such room, where its game has started,
    /// and where it is full; the store is then left as it was.
    pub fn join_room(&mut self, id: &str, request: &JoinRoomRequest) -> (outcome: Result<
        LobbyRoom,
        LobbyError,
    >)
        ensures
            final(self).capacity() == old(self).capacity(),
            match joined(old(self).rooms(), id@) {
                Ok(room) => {
                    &&& outcome matches Ok(entered)
                    &&& entered@ == room
                    &&& final(self).rooms() == old(self).rooms().update(
                        position_of(old(self).rooms(), id@),
                        room,
                    )
                },
                Err(refusal) => {
                    &&& outcome == Err::<LobbyRoom, LobbyError>(refusal)
                    &&& final(self).rooms() == old(self).rooms()
                },
            },
    {
        match self.locate(id) {
            None => Err(LobbyError::NotFound),
            Some(at) => {
                if self.rooms[at].started {
                    return Err(LobbyError::AlreadyStarted);
                }
                if self.rooms[at].current_players >= self.rooms[at].max_players {
                    return Err(LobbyError::Full);
                }
                let mut room = self.rooms[at].clone();
                room.current_players = room.current_players + 1;
                let entered = room.clone();
                self.replace(at, room);
                Ok(entered)
            },
        }
    }

    /// Takes a player out of the room `id`; an empty room whose game has not
    /// started leaves the store with its last player.
    ///
    /// Refused where the store has no such room.
    pub fn leave_room(&mut self, id: &str, request: &LeaveRoomRequest) -> (outcome: Result<
        (),
        LobbyError,
    >)
        ensures
            final(self).capacity() == old(self).capacity(),
            final(self).rooms() == after_leave(old(self).rooms(), id@),
            outcome == (if holds_id(old(self).rooms(), id@) {
                Ok::<(), LobbyError>(())
            } else {
                Err::<(), LobbyError>(LobbyError::NotFound)
            }),
    {
        match self.locate(id) {
            None => Err(LobbyError::NotFound),
            Some(at) => {
                let mut room = self.rooms[at].clone();
                if room.current_players > 0 {
                    room.current_players = room.current_players - 1;
                }
                if room.current_players == 0 && !room.started {
                    self.discard(at);
                } else {
                    self.replace(at, room);
                }
                Ok(())
            },
        }
    }

    /// Whether the room `id` can be started: the first step of a start.
    ///
    /// Refused where the store has no such room or its game has started.
    /// The store is not touched.
    pub fn check_startable(&self, id: &str) -> (outcome: Result<(), LobbyError>)
        ensures
            outcome == startable(self.rooms(), id@),
    {
        match self.locate(id) {
            None => Err(LobbyError::NotFound),
            Some(at) => if self.rooms[at].started {
                Err(LobbyError::AlreadyStarted)
            } else {
                Ok(())
            },
        }
    }

    /// Begins the start of the room `id`: where the room can be started,
    /// gives the deployment request to make on behalf of a client at
    /// `client_ip`. The store is not touched, and is free for others while
    /// the request is under way.
    pub fn begin_start(&self, id: &str, client_ip: &str) -> (outcome: Result<
        DeployRequest,
        LobbyError,
    >)
        ensures
            match startable(self.rooms(), id@) {
                Ok(_) => outcome matches Ok(request) && request@ == deploy_call_of(client_ip@, id@),
                Err(refusal) => outcome == Err::<DeployRequest, LobbyError>(refusal),
            },
    {
        match self.check_startable(id) {
            Ok(_) => Ok(deploy_call(client_ip, id)),
            Err(refusal) => Err(refusal),
        }
    }

    /// Records how the deployment for the room `id` ended: the last step of
    /// a start.
    ///
    /// After a deployment that succeeded the room is started and holds the
    /// session that the reply describes. After one that failed the room keeps
    /// waiting and holds the reason of the failure, and the error says what
    /// went wrong. Where the room has left the store meanwhile, nothing is
    /// recorded.
    pub fn finish_start(&mut self, id: &str, result: &DeployOutcome) -> (outcome: Result<
        LobbyRoom,
        LobbyError,
    >)
        ensures
            final(self).capacity() == old(self).capacity(),
            final(self).rooms() == after_deployment(old(self).rooms(), id@, *result),
            match outcome {
                Ok(room) => {
                    &&& holds_id(old(self).rooms(), id@)
                    &&& deploy_fault(*result) is None
                    &&& room@ == final(self).rooms()[position_of(old(self).rooms(), id@)]
                },
                Err(LobbyError::NotFound) => !holds_id(old(self).rooms(), id@),
                Err(LobbyError::Deployment(error)) => {
                    &&& holds_id(old(self).rooms(), id@)
                    &&& deploy_fault(*result) == Some(fault_of(error))
                },
                Err(_) => false,
            },
    {
        match self.locate(id) {
            None => Err(LobbyError::NotFound),
            Some(at) => {
                let mut room = self.rooms[at].clone();
                let (error, info) = interpret_outcome(result);
                room.session_info = Some(info);
                match error {
                    Some(error) => {
                        self.replace(at, room);
                        Err(LobbyError::Deployment(error))
                    },
                    None => {
                        room.started = true;
                        let started = room.clone();
                        self.replace(at, room);
                        Ok(started)
                    },
                }
            },
        }
    }

    /// How full the lobby is.
    pub fn lobby_status(&self) -> (status: LobbyStatus)
        ensures
            status.max_rooms == self.capacity(),
            status.active_rooms == active_count(self.rooms()),
            status.total_rooms == self.rooms().len(),
    {
        LobbyStatus {
            max_rooms: self.max_rooms,
            active_rooms: self.count_active(),
            total_rooms: self.rooms.len(),
        }
    }
}

} // verus!
