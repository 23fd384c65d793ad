//! What holds of every lobby, proved over the model of `lobby`: the rooms
//! as a sequence with distinct ids, and the functions that say what each
//! operation does to them.

use vstd::prelude::*;
use crate::deployment::{deploy_fault, DeployOutcome};
use crate::lobby::{
    active_count, after_deployment, after_leave, created, deployed_room, holds_id, is_room_id,
    joined, lemma_listing, lemma_position_of, listing, player_limit, position_of, room_label,
    room_ok, rooms_ok, startable, with_room, LobbyError, RoomView, MAX_ROOM_PLAYERS,
};
use crate::text::{lemma_zero_padded_round_trip, zero_padded};

verus! {

// ---------------------------------------------------------------------------
// Creating rooms
// ---------------------------------------------------------------------------

/// A new room takes between one and sixteen players, has its creator as
/// its one player, waits for its game to start, and has an id that begins
/// with `ROOM`.
pub proof fn lemma_created_room(
    rooms: Seq<RoomView>,
    max_rooms: nat,
    host_name: Seq<char>,
    game_mode: Seq<char>,
    requested: Option<u32>,
    now: u64,
)
    ensures
        match created(rooms, max_rooms, host_name, game_mode, requested, now) {
            Some(room) => {
                &&& 1 <= room.max_players <= MAX_ROOM_PLAYERS
                &&& room.current_players == 1
                &&& !room.started
                &&& is_room_id(room.id)
                &&& room.session_info is None
                &&& room_ok(room)
            },
            None => active_count(rooms) >= max_rooms,
        },
{
    let label = room_label(rooms.len() + 1);
    assert(label.subrange(0, 4) =~= seq!['R', 'O', 'O', 'M']);
}

/// Rooms with different numbers have different ids.
pub proof fn lemma_room_labels_differ(a: nat, b: nat)
    requires
        a != b,
    ensures
        room_label(a) != room_label(b),
{
    lemma_zero_padded_round_trip(a, 3);
    lemma_zero_padded_round_trip(b, 3);
    assert(room_label(a).subrange(4, room_label(a).len() as int) =~= zero_padded(a, 3));
    assert(room_label(b).subrange(4, room_label(b).len() as int) =~= zero_padded(b, 3));
}

/// What a client asks for when it opens a room, and when it does so.
pub struct Creation {
    pub host_name: Seq<char>,
    pub game_mode: Seq<char>,
    pub requested: Option<u32>,
    pub now: u64,
}

/// The rooms after one creation, refused or not.
pub open spec fn after_creation(rooms: Seq<RoomView>, max_rooms: nat, creation: Creation) -> Seq<
    RoomView,
> {
    match created(
        rooms,
        max_rooms,
        creation.host_name,
        creation.game_mode,
        creation.requested,
        creation.now,
    ) {
        Some(room) => with_room(rooms, room),
        None => rooms,
    }
}

/// The rooms of a lobby that began empty, after a run of creations.
pub open spec fn after_creations(max_rooms: nat, creations: Seq<Creation>) -> Seq<RoomView>
    decreases creations.len(),
{
    if creations.len() == 0 {
        Seq::empty()
    } else {
        after_creation(
            after_creations(max_rooms, creations.drop_last()),
            max_rooms,
            creations.last(),
        )
    }
}

/// Rooms that all wait are all counted.
proof fn lemma_all_waiting(rooms: Seq<RoomView>)
    requires
        forall|i: int| 0 <= i < rooms.len() ==> !(#[trigger] rooms[i]).started,
    ensures
        active_count(rooms) == rooms.len(),
    decreases rooms.len(),
{
    if rooms.len() > 0 {
        let front = rooms.drop_last();
        assert forall|i: int| 0 <= i < front.len() implies !(#[trigger] front[i]).started by {
            assert(front[i] == rooms[i]);
        }
        lemma_all_waiting(front);
    }
}

/// What a lobby that began empty holds after a run of creations: one room
/// for each creation up to the capacity, numbered in order, all waiting.
proof fn lemma_after_creations(max_rooms: nat, creations: Seq<Creation>)
    ensures
        ({
            let rooms = after_creations(max_rooms, creations);
            &&& rooms.len() == if creations.len() <= max_rooms {
                creations.len()
            } else {
                max_rooms
            }
            &&& forall|i: int|
                0 <= i < rooms.len() ==> (#[trigger] rooms[i]).id == room_label((i + 1) as nat)
                    && !rooms[i].started
            &&& active_count(rooms) == rooms.len()
        }),
    decreases creations.len(),
{
    let rooms = after_creations(max_rooms, creations);
    if creations.len() == 0 {
        lemma_all_waiting(rooms);
    } else {
        let before = after_creations(max_rooms, creations.drop_last());
        lemma_after_creations(max_rooms, creations.drop_last());
        let creation = creations.last();
        if active_count(before) < max_rooms {
            let room = created(
                before,
                max_rooms,
                creation.host_name,
                creation.game_mode,
                creation.requested,
                creation.now,
            ).unwrap();
            assert(!holds_id(before, room.id)) by {
                assert forall|i: int| 0 <= i < before.len() implies (#[trigger] before[i]).id
                    != room.id by {
                    lemma_room_labels_differ((i + 1) as nat, before.len() + 1);
                }
            }
            assert(rooms == before.push(room));
            assert forall|i: int| 0 <= i < rooms.len() implies (#[trigger] rooms[i]).id
                == room_label((i + 1) as nat) && !rooms[i].started by {
                if i < before.len() {
                    assert(rooms[i] == before[i]);
                }
            }
        } else {
            assert(rooms == before);
        }
        lemma_all_waiting(rooms);
    }
}

/// In a lobby that began empty, creations succeed until as many rooms wait
/// as the lobby allows: the creation after `n` others succeeds where `n` is
/// below the capacity, and is refused, with the rooms left as they were,
/// where it is not.
pub proof fn lemma_creations_fill_lobby(max_rooms: nat, earlier: Seq<Creation>, next: Creation)
    ensures
        ({
            let rooms = after_creations(max_rooms, earlier);
            let outcome = created(
                rooms,
                max_rooms,
                next.host_name,
                next.game_mode,
                next.requested,
                next.now,
            );
            &&& outcome is Some <==> earlier.len() < max_rooms
            &&& outcome is None ==> after_creation(rooms, max_rooms, next) == rooms
            &&& outcome is Some ==> after_creation(rooms, max_rooms, next).len() == rooms.len() + 1
        }),
{
    lemma_after_creations(max_rooms, earlier);
    let all = earlier.push(next);
    assert(all.drop_last() == earlier);
    lemma_after_creations(max_rooms, all);
}

// ---------------------------------------------------------------------------
// Joining and leaving
// ---------------------------------------------------------------------------

/// A full room takes no more players: the join is refused as `Full`. (The
/// store is then left as it was: see `LobbyStore::join_room`.)
pub proof fn lemma_full_room_refuses(rooms: Seq<RoomView>, id: Seq<char>)
    requires
        holds_id(rooms, id),
        !rooms[position_of(rooms, id)].started,
        rooms[position_of(rooms, id)].current_players == rooms[position_of(
            rooms,
            id,
        )].max_players,
    ensures
        joined(rooms, id) == Err::<RoomView, LobbyError>(LobbyError::Full),
{
}

/// When the last player leaves a room whose game has not started, the room
/// is gone: no room has its id any more, and no listing shows it.
pub proof fn lemma_last_player_leaves(rooms: Seq<RoomView>, id: Seq<char>)
    requires
        rooms_ok(rooms),
        holds_id(rooms, id),
        rooms[position_of(rooms, id)].current_players <= 1,
        !rooms[position_of(rooms, id)].started,
    ensures
        !holds_id(after_leave(rooms, id), id),
        forall|i: int|
            0 <= i < listing(after_leave(rooms, id)).len() ==> (#[trigger] listing(
                after_leave(rooms, id),
            )[i]).id != id,
{
    let at = position_of(rooms, id);
    let after = after_leave(rooms, id);
    assert(after == rooms.remove(at));
    assert forall|k: int| 0 <= k < after.len() implies (#[trigger] after[k]).id != id by {
        let from = if k < at {
            k
        } else {
            k + 1
        };
        assert(after[k] == rooms[from]);
        if from < at {
            assert(rooms[from].id != rooms[at].id);
        } else {
            assert(rooms[at].id != rooms[from].id);
        }
    }
    lemma_listing(after);
    let listed = listing(after);
    assert forall|i: int| 0 <= i < listed.len() implies (#[trigger] listed[i]).id != id by {
        assert(listed.contains(listed[i]));
        assert(after.contains(listed[i]));
        let k = choose|k: int| 0 <= k < after.len() && after[k] == listed[i];
        assert(after[k].id != id);
    }
}

// ---------------------------------------------------------------------------
// Starting
// ---------------------------------------------------------------------------

/// A start is refused as `NotFound` where no room has the id, and as
/// `AlreadyStarted` where the room's game has started. An outcome that is
/// recorded for a room that is gone changes no room.
pub proof fn lemma_start_refusals(rooms: Seq<RoomView>, id: Seq<char>, result: DeployOutcome)
    ensures
        !holds_id(rooms, id) ==> startable(rooms, id) == Err::<(), LobbyError>(
            LobbyError::NotFound,
        ) && after_deployment(rooms, id, result) == rooms,
        holds_id(rooms, id) && rooms[position_of(rooms, id)].started ==> startable(rooms, id)
            == Err::<(), LobbyError>(LobbyError::AlreadyStarted),
        startable(rooms, id) is Ok <==> holds_id(rooms, id) && !rooms[position_of(
            rooms,
            id,
        )].started,
{
}

/// A deployment that failed leaves the room waiting, with the failure on
/// record; one that succeeded starts it.
pub proof fn lemma_deployment_starts_room(room: RoomView, result: DeployOutcome)
    ensures
        deployed_room(room, result).session_info is Some,
        deploy_fault(result) is Some ==> deployed_room(room, result).started == room.started,
        deploy_fault(result) is None ==> deployed_room(room, result).started,
        deployed_room(room, result).id == room.id,
        deployed_room(room, result).current_players == room.current_players,
        deployed_room(room, result).max_players == room.max_players,
{
}

// ---------------------------------------------------------------------------
// What every operation keeps
// ---------------------------------------------------------------------------

/// A sequence that differs from rooms with distinct ids in one place, by a
/// room of the same id, has distinct ids too.
proof fn lemma_update_keeps_ids(rooms: Seq<RoomView>, at: int, room: RoomView)
    requires
        rooms_ok(rooms),
        0 <= at < rooms.len(),
        room.id == rooms[at].id,
        room_ok(room),
    ensures
        rooms_ok(rooms.update(at, room)),
{
    let after = rooms.update(at, room);
    assert forall|i: int, j: int| 0 <= i < j < after.len() implies (#[trigger] after[i]).id != (
    #[trigger] after[j]).id by {
        assert(after[i].id == rooms[i].id);
        assert(after[j].id == rooms[j].id);
    }
    assert forall|i: int| 0 <= i < after.len() implies room_ok(#[trigger] after[i]) by {
        if i != at {
            assert(after[i] == rooms[i]);
        }
    }
}

/// Every operation keeps the ids of the rooms distinct and the player
/// counts of each room in range: no room has more players than it takes.
pub proof fn lemma_operations_keep_rooms_ok(
    rooms: Seq<RoomView>,
    max_rooms: nat,
    creation: Creation,
    id: Seq<char>,
    result: DeployOutcome,
)
    requires
        rooms_ok(rooms),
    ensures
        rooms_ok(after_creation(rooms, max_rooms, creation)),
        joined(rooms, id) matches Ok(room) ==> rooms_ok(
            rooms.update(position_of(rooms, id), room),
        ),
        rooms_ok(after_leave(rooms, id)),
        rooms_ok(after_deployment(rooms, id, result)),
{
    // Creation.
    match created(
        rooms,
        max_rooms,
        creation.host_name,
        creation.game_mode,
        creation.requested,
        creation.now,
    ) {
        Some(room) => {
            lemma_created_room(
                rooms,
                max_rooms,
                creation.host_name,
                creation.game_mode,
                creation.requested,
                creation.now,
            );
            if holds_id(rooms, room.id) {
                lemma_update_keeps_ids(rooms, position_of(rooms, room.id), room);
            } else {
                let after = rooms.push(room);
                assert forall|i: int, j: int| 0 <= i < j < after.len() implies (
                #[trigger] after[i]).id != (#[trigger] after[j]).id by {
                    assert(after[i] == rooms[i]);
                    if j < rooms.len() {
                        assert(after[j] == rooms[j]);
                    }
                }
                assert forall|i: int| 0 <= i < after.len() implies room_ok(#[trigger] after[i]) by {
                    if i < rooms.len() {
                        assert(after[i] == rooms[i]);
                    }
                }
            }
        },
        None => {},
    }
    if holds_id(rooms, id) {
        let at = position_of(rooms, id);
        let room = rooms[at];
        // Joining.
        match joined(rooms, id) {
            Ok(entered) => {
                lemma_update_keeps_ids(rooms, at, entered);
            },
            Err(_) => {},
        }
        // Leaving.
        let left: u32 = if room.current_players > 0 {
            (room.current_players - 1) as u32
        } else {
            0
        };
        if left == 0 && !room.started {
            let after = rooms.remove(at);
            assert forall|i: int, j: int| 0 <= i < j < after.len() implies (
            #[trigger] after[i]).id != (#[trigger] after[j]).id by {
                let a = if i < at {
                    i
                } else {
                    i + 1
                };
                let b = if j < at {
                    j
                } else {
                    j + 1
                };
                assert(after[i] == rooms[a]);
                assert(after[j] == rooms[b]);
            }
            assert forall|i: int| 0 <= i < after.len() implies room_ok(#[trigger] after[i]) by {
                let a = if i < at {
                    i
                } else {
                    i + 1
                };
                assert(after[i] == rooms[a]);
            }
        } else {
            lemma_update_keeps_ids(rooms, at, RoomView { current_players: left, ..room });
        }
        // Recording a deployment.
        lemma_update_keeps_ids(rooms, at, deployed_room(room, result));
    }
}

/// A room whose game has started stays in the store, and stays started,
/// whoever joins or leaves and whatever deployment is recorded.
pub proof fn lemma_started_rooms_stay(
    rooms: Seq<RoomView>,
    started: int,
    id: Seq<char>,
    result: DeployOutcome,
)
    requires
        rooms_ok(rooms),
        0 <= started < rooms.len(),
        rooms[started].started,
    ensures
        joined(rooms, id) matches Ok(room) ==> rooms.update(
            position_of(rooms, id),
            room,
        )[started].started,
        holds_id(after_leave(rooms, id), rooms[started].id),
        after_leave(rooms, id)[position_of(after_leave(rooms, id), rooms[started].id)].started,
        after_deployment(rooms, id, result)[started].started,
        after_deployment(rooms, id, result)[started].id == rooms[started].id,
{
    let kept = rooms[started];
    lemma_operations_keep_rooms_ok(
        rooms,
        0,
        Creation {
            host_name: Seq::empty(),
            game_mode: Seq::empty(),
            requested: None,
            now: 0,
        },
        id,
        result,
    );
    let after = after_leave(rooms, id);
    if holds_id(rooms, id) {
        let at = position_of(rooms, id);
        let room = rooms[at];
        let left: u32 = if room.current_players > 0 {
            (room.current_players - 1) as u32
        } else {
            0
        };
        if left == 0 && !room.started {
            assert(at != started);
            let to = if started < at {
                started
            } else {
                started - 1
            };
            assert(after[to] == kept);
            lemma_position_of(after, to);
        } else {
            assert(after[started].id == kept.id);
            assert(after[started].started);
            lemma_position_of(after, started);
        }
    } else {
        lemma_position_of(after, started);
    }
}

/// The limit of a new room is the requested one where that lies between
/// one and sixteen.
pub proof fn lemma_player_limit(requested: Option<u32>)
    ensures
        1 <= player_limit(requested) <= MAX_ROOM_PLAYERS,
        requested is None ==> player_limit(requested) == 4,
        requested matches Some(n) ==> (1 <= n <= MAX_ROOM_PLAYERS ==> player_limit(requested)
            == n),
{
}

} // verus!
