//! What holds of the hub whatever its clients do: theorems about the
//! registry as a value, proved from the definitions that the operations'
//! contracts are stated in.
use vstd::prelude::*;
use crate::api::chat::client::{
    command, is_exit_signal, ClientView, CommandView, ReceivedView, RelayView,
};
use crate::api::chat::engine::{EngineView, Outcome};
use crate::api::chat::event::{
    all_read_back, id_json, id_texts_of, room_exit_json, room_removal_json, EffectView, Topic,
};
use crate::api::chat::room::{RoomCommandView, RoomView};
use crate::ident::{id_text, reads_back};
use crate::ids::lists;
use crate::json::{member, text_of, Json};

verus! {

/// The announcement that the directory gets when a room is removed.
pub open spec fn removal_of(room_id: u128) -> EffectView {
    EffectView::Publish { topic: Topic::Rooms, value: room_removal_json(room_id) }
}

/// Whether a client leaving a room leaves it without members.
pub open spec fn empties(engine: EngineView, room_id: u128, client_id: u128) -> bool {
    engine.has_room(room_id) && engine.room(room_id).clients.remove(client_id).is_empty()
}

/// Whether a client is no member of a room, as far as the room is
/// registered.
pub open spec fn lacks(engine: EngineView, room_id: u128, client_id: u128) -> bool {
    engine.has_room(room_id) ==> !engine.room(room_id).clients.contains(client_id)
}

/// Whether every room of `after` was a room of `before`, and has members
/// if it had any before.
pub open spec fn kept(before: EngineView, after: EngineView) -> bool {
    forall|room_id: u128| #[trigger]
        after.has_room(room_id) ==> before.has_room(room_id) && (!before.room(
            room_id,
        ).clients.is_empty() ==> !after.room(room_id).clients.is_empty())
}

/// Whether no room that had members is registered without any.
pub open spec fn never_emptied(before: EngineView, after: EngineView) -> bool {
    forall|room_id: u128|
        before.has_room(room_id) && !before.room(room_id).clients.is_empty() && (
        #[trigger] after.has_room(room_id)) ==> !after.room(room_id).clients.is_empty()
}

/// Whether the directory is told of every room of `before` that `after`
/// lacks.
pub open spec fn announced(before: EngineView, after: Outcome) -> bool {
    forall|room_id: u128|
        before.has_room(room_id) && !(#[trigger] after.engine.has_room(room_id))
            ==> after.effects.contains(removal_of(room_id))
}

/// Whether every client is a member of each room that it lists, and each
/// such room is registered.
pub open spec fn linked(engine: EngineView) -> bool {
    forall|client_id: u128, room_id: u128|
        engine.has_client(client_id) && (#[trigger] engine.client(client_id).rooms.contains(
            room_id,
        )) ==> engine.has_room(room_id) && engine.room(room_id).clients.contains(client_id)
}

/// Whether the registry is well formed and its clients are linked to their
/// rooms.
pub open spec fn sound(engine: EngineView) -> bool {
    engine.wf() && linked(engine)
}

/// A client leaving one room changes no other room, and no client but
/// itself.
pub proof fn lemma_left_keeps_others(
    engine: EngineView,
    room_id: u128,
    client_id: u128,
    other: u128,
)
    ensures
        engine.left(room_id, client_id).engine.client_ids() == engine.client_ids(),
        other != room_id ==> engine.left(room_id, client_id).engine.has_room(other)
            == engine.has_room(other) && engine.left(room_id, client_id).engine.room(other)
            == engine.room(other),
        other != client_id && engine.has_client(other) ==> engine.left(
            room_id,
            client_id,
        ).engine.client(other) == engine.client(other),
{
    assert(engine.left(room_id, client_id).engine.client_ids() =~= engine.client_ids());
}

/// A client leaving a room keeps the registry well formed.
pub proof fn lemma_left_wf(engine: EngineView, room_id: u128, client_id: u128)
    requires
        engine.wf(),
    ensures
        engine.left(room_id, client_id).engine.wf(),
{
}

/// A room that a client leaves is either removed, or it is still registered
/// with at least one member, of which the client is none. It is removed
/// exactly when the client was its last member, and the directory is then
/// told so.
pub proof fn lemma_left_room(engine: EngineView, room_id: u128, client_id: u128)
    requires
        engine.has_room(room_id),
    ensures
        empties(engine, room_id, client_id) ==> {
            &&& !engine.left(room_id, client_id).engine.has_room(room_id)
            &&& engine.left(room_id, client_id).effects.contains(removal_of(room_id))
        },
        !empties(engine, room_id, client_id) ==> {
            &&& engine.left(room_id, client_id).engine.has_room(room_id)
            &&& engine.left(room_id, client_id).engine.room(room_id) == engine.room(
                room_id,
            ).without_client(client_id)
            &&& !engine.left(room_id, client_id).engine.room(room_id).clients.is_empty()
            &&& !engine.left(room_id, client_id).engine.room(room_id).clients.contains(client_id)
            &&& !engine.left(room_id, client_id).effects.contains(removal_of(room_id))
        },
        engine.has_client(client_id) ==> !engine.left(room_id, client_id).engine.client(
            client_id,
        ).rooms.contains(room_id),
{
    let after = engine.left(room_id, client_id);
    if empties(engine, room_id, client_id) {
        assert(after.effects[0] == removal_of(room_id));
    }
}

/// After a client has left a room it is no member of it, and it has become
/// a member of no other.
pub proof fn lemma_left_clears(engine: EngineView, left: u128, client_id: u128, room_id: u128)
    requires
        room_id == left || lacks(engine, room_id, client_id),
    ensures
        lacks(engine.left(left, client_id).engine, room_id, client_id),
{
}

/// When a client leaves a room, no room with members is left without, and
/// the directory is told of the room if it is removed.
pub proof fn lemma_left_kept(engine: EngineView, room_id: u128, client_id: u128)
    ensures
        kept(engine, engine.left(room_id, client_id).engine),
        announced(engine, engine.left(room_id, client_id)),
{
    let after = engine.left(room_id, client_id);
    assert forall|other: u128|
        engine.has_room(other) && !(#[trigger] after.engine.has_room(
            other,
        )) implies after.effects.contains(removal_of(other)) by {
        assert(other == room_id);
        lemma_left_room(engine, room_id, client_id);
    }
}

/// A client leaving the rooms of a list keeps the registry well formed and
/// its clients registered.
pub proof fn lemma_left_all_wf(engine: EngineView, rooms: Seq<u128>, client_id: u128)
    ensures
        engine.wf() ==> engine.left_all(rooms, client_id).engine.wf(),
        engine.left_all(rooms, client_id).engine.client_ids() == engine.client_ids(),
    decreases rooms.len(),
{
    if rooms.len() > 0 {
        let first = engine.left(rooms[0], client_id);
        lemma_left_keeps_others(engine, rooms[0], client_id, 0);
        lemma_left_all_wf(first.engine, rooms.drop_first(), client_id);
    }
}

/// After a client has left the rooms of a list it is a member of none of
/// them, and it has become a member of no other.
pub proof fn lemma_left_all_clears(
    engine: EngineView,
    rooms: Seq<u128>,
    client_id: u128,
    room_id: u128,
)
    requires
        rooms.contains(room_id) || lacks(engine, room_id, client_id),
    ensures
        lacks(engine.left_all(rooms, client_id).engine, room_id, client_id),
    decreases rooms.len(),
{
    if rooms.len() > 0 {
        let first = engine.left(rooms[0], client_id);
        let rest = rooms.drop_first();
        if room_id == rooms[0] || lacks(engine, room_id, client_id) {
            lemma_left_clears(engine, rooms[0], client_id, room_id);
        } else {
            let i = choose|i: int| 0 <= i < rooms.len() && rooms[i] == room_id;
            assert(rest[i - 1] == room_id);
        }
        lemma_left_all_clears(first.engine, rest, client_id, room_id);
    }
}

/// When a client leaves the rooms of a list, no room with members is left
/// without, and the directory is told of every room that is removed.
pub proof fn lemma_left_all_kept(engine: EngineView, rooms: Seq<u128>, client_id: u128)
    ensures
        kept(engine, engine.left_all(rooms, client_id).engine),
        announced(engine, engine.left_all(rooms, client_id)),
    decreases rooms.len(),
{
    let after = engine.left_all(rooms, client_id);
    if rooms.len() > 0 {
        let first = engine.left(rooms[0], client_id);
        let rest = first.engine.left_all(rooms.drop_first(), client_id);
        lemma_left_kept(engine, rooms[0], client_id);
        lemma_left_all_kept(first.engine, rooms.drop_first(), client_id);
        assert forall|other: u128| #[trigger] after.engine.has_room(other) implies engine.has_room(
            other,
        ) && (!engine.room(other).clients.is_empty() ==> !after.engine.room(
            other,
        ).clients.is_empty()) by {
            assert(rest.engine.has_room(other));
            assert(first.engine.has_room(other));
        }
        assert forall|other: u128|
            engine.has_room(other) && !(#[trigger] after.engine.has_room(
                other,
            )) implies after.effects.contains(removal_of(other)) by {
            if first.engine.has_room(other) {
                assert(!rest.engine.has_room(other));
                let i = choose|i: int|
                    0 <= i < rest.effects.len() && rest.effects[i] == removal_of(other);
                assert(after.effects[first.effects.len() + i] == removal_of(other));
            } else {
                let i = choose|i: int|
                    0 <= i < first.effects.len() && first.effects[i] == removal_of(other);
                assert(after.effects[i] == removal_of(other));
            }
        }
    }
}

/// Removing a client cascades, in whatever order it leaves its rooms. The
/// client is no longer registered. It is a member of none of the rooms
/// that it had joined. No room that had members is left registered without
/// any: a room that the client was the last member of is removed, and the
/// directory is told of every room that is removed.
pub proof fn lemma_client_removed(engine: EngineView, client_id: u128, order: Seq<u128>)
    requires
        engine.has_client(client_id),
        lists(order, engine.client(client_id).rooms),
    ensures
        !engine.client_removed(client_id, order).engine.has_client(client_id),
        forall|room_id: u128| #[trigger]
            engine.client(client_id).rooms.contains(room_id) ==> lacks(
                engine.client_removed(client_id, order).engine,
                room_id,
                client_id,
            ),
        kept(engine, engine.client_removed(client_id, order).engine),
        announced(engine, engine.client_removed(client_id, order)),
{
    let start = engine.without_client(client_id);
    lemma_left_all_wf(start, order, client_id);
    lemma_left_all_kept(start, order, client_id);
    assert forall|room_id: u128| #[trigger]
        engine.client(client_id).rooms.contains(room_id) implies lacks(
        engine.client_removed(client_id, order).engine,
        room_id,
        client_id,
    ) by {
        assert(order.to_set().contains(room_id));
        lemma_left_all_clears(start, order, client_id, room_id);
    }
    assert forall|other: u128|
        engine.has_room(other) && !(#[trigger] engine.client_removed(
            client_id,
            order,
        ).engine.has_room(other)) implies engine.client_removed(client_id, order).effects.contains(
        removal_of(other),
    ) by {
        assert(start.has_room(other));
    }
}

/// Taking a client or a room out of the registry keeps the registry well
/// formed and leaves none with that identifier.
pub proof fn lemma_taken_out(engine: EngineView, id: u128)
    requires
        engine.wf(),
    ensures
        engine.without_client(id).wf(),
        engine.without_room(id).wf(),
        !engine.without_client(id).has_client(id),
        !engine.without_room(id).has_room(id),
{
}

/// Removing is idempotent: what was removed can be removed again, and then
/// nothing changes and nothing is asked for.
pub proof fn lemma_removed_twice(
    engine: EngineView,
    client_id: u128,
    room_id: u128,
    order: Seq<u128>,
    again: Seq<u128>,
)
    ensures
        engine.client_removed(client_id, order).engine.client_removed(client_id, again)
            == (Outcome {
            engine: engine.client_removed(client_id, order).engine,
            effects: Seq::empty(),
        }),
        engine.room_removed(room_id).engine.room_removed(room_id) == (Outcome {
            engine: engine.room_removed(room_id).engine,
            effects: Seq::empty(),
        }),
        !engine.has_client(client_id) ==> engine.client_removed(client_id, order) == (Outcome {
            engine,
            effects: Seq::empty(),
        }),
        !engine.has_room(room_id) ==> engine.room_removed(room_id) == (Outcome {
            engine,
            effects: Seq::empty(),
        }),
{
    if engine.has_client(client_id) {
        lemma_left_all_wf(engine.without_client(client_id), order, client_id);
    }
}

/// A join that finds both the client and the room succeeds: afterwards the
/// room lists the client and the client lists the room. No room and no
/// client comes or goes, and the registry stays well formed.
pub proof fn lemma_joined(engine: EngineView, client_id: u128, room_id: u128)
    requires
        engine.has_client(client_id),
        engine.has_room(room_id),
    ensures
        engine.joined(client_id, room_id).engine.has_room(room_id),
        engine.joined(client_id, room_id).engine.has_client(client_id),
        engine.joined(client_id, room_id).engine.room(room_id).clients.contains(client_id),
        engine.joined(client_id, room_id).engine.client(client_id).rooms.contains(room_id),
        engine.joined(client_id, room_id).engine.room_ids() == engine.room_ids(),
        engine.joined(client_id, room_id).engine.client_ids() == engine.client_ids(),
        engine.wf() ==> engine.joined(client_id, room_id).engine.wf(),
{
    let after = engine.joined(client_id, room_id).engine;
    assert(after.room_ids() =~= engine.room_ids());
    assert(after.client_ids() =~= engine.client_ids());
}

/// A join that does not find the client or the room does nothing.
pub proof fn lemma_join_refused(engine: EngineView, client_id: u128, room_id: u128)
    requires
        !engine.has_client(client_id) || !engine.has_room(room_id),
    ensures
        engine.joined(client_id, room_id) == (Outcome { engine, effects: Seq::empty() }),
{
}

/// Subscribing to the directory replays nothing: it hands the client no
/// event and publishes none. All it may ask for is a task that forwards
/// what is published from now on, and it asks for that only where the
/// client has none.
pub proof fn lemma_subscribed(engine: EngineView, client_id: u128)
    ensures
        forall|i: int|
            0 <= i < engine.subscribed(client_id).effects.len() ==> #[trigger] engine.subscribed(
                client_id,
            ).effects[i] == (EffectView::Forward { client_id, topic: Topic::Rooms }),
        engine.subscribed(client_id).effects.len() == if engine.has_client(client_id)
            && !engine.client(client_id).forwarding {
            1nat
        } else {
            0nat
        },
        engine.subscribed(client_id).engine.subscribed(client_id).effects.len() == 0,
        engine.subscribed(client_id).engine.rooms == engine.rooms,
{
}

/// After a client has unsubscribed, the task that forwards the directory
/// hands it nothing of what is published, whatever that is. Nothing else
/// has changed: the rooms, the memberships and the registered clients are
/// as they were. Unsubscribing without a subscription changes nothing at
/// all.
pub proof fn lemma_unsubscribed(engine: EngineView, client_id: u128, received: ReceivedView)
    ensures
        engine.unsubscribed(client_id).rooms_relayed(client_id, received) == RelayView::stop(),
        engine.unsubscribed(client_id).rooms == engine.rooms,
        engine.unsubscribed(client_id).client_ids() == engine.client_ids(),
        engine.has_client(client_id) ==> engine.unsubscribed(client_id).client(client_id).rooms
            == engine.client(client_id).rooms,
        !engine.has_client(client_id) || !engine.client(client_id).subscribed
            ==> engine.unsubscribed(client_id) == engine,
{
    let after = engine.unsubscribed(client_id);
    assert(after.client_ids() =~= engine.client_ids());
    if engine.has_client(client_id) && !engine.client(client_id).subscribed {
        assert(after.clients =~= engine.clients);
    }
}

/// What a task forwards to a client is what it got, unchanged; so values
/// reach the client in the order in which the task got them.
pub proof fn lemma_relayed_unchanged(
    engine: EngineView,
    client_id: u128,
    room_id: u128,
    received: ReceivedView,
)
    ensures
        engine.room_relayed(client_id, room_id, received).deliver matches Some(value)
            ==> received == ReceivedView::Value(value),
        engine.rooms_relayed(client_id, received).deliver matches Some(value) ==> received
            == ReceivedView::Value(value),
        !(received is Value) ==> engine.room_relayed(client_id, room_id, received)
            == RelayView::stop(),
        !(received is Value) ==> engine.rooms_relayed(client_id, received) == RelayView::stop(),
{
}

/// Nothing of a room leaks to a client that is outside it: once the room
/// does not list the client, or the client is not registered, the task that
/// forwards the room to the client hands it nothing more and ends.
pub proof fn lemma_relay_ends_outside(
    engine: EngineView,
    client_id: u128,
    room_id: u128,
    received: ReceivedView,
)
    requires
        engine.has_room(room_id),
        !engine.room(room_id).clients.contains(client_id) || !engine.has_client(client_id),
    ensures
        engine.room_relayed(client_id, room_id, received) == RelayView::stop(),
{
}

/// Once a client has unsubscribed or has been removed, the task that
/// forwards the directory hands it nothing more: on what it gets next it
/// ends, and the client is then free to get another task.
pub proof fn lemma_rooms_relay_ends(engine: EngineView, client_id: u128, received: ReceivedView)
    requires
        !engine.has_client(client_id) || !engine.client(client_id).subscribed,
    ensures
        engine.rooms_relayed(client_id, received) == RelayView::stop(),
        engine.has_client(client_id) ==> !engine.rooms_relay_noted(
            client_id,
            engine.rooms_relayed(client_id, received),
        ).client(client_id).forwarding,
{
}

/// What the task that forwards a room hands to a client of a list of
/// values that it gets one after the other, while the registry stays as it
/// is.
pub open spec fn room_relayed_all(
    engine: EngineView,
    client_id: u128,
    room_id: u128,
    values: Seq<Json>,
) -> Seq<Json>
    decreases values.len(),
{
    if values.len() == 0 {
        Seq::empty()
    } else {
        let step = engine.room_relayed(client_id, room_id, ReceivedView::Value(values[0]));
        let head = match step.deliver {
            Some(value) => seq![value],
            None => Seq::empty(),
        };
        if step.proceed {
            head + room_relayed_all(engine, client_id, room_id, values.drop_first())
        } else {
            head
        }
    }
}

/// While the room is not registered, the task that forwards it hands the
/// client nothing.
pub proof fn lemma_silent_without_room(
    engine: EngineView,
    client_id: u128,
    room_id: u128,
    values: Seq<Json>,
)
    requires
        !engine.has_room(room_id),
    ensures
        room_relayed_all(engine, client_id, room_id, values).len() == 0,
    decreases values.len(),
{
    if values.len() > 0 {
        lemma_silent_without_room(engine, client_id, room_id, values.drop_first());
    }
}

/// Broadcasts keep their order: of the values published to a room one
/// after the other, a client is handed the first ones, in that order, up to
/// where its task ends.
pub proof fn lemma_relayed_in_order(
    engine: EngineView,
    client_id: u128,
    room_id: u128,
    values: Seq<Json>,
)
    ensures
        room_relayed_all(engine, client_id, room_id, values).len() <= values.len(),
        room_relayed_all(engine, client_id, room_id, values) == values.take(
            room_relayed_all(engine, client_id, room_id, values).len() as int,
        ),
    decreases values.len(),
{
    let all = room_relayed_all(engine, client_id, room_id, values);
    if values.len() > 0 {
        let rest = room_relayed_all(engine, client_id, room_id, values.drop_first());
        lemma_relayed_in_order(engine, client_id, room_id, values.drop_first());
        let step = engine.room_relayed(client_id, room_id, ReceivedView::Value(values[0]));
        if step.deliver is Some {
            if step.proceed {
                assert(all =~= values.take(all.len() as int)) by {
                    assert forall|i: int| 0 <= i < all.len() implies all[i] == values[i] by {
                        if i > 0 {
                            assert(all[i] == rest[i - 1]);
                            assert(rest[i - 1] == values.drop_first().take(rest.len() as int)[i
                                - 1]);
                        }
                    }
                }
            } else {
                assert(all =~= values.take(1));
            }
        } else {
            if step.proceed {
                assert(!engine.has_room(room_id));
                lemma_silent_without_room(engine, client_id, room_id, values.drop_first());
            }
            assert(all =~= values.take(0));
        }
    } else {
        assert(all =~= values.take(0));
    }
}

/// The registry without clients and rooms is sound.
pub proof fn lemma_empty_sound()
    ensures
        sound(EngineView::empty()),
{
}

/// Registering a client or a room keeps the registry well formed, whether
/// or not the identifier was taken.
pub proof fn lemma_registered_wf(engine: EngineView, client: ClientView, room: RoomView)
    requires
        engine.wf(),
        client.wf(),
        room.wf(),
    ensures
        engine.with_client(client).wf(),
        engine.with_room(room).wf(),
{
}

/// Registering a client that has just connected keeps the registry sound.
pub proof fn lemma_with_client_sound(engine: EngineView, client_id: u128)
    requires
        sound(engine),
    ensures
        sound(engine.with_client(ClientView::connected(client_id))),
        engine.with_client(ClientView::connected(client_id)).has_client(client_id),
        engine.with_client(ClientView::connected(client_id)).client(client_id)
            == ClientView::connected(client_id),
        engine.with_client(ClientView::connected(client_id)).rooms == engine.rooms,
{
    let after = engine.with_client(ClientView::connected(client_id));
    assert forall|c: u128, r: u128|
        after.has_client(c) && (#[trigger] after.client(c).rooms.contains(
            r,
        )) implies after.has_room(r) && after.room(r).clients.contains(c) by {
        assert(c != client_id);
        assert(engine.client(c).rooms.contains(r));
    }
}

/// Registering a room under an identifier that no room has keeps every
/// other room as it is.
pub proof fn lemma_room_added_keeps(engine: EngineView, room: RoomView)
    requires
        !engine.has_room(room.id),
    ensures
        engine.room_added(room).engine.clients == engine.clients,
        engine.room_added(room).engine.has_room(room.id),
        engine.room_added(room).engine.room(room.id) == room,
        forall|other: u128| #[trigger]
            engine.has_room(other) ==> engine.room_added(room).engine.has_room(other)
                && engine.room_added(room).engine.room(other) == engine.room(other),
        forall|other: u128| #[trigger]
            engine.room_added(room).engine.has_room(other) ==> other == room.id
                || engine.has_room(other),
{
}

/// Registering an empty room under an identifier that no room has keeps the
/// registry sound.
pub proof fn lemma_room_added_sound(engine: EngineView, room: RoomView)
    requires
        sound(engine),
        !engine.has_room(room.id),
        room.clients.is_empty(),
    ensures
        sound(engine.room_added(room).engine),
{
    let after = engine.room_added(room).engine;
    assert forall|c: u128, r: u128|
        after.has_client(c) && (#[trigger] after.client(c).rooms.contains(
            r,
        )) implies after.has_room(r) && after.room(r).clients.contains(c) by {
        assert(engine.client(c).rooms.contains(r));
    }
}

/// A join keeps the registry well formed.
pub proof fn lemma_joined_wf(engine: EngineView, client_id: u128, room_id: u128)
    requires
        engine.wf(),
    ensures
        engine.joined(client_id, room_id).engine.wf(),
{
}

/// A join keeps the registry sound.
pub proof fn lemma_joined_sound(engine: EngineView, client_id: u128, room_id: u128)
    requires
        sound(engine),
    ensures
        sound(engine.joined(client_id, room_id).engine),
{
    let after = engine.joined(client_id, room_id).engine;
    if engine.has_client(client_id) && engine.has_room(room_id) {
        assert forall|c: u128, r: u128|
            after.has_client(c) && (#[trigger] after.client(c).rooms.contains(
                r,
            )) implies after.has_room(r) && after.room(r).clients.contains(c) by {
            if !(c == client_id && r == room_id) {
                assert(engine.client(c).rooms.contains(r));
            }
        }
    }
}

/// A client leaving a room keeps the registry sound.
pub proof fn lemma_left_sound(engine: EngineView, room_id: u128, client_id: u128)
    requires
        sound(engine),
    ensures
        sound(engine.left(room_id, client_id).engine),
{
    let after = engine.left(room_id, client_id).engine;
    if engine.has_room(room_id) {
        assert forall|c: u128, r: u128|
            after.has_client(c) && (#[trigger] after.client(c).rooms.contains(
                r,
            )) implies after.has_room(r) && after.room(r).clients.contains(c) by {
            assert(engine.client(c).rooms.contains(r));
            assert(engine.room(r).clients.contains(c));
            if r == room_id {
                assert(c != client_id);
                assert(engine.room(room_id).clients.remove(client_id).contains(c));
            }
        }
    }
}

/// A client leaving the rooms of a list keeps the registry sound.
pub proof fn lemma_left_all_sound(engine: EngineView, rooms: Seq<u128>, client_id: u128)
    requires
        sound(engine),
    ensures
        sound(engine.left_all(rooms, client_id).engine),
    decreases rooms.len(),
{
    if rooms.len() > 0 {
        lemma_left_sound(engine, rooms[0], client_id);
        lemma_left_all_sound(engine.left(rooms[0], client_id).engine, rooms.drop_first(), client_id);
    }
}

/// Removing a client keeps the registry well formed.
pub proof fn lemma_client_removed_wf(engine: EngineView, client_id: u128, order: Seq<u128>)
    requires
        engine.wf(),
    ensures
        engine.client_removed(client_id, order).engine.wf(),
{
    lemma_left_all_wf(engine.without_client(client_id), order, client_id);
}

/// Removing a client keeps the registry sound.
pub proof fn lemma_client_removed_sound(engine: EngineView, client_id: u128, order: Seq<u128>)
    requires
        sound(engine),
    ensures
        sound(engine.client_removed(client_id, order).engine),
{
    if engine.has_client(client_id) {
        let start = engine.without_client(client_id);
        assert forall|c: u128, r: u128|
            start.has_client(c) && (#[trigger] start.client(c).rooms.contains(
                r,
            )) implies start.has_room(r) && start.room(r).clients.contains(c) by {
            assert(engine.client(c).rooms.contains(r));
        }
        lemma_left_all_sound(start, order, client_id);
    }
}

/// Removing a room without members keeps the registry sound.
pub proof fn lemma_room_removed_sound(engine: EngineView, room_id: u128)
    requires
        sound(engine),
        engine.has_room(room_id) ==> engine.room(room_id).clients.is_empty(),
    ensures
        sound(engine.room_removed(room_id).engine),
{
    let after = engine.room_removed(room_id).engine;
    assert forall|c: u128, r: u128|
        after.has_client(c) && (#[trigger] after.client(c).rooms.contains(
            r,
        )) implies after.has_room(r) && after.room(r).clients.contains(c) by {
        assert(engine.client(c).rooms.contains(r));
        assert(engine.room(r).clients.contains(c));
    }
}

/// Changing what a client wants of the directory keeps the registry well
/// formed.
pub proof fn lemma_subscription_wf(engine: EngineView, client_id: u128, relay: RelayView)
    requires
        engine.wf(),
    ensures
        engine.subscribed(client_id).engine.wf(),
        engine.unsubscribed(client_id).wf(),
        engine.rooms_relay_noted(client_id, relay).wf(),
{
}

/// Changing what a client wants of the directory keeps the registry sound.
pub proof fn lemma_subscription_sound(engine: EngineView, client_id: u128, relay: RelayView)
    requires
        sound(engine),
    ensures
        sound(engine.subscribed(client_id).engine),
        sound(engine.unsubscribed(client_id)),
        sound(engine.rooms_relay_noted(client_id, relay)),
{
    lemma_subscription_wf(engine, client_id, relay);
    let a = engine.subscribed(client_id).engine;
    let b = engine.unsubscribed(client_id);
    let c = engine.rooms_relay_noted(client_id, relay);
    assert forall|id: u128, r: u128|
        a.has_client(id) && (#[trigger] a.client(id).rooms.contains(r)) implies a.has_room(r)
        && a.room(r).clients.contains(id) by {
        assert(engine.client(id).rooms.contains(r));
    }
    assert forall|id: u128, r: u128|
        b.has_client(id) && (#[trigger] b.client(id).rooms.contains(r)) implies b.has_room(r)
        && b.room(r).clients.contains(id) by {
        assert(engine.client(id).rooms.contains(r));
    }
    assert forall|id: u128, r: u128|
        c.has_client(id) && (#[trigger] c.client(id).rooms.contains(r)) implies c.has_room(r)
        && c.room(r).clients.contains(id) by {
        assert(engine.client(id).rooms.contains(r));
    }
}

/// A list of joins keeps the registry well formed.
pub proof fn lemma_joined_all_wf(engine: EngineView, client_ids: Seq<u128>, room_id: u128)
    requires
        engine.wf(),
    ensures
        engine.joined_all(client_ids, room_id).engine.wf(),
    decreases client_ids.len(),
{
    if client_ids.len() > 0 {
        lemma_joined_wf(engine, client_ids[0], room_id);
        lemma_joined_all_wf(
            engine.joined(client_ids[0], room_id).engine,
            client_ids.drop_first(),
            room_id,
        );
    }
}

/// A list of joins keeps the registry sound.
pub proof fn lemma_joined_all_sound(engine: EngineView, client_ids: Seq<u128>, room_id: u128)
    requires
        sound(engine),
    ensures
        sound(engine.joined_all(client_ids, room_id).engine),
    decreases client_ids.len(),
{
    if client_ids.len() > 0 {
        lemma_joined_sound(engine, client_ids[0], room_id);
        lemma_joined_all_sound(
            engine.joined(client_ids[0], room_id).engine,
            client_ids.drop_first(),
            room_id,
        );
    }
}

/// Whatever a room is asked to do, the registry stays well formed.
pub proof fn lemma_room_executed_wf(
    engine: EngineView,
    room_id: u128,
    command: RoomCommandView,
    sender: Option<u128>,
)
    requires
        engine.wf(),
    ensures
        engine.room_executed(room_id, command, sender).engine.wf(),
{
}

/// Whatever a client asks for, the registry stays well formed.
pub proof fn lemma_executed_wf(
    engine: EngineView,
    client_id: u128,
    command: CommandView,
    fresh: u128,
    order: Seq<u128>,
)
    requires
        engine.wf(),
    ensures
        engine.executed(client_id, command, fresh, order).engine.wf(),
{
}

/// Creating a room for the clients of a list keeps the registry well
/// formed.
pub proof fn lemma_room_created_wf(engine: EngineView, client_ids: Seq<u128>, fresh: u128)
    requires
        engine.wf(),
    ensures
        engine.room_created(client_ids, fresh).engine.wf(),
{
    let live = engine.resolved(client_ids);
    if live.len() > 0 {
        let empty = RoomView { id: fresh, creator: live.last(), clients: Set::empty() };
        lemma_joined_all_wf(engine.with_room(empty), live.drop_last(), fresh);
    }
}

/// A join removes no room and no member.
pub proof fn lemma_joined_keeps(engine: EngineView, client_id: u128, room_id: u128)
    ensures
        never_emptied(engine, engine.joined(client_id, room_id).engine),
        announced(engine, engine.joined(client_id, room_id)),
{
    let after = engine.joined(client_id, room_id).engine;
    if engine.has_client(client_id) && engine.has_room(room_id) {
        assert(after.room(room_id).clients.contains(client_id));
    }
}

/// Whatever a client asks for, no room that has members is left
/// registered without any, and the directory is told of every room that is
/// removed. The one exception is a room created under an identifier that a
/// room has already, which takes that room's place.
pub proof fn lemma_executed_keeps(
    engine: EngineView,
    client_id: u128,
    command: CommandView,
    fresh: u128,
    order: Seq<u128>,
)
    requires
        command is RoomCreate ==> !engine.has_room(fresh),
    ensures
        never_emptied(engine, engine.executed(client_id, command, fresh, order).engine),
        announced(engine, engine.executed(client_id, command, fresh, order)),
{
    let after = engine.executed(client_id, command, fresh, order);
    if engine.has_client(client_id) {
        match command {
            CommandView::RoomCreate => {
                let empty = RoomView { id: fresh, creator: client_id, clients: Set::empty() };
                let made = engine.room_added(empty);
                lemma_room_added_keeps(engine, empty);
                lemma_joined_keeps(made.engine, client_id, fresh);
                lemma_joined(made.engine, client_id, fresh);
                assert forall|other: u128|
                    engine.has_room(other) && !engine.room(other).clients.is_empty() && (
                    #[trigger] after.engine.has_room(other)) implies !after.engine.room(
                    other,
                ).clients.is_empty() by {
                    assert(made.engine.has_room(other));
                }
                assert forall|other: u128|
                    engine.has_room(other) && !(#[trigger] after.engine.has_room(
                        other,
                    )) implies after.effects.contains(removal_of(other)) by {
                    assert(made.engine.has_room(other));
                    assert(made.engine.room_ids().contains(other));
                }
            },
            CommandView::RoomJoin { room_id } => {
                lemma_joined_keeps(engine, client_id, room_id);
            },
            CommandView::Room { room_id, command } => {
                lemma_left_kept(engine, room_id, client_id);
            },
            _ => {},
        }
    }
}

/// Whatever a client asks for, the registry stays sound. The one
/// exception is a room created under an identifier that a room has
/// already.
pub proof fn lemma_executed_sound(
    engine: EngineView,
    client_id: u128,
    command: CommandView,
    fresh: u128,
    order: Seq<u128>,
)
    requires
        sound(engine),
        command is RoomCreate ==> !engine.has_room(fresh),
    ensures
        sound(engine.executed(client_id, command, fresh, order).engine),
{
    if engine.has_client(client_id) {
        match command {
            CommandView::RoomCreate => {
                let empty = RoomView { id: fresh, creator: client_id, clients: Set::empty() };
                lemma_room_added_sound(engine, empty);
                lemma_joined_sound(engine.room_added(empty).engine, client_id, fresh);
            },
            CommandView::RoomsSubscribe => {
                lemma_subscription_sound(engine, client_id, RelayView::stop());
            },
            CommandView::RoomsUnsubscribe => {
                lemma_subscription_sound(engine, client_id, RelayView::stop());
            },
            CommandView::RoomJoin { room_id } => {
                lemma_joined_sound(engine, client_id, room_id);
            },
            CommandView::Room { room_id, command } => {
                lemma_left_sound(engine, room_id, client_id);
            },
            _ => {},
        }
    }
}

/// Creating a room for the clients of a list, under an identifier that no
/// room has, keeps the registry sound.
pub proof fn lemma_room_created_sound(engine: EngineView, client_ids: Seq<u128>, fresh: u128)
    requires
        sound(engine),
        !engine.has_room(fresh),
    ensures
        sound(engine.room_created(client_ids, fresh).engine),
{
    let live = engine.resolved(client_ids);
    if live.len() > 0 {
        let empty = RoomView { id: fresh, creator: live.last(), clients: Set::empty() };
        lemma_room_added_sound(engine, empty);
        lemma_joined_all_sound(engine.room_added(empty).engine, live.drop_last(), fresh);
    }
}

/// Identifiers whose texts read back are told apart by their texts.
pub proof fn lemma_texts_tell_apart(a: u128, b: u128)
    ensures
        reads_back(a) && reads_back(b) && id_text(a) == id_text(b) ==> a == b,
{
}

/// A list that holds each identifier of a set once is written without
/// repeats, where the texts of the identifiers read back.
pub proof fn lemma_listed_texts_differ(order: Seq<u128>, ids: Set<u128>)
    ensures
        lists(order, ids) && all_read_back(order) ==> id_texts_of(order).no_duplicates(),
{
    if lists(order, ids) && all_read_back(order) {
        assert forall|i: int, j: int|
            0 <= i < order.len() && 0 <= j < order.len() && i != j implies id_texts_of(order)[i]
            != id_texts_of(order)[j] by {
            assert(reads_back(order[i]) && reads_back(order[j]));
        }
    }
}

/// A client that sends back the identifier of a room as it was written
/// joins that very room: a `ROOM_JOIN` message whose `room_id` is the text
/// of a room's identifier is carried out as the join of that room.
pub proof fn lemma_named_room_is_joined(
    engine: EngineView,
    client_id: u128,
    room_id: u128,
    message: Json,
    fresh: u128,
    order: Seq<u128>,
)
    ensures
        text_of(member(message, "action"@)) == Some("ROOM_JOIN"@) && member(message, "room_id"@)
            == id_json(room_id) && reads_back(room_id) ==> command(message)
            == (CommandView::RoomJoin { room_id }) && engine.executed(
            client_id,
            command(message),
            fresh,
            order,
        ) == engine.joined(client_id, room_id),
{
    reveal_strlit("ROOM_JOIN");
    reveal_strlit("ROOM_CREATE");
    reveal_strlit("ROOMS_SUBSCRIBE");
    reveal_strlit("ROOMS_UNSUBSCRIBE");
    reveal_strlit("ROOMS_LIST");
    assert("ROOM_JOIN"@.len() == 9);
    assert("ROOM_CREATE"@.len() == 11);
    assert("ROOMS_SUBSCRIBE"@.len() == 15);
    assert("ROOMS_UNSUBSCRIBE"@.len() == 17);
    assert("ROOMS_LIST"@.len() == 10);
}

/// The exit of one client is the exit signal of that client and of no
/// other: it ends the task that forwards the room to the client that left,
/// and is handed on to every member that stays.
pub proof fn lemma_exit_signal_names_one(
    engine: EngineView,
    left: u128,
    client_id: u128,
    room_id: u128,
)
    ensures
        is_exit_signal(room_exit_json(left, room_id), left),
        reads_back(left) && reads_back(client_id) && left != client_id ==> !is_exit_signal(
            room_exit_json(left, room_id),
            client_id,
        ),
        engine.room_relayed(
            left,
            room_id,
            ReceivedView::Value(room_exit_json(left, room_id)),
        ) == RelayView::stop(),
        reads_back(left) && reads_back(client_id) && left != client_id && engine.has_room(room_id)
            && engine.room(room_id).clients.contains(client_id) && engine.has_client(client_id)
            ==> engine.room_relayed(
            client_id,
            room_id,
            ReceivedView::Value(room_exit_json(left, room_id)),
        ) == (RelayView { deliver: Some(room_exit_json(left, room_id)), proceed: true }),
{
    reveal_strlit("type");
    reveal_strlit("event");
    reveal_strlit("client_id");
    reveal_strlit("room_id");
    assert("type"@.len() == 4);
    assert("event"@.len() == 5);
    assert("client_id"@.len() == 9);
    assert("room_id"@.len() == 7);
    let exit = room_exit_json(left, room_id);
    assert(member(exit, "type"@) == Json::String("EVENT"@));
    assert(text_of(member(member(exit, "event"@), "type"@)) == Some("ROOM_EXIT"@));
    assert(member(member(exit, "event"@), "client_id"@) == id_json(left));
}

} // verus!
