//! What the hub asks of the tasks around it, and the events it puts on the
//! wire.
//!
//! The hub itself never touches a socket or a channel. Every operation hands
//! back the [`Effect`]s that it calls for, in the order in which they are to
//! be performed.
use vstd::prelude::*;
use crate::ident::{id_text, reads_back};
use crate::json::{json_of, members, accepts_members, Json};
use serde_json::Value;

verus! {

/// A broadcast channel of the hub.
#[derive(Clone, Copy, Debug, PartialEq, Eq, Hash, Structural)]
pub enum Topic {
    /// The directory: rooms that are created and removed.
    Rooms,
    /// What is published to the room with this identifier.
    Room(u128),
}

impl Topic {
    /// How many values the channel of the topic holds for a subscriber that
    /// is behind: ten for a room, one for the directory.
    pub open spec fn depth(self) -> usize {
        match self {
            Topic::Rooms => 1,
            Topic::Room(_) => 10,
        }
    }

    /// How many values the channel of the topic holds for a subscriber that
    /// is behind.
    pub fn capacity(&self) -> (capacity: usize)
        ensures
            capacity == self.depth(),
            capacity > 0,
    {
        match self {
            Topic::Rooms => 1,
            Topic::Room(_) => 10,
        }
    }
}

/// One piece of outside work.
#[derive(Debug)]
pub enum Effect {
    /// Write `value` to the client's outbound sink.
    Send { client_id: u128, value: Value },
    /// Publish `value` to every current subscriber of `topic`.
    Publish { topic: Topic, value: Value },
    /// Subscribe to `topic` now, and start a task that forwards what arrives
    /// to the client.
    Forward { client_id: u128, topic: Topic },
}

/// An effect with its payload taken by content.
pub ghost enum EffectView {
    Send { client_id: u128, value: Json },
    Publish { topic: Topic, value: Json },
    Forward { client_id: u128, topic: Topic },
}

impl View for Effect {
    type V = EffectView;

    open spec fn view(&self) -> EffectView {
        match *self {
            Effect::Send { client_id, value } => EffectView::Send {
                client_id,
                value: json_of(value),
            },
            Effect::Publish { topic, value } => EffectView::Publish {
                topic,
                value: json_of(value),
            },
            Effect::Forward { client_id, topic } => EffectView::Forward { client_id, topic },
        }
    }
}

/// The effects of a list, each by its view.
pub open spec fn views(effects: Seq<Effect>) -> Seq<EffectView> {
    Seq::new(effects.len(), |i: int| effects[i]@)
}

/// The string value with the text of an identifier.
pub open spec fn id_json(id: u128) -> Json {
    Json::String(id_text(id))
}

/// The texts of the identifiers, in order.
pub open spec fn id_texts_of(ids: Seq<u128>) -> Seq<Seq<char>> {
    Seq::new(ids.len(), |i: int| id_text(ids[i]))
}

/// Whether the text of each identifier of a list reads back as that
/// identifier.
pub open spec fn all_read_back(ids: Seq<u128>) -> bool {
    forall|i: int| 0 <= i < ids.len() ==> reads_back(#[trigger] ids[i])
}

/// The array of the identifiers' texts.
pub open spec fn ids_json(ids: Seq<u128>) -> Json {
    Json::Array(Seq::new(ids.len(), |i: int| id_json(ids[i])))
}

/// The envelope of every event: `{"type": "EVENT", "event": body}`.
pub open spec fn event_json(body: Map<Seq<char>, Json>) -> Json {
    Json::Object(
        Map::empty().insert("type"@, Json::String("EVENT"@)).insert("event"@, Json::Object(body)),
    )
}

/// The body of an event of one kind, before its fields are set.
pub open spec fn body_of(kind: Seq<char>) -> Map<Seq<char>, Json> {
    Map::empty().insert("type"@, Json::String(kind))
}

/// `CLIENT_JOIN`: greets a client with its own identifier.
pub open spec fn client_join_json(client_id: u128) -> Json {
    event_json(body_of("CLIENT_JOIN"@).insert("client_id"@, id_json(client_id)))
}

/// `ROOMS_LIST`: the rooms that exist.
pub open spec fn rooms_list_json(rooms: Seq<u128>) -> Json {
    event_json(body_of("ROOMS_LIST"@).insert("rooms"@, ids_json(rooms)))
}

/// `ROOM_CLIENTS_LIST`: the members of a room.
pub open spec fn room_clients_list_json(clients: Seq<u128>, room_id: u128) -> Json {
    event_json(
        body_of("ROOM_CLIENTS_LIST"@).insert("clients"@, ids_json(clients)).insert(
            "room_id"@,
            id_json(room_id),
        ),
    )
}

/// `ROOM_JOIN`: a client has joined a room.
pub open spec fn room_join_json(room_id: u128, client_id: u128) -> Json {
    event_json(
        body_of("ROOM_JOIN"@).insert("room_id"@, id_json(room_id)).insert(
            "client_id"@,
            id_json(client_id),
        ),
    )
}

/// `ROOM_CREATION`: a room has been created.
pub open spec fn room_creation_json(room_id: u128, creator_id: u128) -> Json {
    event_json(
        body_of("ROOM_CREATION"@).insert("room_id"@, id_json(room_id)).insert(
            "creator_id"@,
            id_json(creator_id),
        ),
    )
}

/// `ROOM_REMOVAL`: a room has been removed.
pub open spec fn room_removal_json(room_id: u128) -> Json {
    event_json(body_of("ROOM_REMOVAL"@).insert("room_id"@, id_json(room_id)))
}

/// `ROOM_EXIT`: a client has left a room.
pub open spec fn room_exit_json(client_id: u128, room_id: u128) -> Json {
    event_json(
        body_of("ROOM_EXIT"@).insert("client_id"@, id_json(client_id)).insert(
            "room_id"@,
            id_json(room_id),
        ),
    )
}

/// A payload as a room publishes it: the members of `data`, then `sender`
/// where there is one, then `room`.
pub open spec fn tagged_json(data: Json, sender: Option<u128>, room_id: u128) -> Json {
    let marked = match sender {
        Some(id) => members(data).insert("sender"@, id_json(id)),
        None => members(data),
    };
    Json::Object(marked.insert("room"@, id_json(room_id)))
}

/// Identifiers whose texts read back have different texts where they are
/// different; so a list without repeats is written without repeats.
proof fn lemma_texts_differ(ids: Seq<u128>)
    requires
        all_read_back(ids),
        ids.no_duplicates(),
    ensures
        id_texts_of(ids).no_duplicates(),
{
    assert forall|i: int, j: int|
        0 <= i < ids.len() && 0 <= j < ids.len() && i != j implies id_texts_of(ids)[i]
        != id_texts_of(ids)[j] by {
        assert(reads_back(ids[i]) && reads_back(ids[j]));
    }
}

/// The texts of the identifiers, in order.
fn id_texts(ids: &Vec<u128>) -> (r: Vec<String>)
    ensures
        r@.len() == ids@.len(),
        forall|i: int| 0 <= i < ids@.len() ==> (#[trigger] r@[i])@ == id_text(ids@[i]),
        all_read_back(ids@),
        ids@.no_duplicates() ==> id_texts_of(ids@).no_duplicates(),
{
    let mut texts: Vec<String> = Vec::new();
    let mut i: usize = 0;
    while i < ids.len()
        invariant
            i <= ids@.len(),
            texts@.len() == i,
            forall|j: int| 0 <= j < i ==> (#[trigger] texts@[j])@ == id_text(ids@[j]),
            forall|j: int| 0 <= j < i ==> reads_back(#[trigger] ids@[j]),
        decreases ids@.len() - i,
    {
        texts.push(crate::ident::text(ids[i]));
        i += 1;
    }
    proof {
        if ids@.no_duplicates() {
            lemma_texts_differ(ids@);
        }
    }
    texts
}

/// The array of the identifiers' texts.
fn ids_value(ids: &Vec<u128>) -> (r: Value)
    ensures
        json_of(r) == ids_json(ids@),
        all_read_back(ids@),
        ids@.no_duplicates() ==> id_texts_of(ids@).no_duplicates(),
{
    let texts = id_texts(ids);
    let value = crate::json::strings(texts);
    assert(json_of(value)->Array_0 =~= ids_json(ids@)->Array_0);
    value
}

/// An event body of one kind.
fn body(kind: &str) -> (r: Value)
    ensures
        json_of(r) == Json::Object(body_of(kind@)),
{
    let mut value = crate::json::object();
    crate::json::set(&mut value, "type", crate::json::string(kind.to_owned()));
    value
}

/// Sets a field of an event body to an identifier's text.
fn set_id(value: &mut Value, key: &str, id: u128)
    requires
        json_of(*old(value)) is Object,
    ensures
        json_of(*final(value)) == Json::Object(
            members(json_of(*old(value))).insert(key@, id_json(id)),
        ),
        reads_back(id),
{
    crate::json::set(value, key, crate::json::string(crate::ident::text(id)));
}

/// Puts an event body in its envelope.
fn envelope(body: Value) -> (r: Value)
    requires
        json_of(body) is Object,
    ensures
        json_of(r) == event_json(members(json_of(body))),
{
    let mut value = crate::json::object();
    crate::json::set(&mut value, "type", crate::json::string("EVENT".to_owned()));
    crate::json::set(&mut value, "event", body);
    value
}

/// The `CLIENT_JOIN` event. The identifier in it reads back.
pub fn client_join(client_id: u128) -> (r: Value)
    ensures
        json_of(r) == client_join_json(client_id),
        reads_back(client_id),
{
    let mut value = body("CLIENT_JOIN");
    set_id(&mut value, "client_id", client_id);
    envelope(value)
}

/// The `ROOMS_LIST` event. Each identifier in it reads back, and rooms
/// listed without repeats are written without repeats.
pub fn rooms_list(rooms: &Vec<u128>) -> (r: Value)
    ensures
        json_of(r) == rooms_list_json(rooms@),
        all_read_back(rooms@),
        rooms@.no_duplicates() ==> id_texts_of(rooms@).no_duplicates(),
{
    let mut value = body("ROOMS_LIST");
    crate::json::set(&mut value, "rooms", ids_value(rooms));
    envelope(value)
}

/// The `ROOM_CLIENTS_LIST` event. Each identifier in it reads back, and
/// clients listed without repeats are written without repeats.
pub fn room_clients_list(clients: &Vec<u128>, room_id: u128) -> (r: Value)
    ensures
        json_of(r) == room_clients_list_json(clients@, room_id),
        all_read_back(clients@),
        reads_back(room_id),
        clients@.no_duplicates() ==> id_texts_of(clients@).no_duplicates(),
{
    let mut value = body("ROOM_CLIENTS_LIST");
    crate::json::set(&mut value, "clients", ids_value(clients));
    set_id(&mut value, "room_id", room_id);
    envelope(value)
}

/// The `ROOM_JOIN` event. The identifiers in it read back.
pub fn room_join(room_id: u128, client_id: u128) -> (r: Value)
    ensures
        json_of(r) == room_join_json(room_id, client_id),
        reads_back(room_id),
        reads_back(client_id),
{
    let mut value = body("ROOM_JOIN");
    set_id(&mut value, "room_id", room_id);
    set_id(&mut value, "client_id", client_id);
    envelope(value)
}

/// The `ROOM_CREATION` event. The identifiers in it read back.
pub fn room_creation(room_id: u128, creator_id: u128) -> (r: Value)
    ensures
        json_of(r) == room_creation_json(room_id, creator_id),
        reads_back(room_id),
        reads_back(creator_id),
{
    let mut value = body("ROOM_CREATION");
    set_id(&mut value, "room_id", room_id);
    set_id(&mut value, "creator_id", creator_id);
    envelope(value)
}

/// The `ROOM_REMOVAL` event. The identifier in it reads back.
pub fn room_removal(room_id: u128) -> (r: Value)
    ensures
        json_of(r) == room_removal_json(room_id),
        reads_back(room_id),
{
    let mut value = body("ROOM_REMOVAL");
    set_id(&mut value, "room_id", room_id);
    envelope(value)
}

/// The `ROOM_EXIT` event. The identifiers in it read back.
pub fn room_exit(client_id: u128, room_id: u128) -> (r: Value)
    ensures
        json_of(r) == room_exit_json(client_id, room_id),
        reads_back(client_id),
        reads_back(room_id),
{
    let mut value = body("ROOM_EXIT");
    set_id(&mut value, "client_id", client_id);
    set_id(&mut value, "room_id", room_id);
    envelope(value)
}

/// Marks a payload with its sender, where there is one, and its room.
pub(crate) fn tagged(data: Value, sender: Option<u128>, room_id: u128) -> (r: Value)
    requires
        accepts_members(json_of(data)),
    ensures
        json_of(r) == tagged_json(json_of(data), sender, room_id),
{
    let mut value = data;
    match sender {
        Some(id) => {
            crate::json::set(&mut value, "sender", crate::json::string(crate::ident::text(id)));
        },
        None => {},
    }
    crate::json::set(&mut value, "room", crate::json::string(crate::ident::text(room_id)));
    value
}

} // verus!
