//! One connected client: the rooms it has joined and whether it follows the
//! directory of rooms.
use vstd::prelude::*;
use crate::api::chat::engine::{ChatEngine, EngineView, Outcome};
use crate::api::chat::event::{
    room_clients_list_json, room_join_json, rooms_list_json, tagged_json, views, Effect,
    EffectView, Topic,
};
use crate::ids::{lemma_lists_nothing, lists};
use crate::api::chat::room::{room_command, RoomCommand, RoomCommandView, RoomView, WebSocketRoom};
use crate::ident::{id_text, parsed_id};
use crate::json::{json_of, json_text, member, text_of, Json};
use serde_json::Value;
use std::collections::HashSet;

verus! {

broadcast use vstd::std_specs::hash::group_hash_axioms;

/// A client of the hub.
pub struct WebSocketClient {
    pub(crate) id: u128,
    pub(crate) rooms: HashSet<u128>,
    pub(crate) subscribe_rooms: bool,
    pub(crate) subscribe_rooms_is_running: bool,
}

/// A client as a value.
pub struct ClientView {
    pub id: u128,
    /// The rooms it has joined.
    pub rooms: Set<u128>,
    /// Whether it wants the directory's events.
    pub subscribed: bool,
    /// Whether a task is forwarding the directory's events to it.
    pub forwarding: bool,
}

impl ClientView {
    /// The client has joined finitely many rooms.
    pub open spec fn wf(self) -> bool {
        self.rooms.finite()
    }

    /// A client that has just connected.
    pub open spec fn connected(id: u128) -> ClientView {
        ClientView { id, rooms: Set::empty(), subscribed: false, forwarding: false }
    }

    /// The client with `room_id` among its rooms.
    pub open spec fn with_room(self, room_id: u128) -> ClientView {
        ClientView { rooms: self.rooms.insert(room_id), ..self }
    }

    /// The client without `room_id` among its rooms.
    pub open spec fn without_room(self, room_id: u128) -> ClientView {
        ClientView { rooms: self.rooms.remove(room_id), ..self }
    }
}

impl EngineView {
    /// A client joins a room. Where both are registered, each lists the
    /// other, a task is asked to forward the room to the client, and the
    /// room then hears of the join. Else nothing happens.
    pub open spec fn joined(self, client_id: u128, room_id: u128) -> Outcome {
        if self.has_room(room_id) && self.has_client(client_id) {
            Outcome {
                engine: EngineView {
                    clients: self.clients.insert(
                        client_id,
                        self.client(client_id).with_room(room_id),
                    ),
                    rooms: self.rooms.insert(room_id, self.room(room_id).with_client(client_id)),
                },
                effects: seq![
                    EffectView::Forward { client_id, topic: Topic::Room(room_id) },
                    EffectView::Publish {
                        topic: Topic::Room(room_id),
                        value: tagged_json(
                            room_join_json(room_id, client_id),
                            Some(client_id),
                            room_id,
                        ),
                    },
                ],
            }
        } else {
            Outcome { engine: self, effects: Seq::empty() }
        }
    }

    /// A client asks for the directory's events. Where it is registered, it
    /// is marked as subscribed, and a task is asked to forward the directory
    /// to it unless one is doing so already. Else nothing happens.
    pub open spec fn subscribed(self, client_id: u128) -> Outcome {
        if self.has_client(client_id) {
            let client = self.client(client_id);
            Outcome {
                engine: EngineView {
                    clients: self.clients.insert(
                        client_id,
                        ClientView { subscribed: true, forwarding: true, ..client },
                    ),
                    ..self
                },
                effects: if client.forwarding {
                    Seq::empty()
                } else {
                    seq![EffectView::Forward { client_id, topic: Topic::Rooms }]
                },
            }
        } else {
            Outcome { engine: self, effects: Seq::empty() }
        }
    }

    /// A client asks for no more of the directory's events: where it is
    /// registered, it is marked as not subscribed.
    pub open spec fn unsubscribed(self, client_id: u128) -> EngineView {
        if self.has_client(client_id) {
            EngineView {
                clients: self.clients.insert(
                    client_id,
                    ClientView { subscribed: false, ..self.client(client_id) },
                ),
                ..self
            }
        } else {
            self
        }
    }

    /// The list of rooms, sent to a registered client. `order` is the list
    /// as it is written.
    pub open spec fn rooms_list_sent(self, client_id: u128, order: Seq<u128>) -> Seq<EffectView> {
        if self.has_client(client_id) {
            seq![EffectView::Send { client_id, value: rooms_list_json(order) }]
        } else {
            Seq::empty()
        }
    }

    /// The members of a registered room, sent to a registered client.
    /// `order` is the list as it is written.
    pub open spec fn room_clients_list_sent(
        self,
        client_id: u128,
        room_id: u128,
        order: Seq<u128>,
    ) -> Seq<EffectView> {
        if self.has_client(client_id) && self.has_room(room_id) {
            seq![EffectView::Send { client_id, value: room_clients_list_json(order, room_id) }]
        } else {
            Seq::empty()
        }
    }

    /// Whether sending a client the list of rooms gives these effects: it
    /// does so where the list holds every room once.
    pub open spec fn sends_rooms_list(self, client_id: u128, effects: Seq<EffectView>) -> bool {
        exists|order: Seq<u128>|
            lists(order, self.room_ids()) && #[trigger] self.rooms_list_sent(client_id, order)
                == effects
    }

    /// The members that a list of a room's members holds: those of the
    /// room, none where the room is not registered.
    pub open spec fn members_of(self, room_id: u128) -> Set<u128> {
        if self.has_room(room_id) {
            self.room(room_id).clients
        } else {
            Set::empty()
        }
    }

    /// Whether sending a client the members of a room gives these effects:
    /// it does so where the list holds every member once.
    pub open spec fn sends_room_clients_list(
        self,
        client_id: u128,
        room_id: u128,
        effects: Seq<EffectView>,
    ) -> bool {
        exists|order: Seq<u128>|
            lists(order, self.members_of(room_id)) && #[trigger] self.room_clients_list_sent(
                client_id,
                room_id,
                order,
            ) == effects
    }
}

/// What a client can ask of the hub.
#[derive(Debug)]
pub enum Command {
    /// Create a room and join it.
    RoomCreate,
    /// Follow the directory of rooms, and get the list of rooms now.
    RoomsSubscribe,
    /// Stop following the directory of rooms.
    RoomsUnsubscribe,
    /// Get the list of rooms.
    RoomsList,
    /// Join a room.
    RoomJoin { room_id: u128 },
    /// Get the members of a room.
    RoomClientsList { room_id: u128 },
    /// Hand a command to a room.
    Room { room_id: u128, command: RoomCommand },
    /// Anything else: nothing is done.
    Ignored,
}

/// A command with its payload taken by content.
pub ghost enum CommandView {
    RoomCreate,
    RoomsSubscribe,
    RoomsUnsubscribe,
    RoomsList,
    RoomJoin { room_id: u128 },
    RoomClientsList { room_id: u128 },
    Room { room_id: u128, command: RoomCommandView },
    Ignored,
}

impl View for Command {
    type V = CommandView;

    open spec fn view(&self) -> CommandView {
        match *self {
            Command::RoomCreate => CommandView::RoomCreate,
            Command::RoomsSubscribe => CommandView::RoomsSubscribe,
            Command::RoomsUnsubscribe => CommandView::RoomsUnsubscribe,
            Command::RoomsList => CommandView::RoomsList,
            Command::RoomJoin { room_id } => CommandView::RoomJoin { room_id },
            Command::RoomClientsList { room_id } => CommandView::RoomClientsList { room_id },
            Command::Room { room_id, command } => CommandView::Room { room_id, command: command@ },
            Command::Ignored => CommandView::Ignored,
        }
    }
}

/// The identifier that a field names: the field is a string and the string
/// is the text of an identifier.
pub open spec fn named_id(field: Json) -> Option<u128> {
    match text_of(field) {
        Some(text) => parsed_id(text),
        None => None,
    }
}

/// The command that a message stands for. Its `action` decides first; a
/// message with another action, whose `target` is of type `ROOM`, goes to
/// that room. A message that names no room where it must is ignored, as is
/// every other message.
pub open spec fn command(message: Json) -> CommandView {
    let action = text_of(member(message, "action"@));
    let target = member(message, "target"@);
    if action == Some("ROOM_CREATE"@) {
        CommandView::RoomCreate
    } else if action == Some("ROOMS_SUBSCRIBE"@) {
        CommandView::RoomsSubscribe
    } else if action == Some("ROOMS_UNSUBSCRIBE"@) {
        CommandView::RoomsUnsubscribe
    } else if action == Some("ROOMS_LIST"@) {
        CommandView::RoomsList
    } else if action == Some("ROOM_JOIN"@) {
        match named_id(member(message, "room_id"@)) {
            Some(room_id) => CommandView::RoomJoin { room_id },
            None => CommandView::Ignored,
        }
    } else if action == Some("ROOM_CLIENTS_LIST"@) {
        match named_id(member(message, "room_id"@)) {
            Some(room_id) => CommandView::RoomClientsList { room_id },
            None => CommandView::Ignored,
        }
    } else if text_of(member(target, "type"@)) == Some("ROOM"@) {
        match named_id(member(target, "id"@)) {
            Some(room_id) => CommandView::Room { room_id, command: room_command(message) },
            None => CommandView::Ignored,
        }
    } else {
        CommandView::Ignored
    }
}

impl EngineView {
    /// What a command lists in its answer: the rooms, the members of a
    /// room, or nothing.
    pub open spec fn listed_by(self, command: CommandView) -> Set<u128> {
        match command {
            CommandView::RoomsSubscribe => self.room_ids(),
            CommandView::RoomsList => self.room_ids(),
            CommandView::RoomClientsList { room_id } => self.members_of(room_id),
            _ => Set::empty(),
        }
    }

    /// A client's command is carried out. `fresh` is the identifier that a
    /// room gets if the command creates one, `order` the list as it is
    /// written if the command asks for one. A client that is not registered
    /// is not heard.
    pub open spec fn executed(
        self,
        client_id: u128,
        command: CommandView,
        fresh: u128,
        order: Seq<u128>,
    ) -> Outcome {
        if !self.has_client(client_id) {
            Outcome { engine: self, effects: Seq::empty() }
        } else {
            match command {
                CommandView::RoomCreate => {
                    let made = self.room_added(
                        RoomView { id: fresh, creator: client_id, clients: Set::empty() },
                    );
                    let joined = made.engine.joined(client_id, fresh);
                    Outcome { engine: joined.engine, effects: made.effects + joined.effects }
                },
                CommandView::RoomsSubscribe => {
                    let subscribed = self.subscribed(client_id);
                    Outcome {
                        engine: subscribed.engine,
                        effects: subscribed.effects + subscribed.engine.rooms_list_sent(
                            client_id,
                            order,
                        ),
                    }
                },
                CommandView::RoomsUnsubscribe => Outcome {
                    engine: self.unsubscribed(client_id),
                    effects: Seq::empty(),
                },
                CommandView::RoomsList => Outcome {
                    engine: self,
                    effects: self.rooms_list_sent(client_id, order),
                },
                CommandView::RoomJoin { room_id } => self.joined(client_id, room_id),
                CommandView::RoomClientsList { room_id } => Outcome {
                    engine: self,
                    effects: self.room_clients_list_sent(client_id, room_id, order),
                },
                CommandView::Room { room_id, command } => self.room_executed(
                    room_id,
                    command,
                    Some(client_id),
                ),
                CommandView::Ignored => Outcome { engine: self, effects: Seq::empty() },
            }
        }
    }
}

/// What a forwarding task got from its subscription.
#[derive(Debug)]
pub enum Received {
    /// The next value that was published.
    Value(Value),
    /// The task fell behind and values were dropped.
    Lagged,
    /// The topic is closed.
    Closed,
}

/// What a forwarding task does next.
#[derive(Debug)]
pub struct Relay {
    /// The value to send to the client, if any.
    pub deliver: Option<Value>,
    /// Whether the task goes on to wait for the next value.
    pub proceed: bool,
}

/// What a forwarding task got, with the value taken by content.
pub ghost enum ReceivedView {
    Value(Json),
    Lagged,
    Closed,
}

/// What a forwarding task does next, with the value taken by content.
pub ghost struct RelayView {
    pub deliver: Option<Json>,
    pub proceed: bool,
}

impl View for Received {
    type V = ReceivedView;

    open spec fn view(&self) -> ReceivedView {
        match *self {
            Received::Value(value) => ReceivedView::Value(json_of(value)),
            Received::Lagged => ReceivedView::Lagged,
            Received::Closed => ReceivedView::Closed,
        }
    }
}

impl View for Relay {
    type V = RelayView;

    open spec fn view(&self) -> RelayView {
        RelayView {
            deliver: match self.deliver {
                Some(value) => Some(json_of(value)),
                None => None,
            },
            proceed: self.proceed,
        }
    }
}

/// Whether a value tells a client that it has left a room: it is a
/// `ROOM_EXIT` event that names the client.
pub open spec fn is_exit_signal(value: Json, client_id: u128) -> bool {
    &&& text_of(member(value, "type"@)) == Some("EVENT"@)
    &&& text_of(member(member(value, "event"@), "type"@)) == Some("ROOM_EXIT"@)
    &&& text_of(member(member(value, "event"@), "client_id"@)) == Some(id_text(client_id))
}

impl RelayView {
    /// Nothing is sent and the task ends.
    pub open spec fn stop() -> RelayView {
        RelayView { deliver: None, proceed: false }
    }
}

impl EngineView {
    /// What the task that forwards a room to a client does with what it
    /// got. It ends on the client's own exit signal, when it fell behind or
    /// the topic is closed, when the room no longer lists the client, and
    /// when the client is no longer registered. While the room is not
    /// registered it sends nothing and waits. Otherwise it sends the value
    /// on, unchanged.
    ///
    /// Who sent a value plays no part: the sender of a broadcast is a
    /// member like any other, and is handed its own broadcast.
    pub open spec fn room_relayed(
        self,
        client_id: u128,
        room_id: u128,
        received: ReceivedView,
    ) -> RelayView {
        match received {
            ReceivedView::Value(value) => {
                if is_exit_signal(value, client_id) {
                    RelayView::stop()
                } else if !self.has_room(room_id) {
                    RelayView { deliver: None, proceed: true }
                } else if self.room(room_id).clients.contains(client_id) && self.has_client(
                    client_id,
                ) {
                    RelayView { deliver: Some(value), proceed: true }
                } else {
                    RelayView::stop()
                }
            },
            _ => RelayView::stop(),
        }
    }

    /// What the task that forwards the directory to a client does with what
    /// it got. To a client that is registered and subscribed it sends the
    /// value on, unchanged, and goes on. In every other case it sends
    /// nothing and ends: when the client has unsubscribed or is not
    /// registered, when the task fell behind and when the topic is closed.
    pub open spec fn rooms_relayed(self, client_id: u128, received: ReceivedView) -> RelayView {
        match received {
            ReceivedView::Value(value) => {
                if self.has_client(client_id) && self.client(client_id).subscribed {
                    RelayView { deliver: Some(value), proceed: true }
                } else {
                    RelayView::stop()
                }
            },
            _ => RelayView::stop(),
        }
    }

    /// The registry after the task that forwards the directory to a client
    /// has taken a step: when the task ends, the client is marked as having
    /// none.
    pub open spec fn rooms_relay_noted(self, client_id: u128, relay: RelayView) -> EngineView {
        if self.has_client(client_id) && !relay.proceed {
            EngineView {
                clients: self.clients.insert(
                    client_id,
                    ClientView { forwarding: false, ..self.client(client_id) },
                ),
                ..self
            }
        } else {
            self
        }
    }
}

/// Whether a value is the exit signal of a client.
fn exit_signal(value: &Value, client_id: u128) -> (signal: bool)
    ensures
        signal == is_exit_signal(json_of(*value), client_id),
{
    let event = crate::json::get(value, "event");
    crate::json::is_text(crate::json::get(value, "type"), "EVENT") && crate::json::is_text(
        crate::json::get(event, "type"),
        "ROOM_EXIT",
    ) && crate::json::is_text(
        crate::json::get(event, "client_id"),
        crate::ident::text(client_id).as_str(),
    )
}

impl EngineView {
    /// Whether carrying out a client's command, with `fresh` for the room
    /// that it may create, can lead from this registry to `after`: it does
    /// so for some list that holds once each what the command lists, where
    /// the client is heard.
    pub open spec fn applies(
        self,
        client_id: u128,
        command: CommandView,
        fresh: u128,
        after: Outcome,
    ) -> bool {
        exists|order: Seq<u128>|
            (self.has_client(client_id) ==> lists(order, self.listed_by(command)))
                && #[trigger] self.executed(client_id, command, fresh, order) == after
    }

    /// Whether carrying out a client's command can lead from this registry
    /// to `after`: it does so for some identifier of the room that the
    /// command creates, where it creates one an identifier of the random
    /// kind.
    pub open spec fn executes(self, client_id: u128, command: CommandView, after: Outcome) -> bool {
        exists|fresh: u128|
            (command is RoomCreate ==> crate::ident::is_random(fresh)) && (command is RoomCreate
                && self.has_client(client_id) ==> crate::ident::reads_back(fresh))
                && #[trigger] self.applies(client_id, command, fresh, after)
    }
}

/// Reads the identifier that a field names.
fn read_id(field: &Value) -> (id: Option<u128>)
    ensures
        id == named_id(json_of(*field)),
{
    match crate::json::as_text(field) {
        Some(text) => crate::ident::parse(text.as_str()),
        None => None,
    }
}

impl Command {
    /// Reads the command that a message stands for.
    pub fn decode(message: &Value) -> (decoded: Command)
        ensures
            decoded@ == command(json_of(*message)),
    {
        let action = crate::json::get(message, "action");
        let target = crate::json::get(message, "target");
        if crate::json::is_text(action, "ROOM_CREATE") {
            Command::RoomCreate
        } else if crate::json::is_text(action, "ROOMS_SUBSCRIBE") {
            Command::RoomsSubscribe
        } else if crate::json::is_text(action, "ROOMS_UNSUBSCRIBE") {
            Command::RoomsUnsubscribe
        } else if crate::json::is_text(action, "ROOMS_LIST") {
            Command::RoomsList
        } else if crate::json::is_text(action, "ROOM_JOIN") {
            match read_id(crate::json::get(message, "room_id")) {
                Some(room_id) => Command::RoomJoin { room_id },
                None => Command::Ignored,
            }
        } else if crate::json::is_text(action, "ROOM_CLIENTS_LIST") {
            match read_id(crate::json::get(message, "room_id")) {
                Some(room_id) => Command::RoomClientsList { room_id },
                None => Command::Ignored,
            }
        } else if crate::json::is_text(crate::json::get(target, "type"), "ROOM") {
            match read_id(crate::json::get(target, "id")) {
                Some(room_id) => Command::Room { room_id, command: RoomCommand::decode(message) },
                None => Command::Ignored,
            }
        } else {
            Command::Ignored
        }
    }
}

impl View for WebSocketClient {
    type V = ClientView;

    open(crate) spec fn view(&self) -> ClientView {
        ClientView {
            id: self.id,
            rooms: self.rooms@,
            subscribed: self.subscribe_rooms,
            forwarding: self.subscribe_rooms_is_running,
        }
    }
}

impl WebSocketClient {
    /// A client with a given identifier that has just connected.
    pub fn identified(id: u128) -> (client: Self)
        ensures
            client@ == ClientView::connected(id),
            client@.wf(),
    {
        WebSocketClient {
            id,
            rooms: HashSet::new(),
            subscribe_rooms: false,
            subscribe_rooms_is_running: false,
        }
    }

    /// A client that has just connected, under a fresh identifier of the
    /// random kind.
    pub fn new() -> (client: Self)
        ensures
            client@ == ClientView::connected(client@.id),
            crate::ident::is_random(client@.id),
            client@.wf(),
    {
        Self::identified(crate::ident::fresh())
    }

    /// Makes a client a member of a room, and lets the room know.
    pub fn join_room(
        engine: &mut ChatEngine,
        client_id: &u128,
        room_id: &u128,
    ) -> (effects: Vec<Effect>)
        ensures
            final(engine)@ == old(engine)@.joined(*client_id, *room_id).engine,
            views(effects@) == old(engine)@.joined(*client_id, *room_id).effects,
            views(effects@).len() > 0 ==> crate::ident::reads_back(*room_id)
                && crate::ident::reads_back(*client_id),
            old(engine)@.wf() ==> final(engine)@.wf(),
    {
        proof {
            if engine@.wf() {
                crate::api::chat::laws::lemma_joined_wf(engine@, *client_id, *room_id);
            }
        }
        let mut effects: Vec<Effect> = Vec::new();
        if engine.get_room(room_id).is_some() && engine.get_client(client_id).is_some() {
            match engine.take_room(room_id) {
                Some(mut room) => {
                    room.client_add(client_id);
                    engine.put_room(*room_id, room);
                },
                None => {},
            }
            match engine.take_client(client_id) {
                Some(mut client) => {
                    client.rooms.insert(*room_id);
                    engine.put_client(*client_id, client);
                },
                None => {},
            }
            effects.push(Effect::Forward { client_id: *client_id, topic: Topic::Room(*room_id) });
            let value = crate::api::chat::event::tagged(
                crate::api::chat::event::room_join(*room_id, *client_id),
                Some(*client_id),
                *room_id,
            );
            effects.push(Effect::Publish { topic: Topic::Room(*room_id), value });
        }
        assert(engine@.clients =~= old(engine)@.joined(*client_id, *room_id).engine.clients);
        assert(engine@.rooms =~= old(engine)@.joined(*client_id, *room_id).engine.rooms);
        assert(views(effects@) =~= old(engine)@.joined(*client_id, *room_id).effects);
        effects
    }

    /// Subscribes a client to the directory of rooms.
    pub fn subscribe_rooms(engine: &mut ChatEngine, client_id: &u128) -> (effects: Vec<Effect>)
        ensures
            final(engine)@ == old(engine)@.subscribed(*client_id).engine,
            views(effects@) == old(engine)@.subscribed(*client_id).effects,
            old(engine)@.wf() ==> final(engine)@.wf(),
    {
        proof {
            if engine@.wf() {
                crate::api::chat::laws::lemma_subscription_wf(
                    engine@,
                    *client_id,
                    RelayView::stop(),
                );
            }
        }
        let mut effects: Vec<Effect> = Vec::new();
        match engine.take_client(client_id) {
            Some(mut client) => {
                client.subscribe_rooms = true;
                if !client.subscribe_rooms_is_running {
                    client.subscribe_rooms_is_running = true;
                    effects.push(Effect::Forward { client_id: *client_id, topic: Topic::Rooms });
                }
                engine.put_client(*client_id, client);
            },
            None => {},
        }
        assert(engine@.clients =~= old(engine)@.subscribed(*client_id).engine.clients);
        assert(views(effects@) =~= old(engine)@.subscribed(*client_id).effects);
        effects
    }

    /// Ends a client's subscription to the directory of rooms.
    pub fn unsubscribe_rooms(engine: &mut ChatEngine, client_id: &u128)
        ensures
            final(engine)@ == old(engine)@.unsubscribed(*client_id),
            old(engine)@.wf() ==> final(engine)@.wf(),
    {
        proof {
            if engine@.wf() {
                crate::api::chat::laws::lemma_subscription_wf(
                    engine@,
                    *client_id,
                    RelayView::stop(),
                );
            }
        }
        match engine.take_client(client_id) {
            Some(mut client) => {
                client.subscribe_rooms = false;
                engine.put_client(*client_id, client);
            },
            None => {},
        }
        assert(engine@.clients =~= old(engine)@.unsubscribed(*client_id).clients);
    }

    /// The text that goes on the wire for a value.
    pub fn send(&self, value: &Value) -> (text: String)
        ensures
            text@ == json_text(json_of(*value)),
    {
        crate::json::render(value)
    }

    /// Sends a client the list of rooms. Each identifier in the list reads
    /// back.
    pub fn send_rooms_list(engine: &ChatEngine, client_id: &u128) -> (effects: Vec<Effect>)
        ensures
            engine@.sends_rooms_list(*client_id, views(effects@)),
            engine@.has_client(*client_id) ==> forall|id: u128| #[trigger]
                engine@.has_room(id) ==> crate::ident::reads_back(id),
    {
        let mut effects: Vec<Effect> = Vec::new();
        let rooms = engine.get_rooms_list();
        if engine.get_client(client_id).is_some() {
            let value = crate::api::chat::event::rooms_list(&rooms);
            effects.push(Effect::Send { client_id: *client_id, value });
            assert forall|id: u128| #[trigger] engine@.has_room(id) implies crate::ident::reads_back(
                id,
            ) by {
                assert(rooms@.to_set().contains(id));
                let i = choose|i: int| 0 <= i < rooms@.len() && rooms@[i] == id;
                assert(crate::ident::reads_back(rooms@[i]));
            }
        }
        assert(views(effects@) =~= engine@.rooms_list_sent(*client_id, rooms@));
        effects
    }

    /// Sends a client the members of a room. Each identifier in the list
    /// reads back.
    pub fn send_room_clients_list(
        engine: &ChatEngine,
        client_id: &u128,
        room_id: &u128,
    ) -> (effects: Vec<Effect>)
        ensures
            engine@.sends_room_clients_list(*client_id, *room_id, views(effects@)),
            views(effects@).len() > 0 ==> crate::ident::reads_back(*room_id) && forall|id: u128|
                #[trigger] engine@.room(*room_id).clients.contains(id) ==> crate::ident::reads_back(
                    id,
                ),
    {
        let mut effects: Vec<Effect> = Vec::new();
        let ghost mut order: Seq<u128> = Seq::empty();
        proof {
            lemma_lists_nothing(order);
        }
        match engine.get_room(room_id) {
            Some(room) => {
                let clients = room.get_clients_list();
                proof {
                    order = clients@;
                }
                if engine.get_client(client_id).is_some() {
                    let value = crate::api::chat::event::room_clients_list(&clients, *room_id);
                    effects.push(Effect::Send { client_id: *client_id, value });
                    assert forall|id: u128| #[trigger]
                        engine@.room(*room_id).clients.contains(
                            id,
                        ) implies crate::ident::reads_back(id) by {
                        assert(clients@.to_set().contains(id));
                        let i = choose|i: int| 0 <= i < clients@.len() && clients@[i] == id;
                        assert(crate::ident::reads_back(clients@[i]));
                    }
                }
            },
            None => {},
        }
        assert(views(effects@) =~= engine@.room_clients_list_sent(*client_id, *room_id, order));
        effects
    }

    /// Carries out a client's command. `fresh` is the identifier that a room
    /// gets if the command creates one.
    pub fn apply(
        engine: &mut ChatEngine,
        client_id: &u128,
        command: Command,
        fresh: u128,
    ) -> (effects: Vec<Effect>)
        ensures
            old(engine)@.applies(
                *client_id,
                command@,
                fresh,
                Outcome { engine: final(engine)@, effects: views(effects@) },
            ),
            command@ is RoomCreate && old(engine)@.has_client(*client_id)
                ==> crate::ident::reads_back(fresh),
            old(engine)@.wf() ==> final(engine)@.wf(),
    {
        let mut effects: Vec<Effect> = Vec::new();
        let ghost mut order: Seq<u128> = Seq::empty();
        proof {
            lemma_lists_nothing(order);
            assert(views(effects@) =~= Seq::<EffectView>::empty());
        }
        if engine.get_client(client_id).is_some() {
            match command {
                Command::RoomCreate => {
                    effects = engine.room_add(WebSocketRoom::identified(fresh, client_id));
                    let ghost made = views(effects@);
                    let mut more = Self::join_room(engine, client_id, &fresh);
                    let ghost joined = views(more@);
                    effects.append(&mut more);
                    assert(views(effects@) =~= made + joined);
                },
                Command::RoomsSubscribe => {
                    effects = Self::subscribe_rooms(engine, client_id);
                    let ghost subscribed = views(effects@);
                    let mut more = Self::send_rooms_list(engine, client_id);
                    let ghost sent = views(more@);
                    proof {
                        order = choose|order: Seq<u128>|
                            lists(order, engine@.room_ids()) && #[trigger] engine@.rooms_list_sent(
                                *client_id,
                                order,
                            ) == sent;
                    }
                    effects.append(&mut more);
                    assert(views(effects@) =~= subscribed + sent);
                },
                Command::RoomsUnsubscribe => {
                    Self::unsubscribe_rooms(engine, client_id);
                },
                Command::RoomsList => {
                    effects = Self::send_rooms_list(engine, client_id);
                    proof {
                        order = choose|order: Seq<u128>|
                            lists(order, engine@.room_ids()) && #[trigger] engine@.rooms_list_sent(
                                *client_id,
                                order,
                            ) == views(effects@);
                    }
                },
                Command::RoomJoin { room_id } => {
                    effects = Self::join_room(engine, client_id, &room_id);
                },
                Command::RoomClientsList { room_id } => {
                    effects = Self::send_room_clients_list(engine, client_id, &room_id);
                    proof {
                        order = choose|order: Seq<u128>|
                            lists(order, engine@.members_of(room_id))
                                && #[trigger] engine@.room_clients_list_sent(
                                *client_id,
                                room_id,
                                order,
                            ) == views(effects@);
                    }
                },
                Command::Room { room_id, command } => {
                    effects = WebSocketRoom::apply(engine, &room_id, command, Some(client_id));
                },
                Command::Ignored => {},
            }
        }
        proof {
            let after = Outcome { engine: engine@, effects: views(effects@) };
            assert(old(engine)@.has_client(*client_id) ==> lists(
                order,
                old(engine)@.listed_by(command@),
            ));
            assert(old(engine)@.executed(*client_id, command@, fresh, order) == after);
            if old(engine)@.wf() {
                crate::api::chat::laws::lemma_executed_wf(
                    old(engine)@,
                    *client_id,
                    command@,
                    fresh,
                    order,
                );
            }
        }
        effects
    }

    /// Carries out the command that a message stands for. A room that the
    /// command creates gets a fresh identifier.
    pub fn exec(engine: &mut ChatEngine, client_id: &u128, value: &Value) -> (effects: Vec<Effect>)
        ensures
            old(engine)@.executes(
                *client_id,
                command(json_of(*value)),
                Outcome { engine: final(engine)@, effects: views(effects@) },
            ),
            old(engine)@.wf() ==> final(engine)@.wf(),
    {
        let command = Command::decode(value);
        let fresh = match command {
            Command::RoomCreate => crate::ident::fresh(),
            _ => 0,
        };
        let effects = Self::apply(engine, client_id, command, fresh);
        assert(old(engine)@.applies(
            *client_id,
            command@,
            fresh,
            Outcome { engine: engine@, effects: views(effects@) },
        ));
        effects
    }

    /// One step of the task that forwards a room to a client.
    pub fn forward_room(
        engine: &ChatEngine,
        client_id: &u128,
        room_id: &u128,
        received: Received,
    ) -> (relay: Relay)
        ensures
            relay@ == engine@.room_relayed(*client_id, *room_id, received@),
    {
        match received {
            Received::Value(value) => {
                if exit_signal(&value, *client_id) {
                    Relay { deliver: None, proceed: false }
                } else {
                    match engine.get_room(room_id) {
                        Some(room) => {
                            if room.has_client(client_id) && engine.get_client(client_id).is_some() {
                                Relay { deliver: Some(value), proceed: true }
                            } else {
                                Relay { deliver: None, proceed: false }
                            }
                        },
                        None => Relay { deliver: None, proceed: true },
                    }
                }
            },
            _ => Relay { deliver: None, proceed: false },
        }
    }

    /// One step of the task that forwards the directory to a client.
    pub fn forward_rooms(engine: &mut ChatEngine, client_id: &u128, received: Received) -> (relay: Relay)
        ensures
            relay@ == old(engine)@.rooms_relayed(*client_id, received@),
            final(engine)@ == old(engine)@.rooms_relay_noted(*client_id, relay@),
            old(engine)@.wf() ==> final(engine)@.wf(),
    {
        let subscribed = match engine.get_client(client_id) {
            Some(client) => client.subscribe_rooms,
            None => false,
        };
        let relay = match received {
            Received::Value(value) => {
                if subscribed {
                    Relay { deliver: Some(value), proceed: true }
                } else {
                    Relay { deliver: None, proceed: false }
                }
            },
            _ => Relay { deliver: None, proceed: false },
        };
        if !relay.proceed {
            match engine.take_client(client_id) {
                Some(mut client) => {
                    client.subscribe_rooms_is_running = false;
                    engine.put_client(*client_id, client);
                },
                None => {},
            }
        }
        assert(engine@.clients =~= old(engine)@.rooms_relay_noted(*client_id, relay@).clients);
        proof {
            if old(engine)@.wf() {
                crate::api::chat::laws::lemma_subscription_wf(old(engine)@, *client_id, relay@);
            }
        }
        relay
    }

    /// The client's identifier.
    pub fn get_id(&self) -> (id: &u128)
        ensures
            *id == self@.id,
    {
        &self.id
    }

    /// The rooms the client has joined, each once, in the order in which
    /// the set is walked.
    pub fn get_client_rooms(&self) -> (rooms: Vec<u128>)
        ensures
            lists(rooms@, self@.rooms),
    {
        crate::ids::listed(&self.rooms)
    }
}

} // verus!
