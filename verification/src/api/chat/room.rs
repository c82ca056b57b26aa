//! One chat room: who created it and who is in it.
use vstd::prelude::*;
use crate::api::chat::engine::{ChatEngine, EngineView, Outcome};
use crate::api::chat::event::{
    room_exit_json, room_removal_json, tagged_json, views, Effect, EffectView, Topic,
};
use crate::ids::lists;
use crate::json::{accepts_members, json_of, member, text_of, Json};
use serde_json::Value;
use std::collections::HashSet;

verus! {

broadcast use vstd::std_specs::hash::group_hash_axioms;

/// A room of the hub.
pub struct WebSocketRoom {
    pub(crate) id: u128,
    pub(crate) creator: u128,
    pub(crate) clients: HashSet<u128>,
}

/// A room as a value: its identifier, the client recorded as its creator,
/// and its members.
pub struct RoomView {
    pub id: u128,
    pub creator: u128,
    pub clients: Set<u128>,
}

impl RoomView {
    /// The room has finitely many members.
    pub open spec fn wf(self) -> bool {
        self.clients.finite()
    }

    /// The room with `client_id` among its members.
    pub open spec fn with_client(self, client_id: u128) -> RoomView {
        RoomView { clients: self.clients.insert(client_id), ..self }
    }

    /// The room without `client_id` among its members.
    pub open spec fn without_client(self, client_id: u128) -> RoomView {
        RoomView { clients: self.clients.remove(client_id), ..self }
    }
}

/// What a room can be asked to do.
#[derive(Debug)]
pub enum RoomCommand {
    /// Publish `data` to the room.
    Broadcast { data: Value },
    /// Take the sender out of the room.
    Exit,
    /// Anything else: nothing is done.
    Ignored,
}

/// A room command with its payload taken by content.
pub ghost enum RoomCommandView {
    Broadcast { data: Json },
    Exit,
    Ignored,
}

impl View for RoomCommand {
    type V = RoomCommandView;

    open spec fn view(&self) -> RoomCommandView {
        match *self {
            RoomCommand::Broadcast { data } => RoomCommandView::Broadcast { data: json_of(data) },
            RoomCommand::Exit => RoomCommandView::Exit,
            RoomCommand::Ignored => RoomCommandView::Ignored,
        }
    }
}

/// The room command that a message stands for. Its `action` decides:
/// `BROADCAST` publishes the member `data`; `ROOM_EXIT` is an exit; every
/// other message is ignored.
pub open spec fn room_command(message: Json) -> RoomCommandView {
    if text_of(member(message, "action"@)) == Some("BROADCAST"@) {
        RoomCommandView::Broadcast { data: member(message, "data"@) }
    } else if text_of(member(message, "action"@)) == Some("ROOM_EXIT"@) {
        RoomCommandView::Exit
    } else {
        RoomCommandView::Ignored
    }
}

impl EngineView {
    /// A client leaves a room. Where the room is registered, the client is
    /// no longer among its members nor the room among the client's rooms; a
    /// room left without members is removed, which the directory hears of;
    /// and the room hears of the exit in either case. Where the room is not
    /// registered, nothing happens.
    pub open spec fn left(self, room_id: u128, client_id: u128) -> Outcome {
        if self.has_room(room_id) {
            let room = self.room(room_id).without_client(client_id);
            let clients = if self.has_client(client_id) {
                self.clients.insert(client_id, self.client(client_id).without_room(room_id))
            } else {
                self.clients
            };
            let exit = EffectView::Publish {
                topic: Topic::Room(room_id),
                value: room_exit_json(client_id, room_id),
            };
            if room.clients.is_empty() {
                Outcome {
                    engine: EngineView { clients, rooms: self.rooms.remove(room_id) },
                    effects: seq![
                        EffectView::Publish {
                            topic: Topic::Rooms,
                            value: room_removal_json(room_id),
                        },
                        exit,
                    ],
                }
            } else {
                Outcome {
                    engine: EngineView { clients, rooms: self.rooms.insert(room_id, room) },
                    effects: seq![exit],
                }
            }
        } else {
            Outcome { engine: self, effects: Seq::empty() }
        }
    }

    /// A room carries out a command for a sender. A broadcast is published
    /// to the room, marked with the sender and the room; a payload that
    /// cannot be marked, being neither an object nor `null`, is dropped. An
    /// exit takes the sender out of the room, and does nothing where no
    /// sender is named. Where the room is not registered, nothing happens.
    pub open spec fn room_executed(
        self,
        room_id: u128,
        command: RoomCommandView,
        sender: Option<u128>,
    ) -> Outcome {
        if !self.has_room(room_id) {
            Outcome { engine: self, effects: Seq::empty() }
        } else {
            match command {
                RoomCommandView::Broadcast { data } => Outcome {
                    engine: self,
                    effects: if accepts_members(data) {
                        seq![
                            EffectView::Publish {
                                topic: Topic::Room(room_id),
                                value: tagged_json(data, sender, room_id),
                            },
                        ]
                    } else {
                        Seq::empty()
                    },
                },
                RoomCommandView::Exit => match sender {
                    Some(client_id) => self.left(room_id, client_id),
                    None => Outcome { engine: self, effects: Seq::empty() },
                },
                RoomCommandView::Ignored => Outcome { engine: self, effects: Seq::empty() },
            }
        }
    }
}

impl RoomCommand {
    /// Reads the room command that a message stands for.
    pub fn decode(message: &Value) -> (command: RoomCommand)
        ensures
            command@ == room_command(json_of(*message)),
    {
        let action = crate::json::get(message, "action");
        if crate::json::is_text(action, "BROADCAST") {
            RoomCommand::Broadcast { data: crate::json::copy(crate::json::get(message, "data")) }
        } else if crate::json::is_text(action, "ROOM_EXIT") {
            RoomCommand::Exit
        } else {
            RoomCommand::Ignored
        }
    }
}

impl View for WebSocketRoom {
    type V = RoomView;

    open(crate) spec fn view(&self) -> RoomView {
        RoomView { id: self.id, creator: self.creator, clients: self.clients@ }
    }
}

impl WebSocketRoom {
    /// An empty room with a given identifier.
    pub fn identified(id: u128, creator: &u128) -> (room: Self)
        ensures
            room@ == (RoomView { id, creator: *creator, clients: Set::empty() }),
            room@.wf(),
    {
        WebSocketRoom { id, creator: *creator, clients: HashSet::new() }
    }

    /// An empty room with a fresh identifier of the random kind.
    pub fn new(creator: &u128) -> (room: Self)
        ensures
            room@ == (RoomView { id: room@.id, creator: *creator, clients: Set::empty() }),
            crate::ident::is_random(room@.id),
            room@.wf(),
    {
        Self::identified(crate::ident::fresh(), creator)
    }

    /// Makes `client_id` a member.
    pub fn client_add(&mut self, client_id: &u128)
        ensures
            final(self)@ == old(self)@.with_client(*client_id),
            old(self)@.wf() ==> final(self)@.wf(),
    {
        self.clients.insert(*client_id);
    }

    /// The client that created the room.
    pub fn get_creator(&self) -> (creator: &u128)
        ensures
            *creator == self@.creator,
    {
        &self.creator
    }

    /// The room's identifier.
    pub fn get_id(&self) -> (id: &u128)
        ensures
            *id == self@.id,
    {
        &self.id
    }

    /// The members, each once, in the order in which the set is walked.
    pub fn get_clients_list(&self) -> (clients: Vec<u128>)
        ensures
            lists(clients@, self@.clients),
    {
        crate::ids::listed(&self.clients)
    }

    /// Creates an empty room with a fresh identifier of the random kind and
    /// registers it. Returns the identifier.
    pub fn create_room(engine: &mut ChatEngine, creator: &u128) -> (created: (u128, Vec<Effect>))
        ensures
            final(engine)@ == old(engine)@.room_added(
                RoomView { id: created.0, creator: *creator, clients: Set::empty() },
            ).engine,
            views(created.1@) == old(engine)@.room_added(
                RoomView { id: created.0, creator: *creator, clients: Set::empty() },
            ).effects,
            crate::ident::is_random(created.0),
            crate::ident::reads_back(created.0),
            old(engine)@.wf() ==> final(engine)@.wf(),
    {
        let room = WebSocketRoom::new(creator);
        let id = room.id;
        let effects = engine.room_add(room);
        (id, effects)
    }

    /// Takes a client out of a room of the registry.
    pub fn remove_client(
        engine: &mut ChatEngine,
        room_id: &u128,
        client_id: &u128,
    ) -> (effects: Vec<Effect>)
        ensures
            final(engine)@ == old(engine)@.left(*room_id, *client_id).engine,
            views(effects@) == old(engine)@.left(*room_id, *client_id).effects,
            old(engine)@.wf() ==> final(engine)@.wf(),
    {
        proof {
            if engine@.wf() {
                crate::api::chat::laws::lemma_left_wf(engine@, *room_id, *client_id);
            }
        }
        let mut effects: Vec<Effect> = Vec::new();
        match engine.take_room(room_id) {
            Some(mut room) => {
                room.clients.remove(client_id);
                let emptied = room.clients.is_empty();
                engine.put_room(*room_id, room);
                match engine.take_client(client_id) {
                    Some(mut client) => {
                        client.rooms.remove(room_id);
                        engine.put_client(*client_id, client);
                    },
                    None => {},
                }
                if emptied {
                    effects = engine.room_remove(room_id);
                }
                let ghost removal = views(effects@);
                let ghost exit = EffectView::Publish {
                    topic: Topic::Room(*room_id),
                    value: room_exit_json(*client_id, *room_id),
                };
                effects.push(
                    Effect::Publish {
                        topic: Topic::Room(*room_id),
                        value: crate::api::chat::event::room_exit(*client_id, *room_id),
                    },
                );
                assert(views(effects@) =~= removal.push(exit));
            },
            None => {},
        }
        assert(engine@.clients =~= old(engine)@.left(*room_id, *client_id).engine.clients);
        assert(engine@.rooms =~= old(engine)@.left(*room_id, *client_id).engine.rooms);
        assert(views(effects@) =~= old(engine)@.left(*room_id, *client_id).effects);
        effects
    }

    /// Carries out a command for a sender in a room of the registry.
    pub fn apply(
        engine: &mut ChatEngine,
        room_id: &u128,
        command: RoomCommand,
        sender: Option<&u128>,
    ) -> (effects: Vec<Effect>)
        ensures
            final(engine)@ == old(engine)@.room_executed(
                *room_id,
                command@,
                match sender { Some(id) => Some(*id), None => None },
            ).engine,
            views(effects@) == old(engine)@.room_executed(
                *room_id,
                command@,
                match sender { Some(id) => Some(*id), None => None },
            ).effects,
            old(engine)@.wf() ==> final(engine)@.wf(),
    {
        proof {
            if engine@.wf() {
                crate::api::chat::laws::lemma_room_executed_wf(
                    engine@,
                    *room_id,
                    command@,
                    match sender { Some(id) => Some(*id), None => None },
                );
            }
        }
        let mut effects: Vec<Effect> = Vec::new();
        if engine.get_room(room_id).is_some() {
            match command {
                RoomCommand::Broadcast { data } => {
                    let from = match sender {
                        Some(id) => Some(*id),
                        None => None,
                    };
                    if crate::json::is_object(&data) || crate::json::is_null(&data) {
                        let value = crate::api::chat::event::tagged(data, from, *room_id);
                        effects.push(Effect::Publish { topic: Topic::Room(*room_id), value });
                    }
                },
                RoomCommand::Exit => match sender {
                    Some(client_id) => {
                        effects = Self::remove_client(engine, room_id, client_id);
                    },
                    None => {},
                },
                RoomCommand::Ignored => {},
            }
        }
        assert(views(effects@) =~= old(engine)@.room_executed(
            *room_id,
            command@,
            match sender { Some(id) => Some(*id), None => None },
        ).effects);
        effects
    }

    /// Carries out the command that a message stands for.
    pub fn exec(
        engine: &mut ChatEngine,
        room_id: &u128,
        value: &Value,
        sender: Option<&u128>,
    ) -> (effects: Vec<Effect>)
        ensures
            final(engine)@ == old(engine)@.room_executed(
                *room_id,
                room_command(json_of(*value)),
                match sender { Some(id) => Some(*id), None => None },
            ).engine,
            views(effects@) == old(engine)@.room_executed(
                *room_id,
                room_command(json_of(*value)),
                match sender { Some(id) => Some(*id), None => None },
            ).effects,
            old(engine)@.wf() ==> final(engine)@.wf(),
    {
        Self::apply(engine, room_id, RoomCommand::decode(value), sender)
    }

    /// The topic to subscribe to for what the room publishes.
    pub fn get_listener(&self) -> (topic: Topic)
        ensures
            topic == Topic::Room(self@.id),
    {
        Topic::Room(self.id)
    }

    /// Whether `client_id` is a member.
    pub fn has_client(&self, client_id: &u128) -> (found: bool)
        ensures
            found == self@.clients.contains(*client_id),
    {
        self.clients.contains(client_id)
    }
}

} // verus!
