//! The registry of the hub: which clients and which rooms exist.
use vstd::prelude::*;
use crate::api::chat::client::{ClientView, WebSocketClient};
use crate::api::chat::event::{
    room_creation_json, room_removal_json, views, Effect, EffectView, Topic,
};
use crate::api::chat::room::{RoomView, WebSocketRoom};
use crate::ids::lists;
use std::collections::HashMap;

verus! {

broadcast use vstd::std_specs::hash::group_hash_axioms;

/// The registry: it owns every client and every room.
pub struct ChatEngine {
    pub(crate) clients: HashMap<u128, WebSocketClient>,
    pub(crate) rooms: HashMap<u128, WebSocketRoom>,
}

/// The registry as a value: the clients and the rooms, each under its
/// identifier.
pub struct EngineView {
    pub clients: Map<u128, ClientView>,
    pub rooms: Map<u128, RoomView>,
}

/// A registry after an operation, with what the operation asks to be done.
pub struct Outcome {
    pub engine: EngineView,
    pub effects: Seq<EffectView>,
}

impl EngineView {
    /// The registry without clients and rooms.
    pub open spec fn empty() -> EngineView {
        EngineView { clients: Map::empty(), rooms: Map::empty() }
    }

    /// The identifiers of the clients.
    pub open spec fn client_ids(self) -> Set<u128> {
        self.clients.dom()
    }

    /// The identifiers of the rooms.
    pub open spec fn room_ids(self) -> Set<u128> {
        self.rooms.dom()
    }

    /// Whether a client with this identifier is registered.
    pub open spec fn has_client(self, id: u128) -> bool {
        self.clients.contains_key(id)
    }

    /// Whether a room with this identifier is registered.
    pub open spec fn has_room(self, id: u128) -> bool {
        self.rooms.contains_key(id)
    }

    /// The client with this identifier.
    pub open spec fn client(self, id: u128) -> ClientView
        recommends
            self.has_client(id),
    {
        self.clients[id]
    }

    /// The room with this identifier.
    pub open spec fn room(self, id: u128) -> RoomView
        recommends
            self.has_room(id),
    {
        self.rooms[id]
    }

    /// There are finitely many clients and rooms, each is registered under
    /// its own identifier, and each is well formed.
    pub open spec fn wf(self) -> bool {
        &&& self.clients.dom().finite()
        &&& self.rooms.dom().finite()
        &&& forall|id: u128| #[trigger]
            self.clients.contains_key(id) ==> self.clients[id].id == id && self.clients[id].wf()
        &&& forall|id: u128| #[trigger]
            self.rooms.contains_key(id) ==> self.rooms[id].id == id && self.rooms[id].wf()
    }

    /// The registry with `client` in it, in the place of the client with
    /// the same identifier where there is one.
    pub open spec fn with_client(self, client: ClientView) -> EngineView {
        EngineView { clients: self.clients.insert(client.id, client), ..self }
    }

    /// The registry without the client with this identifier.
    pub open spec fn without_client(self, id: u128) -> EngineView {
        EngineView { clients: self.clients.remove(id), ..self }
    }

    /// The registry with `room` in it, in the place of the room with the
    /// same identifier where there is one.
    pub open spec fn with_room(self, room: RoomView) -> EngineView {
        EngineView { rooms: self.rooms.insert(room.id, room), ..self }
    }

    /// The registry without the room with this identifier.
    pub open spec fn without_room(self, id: u128) -> EngineView {
        EngineView { rooms: self.rooms.remove(id), ..self }
    }

    /// Registering a room: the registry holds it, and the directory hears of
    /// its creation.
    pub open spec fn room_added(self, room: RoomView) -> Outcome {
        Outcome {
            engine: self.with_room(room),
            effects: seq![
                EffectView::Publish {
                    topic: Topic::Rooms,
                    value: room_creation_json(room.id, room.creator),
                },
            ],
        }
    }

    /// Removing a room: where it was registered it is so no longer, and the
    /// directory hears of its removal; else nothing happens.
    pub open spec fn room_removed(self, id: u128) -> Outcome {
        if self.has_room(id) {
            Outcome {
                engine: self.without_room(id),
                effects: seq![
                    EffectView::Publish { topic: Topic::Rooms, value: room_removal_json(id) },
                ],
            }
        } else {
            Outcome { engine: self, effects: Seq::empty() }
        }
    }

    /// A client leaves the rooms of a list, one after the other.
    pub open spec fn left_all(self, rooms: Seq<u128>, client_id: u128) -> Outcome
        decreases rooms.len(),
    {
        if rooms.len() == 0 {
            Outcome { engine: self, effects: Seq::empty() }
        } else {
            let first = self.left(rooms[0], client_id);
            let rest = first.engine.left_all(rooms.drop_first(), client_id);
            Outcome { engine: rest.engine, effects: first.effects + rest.effects }
        }
    }

    /// Removing a client: where it is registered it is so no longer, and it
    /// leaves the rooms that it had joined one after the other, in the
    /// order `order`; else nothing happens.
    pub open spec fn client_removed(self, id: u128, order: Seq<u128>) -> Outcome {
        if self.has_client(id) {
            self.without_client(id).left_all(order, id)
        } else {
            Outcome { engine: self, effects: Seq::empty() }
        }
    }

    /// Whether removing a client can lead from this registry to `after`: it
    /// does so for some order in which the client leaves the rooms that it
    /// had joined, each once.
    pub open spec fn removes(self, id: u128, after: Outcome) -> bool {
        exists|order: Seq<u128>|
            (self.has_client(id) ==> lists(order, self.client(id).rooms))
                && #[trigger] self.client_removed(id, order) == after
    }
}

impl View for ChatEngine {
    type V = EngineView;

    open(crate) spec fn view(&self) -> EngineView {
        EngineView {
            clients: Map::new(
                |id: u128| self.clients@.contains_key(id),
                |id: u128| self.clients@[id]@,
            ),
            rooms: Map::new(|id: u128| self.rooms@.contains_key(id), |id: u128| self.rooms@[id]@),
        }
    }
}

impl Default for ChatEngine {
    fn default() -> (engine: Self)
        ensures
            engine@ == EngineView::empty(),
            engine@.wf(),
    {
        let engine = ChatEngine { clients: HashMap::new(), rooms: HashMap::new() };
        assert(engine@.clients =~= Map::empty());
        assert(engine@.rooms =~= Map::empty());
        engine
    }
}

impl ChatEngine {
    /// Takes the client with this identifier out of the registry.
    pub(crate) fn take_client(&mut self, id: &u128) -> (taken: Option<WebSocketClient>)
        ensures
            match taken {
                Some(client) => old(self)@.has_client(*id) && client@ == old(self)@.client(*id)
                    && final(self)@ == old(self)@.without_client(*id),
                None => !old(self)@.has_client(*id) && final(self)@ == old(self)@,
            },
    {
        let taken = self.clients.remove(id);
        assert(self@.clients =~= if taken is Some {
            old(self)@.clients.remove(*id)
        } else {
            old(self)@.clients
        });
        assert(self@.rooms =~= old(self)@.rooms);
        taken
    }

    /// Puts a client into the registry under an identifier.
    pub(crate) fn put_client(&mut self, id: u128, client: WebSocketClient)
        ensures
            final(self)@ == (EngineView {
                clients: old(self)@.clients.insert(id, client@),
                ..old(self)@
            }),
    {
        self.clients.insert(id, client);
        assert(self@.clients =~= old(self)@.clients.insert(id, client@));
        assert(self@.rooms =~= old(self)@.rooms);
    }

    /// Takes the room with this identifier out of the registry.
    pub(crate) fn take_room(&mut self, id: &u128) -> (taken: Option<WebSocketRoom>)
        ensures
            match taken {
                Some(room) => old(self)@.has_room(*id) && room@ == old(self)@.room(*id)
                    && final(self)@ == old(self)@.without_room(*id),
                None => !old(self)@.has_room(*id) && final(self)@ == old(self)@,
            },
    {
        let taken = self.rooms.remove(id);
        assert(self@.rooms =~= if taken is Some {
            old(self)@.rooms.remove(*id)
        } else {
            old(self)@.rooms
        });
        assert(self@.clients =~= old(self)@.clients);
        taken
    }

    /// Puts a room into the registry under an identifier.
    pub(crate) fn put_room(&mut self, id: u128, room: WebSocketRoom)
        ensures
            final(self)@ == (EngineView { rooms: old(self)@.rooms.insert(id, room@), ..old(self)@ }),
    {
        self.rooms.insert(id, room);
        assert(self@.rooms =~= old(self)@.rooms.insert(id, room@));
        assert(self@.clients =~= old(self)@.clients);
    }

    /// Looks a room up by its identifier.
    pub fn get_room(&self, room_id: &u128) -> (found: Option<&WebSocketRoom>)
        ensures
            match found {
                Some(room) => self@.has_room(*room_id) && room@ == self@.room(*room_id),
                None => !self@.has_room(*room_id),
            },
    {
        self.rooms.get(room_id)
    }

    /// Looks a client up by its identifier.
    pub fn get_client(&self, client_id: &u128) -> (found: Option<&WebSocketClient>)
        ensures
            match found {
                Some(client) => self@.has_client(*client_id) && client@ == self@.client(*client_id),
                None => !self@.has_client(*client_id),
            },
    {
        self.clients.get(client_id)
    }

    /// Registers a client. A client that had the same identifier gives way
    /// to it.
    pub fn register_client(&mut self, client: WebSocketClient)
        ensures
            final(self)@ == old(self)@.with_client(client@),
            old(self)@.wf() && client@.wf() ==> final(self)@.wf(),
    {
        proof {
            if self@.wf() && client@.wf() {
                crate::api::chat::laws::lemma_registered_wf(
                    self@,
                    client@,
                    RoomView { id: 0, creator: 0, clients: Set::empty() },
                );
            }
        }
        let id = client.id;
        self.put_client(id, client);
    }

    /// Registers a client under a fresh identifier of the random kind, which
    /// it returns.
    pub fn create_client(&mut self) -> (id: u128)
        ensures
            final(self)@ == old(self)@.with_client(ClientView::connected(id)),
            crate::ident::is_random(id),
            old(self)@.wf() ==> final(self)@.wf(),
    {
        let client = WebSocketClient::new();
        let id = client.id;
        self.register_client(client);
        id
    }

    /// Removes a client and takes it out of every room that it had joined.
    /// Where no client has this identifier, nothing happens.
    pub fn remove_client(&mut self, client_id: &u128) -> (effects: Vec<Effect>)
        ensures
            old(self)@.removes(
                *client_id,
                Outcome { engine: final(self)@, effects: views(effects@) },
            ),
            !old(self)@.has_client(*client_id) ==> final(self)@ == old(self)@ && views(effects@)
                == Seq::<EffectView>::empty(),
            old(self)@.wf() ==> final(self)@.wf(),
    {
        let mut effects: Vec<Effect> = Vec::new();
        assert(views(effects@) =~= Seq::<EffectView>::empty());
        match self.take_client(client_id) {
            Some(client) => {
                let rooms = client.get_client_rooms();
                let ghost start = self@;
                let mut i: usize = 0;
                assert(rooms@.skip(0) =~= rooms@);
                proof {
                    if old(self)@.wf() {
                        crate::api::chat::laws::lemma_client_removed_wf(
                            old(self)@,
                            *client_id,
                            rooms@,
                        );
                    }
                }
                while i < rooms.len()
                    invariant
                        i <= rooms@.len(),
                        start.left_all(rooms@, *client_id).engine == self@.left_all(
                            rooms@.skip(i as int),
                            *client_id,
                        ).engine,
                        start.left_all(rooms@, *client_id).effects == views(effects@)
                            + self@.left_all(rooms@.skip(i as int), *client_id).effects,
                    decreases rooms@.len() - i,
                {
                    let ghost sent = views(effects@);
                    let mut more = WebSocketRoom::remove_client(self, &rooms[i], client_id);
                    let ghost step = views(more@);
                    effects.append(&mut more);
                    proof {
                        assert(rooms@.skip(i as int).drop_first() =~= rooms@.skip(i + 1));
                        assert(rooms@.skip(i as int)[0] == rooms@[i as int]);
                        assert(views(effects@) =~= sent + step);
                        let rest = self@.left_all(rooms@.skip(i + 1), *client_id).effects;
                        assert(sent + (step + rest) =~= (sent + step) + rest);
                    }
                    i += 1;
                }
                assert(rooms@.skip(i as int) =~= Seq::<u128>::empty());
                assert(views(effects@) + Seq::<EffectView>::empty() =~= views(effects@));
                assert(old(self)@.client_removed(*client_id, rooms@) == (Outcome {
                    engine: self@,
                    effects: views(effects@),
                }));
            },
            None => {
                assert(old(self)@.client_removed(*client_id, Seq::empty()) == (Outcome {
                    engine: self@,
                    effects: views(effects@),
                }));
            },
        }
        effects
    }

    /// The topic to subscribe to for the directory's events.
    pub fn get_listener(&self) -> (topic: Topic)
        ensures
            topic == Topic::Rooms,
    {
        Topic::Rooms
    }

    /// The identifiers of the rooms, each once, in the order in which the
    /// registry is walked.
    pub fn get_rooms_list(&self) -> (rooms: Vec<u128>)
        ensures
            lists(rooms@, self@.room_ids()),
    {
        let rooms = crate::ids::keys_listed(&self.rooms);
        assert(self@.room_ids() =~= self.rooms@.dom());
        rooms
    }

    /// Registers a room and announces it in the directory. A room that had
    /// the same identifier gives way to it.
    pub fn room_add(&mut self, room: WebSocketRoom) -> (effects: Vec<Effect>)
        ensures
            final(self)@ == old(self)@.room_added(room@).engine,
            views(effects@) == old(self)@.room_added(room@).effects,
            crate::ident::reads_back(room@.id),
            old(self)@.wf() && room@.wf() ==> final(self)@.wf(),
    {
        proof {
            if self@.wf() && room@.wf() {
                crate::api::chat::laws::lemma_registered_wf(
                    self@,
                    ClientView::connected(0),
                    room@,
                );
            }
        }
        let value = crate::api::chat::event::room_creation(room.id, room.creator);
        let id = room.id;
        self.put_room(id, room);
        let mut effects: Vec<Effect> = Vec::new();
        effects.push(Effect::Publish { topic: Topic::Rooms, value });
        assert(views(effects@) =~= old(self)@.room_added(room@).effects);
        effects
    }

    /// Removes a room and announces the removal in the directory. Where no
    /// room has this identifier, nothing happens.
    pub fn room_remove(&mut self, room_id: &u128) -> (effects: Vec<Effect>)
        ensures
            final(self)@ == old(self)@.room_removed(*room_id).engine,
            views(effects@) == old(self)@.room_removed(*room_id).effects,
            old(self)@.wf() ==> final(self)@.wf(),
    {
        proof {
            if self@.wf() {
                crate::api::chat::laws::lemma_taken_out(self@, *room_id);
            }
        }
        let mut effects: Vec<Effect> = Vec::new();
        match self.take_room(room_id) {
            Some(_) => {
                let value = crate::api::chat::event::room_removal(*room_id);
                effects.push(Effect::Publish { topic: Topic::Rooms, value });
            },
            None => {},
        }
        assert(views(effects@) =~= old(self)@.room_removed(*room_id).effects);
        effects
    }
}

} // verus!
