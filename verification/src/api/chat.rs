//! The hub as the connection layer sees it.
use vstd::prelude::*;
use crate::api::chat::client::WebSocketClient;
use crate::api::chat::engine::{ChatEngine, EngineView, Outcome};
use crate::api::chat::event::{views, Effect, EffectView};
use crate::api::chat::room::{RoomView, WebSocketRoom};

pub mod client;
pub mod engine;
pub mod event;
pub mod laws;
pub mod room;

verus! {

/// The entry point to the hub: it owns the registry.
pub struct ChatManager {
    pub(crate) engine: ChatEngine,
}

impl View for ChatManager {
    type V = EngineView;

    open(crate) spec fn view(&self) -> EngineView {
        self.engine@
    }
}

impl EngineView {
    /// The identifiers of a list that name a registered client, in order.
    pub open spec fn resolved(self, ids: Seq<u128>) -> Seq<u128>
        decreases ids.len(),
    {
        if ids.len() == 0 {
            ids
        } else if self.has_client(ids.last()) {
            self.resolved(ids.drop_last()).push(ids.last())
        } else {
            self.resolved(ids.drop_last())
        }
    }

    /// The clients of a list join a room, one after the other.
    pub open spec fn joined_all(self, client_ids: Seq<u128>, room_id: u128) -> Outcome
        decreases client_ids.len(),
    {
        if client_ids.len() == 0 {
            Outcome { engine: self, effects: Seq::empty() }
        } else {
            let first = self.joined(client_ids[0], room_id);
            let rest = first.engine.joined_all(client_ids.drop_first(), room_id);
            Outcome { engine: rest.engine, effects: first.effects + rest.effects }
        }
    }

    /// A room is created for the clients of a list. The last of them that is
    /// registered is recorded as its creator, and the registered ones before
    /// it join the room in order. Where none is registered, nothing happens.
    /// `fresh` is the room's identifier.
    pub open spec fn room_created(self, client_ids: Seq<u128>, fresh: u128) -> Outcome {
        let live = self.resolved(client_ids);
        if live.len() == 0 {
            Outcome { engine: self, effects: Seq::empty() }
        } else {
            let made = self.room_added(
                RoomView { id: fresh, creator: live.last(), clients: Set::empty() },
            );
            let joined = made.engine.joined_all(live.drop_last(), fresh);
            Outcome { engine: joined.engine, effects: made.effects + joined.effects }
        }
    }
}

impl Default for ChatManager {
    fn default() -> (manager: Self)
        ensures
            manager@ == EngineView::empty(),
            manager@.wf(),
    {
        ChatManager { engine: ChatEngine::default() }
    }
}

impl ChatManager {
    /// The registry.
    pub fn engine(&self) -> (engine: &ChatEngine)
        ensures
            engine@ == self@,
    {
        &self.engine
    }

    /// The registry, to change it.
    pub fn engine_mut(&mut self) -> (engine: &mut ChatEngine)
        ensures
            engine@ == old(self)@,
            final(self)@ == final(engine)@,
    {
        &mut self.engine
    }

    /// Registers a client under a fresh identifier, which it returns.
    pub fn create_client(&mut self) -> (id: u128)
        ensures
            final(self)@ == old(self)@.with_client(crate::api::chat::client::ClientView::connected(id)),
            crate::ident::is_random(id),
            old(self)@.wf() ==> final(self)@.wf(),
    {
        self.engine.create_client()
    }

    /// Removes a client and takes it out of every room that it had joined.
    pub fn remove_client(&mut self, client_id: &u128) -> (effects: Vec<Effect>)
        ensures
            old(self)@.removes(
                *client_id,
                Outcome { engine: final(self)@, effects: views(effects@) },
            ),
            !old(self)@.has_client(*client_id) ==> final(self)@ == old(self)@ && views(effects@)
                == Seq::<EffectView>::empty(),
            old(self)@.wf() ==> final(self)@.wf(),
    {
        self.engine.remove_client(client_id)
    }

    /// The registered clients of a list, in order.
    fn resolve(&self, clients: &Vec<u128>) -> (live: Vec<u128>)
        ensures
            live@ == self@.resolved(clients@),
    {
        let mut live: Vec<u128> = Vec::new();
        let mut i: usize = 0;
        assert(clients@.take(0) =~= Seq::<u128>::empty());
        while i < clients.len()
            invariant
                i <= clients@.len(),
                live@ == self@.resolved(clients@.take(i as int)),
            decreases clients@.len() - i,
        {
            assert(clients@.take(i + 1).drop_last() =~= clients@.take(i as int));
            assert(clients@.take(i + 1).last() == clients@[i as int]);
            if self.engine.get_client(&clients[i]).is_some() {
                live.push(clients[i]);
            }
            i += 1;
        }
        assert(clients@.take(i as int) =~= clients@);
        live
    }

    /// Creates a room for the clients of a list, with a fresh identifier.
    /// Returns the identifier, or `None` where no client of the list is
    /// registered.
    pub fn create_room(&mut self, clients: Vec<u128>) -> (created: (Option<u128>, Vec<Effect>))
        ensures
            match created.0 {
                Some(room_id) => {
                    &&& crate::ident::is_random(room_id)
                    &&& crate::ident::reads_back(room_id)
                    &&& old(self)@.resolved(clients@).len() > 0
                    &&& final(self)@ == old(self)@.room_created(clients@, room_id).engine
                    &&& views(created.1@) == old(self)@.room_created(clients@, room_id).effects
                },
                None => {
                    &&& old(self)@.resolved(clients@).len() == 0
                    &&& final(self)@ == old(self)@
                    &&& views(created.1@) == Seq::<EffectView>::empty()
                },
            },
            old(self)@.wf() ==> final(self)@.wf(),
    {
        let mut live = self.resolve(&clients);
        match live.pop() {
            Some(creator) => {
                assert(live@ =~= old(self)@.resolved(clients@).drop_last());
                let (room_id, mut effects) = WebSocketRoom::create_room(&mut self.engine, &creator);
                let ghost made = views(effects@);
                let ghost start = self@;
                let mut i: usize = 0;
                assert(live@.skip(0) =~= live@);
                assert(made + Seq::<EffectView>::empty() =~= made);
                while i < live.len()
                    invariant
                        i <= live@.len(),
                        start.joined_all(live@, room_id).engine == self@.joined_all(
                            live@.skip(i as int),
                            room_id,
                        ).engine,
                        made + start.joined_all(live@, room_id).effects == views(effects@)
                            + self@.joined_all(live@.skip(i as int), room_id).effects,
                    decreases live@.len() - i,
                {
                    let ghost sent = views(effects@);
                    let mut more = WebSocketClient::join_room(&mut self.engine, &live[i], &room_id);
                    let ghost step = views(more@);
                    effects.append(&mut more);
                    proof {
                        assert(live@.skip(i as int).drop_first() =~= live@.skip(i + 1));
                        assert(live@.skip(i as int)[0] == live@[i as int]);
                        assert(views(effects@) =~= sent + step);
                        let rest = self@.joined_all(live@.skip(i + 1), room_id).effects;
                        assert(sent + (step + rest) =~= (sent + step) + rest);
                    }
                    i += 1;
                }
                assert(live@.skip(i as int) =~= Seq::<u128>::empty());
                assert(views(effects@) + Seq::<EffectView>::empty() =~= views(effects@));
                proof {
                    if old(self)@.wf() {
                        crate::api::chat::laws::lemma_room_created_wf(
                            old(self)@,
                            clients@,
                            room_id,
                        );
                    }
                }
                (Some(room_id), effects)
            },
            None => {
                let effects: Vec<Effect> = Vec::new();
                assert(views(effects@) =~= Seq::<EffectView>::empty());
                (None, effects)
            },
        }
    }
}

} // verus!
