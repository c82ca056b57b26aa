//! What the task of one connection decides: what happens when the
//! connection opens, on each text it receives, and when it closes.
use vstd::prelude::*;
use crate::api::chat::client::{command, ClientView, WebSocketClient};
use crate::api::chat::engine::Outcome;
use crate::api::chat::event::{client_join_json, views, Effect, EffectView};
use crate::api::chat::ChatManager;
use crate::json::parsed_json;

verus! {

/// A connection has opened: a client is registered for it under a fresh
/// identifier, which is returned, and the client is told its identifier.
pub fn opened(chat_manager: &mut ChatManager) -> (made: (u128, Vec<Effect>))
    ensures
        final(chat_manager)@ == old(chat_manager)@.with_client(ClientView::connected(made.0)),
        crate::ident::is_random(made.0),
        crate::ident::reads_back(made.0),
        views(made.1@) == seq![
            EffectView::Send { client_id: made.0, value: client_join_json(made.0) },
        ],
        old(chat_manager)@.wf() ==> final(chat_manager)@.wf(),
{
    let client_id = chat_manager.create_client();
    let mut effects: Vec<Effect> = Vec::new();
    effects.push(
        Effect::Send { client_id, value: crate::api::chat::event::client_join(client_id) },
    );
    assert(views(effects@) =~= seq![
        EffectView::Send { client_id, value: client_join_json(client_id) },
    ]);
    (client_id, effects)
}

/// A text has arrived from a client. A text that is JSON is carried out as
/// the command that it stands for; any other text is dropped.
pub fn received(
    chat_manager: &mut ChatManager,
    client_id: &u128,
    message: &str,
) -> (effects: Vec<Effect>)
    ensures
        match parsed_json(message@) {
            Some(value) => old(chat_manager)@.executes(
                *client_id,
                command(value),
                Outcome { engine: final(chat_manager)@, effects: views(effects@) },
            ),
            None => final(chat_manager)@ == old(chat_manager)@ && views(effects@)
                == Seq::<EffectView>::empty(),
        },
        old(chat_manager)@.wf() ==> final(chat_manager)@.wf(),
{
    match crate::json::parse(message) {
        Ok(value) => WebSocketClient::exec(&mut chat_manager.engine, client_id, &value),
        Err(_) => {
            let effects: Vec<Effect> = Vec::new();
            assert(views(effects@) =~= Seq::<EffectView>::empty());
            effects
        },
    }
}

/// A connection has closed: its client is removed.
pub fn closed(chat_manager: &mut ChatManager, client_id: &u128) -> (effects: Vec<Effect>)
    ensures
        old(chat_manager)@.removes(
            *client_id,
            Outcome { engine: final(chat_manager)@, effects: views(effects@) },
        ),
        !old(chat_manager)@.has_client(*client_id) ==> final(chat_manager)@ == old(chat_manager)@
            && views(effects@) == Seq::<EffectView>::empty(),
        old(chat_manager)@.wf() ==> final(chat_manager)@.wf(),
{
    chat_manager.remove_client(client_id)
}

} // verus!
