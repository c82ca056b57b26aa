use chat_engine::api::chat::client::{Received, WebSocketClient};
use chat_engine::api::chat::engine::ChatEngine;
use chat_engine::api::chat::event::{self, Effect, Topic};
use chat_engine::api::chat::room::WebSocketRoom;
use serde_json::Value;
use tokio::sync::broadcast;
use uuid::Uuid;

fn parsed(text: &str) -> Value {
    serde_json::from_str(text).unwrap()
}

fn hub() -> ChatEngine {
    let mut engine = ChatEngine::default();
    for id in [1u128, 2, 3] {
        engine.register_client(WebSocketClient::identified(id));
    }
    engine.room_add(WebSocketRoom::identified(10, &1));
    WebSocketClient::join_room(&mut engine, &1, &10);
    WebSocketClient::join_room(&mut engine, &2, &10);
    engine
}

fn published(effects: Vec<Effect>, topic: Topic) -> Vec<Value> {
    effects
        .into_iter()
        .filter_map(|effect| match effect {
            Effect::Publish { topic: to, value } if to == topic => Some(value),
            _ => None,
        })
        .collect()
}

fn broadcast_message(room_id: u128, data: &str) -> Value {
    parsed(&format!(
        r#"{{"action":"BROADCAST","target":{{"type":"ROOM","id":"{}"}},"data":{}}}"#,
        Uuid::from_u128(room_id),
        data
    ))
}

#[test]
fn a_member_is_handed_what_the_room_publishes() {
    let engine = hub();
    let value = parsed(r#"{"msg":"hi"}"#);
    let relay = WebSocketClient::forward_room(&engine, &2, &10, Received::Value(value.clone()));
    assert_eq!(relay.deliver, Some(value));
    assert!(relay.proceed);
}

#[test]
fn a_sender_is_handed_its_own_broadcast() {
    let mut engine = hub();
    let effects = WebSocketClient::exec(&mut engine, &1, &broadcast_message(10, r#"{"msg":"hi"}"#));
    let payload = published(effects, Topic::Room(10)).remove(0);
    let expected = parsed(&format!(
        r#"{{"msg":"hi","sender":"{}","room":"{}"}}"#,
        Uuid::from_u128(1),
        Uuid::from_u128(10)
    ));
    for client in [1u128, 2] {
        let relay = WebSocketClient::forward_room(&engine, &client, &10, Received::Value(payload.clone()));
        assert_eq!(relay.deliver, Some(expected.clone()));
        assert!(relay.proceed);
    }
}

#[test]
fn the_own_exit_signal_ends_the_task() {
    let mut engine = hub();
    let effects = WebSocketRoom::remove_client(&mut engine, &10, &2);
    let signal = published(effects, Topic::Room(10)).remove(0);
    let leaver = WebSocketClient::forward_room(&engine, &2, &10, Received::Value(signal.clone()));
    assert_eq!(leaver.deliver, None);
    assert!(!leaver.proceed);
    let stayer = WebSocketClient::forward_room(&engine, &1, &10, Received::Value(signal.clone()));
    assert_eq!(stayer.deliver, Some(signal));
    assert!(stayer.proceed);
}

#[test]
fn an_exit_signal_is_told_by_its_three_fields() {
    let mut engine = hub();
    let me: u128 = 0xabcdef;
    engine.register_client(WebSocketClient::identified(me));
    WebSocketClient::join_room(&mut engine, &me, &10);
    let two = Uuid::from_u128(me).to_string();
    let exit = format!(
        r#"{{"type":"EVENT","event":{{"type":"ROOM_EXIT","client_id":"{}","room_id":"x"}}}}"#,
        two
    );
    let relay = WebSocketClient::forward_room(&engine, &me, &10, Received::Value(parsed(&exit)));
    assert!(relay.deliver.is_none() && !relay.proceed);
    for other in [
        format!(r#"{{"type":"NOTE","event":{{"type":"ROOM_EXIT","client_id":"{}"}}}}"#, two),
        format!(r#"{{"type":"EVENT","event":{{"type":"ROOM_JOIN","client_id":"{}"}}}}"#, two),
        format!(r#"{{"type":"EVENT","event":{{"type":"ROOM_EXIT","client_id":"{}"}}}}"#, two.to_uppercase()),
        format!(r#"{{"type":"EVENT","event":{{"type":"ROOM_EXIT","client_id":"{}"}}}}"#, Uuid::from_u128(1)),
        r#"{"type":"EVENT","event":{"type":"ROOM_EXIT"}}"#.to_string(),
        r#"{"type":"EVENT"}"#.to_string(),
    ] {
        let value = parsed(&other);
        let relay = WebSocketClient::forward_room(&engine, &me, &10, Received::Value(value.clone()));
        assert_eq!(relay.deliver, Some(value));
        assert!(relay.proceed);
    }
}

#[test]
fn the_task_ends_when_it_fell_behind_or_the_topic_is_closed() {
    let mut engine = hub();
    for received in [Received::Lagged, Received::Closed] {
        let relay = WebSocketClient::forward_room(&engine, &2, &10, received);
        assert!(relay.deliver.is_none() && !relay.proceed);
    }
    WebSocketClient::subscribe_rooms(&mut engine, &2);
    let relay = WebSocketClient::forward_rooms(&mut engine, &2, Received::Lagged);
    assert!(relay.deliver.is_none() && !relay.proceed);
    assert_eq!(WebSocketClient::subscribe_rooms(&mut engine, &2).len(), 1);
    let relay = WebSocketClient::forward_rooms(&mut engine, &2, Received::Closed);
    assert!(relay.deliver.is_none() && !relay.proceed);
}

#[test]
fn the_task_ends_when_the_client_is_no_member() {
    let engine = hub();
    let relay = WebSocketClient::forward_room(&engine, &3, &10, Received::Value(parsed("{}")));
    assert!(relay.deliver.is_none() && !relay.proceed);
}

#[test]
fn the_task_ends_when_the_client_is_gone() {
    let mut engine = hub();
    engine.register_client(WebSocketClient::identified(4));
    let mut room = WebSocketRoom::identified(11, &4);
    room.client_add(&9);
    engine.room_add(room);
    let relay = WebSocketClient::forward_room(&engine, &9, &11, Received::Value(parsed("{}")));
    assert!(relay.deliver.is_none() && !relay.proceed);
}

#[test]
fn the_task_waits_while_the_room_is_not_registered() {
    let engine = hub();
    let relay = WebSocketClient::forward_room(&engine, &2, &99, Received::Value(parsed("{}")));
    assert!(relay.deliver.is_none());
    assert!(relay.proceed);
}

#[test]
fn directory_events_are_forwarded_while_subscribed() {
    let mut engine = hub();
    assert_eq!(WebSocketClient::subscribe_rooms(&mut engine, &3).len(), 1);
    let creation = event::room_creation(11, 1);
    let relay = WebSocketClient::forward_rooms(&mut engine, &3, Received::Value(creation.clone()));
    assert_eq!(relay.deliver, Some(creation));
    assert!(relay.proceed);
}

#[test]
fn nothing_is_forwarded_after_unsubscribing() {
    let mut engine = hub();
    WebSocketClient::subscribe_rooms(&mut engine, &3);
    let before = event::room_creation(11, 1);
    let relay = WebSocketClient::forward_rooms(&mut engine, &3, Received::Value(before.clone()));
    assert_eq!(relay.deliver, Some(before));
    assert!(relay.proceed);

    WebSocketClient::exec(&mut engine, &3, &parsed(r#"{"action":"ROOMS_UNSUBSCRIBE"}"#));
    let relay = WebSocketClient::forward_rooms(&mut engine, &3, Received::Value(event::room_removal(10)));
    assert_eq!(relay.deliver, None);
    assert!(!relay.proceed);
    assert_eq!(engine.get_rooms_list(), vec![10]);
    assert!(engine.get_room(&10).unwrap().has_client(&1));
    assert!(engine.get_room(&10).unwrap().has_client(&2));
    assert_eq!(engine.get_room(&10).unwrap().get_clients_list().len(), 2);
    assert_eq!(WebSocketClient::subscribe_rooms(&mut engine, &3).len(), 1);
}

#[test]
fn unsubscribing_without_a_subscription_changes_nothing() {
    let mut engine = hub();
    WebSocketClient::unsubscribe_rooms(&mut engine, &2);
    assert_eq!(engine.get_client(&2).unwrap().get_client_rooms(), vec![10]);
    assert!(engine.get_room(&10).unwrap().has_client(&1));
    assert!(engine.get_room(&10).unwrap().has_client(&2));
    assert_eq!(engine.get_room(&10).unwrap().get_clients_list().len(), 2);
    let relay = WebSocketClient::forward_rooms(&mut engine, &2, Received::Value(event::room_removal(10)));
    assert!(relay.deliver.is_none() && !relay.proceed);
    assert_eq!(WebSocketClient::subscribe_rooms(&mut engine, &2).len(), 1);
}

#[test]
fn subscribing_again_starts_no_second_task() {
    let mut engine = hub();
    assert_eq!(WebSocketClient::subscribe_rooms(&mut engine, &3).len(), 1);
    assert!(WebSocketClient::subscribe_rooms(&mut engine, &3).is_empty());
    WebSocketClient::unsubscribe_rooms(&mut engine, &3);
    assert!(WebSocketClient::subscribe_rooms(&mut engine, &3).is_empty());
    let relay = WebSocketClient::forward_rooms(&mut engine, &3, Received::Value(parsed("{}")));
    assert!(relay.proceed);
}

#[test]
fn the_directory_task_ends_when_the_client_is_gone() {
    let mut engine = hub();
    WebSocketClient::subscribe_rooms(&mut engine, &3);
    engine.remove_client(&3);
    let relay = WebSocketClient::forward_rooms(&mut engine, &3, Received::Value(parsed("{}")));
    assert!(relay.deliver.is_none() && !relay.proceed);
}

/// Performs the publishing effects on real channels, one per topic.
fn perform(effects: Vec<Effect>, rooms: &broadcast::Sender<Value>, room: &broadcast::Sender<Value>) {
    for effect in effects {
        if let Effect::Publish { topic, value } = effect {
            let _ = match topic {
                Topic::Rooms => rooms.send(value),
                Topic::Room(_) => room.send(value),
            };
        }
    }
}

#[test]
fn broadcasts_reach_a_subscriber_in_the_order_sent() {
    let mut engine = hub();
    let (rooms, _) = broadcast::channel::<Value>(1);
    let (room, mut listener) = broadcast::channel::<Value>(10);
    for n in 0..5 {
        let effects = WebSocketClient::exec(&mut engine, &1, &broadcast_message(10, &format!(r#"{{"n":{}}}"#, n)));
        perform(effects, &rooms, &room);
    }
    let mut delivered = Vec::new();
    while let Ok(value) = listener.try_recv() {
        let relay = WebSocketClient::forward_room(&engine, &2, &10, Received::Value(value));
        assert!(relay.proceed);
        delivered.push(relay.deliver.unwrap()["n"].as_u64().unwrap());
    }
    assert_eq!(delivered, vec![0, 1, 2, 3, 4]);
}

#[test]
fn a_late_subscriber_misses_the_creation_of_a_room() {
    let mut engine = hub();
    let (rooms, mut early) = broadcast::channel::<Value>(1);
    let (room, _) = broadcast::channel::<Value>(10);
    WebSocketClient::subscribe_rooms(&mut engine, &2);
    perform(WebSocketRoom::create_room(&mut engine, &1).1, &rooms, &room);
    let effects = WebSocketClient::subscribe_rooms(&mut engine, &3);
    assert_eq!(effects.len(), 1);
    let mut late = rooms.subscribe();
    assert!(late.try_recv().is_err());
    let seen = early.try_recv().unwrap();
    assert_eq!(seen["event"]["type"], "ROOM_CREATION");

    let second = WebSocketRoom::create_room(&mut engine, &1);
    perform(second.1, &rooms, &room);
    let next = late.try_recv().unwrap();
    assert_eq!(next["event"]["room_id"], Uuid::from_u128(second.0).to_string());
    let relay = WebSocketClient::forward_rooms(&mut engine, &3, Received::Value(next.clone()));
    assert_eq!(relay.deliver, Some(next));
}

#[test]
fn a_slow_subscriber_is_cut_off() {
    let mut engine = hub();
    let (rooms, _) = broadcast::channel::<Value>(1);
    let (room, mut listener) = broadcast::channel::<Value>(10);
    for n in 0..17 {
        let effects = WebSocketClient::exec(&mut engine, &1, &broadcast_message(10, &format!(r#"{{"n":{}}}"#, n)));
        perform(effects, &rooms, &room);
    }
    let received = match listener.try_recv() {
        Ok(value) => Received::Value(value),
        Err(broadcast::error::TryRecvError::Lagged(_)) => Received::Lagged,
        Err(_) => Received::Closed,
    };
    assert!(matches!(received, Received::Lagged));
    let relay = WebSocketClient::forward_room(&engine, &2, &10, received);
    assert!(relay.deliver.is_none() && !relay.proceed);
}

#[test]
fn a_created_room_reaches_its_creator_and_the_directory() {
    let mut engine = ChatEngine::default();
    engine.register_client(WebSocketClient::identified(1));
    engine.register_client(WebSocketClient::identified(2));
    assert_eq!(WebSocketClient::subscribe_rooms(&mut engine, &2).len(), 1);
    let (rooms, mut directory) = broadcast::channel::<Value>(engine.get_listener().capacity());
    let mut room: Option<(broadcast::Sender<Value>, broadcast::Receiver<Value>)> = None;

    let effects = WebSocketClient::exec(&mut engine, &1, &parsed(r#"{"action":"ROOM_CREATE"}"#));
    let room_id = engine.get_rooms_list()[0];
    for effect in effects {
        match effect {
            Effect::Forward { client_id, topic } => {
                assert_eq!(client_id, 1);
                assert_eq!(topic, engine.get_room(&room_id).unwrap().get_listener());
                room = Some(broadcast::channel::<Value>(topic.capacity()));
            }
            Effect::Publish { topic: Topic::Rooms, value } => {
                rooms.send(value).unwrap();
            }
            Effect::Publish { topic: Topic::Room(_), value } => {
                room.as_ref().unwrap().0.send(value).unwrap();
            }
            Effect::Send { .. } => panic!("nothing is sent directly"),
        }
    }

    let heard = room.as_mut().unwrap().1.try_recv().unwrap();
    let relay = WebSocketClient::forward_room(&engine, &1, &room_id, Received::Value(heard));
    let joined = relay.deliver.unwrap();
    assert_eq!(joined["event"]["type"], "ROOM_JOIN");
    assert_eq!(joined["event"]["room_id"], Uuid::from_u128(room_id).to_string());
    assert_eq!(joined["event"]["client_id"], Uuid::from_u128(1).to_string());

    let seen = directory.try_recv().unwrap();
    let relay = WebSocketClient::forward_rooms(&mut engine, &2, Received::Value(seen));
    let created = relay.deliver.unwrap();
    assert_eq!(
        created,
        parsed(&format!(
            r#"{{"type":"EVENT","event":{{"type":"ROOM_CREATION","room_id":"{}","creator_id":"{}"}}}}"#,
            Uuid::from_u128(room_id),
            Uuid::from_u128(1)
        ))
    );
}

#[test]
fn topics_have_their_depth() {
    assert_eq!(Topic::Rooms.capacity(), 1);
    assert_eq!(Topic::Room(7).capacity(), 10);
    let room = WebSocketRoom::identified(7, &1);
    assert_eq!(room.get_listener(), Topic::Room(7));
    assert_eq!(ChatEngine::default().get_listener(), Topic::Rooms);
}

#[test]
fn events_are_built_as_documented() {
    let a = Uuid::from_u128(1).to_string();
    let b = Uuid::from_u128(2).to_string();
    assert_eq!(
        event::client_join(1),
        parsed(&format!(r#"{{"type":"EVENT","event":{{"type":"CLIENT_JOIN","client_id":"{}"}}}}"#, a))
    );
    assert_eq!(
        event::rooms_list(&vec![1, 2]),
        parsed(&format!(r#"{{"type":"EVENT","event":{{"type":"ROOMS_LIST","rooms":["{}","{}"]}}}}"#, a, b))
    );
    assert_eq!(
        event::rooms_list(&Vec::new()),
        parsed(r#"{"type":"EVENT","event":{"type":"ROOMS_LIST","rooms":[]}}"#)
    );
    assert_eq!(
        event::room_clients_list(&vec![2], 1),
        parsed(&format!(
            r#"{{"type":"EVENT","event":{{"type":"ROOM_CLIENTS_LIST","clients":["{}"],"room_id":"{}"}}}}"#,
            b, a
        ))
    );
    assert_eq!(
        event::room_join(1, 2),
        parsed(&format!(
            r#"{{"type":"EVENT","event":{{"type":"ROOM_JOIN","room_id":"{}","client_id":"{}"}}}}"#,
            a, b
        ))
    );
    assert_eq!(
        event::room_exit(2, 1),
        parsed(&format!(
            r#"{{"type":"EVENT","event":{{"type":"ROOM_EXIT","client_id":"{}","room_id":"{}"}}}}"#,
            b, a
        ))
    );
    assert_eq!(
        event::room_removal(u128::MAX),
        parsed(r#"{"type":"EVENT","event":{"type":"ROOM_REMOVAL","room_id":"ffffffff-ffff-ffff-ffff-ffffffffffff"}}"#)
    );
}
