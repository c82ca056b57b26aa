use chat_engine::api::chat::client::{Command, WebSocketClient};
use chat_engine::api::chat::engine::ChatEngine;
use chat_engine::api::chat::event::{Effect, Topic};
use chat_engine::api::chat::room::{RoomCommand, WebSocketRoom};
use chat_engine::api::chat::ChatManager;
use chat_engine::api::websocket;
use serde_json::Value;
use uuid::Uuid;

fn json(text: &str) -> Value {
    serde_json::from_str(text).unwrap()
}

fn text(id: u128) -> String {
    Uuid::from_u128(id).to_string()
}

/// An effect as a tuple that can be compared: its kind, the client it is
/// for, the topic, and the value.
fn plain(effect: &Effect) -> (&'static str, Option<u128>, Option<Topic>, Option<Value>) {
    match effect {
        Effect::Send { client_id, value } => ("send", Some(*client_id), None, Some(value.clone())),
        Effect::Publish { topic, value } => ("publish", None, Some(*topic), Some(value.clone())),
        Effect::Forward { client_id, topic } => ("forward", Some(*client_id), Some(*topic), None),
    }
}

fn plain_all(effects: &[Effect]) -> Vec<(&'static str, Option<u128>, Option<Topic>, Option<Value>)> {
    effects.iter().map(plain).collect()
}

fn send(client_id: u128, value: Value) -> (&'static str, Option<u128>, Option<Topic>, Option<Value>) {
    ("send", Some(client_id), None, Some(value))
}

fn publish(topic: Topic, value: Value) -> (&'static str, Option<u128>, Option<Topic>, Option<Value>) {
    ("publish", None, Some(topic), Some(value))
}

fn forward(client_id: u128, topic: Topic) -> (&'static str, Option<u128>, Option<Topic>, Option<Value>) {
    ("forward", Some(client_id), Some(topic), None)
}

fn room_exit(client_id: u128, room_id: u128) -> Value {
    json(&format!(
        r#"{{"type":"EVENT","event":{{"type":"ROOM_EXIT","client_id":"{}","room_id":"{}"}}}}"#,
        text(client_id),
        text(room_id)
    ))
}

fn room_removal(room_id: u128) -> Value {
    json(&format!(
        r#"{{"type":"EVENT","event":{{"type":"ROOM_REMOVAL","room_id":"{}"}}}}"#,
        text(room_id)
    ))
}

fn room_join(room_id: u128, client_id: u128) -> Value {
    json(&format!(
        r#"{{"type":"EVENT","event":{{"type":"ROOM_JOIN","room_id":"{}","client_id":"{}"}},"sender":"{}","room":"{}"}}"#,
        text(room_id),
        text(client_id),
        text(client_id),
        text(room_id)
    ))
}

/// An engine with the clients 1, 2, 3 and the room 10, created by 1, which
/// 1 and 2 have joined.
fn small_hub() -> ChatEngine {
    let mut engine = ChatEngine::default();
    for id in [1u128, 2, 3] {
        engine.register_client(WebSocketClient::identified(id));
    }
    engine.room_add(WebSocketRoom::identified(10, &1));
    WebSocketClient::join_room(&mut engine, &1, &10);
    WebSocketClient::join_room(&mut engine, &2, &10);
    engine
}

fn sorted(mut ids: Vec<u128>) -> Vec<u128> {
    ids.sort();
    ids
}

/// The members of a room, in rising order.
fn members(engine: &ChatEngine, room_id: u128) -> Option<Vec<u128>> {
    engine.get_room(&room_id).map(|room| sorted(room.get_clients_list()))
}

/// The rooms of a client, in rising order.
fn rooms_of(engine: &ChatEngine, client_id: u128) -> Option<Vec<u128>> {
    engine.get_client(&client_id).map(|client| sorted(client.get_client_rooms()))
}

/// The texts of a list in an event, in rising order.
fn listed(value: &Value, field: &str) -> Vec<String> {
    let mut texts: Vec<String> = value["event"][field]
        .as_array()
        .unwrap()
        .iter()
        .map(|text| text.as_str().unwrap().to_string())
        .collect();
    texts.sort();
    texts
}

#[test]
fn connecting_greets_the_client() {
    let mut manager = ChatManager::default();
    let (client_id, effects) = websocket::opened(&mut manager);
    assert!(manager.engine().get_client(&client_id).is_some());
    let greeting = json(&format!(
        r#"{{"type":"EVENT","event":{{"type":"CLIENT_JOIN","client_id":"{}"}}}}"#,
        text(client_id)
    ));
    assert_eq!(plain_all(&effects), vec![send(client_id, greeting)]);
}

#[test]
fn fresh_identifiers_are_version_four() {
    let mut manager = ChatManager::default();
    let first = manager.create_client();
    let second = manager.create_client();
    assert_ne!(first, second);
    assert_eq!(Uuid::from_u128(first).get_version_num(), 4);
    let room = WebSocketRoom::new(&first);
    assert_eq!(Uuid::from_u128(*room.get_id()).get_version_num(), 4);
    assert_eq!(*room.get_creator(), first);
    assert!(room.get_clients_list().is_empty());
    assert_eq!(*WebSocketClient::identified(7).get_id(), 7);
}

#[test]
fn a_new_client_has_a_random_identifier() {
    let one = WebSocketClient::new();
    let other = WebSocketClient::new();
    assert_ne!(one.get_id(), other.get_id());
    for client in [&one, &other] {
        let id = *client.get_id();
        assert_eq!(id & 0xF000_C000_0000_0000_0000, 0x4000_8000_0000_0000_0000);
        assert_eq!(Uuid::from_u128(id).get_version_num(), 4);
        assert_eq!(Uuid::from_u128(id).get_variant(), uuid::Variant::RFC4122);
        assert!(client.get_client_rooms().is_empty());
    }
}

#[test]
fn creating_a_room_announces_it_and_joins_the_creator() {
    let mut engine = ChatEngine::default();
    engine.register_client(WebSocketClient::identified(1));
    let effects = WebSocketClient::apply(&mut engine, &1, Command::RoomCreate, 10);
    let creation = json(&format!(
        r#"{{"type":"EVENT","event":{{"type":"ROOM_CREATION","room_id":"{}","creator_id":"{}"}}}}"#,
        text(10),
        text(1)
    ));
    assert_eq!(
        plain_all(&effects),
        vec![
            publish(Topic::Rooms, creation),
            forward(1, Topic::Room(10)),
            publish(Topic::Room(10), room_join(10, 1)),
        ]
    );
    assert_eq!(members(&engine, 10), Some(vec![1]));
    assert_eq!(rooms_of(&engine, 1), Some(vec![10]));
    assert_eq!(*engine.get_room(&10).unwrap().get_creator(), 1);
}

#[test]
fn room_create_message_makes_a_room_with_a_fresh_identifier() {
    let mut manager = ChatManager::default();
    let (client_id, _) = websocket::opened(&mut manager);
    let effects = websocket::received(&mut manager, &client_id, r#"{"action":"ROOM_CREATE"}"#);
    assert_eq!(effects.len(), 3);
    let rooms = manager.engine().get_rooms_list();
    assert_eq!(rooms.len(), 1);
    let room_id = rooms[0];
    assert_eq!(plain(&effects[1]), forward(client_id, Topic::Room(room_id)));
    assert_eq!(plain(&effects[2]), publish(Topic::Room(room_id), room_join(room_id, client_id)));
    assert_eq!(members(manager.engine(), room_id), Some(vec![client_id]));
}

#[test]
fn joining_an_unknown_room_does_nothing() {
    let mut engine = small_hub();
    let message = json(&format!(r#"{{"action":"ROOM_JOIN","room_id":"{}"}}"#, text(99)));
    let effects = WebSocketClient::exec(&mut engine, &3, &message);
    assert!(effects.is_empty());
    assert_eq!(rooms_of(&engine, 3), Some(vec![]));
    assert_eq!(engine.get_rooms_list(), vec![10]);
    assert_eq!(members(&engine, 10), Some(vec![1, 2]));
}

#[test]
fn joining_links_client_and_room() {
    let mut engine = small_hub();
    let message = json(&format!(r#"{{"action":"ROOM_JOIN","room_id":"{}"}}"#, text(10)));
    let effects = WebSocketClient::exec(&mut engine, &3, &message);
    assert_eq!(
        plain_all(&effects),
        vec![forward(3, Topic::Room(10)), publish(Topic::Room(10), room_join(10, 3))]
    );
    assert_eq!(members(&engine, 10), Some(vec![1, 2, 3]));
    assert_eq!(rooms_of(&engine, 3), Some(vec![10]));
    assert!(engine.get_room(&10).unwrap().has_client(&3));
}

#[test]
fn joining_twice_keeps_one_membership() {
    let mut engine = small_hub();
    let effects = WebSocketClient::join_room(&mut engine, &2, &10);
    assert_eq!(effects.len(), 2);
    assert_eq!(members(&engine, 10), Some(vec![1, 2]));
    assert_eq!(rooms_of(&engine, 2), Some(vec![10]));
}

#[test]
fn joining_needs_a_registered_client() {
    let mut engine = small_hub();
    let effects = WebSocketClient::join_room(&mut engine, &77, &10);
    assert!(effects.is_empty());
    assert_eq!(members(&engine, 10), Some(vec![1, 2]));
}

#[test]
fn broadcast_is_marked_with_sender_and_room() {
    let mut engine = small_hub();
    let message = json(&format!(
        r#"{{"action":"BROADCAST","target":{{"type":"ROOM","id":"{}"}},"data":{{"msg":"hi"}}}}"#,
        text(10)
    ));
    let effects = WebSocketClient::exec(&mut engine, &1, &message);
    let payload = json(&format!(
        r#"{{"msg":"hi","sender":"{}","room":"{}"}}"#,
        text(1),
        text(10)
    ));
    assert_eq!(plain_all(&effects), vec![publish(Topic::Room(10), payload)]);
}

#[test]
fn broadcast_without_data_carries_only_the_marks() {
    let mut engine = small_hub();
    let message = json(&format!(
        r#"{{"action":"BROADCAST","target":{{"type":"ROOM","id":"{}"}}}}"#,
        text(10)
    ));
    let effects = WebSocketClient::exec(&mut engine, &2, &message);
    let payload = json(&format!(r#"{{"sender":"{}","room":"{}"}}"#, text(2), text(10)));
    assert_eq!(plain_all(&effects), vec![publish(Topic::Room(10), payload)]);
}

#[test]
fn broadcast_of_a_payload_that_cannot_be_marked_is_dropped() {
    let mut engine = small_hub();
    for data in [r#""text""#, "7", "[1,2]", "true"] {
        let message = json(&format!(
            r#"{{"action":"BROADCAST","target":{{"type":"ROOM","id":"{}"}},"data":{}}}"#,
            text(10),
            data
        ));
        assert!(WebSocketClient::exec(&mut engine, &1, &message).is_empty());
    }
}

#[test]
fn broadcast_to_an_unknown_room_does_nothing() {
    let mut engine = small_hub();
    let message = json(&format!(
        r#"{{"action":"BROADCAST","target":{{"type":"ROOM","id":"{}"}},"data":{{}}}}"#,
        text(11)
    ));
    assert!(WebSocketClient::exec(&mut engine, &1, &message).is_empty());
}

#[test]
fn room_broadcast_without_a_sender_carries_only_the_room() {
    let mut engine = small_hub();
    let message = json(r#"{"action":"BROADCAST","data":{"n":1}}"#);
    let effects = WebSocketRoom::exec(&mut engine, &10, &message, None);
    let payload = json(&format!(r#"{{"n":1,"room":"{}"}}"#, text(10)));
    assert_eq!(plain_all(&effects), vec![publish(Topic::Room(10), payload)]);
}

#[test]
fn leaving_as_one_of_two_keeps_the_room() {
    let mut engine = small_hub();
    let message = json(&format!(
        r#"{{"action":"ROOM_EXIT","target":{{"type":"ROOM","id":"{}"}}}}"#,
        text(10)
    ));
    let effects = WebSocketClient::exec(&mut engine, &2, &message);
    assert_eq!(plain_all(&effects), vec![publish(Topic::Room(10), room_exit(2, 10))]);
    assert_eq!(members(&engine, 10), Some(vec![1]));
    assert_eq!(rooms_of(&engine, 2), Some(vec![]));
}

#[test]
fn leaving_as_the_last_member_removes_the_room() {
    let mut engine = ChatEngine::default();
    engine.register_client(WebSocketClient::identified(1));
    WebSocketClient::apply(&mut engine, &1, Command::RoomCreate, 10);
    let message = json(&format!(
        r#"{{"action":"ROOM_EXIT","target":{{"type":"ROOM","id":"{}"}}}}"#,
        text(10)
    ));
    let effects = WebSocketClient::exec(&mut engine, &1, &message);
    assert_eq!(
        plain_all(&effects),
        vec![
            publish(Topic::Rooms, room_removal(10)),
            publish(Topic::Room(10), room_exit(1, 10)),
        ]
    );
    assert!(engine.get_room(&10).is_none());
    assert!(engine.get_rooms_list().is_empty());
    assert_eq!(rooms_of(&engine, 1), Some(vec![]));
}

#[test]
fn exit_without_a_sender_does_nothing() {
    let mut engine = small_hub();
    let effects = WebSocketRoom::apply(&mut engine, &10, RoomCommand::Exit, None);
    assert!(effects.is_empty());
    assert_eq!(members(&engine, 10), Some(vec![1, 2]));
}

#[test]
fn exit_of_a_client_that_is_no_member_is_still_announced() {
    let mut engine = small_hub();
    let effects = WebSocketRoom::remove_client(&mut engine, &10, &3);
    assert_eq!(plain_all(&effects), vec![publish(Topic::Room(10), room_exit(3, 10))]);
    assert_eq!(members(&engine, 10), Some(vec![1, 2]));
}

#[test]
fn removing_a_client_cascades() {
    let mut engine = small_hub();
    engine.room_add(WebSocketRoom::identified(11, &2));
    WebSocketClient::join_room(&mut engine, &2, &11);
    let effects = engine.remove_client(&2);
    let stays = vec![publish(Topic::Room(10), room_exit(2, 10))];
    let goes = vec![
        publish(Topic::Rooms, room_removal(11)),
        publish(Topic::Room(11), room_exit(2, 11)),
    ];
    let one_way = [stays.clone(), goes.clone()].concat();
    let other_way = [goes, stays].concat();
    assert!(plain_all(&effects) == one_way || plain_all(&effects) == other_way);
    assert!(engine.get_client(&2).is_none());
    assert_eq!(members(&engine, 10), Some(vec![1]));
    assert_eq!(members(&engine, 11), None);
    assert_eq!(engine.get_rooms_list(), vec![10]);
}

#[test]
fn removing_twice_is_a_no_op() {
    let mut engine = small_hub();
    engine.remove_client(&2);
    let again = engine.remove_client(&2);
    assert!(again.is_empty());
    assert_eq!(members(&engine, 10), Some(vec![1]));
    assert!(engine.remove_client(&55).is_empty());

    let first = engine.room_remove(&10);
    assert_eq!(plain_all(&first), vec![publish(Topic::Rooms, room_removal(10))]);
    assert!(engine.room_remove(&10).is_empty());
    assert!(engine.get_rooms_list().is_empty());
}

#[test]
fn closing_a_connection_removes_its_client() {
    let mut manager = ChatManager::default();
    let (client_id, _) = websocket::opened(&mut manager);
    websocket::received(&mut manager, &client_id, r#"{"action":"ROOM_CREATE"}"#);
    let room_id = manager.engine().get_rooms_list()[0];
    let effects = websocket::closed(&mut manager, &client_id);
    assert_eq!(
        plain_all(&effects),
        vec![
            publish(Topic::Rooms, room_removal(room_id)),
            publish(Topic::Room(room_id), room_exit(client_id, room_id)),
        ]
    );
    assert!(manager.engine().get_client(&client_id).is_none());
    assert!(manager.engine().get_rooms_list().is_empty());
    assert!(manager.remove_client(&client_id).is_empty());
}

#[test]
fn rooms_list_and_members_are_sent_on_request() {
    let mut engine = small_hub();
    engine.room_add(WebSocketRoom::identified(11, &3));
    let effects = WebSocketClient::exec(&mut engine, &3, &json(r#"{"action":"ROOMS_LIST"}"#));
    assert_eq!(effects.len(), 1);
    match &effects[0] {
        Effect::Send { client_id, value } => {
            assert_eq!(*client_id, 3);
            assert_eq!(value["type"], "EVENT");
            assert_eq!(value["event"]["type"], "ROOMS_LIST");
            assert_eq!(value["event"].as_object().unwrap().len(), 2);
            assert_eq!(listed(value, "rooms"), vec![text(10), text(11)]);
        }
        other => panic!("asked for {:?}", other),
    }

    let ask = json(&format!(r#"{{"action":"ROOM_CLIENTS_LIST","room_id":"{}"}}"#, text(10)));
    let effects = WebSocketClient::exec(&mut engine, &3, &ask);
    assert_eq!(effects.len(), 1);
    match &effects[0] {
        Effect::Send { client_id, value } => {
            assert_eq!(*client_id, 3);
            assert_eq!(value["type"], "EVENT");
            assert_eq!(value["event"]["type"], "ROOM_CLIENTS_LIST");
            assert_eq!(value["event"]["room_id"], text(10));
            assert_eq!(value["event"].as_object().unwrap().len(), 3);
            assert_eq!(listed(value, "clients"), vec![text(1), text(2)]);
        }
        other => panic!("asked for {:?}", other),
    }

    let unknown = json(&format!(r#"{{"action":"ROOM_CLIENTS_LIST","room_id":"{}"}}"#, text(12)));
    assert!(WebSocketClient::exec(&mut engine, &3, &unknown).is_empty());
}

#[test]
fn subscribing_sends_the_list_and_replays_nothing() {
    let mut engine = small_hub();
    let effects = WebSocketClient::exec(&mut engine, &3, &json(r#"{"action":"ROOMS_SUBSCRIBE"}"#));
    let list = json(&format!(
        r#"{{"type":"EVENT","event":{{"type":"ROOMS_LIST","rooms":["{}"]}}}}"#,
        text(10)
    ));
    assert_eq!(plain_all(&effects), vec![forward(3, Topic::Rooms), send(3, list.clone())]);

    let again = WebSocketClient::exec(&mut engine, &3, &json(r#"{"action":"ROOMS_SUBSCRIBE"}"#));
    assert_eq!(plain_all(&again), vec![send(3, list)]);
}

#[test]
fn unknown_and_malformed_messages_are_ignored() {
    let mut manager = ChatManager::default();
    let (client_id, _) = websocket::opened(&mut manager);
    for message in [
        "not json",
        "",
        "{",
        r#"{"action":"DANCE"}"#,
        r#"{"action":7}"#,
        "[]",
        "null",
        r#"{"action":"ROOM_JOIN"}"#,
        r#"{"action":"ROOM_JOIN","room_id":"no-uuid"}"#,
        r#"{"action":"ROOM_JOIN","room_id":12}"#,
        r#"{"action":"BROADCAST","target":{"type":"ROOM","id":"x"},"data":{}}"#,
        r#"{"action":"BROADCAST","target":{"type":"USER","id":"67e55044-10b1-426f-9247-bb680e5fe0c8"},"data":{}}"#,
    ] {
        assert!(websocket::received(&mut manager, &client_id, message).is_empty());
    }
    assert!(manager.engine().get_rooms_list().is_empty());
}

#[test]
fn a_client_that_is_not_registered_is_not_heard() {
    let mut engine = small_hub();
    let effects = WebSocketClient::exec(&mut engine, &42, &json(r#"{"action":"ROOM_CREATE"}"#));
    assert!(effects.is_empty());
    assert_eq!(engine.get_rooms_list(), vec![10]);
    assert!(WebSocketClient::send_rooms_list(&engine, &42).is_empty());
    assert!(WebSocketClient::subscribe_rooms(&mut engine, &42).is_empty());
}

#[test]
fn commands_are_decoded_by_action_then_by_target() {
    let id = "67e55044-10b1-426f-9247-bb680e5fe0c8";
    let number = Uuid::parse_str(id).unwrap().as_u128();
    assert!(matches!(Command::decode(&json(r#"{"action":"ROOM_CREATE"}"#)), Command::RoomCreate));
    assert!(matches!(
        Command::decode(&json(r#"{"action":"ROOMS_SUBSCRIBE"}"#)),
        Command::RoomsSubscribe
    ));
    assert!(matches!(
        Command::decode(&json(r#"{"action":"ROOMS_UNSUBSCRIBE"}"#)),
        Command::RoomsUnsubscribe
    ));
    assert!(matches!(Command::decode(&json(r#"{"action":"ROOMS_LIST"}"#)), Command::RoomsList));
    let join = json(&format!(r#"{{"action":"ROOM_JOIN","room_id":"{}"}}"#, id));
    assert!(matches!(Command::decode(&join), Command::RoomJoin { room_id } if room_id == number));
    let upper = json(&format!(r#"{{"action":"ROOM_JOIN","room_id":"{}"}}"#, id.to_uppercase()));
    assert!(matches!(Command::decode(&upper), Command::RoomJoin { room_id } if room_id == number));
    let list = json(&format!(r#"{{"action":"ROOM_CLIENTS_LIST","room_id":"{}"}}"#, id));
    assert!(matches!(
        Command::decode(&list),
        Command::RoomClientsList { room_id } if room_id == number
    ));
    let exit = json(&format!(r#"{{"action":"ROOM_EXIT","target":{{"type":"ROOM","id":"{}"}}}}"#, id));
    assert!(matches!(
        Command::decode(&exit),
        Command::Room { room_id, command: RoomCommand::Exit } if room_id == number
    ));
    let other = json(&format!(r#"{{"action":"WAVE","target":{{"type":"ROOM","id":"{}"}}}}"#, id));
    assert!(matches!(
        Command::decode(&other),
        Command::Room { room_id, command: RoomCommand::Ignored } if room_id == number
    ));
    let create = json(&format!(
        r#"{{"action":"ROOM_CREATE","target":{{"type":"ROOM","id":"{}"}}}}"#,
        id
    ));
    assert!(matches!(Command::decode(&create), Command::RoomCreate));
    let data = json(&format!(
        r#"{{"action":"BROADCAST","target":{{"type":"ROOM","id":"{}"}},"data":{{"a":[1,2]}}}}"#,
        id
    ));
    match Command::decode(&data) {
        Command::Room { room_id, command: RoomCommand::Broadcast { data } } => {
            assert_eq!(room_id, number);
            assert_eq!(data, json(r#"{"a":[1,2]}"#));
        }
        other => panic!("decoded as {:?}", other),
    }
    assert!(matches!(Command::decode(&json(r#"{"target":{"type":"ROOM"}}"#)), Command::Ignored));
}

#[test]
fn manager_creates_a_room_for_the_clients_it_finds() {
    let mut manager = ChatManager::default();
    let a = manager.create_client();
    let b = manager.create_client();
    let c = manager.create_client();
    let (created, effects) = manager.create_room(vec![a, 1234, b, c, 5678]);
    let room_id = created.unwrap();
    let creation = json(&format!(
        r#"{{"type":"EVENT","event":{{"type":"ROOM_CREATION","room_id":"{}","creator_id":"{}"}}}}"#,
        text(room_id),
        text(c)
    ));
    assert_eq!(
        plain_all(&effects),
        vec![
            publish(Topic::Rooms, creation),
            forward(a, Topic::Room(room_id)),
            publish(Topic::Room(room_id), room_join(room_id, a)),
            forward(b, Topic::Room(room_id)),
            publish(Topic::Room(room_id), room_join(room_id, b)),
        ]
    );
    assert_eq!(members(manager.engine(), room_id), Some(sorted(vec![a, b])));
    assert_eq!(*manager.engine().get_room(&room_id).unwrap().get_creator(), c);
    assert_eq!(rooms_of(manager.engine(), c), Some(vec![]));
}

#[test]
fn manager_creates_no_room_for_strangers() {
    let mut manager = ChatManager::default();
    manager.create_client();
    let (created, effects) = manager.create_room(vec![1, 2, 3]);
    assert_eq!(created, None);
    assert!(effects.is_empty());
    assert!(manager.engine().get_rooms_list().is_empty());
    let (created, effects) = manager.create_room(Vec::new());
    assert_eq!(created, None);
    assert!(effects.is_empty());
}

#[test]
fn registering_an_identifier_again_replaces_the_entry() {
    let mut engine = small_hub();
    engine.register_client(WebSocketClient::identified(1));
    assert_eq!(rooms_of(&engine, 1), Some(vec![]));
    assert_eq!(rooms_of(&engine, 2), Some(vec![10]));
    engine.room_add(WebSocketRoom::identified(10, &3));
    assert_eq!(engine.get_rooms_list(), vec![10]);
    assert_eq!(members(&engine, 10), Some(vec![]));
    assert_eq!(*engine.get_room(&10).unwrap().get_creator(), 3);
}

#[test]
fn text_on_the_wire_is_compact_json() {
    let client = WebSocketClient::identified(1);
    let value = json(r#"{ "b" : [1, "x", null], "a" : { "c" : true } }"#);
    assert_eq!(client.send(&value), r#"{"a":{"c":true},"b":[1,"x",null]}"#);
}

#[test]
fn lists_hold_every_entry_once() {
    let mut engine = ChatEngine::default();
    let clients: Vec<u128> = (1..=40).collect();
    for id in &clients {
        engine.register_client(WebSocketClient::identified(*id));
    }
    let rooms: Vec<u128> = (100..130).collect();
    for id in &rooms {
        engine.room_add(WebSocketRoom::identified(*id, &1));
    }
    for id in &clients {
        WebSocketClient::join_room(&mut engine, id, &100);
        WebSocketClient::join_room(&mut engine, id, &100);
    }
    for id in &rooms {
        WebSocketClient::join_room(&mut engine, &7, id);
    }
    assert_eq!(sorted(engine.get_rooms_list()), rooms);
    assert_eq!(members(&engine, 100), Some(clients.clone()));
    assert_eq!(rooms_of(&engine, 7), Some(rooms.clone()));

    let effects = engine.remove_client(&7);
    assert!(engine.get_client(&7).is_none());
    assert_eq!(members(&engine, 101), None);
    assert_eq!(sorted(engine.get_rooms_list()), vec![100]);
    let removed: Vec<&Effect> = effects
        .iter()
        .filter(|effect| matches!(effect, Effect::Publish { topic: Topic::Rooms, .. }))
        .collect();
    assert_eq!(removed.len(), 29);
    assert_eq!(effects.len(), 30 + 29);
    let left: Vec<u128> = clients.iter().copied().filter(|id| *id != 7).collect();
    assert_eq!(members(&engine, 100), Some(left));
}
