use chat_engine::api::token::{self, TokenError as Refusal};
use chat_engine::token_manager::{TokenError, TokenManager, DEFAULT_SET, DEFAULT_TIMEOUT, INTERVAL};
use serde_json::Value;

fn parsed(text: &str) -> Value {
    serde_json::from_str(text).unwrap()
}

#[test]
fn defaults_are_as_documented() {
    assert_eq!(DEFAULT_SET, "ABCDEFGHJKLMNPQRSTUVWXYZ23456789");
    assert_eq!(DEFAULT_TIMEOUT, 120_000);
    assert_eq!(INTERVAL, 5_000);
}

#[test]
fn draws_spell_the_code() {
    let mut manager = TokenManager::new(4, None, Some("abc"));
    let draws = vec![0, 1, 2, 3, 9, 9, 9, 9, 9, 9, 9, 9];
    assert_eq!(manager.create_from(&draws, 0), Ok("abca".to_string()));
    assert_eq!(manager.list(), vec!["abca".to_string()]);
}

#[test]
fn draws_pick_from_the_default_set() {
    let mut manager = TokenManager::new(3, None, None);
    let draws = vec![0, 31, 32, 0, 0, 0, 0, 0, 0];
    assert_eq!(manager.create_from(&draws, 0), Ok("A9A".to_string()));
}

#[test]
fn a_code_in_use_makes_the_next_attempt_longer() {
    let mut manager = TokenManager::new(2, None, Some("xy"));
    let draws = vec![0, 0, 1, 1, 0, 1];
    assert_eq!(manager.create_from(&draws, 0), Ok("xx".to_string()));
    assert_eq!(manager.create_from(&draws, 1), Ok("xxyy".to_string()));
    assert_eq!(manager.create_from(&draws, 2), Ok("xxyyxy".to_string()));
    assert_eq!(manager.create_from(&draws, 3), Err(TokenError::NoMoreTokens));
    assert_eq!(
        manager.list(),
        vec!["xx".to_string(), "xxyy".to_string(), "xxyyxy".to_string()]
    );
}

#[test]
fn a_code_without_characters_is_issued_once() {
    let mut manager = TokenManager::new(0, None, Some(""));
    assert_eq!(manager.create(5), Ok(String::new()));
    assert_eq!(manager.create(6), Err(TokenError::NoMoreTokens));
    assert_eq!(manager.connect(""), Ok(()));
    assert_eq!(manager.create(7), Ok(String::new()));
}

#[test]
fn no_code_is_made_of_no_characters() {
    let mut manager = TokenManager::new(4, None, Some(""));
    assert_eq!(manager.create(0), Err(TokenError::NoMoreTokens));
    assert!(manager.list().is_empty());
}

#[test]
fn random_codes_are_made_of_the_set() {
    let mut manager = TokenManager::new(6, None, None);
    let mut seen = Vec::new();
    for now in 0..50 {
        let code = manager.create(now).unwrap();
        assert!(code.chars().count() % 6 == 0 && code.chars().count() >= 6 && code.chars().count() <= 18);
        assert!(code.chars().all(|c| DEFAULT_SET.contains(c)));
        assert!(!seen.contains(&code));
        seen.push(code);
    }
    assert_eq!(manager.list(), seen);
}

#[test]
fn random_codes_run_out() {
    let mut manager = TokenManager::new(1, None, Some("a"));
    assert_eq!(manager.create(0), Ok("a".to_string()));
    assert_eq!(manager.create(0), Ok("aa".to_string()));
    assert_eq!(manager.create(0), Ok("aaa".to_string()));
    assert_eq!(manager.create(0), Err(TokenError::NoMoreTokens));
}

#[test]
fn characters_beyond_ascii_are_kept_whole() {
    let mut manager = TokenManager::new(2, None, Some("äöü"));
    assert_eq!(manager.create_from(&vec![2, 4, 0, 0, 0, 0], 0), Ok("üö".to_string()));
}

#[test]
fn a_code_is_used_once() {
    let mut manager = TokenManager::new(2, None, Some("ab"));
    let code = manager.create_from(&vec![0, 1, 0, 0, 0, 0], 0).unwrap();
    assert_eq!(manager.connect(&code), Ok(()));
    assert_eq!(manager.connect(&code), Err(TokenError::TokenNotFound));
    assert!(manager.list().is_empty());
}

#[test]
fn an_unknown_code_is_refused() {
    let mut manager = TokenManager::new(2, None, Some("ab"));
    manager.create_from(&vec![0, 1, 0, 0, 0, 0], 0).unwrap();
    assert_eq!(manager.connect("ba"), Err(TokenError::TokenNotFound));
    assert_eq!(manager.list(), vec!["ab".to_string()]);
}

#[test]
fn codes_expire_after_the_timeout() {
    let mut manager = TokenManager::new(1, Some(100), Some("abc"));
    manager.create_from(&vec![0, 0, 0], 1_000).unwrap();
    manager.create_from(&vec![1, 0, 0], 1_050).unwrap();
    manager.create_from(&vec![2, 0, 0], 1_100).unwrap();
    assert_eq!(manager.start(1_100), Some(INTERVAL));
    assert_eq!(manager.list().len(), 3);
    assert_eq!(manager.start(1_101), Some(INTERVAL));
    assert_eq!(manager.list(), vec!["b".to_string(), "c".to_string()]);
    assert_eq!(manager.start(1_200), Some(INTERVAL));
    assert_eq!(manager.list(), vec!["c".to_string()]);
    assert_eq!(manager.start(900), Some(INTERVAL));
    assert_eq!(manager.list(), vec!["c".to_string()]);
    assert_eq!(manager.start(u64::MAX), Some(INTERVAL));
    assert!(manager.list().is_empty());
}

#[test]
fn the_default_timeout_is_two_minutes() {
    let mut manager = TokenManager::new(1, None, Some("a"));
    manager.create(0).unwrap();
    manager.start(120_000);
    assert_eq!(manager.list().len(), 1);
    manager.start(120_001);
    assert!(manager.list().is_empty());
}

#[test]
fn a_stopped_sweep_removes_nothing() {
    let mut manager = TokenManager::new(1, Some(0), Some("a"));
    manager.create(0).unwrap();
    manager.stop();
    assert_eq!(manager.start(1_000), None);
    assert_eq!(manager.list().len(), 1);
}

#[test]
fn the_service_answers_a_request_for_a_code() {
    let mut manager = TokenManager::new(1, None, Some("a"));
    let answer = token::create(&mut manager, 0);
    assert_eq!(answer.status, 200);
    assert_eq!(answer.body, parsed(r#"{"token":"a"}"#));
    token::create(&mut manager, 0);
    token::create(&mut manager, 0);
    let answer = token::create(&mut manager, 0);
    assert_eq!(answer.status, 503);
    assert_eq!(answer.body, parsed(r#"{"error":"NO MORE TOKENS"}"#));
}

#[test]
fn the_service_lists_the_codes() {
    let mut manager = TokenManager::new(1, None, Some("a"));
    assert_eq!(token::list(&manager).body, parsed(r#"{"tokens":[]}"#));
    manager.create(0).unwrap();
    manager.create(0).unwrap();
    let answer = token::list(&manager);
    assert_eq!(answer.status, 200);
    assert_eq!(answer.body, parsed(r#"{"tokens":["a","aa"]}"#));
}

#[test]
fn the_service_answers_a_request_to_use_a_code() {
    let mut manager = TokenManager::new(1, None, Some("a"));
    manager.create(0).unwrap();
    let answer = token::connect(&mut manager, "a");
    assert_eq!(answer.status, 200);
    assert_eq!(answer.body, parsed(r#"{"status":"OK"}"#));
    let answer = token::connect(&mut manager, "a");
    assert_eq!(answer.status, 404);
    assert_eq!(answer.body, parsed(r#"{"error":"TOKEN NOT FOUND"}"#));
}

#[test]
fn refusals_carry_their_status() {
    assert_eq!(Refusal::from_store(TokenError::NoMoreTokens), Refusal::NoMoreTokens);
    assert_eq!(Refusal::from_store(TokenError::TokenNotFound), Refusal::TokenNotFound);
    assert_eq!(Refusal::NoMoreTokens.answer().status, 503);
    assert_eq!(Refusal::TokenNotFound.answer().status, 404);
}
