//! The answers of the code service to the three requests that it takes.
use vstd::prelude::*;
use crate::json::{json_of, Json};
use crate::token_manager::TokenManager;
use serde_json::Value;

verus! {

/// Why a request was turned down.
#[derive(Clone, Copy, Debug, PartialEq, Eq, Structural)]
pub enum TokenError {
    /// The code is not known.
    TokenNotFound,
    /// No code could be issued.
    NoMoreTokens,
}

/// An answer: a status and a JSON body.
#[derive(Debug)]
pub struct Answer {
    pub status: u16,
    pub body: Value,
}

/// An answer with the body taken by content.
pub ghost struct AnswerView {
    pub status: u16,
    pub body: Json,
}

impl View for Answer {
    type V = AnswerView;

    open spec fn view(&self) -> AnswerView {
        AnswerView { status: self.status, body: json_of(self.body) }
    }
}

/// The object with one member, a string.
pub open spec fn note(key: Seq<char>, text: Seq<char>) -> Json {
    Json::Object(Map::empty().insert(key, Json::String(text)))
}

/// The answer to a request that was carried out: status 200.
pub open spec fn accepted(body: Json) -> AnswerView {
    AnswerView { status: 200, body }
}

impl TokenError {
    /// How the service sees an error of the store.
    pub open spec fn of(error: crate::token_manager::TokenError) -> TokenError {
        match error {
            crate::token_manager::TokenError::NoMoreTokens => TokenError::NoMoreTokens,
            crate::token_manager::TokenError::TokenNotFound => TokenError::TokenNotFound,
        }
    }

    /// The answer that turns a request down: status 503 where no code could
    /// be issued, 404 where the code is not known, each with its message
    /// under `error`.
    pub open spec fn refusal(self) -> AnswerView {
        match self {
            TokenError::NoMoreTokens => AnswerView {
                status: 503,
                body: note("error"@, "NO MORE TOKENS"@),
            },
            TokenError::TokenNotFound => AnswerView {
                status: 404,
                body: note("error"@, "TOKEN NOT FOUND"@),
            },
        }
    }

    /// How the service sees an error of the store.
    pub fn from_store(error: crate::token_manager::TokenError) -> (seen: TokenError)
        ensures
            seen == TokenError::of(error),
    {
        match error {
            crate::token_manager::TokenError::NoMoreTokens => TokenError::NoMoreTokens,
            crate::token_manager::TokenError::TokenNotFound => TokenError::TokenNotFound,
        }
    }

    /// The answer that turns a request down.
    pub fn answer(&self) -> (answer: Answer)
        ensures
            answer@ == self.refusal(),
    {
        match self {
            TokenError::NoMoreTokens => Answer {
                status: 503,
                body: noted("error", "NO MORE TOKENS"),
            },
            TokenError::TokenNotFound => Answer {
                status: 404,
                body: noted("error", "TOKEN NOT FOUND"),
            },
        }
    }
}

/// The object with one member, a string.
fn noted(key: &str, text: &str) -> (body: Value)
    ensures
        json_of(body) == note(key@, text@),
{
    let mut body = crate::json::object();
    crate::json::set(&mut body, key, crate::json::string(text.to_owned()));
    body
}

/// Answers a request for a new code at the time `now`: the code under
/// `token`, or the refusal where none could be issued.
pub fn create(token_manager: &mut TokenManager, now: u64) -> (answer: Answer)
    ensures
        answer@.status == 200 || answer@ == TokenError::NoMoreTokens.refusal(),
        answer@.status == 200 ==> exists|code: Seq<char>|
            #[trigger] old(token_manager)@.issues(now, final(token_manager)@, Some(code))
                && answer@ == accepted(note("token"@, code)),
        answer@.status != 200 ==> old(token_manager)@.issues(now, final(token_manager)@, None),
{
    match token_manager.create(now) {
        Ok(code) => {
            let answer = Answer { status: 200, body: noted("token", code.as_str()) };
            assert(old(token_manager)@.issues(now, token_manager@, Some(code@)));
            answer
        },
        Err(error) => TokenError::from_store(error).answer(),
    }
}

/// Answers a request for the codes that can be used: their list under
/// `tokens`.
pub fn list(token_manager: &TokenManager) -> (answer: Answer)
    ensures
        answer@ == accepted(
            Json::Object(
                Map::empty().insert(
                    "tokens"@,
                    Json::Array(
                        Seq::new(
                            token_manager@.codes().len(),
                            |i: int| Json::String(token_manager@.codes()[i]),
                        ),
                    ),
                ),
            ),
        ),
{
    let codes = token_manager.list();
    let listed = crate::json::strings(codes);
    assert(json_of(listed)->Array_0 =~= Seq::new(
        token_manager@.codes().len(),
        |i: int| Json::String(token_manager@.codes()[i]),
    ));
    let mut body = crate::json::object();
    crate::json::set(&mut body, "tokens", listed);
    Answer { status: 200, body }
}

/// Answers a request to use a code: `OK` under `status` where the code was
/// in the store, which it then leaves; else the refusal.
pub fn connect(token_manager: &mut TokenManager, token: &str) -> (answer: Answer)
    ensures
        old(token_manager)@.has(token@) ==> final(token_manager)@ == old(
            token_manager,
        )@.without_token(token@) && answer@ == accepted(note("status"@, "OK"@)),
        !old(token_manager)@.has(token@) ==> final(token_manager)@ == old(token_manager)@
            && answer@ == TokenError::TokenNotFound.refusal(),
{
    match token_manager.connect(token) {
        Ok(_) => Answer { status: 200, body: noted("status", "OK") },
        Err(error) => TokenError::from_store(error).answer(),
    }
}

} // verus!
