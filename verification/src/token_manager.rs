//! Short-lived access codes: each is issued once, can be used once, and
//! expires when it has not been used in time.
use vstd::prelude::*;
use vstd::string::*;
use crate::ids::{lemma_position, lemma_position_is, lemma_without_id, position, without_id};

verus! {

/// The characters that codes are made of where none are given.
pub const DEFAULT_SET: &'static str = "ABCDEFGHJKLMNPQRSTUVWXYZ23456789";

/// The time, in milliseconds, after which a code expires where none is
/// given.
pub const DEFAULT_TIMEOUT: u64 = 120000;

/// The time, in milliseconds, between two sweeps for expired codes.
pub const INTERVAL: u64 = 5000;

/// Why a code was not issued or not accepted.
#[derive(Clone, Copy, Debug, PartialEq, Eq, Structural)]
pub enum TokenError {
    /// No unused code was found.
    NoMoreTokens,
    /// The code is not known: it was never issued, was used, or has expired.
    TokenNotFound,
}

/// A code with the time at which it was issued.
pub struct Token {
    pub(crate) code: String,
    pub(crate) created_at: u64,
}

/// A code as a value.
pub struct TokenView {
    pub code: Seq<char>,
    pub created_at: u64,
}

impl View for Token {
    type V = TokenView;

    open(crate) spec fn view(&self) -> TokenView {
        TokenView { code: self.code@, created_at: self.created_at }
    }
}

/// Whether a code issued at `created_at` has expired at `now`: more than
/// `timeout` has passed since.
pub open spec fn expired(created_at: u64, now: u64, timeout: u64) -> bool {
    now > created_at && now - created_at > timeout
}

/// The codes of a list that have not expired at `now`, in order.
pub open spec fn unexpired(tokens: Seq<TokenView>, now: u64, timeout: u64) -> Seq<TokenView>
    decreases tokens.len(),
{
    if tokens.len() == 0 {
        tokens
    } else if expired(tokens.last().created_at, now, timeout) {
        unexpired(tokens.drop_last(), now, timeout)
    } else {
        unexpired(tokens.drop_last(), now, timeout).push(tokens.last())
    }
}

/// The text that a list of draws spells: each draw picks the character at
/// its place in `chars`, counted around.
pub open spec fn spelled(chars: Seq<char>, draws: Seq<usize>) -> Seq<char> {
    Seq::new(draws.len(), |i: int| chars[draws[i] as int % chars.len() as int])
}

/// The code that a request for one has brought, if any.
pub open spec fn code_of(created: Result<String, TokenError>) -> Option<Seq<char>> {
    match created {
        Ok(code) => Some(code@),
        Err(_) => None,
    }
}

/// The store of codes.
pub struct TokenManagerEngine {
    pub(crate) length: u8,
    pub(crate) chars: Vec<char>,
    pub(crate) tokens: Vec<Token>,
    pub(crate) timeout: u64,
    pub(crate) running: bool,
}

/// The store of codes as a value.
pub struct TokenManagerView {
    /// How many characters an attempt adds to a code.
    pub length: u8,
    /// The characters that codes are made of.
    pub chars: Seq<char>,
    /// The codes that can be used, in the order in which they were issued.
    pub tokens: Seq<TokenView>,
    /// The time, in milliseconds, after which a code expires.
    pub timeout: u64,
    /// Whether the sweep for expired codes goes on.
    pub running: bool,
}

impl TokenManagerView {
    /// The texts of the codes, in order.
    pub open spec fn codes(self) -> Seq<Seq<char>> {
        Seq::new(self.tokens.len(), |i: int| self.tokens[i].code)
    }

    /// Whether a code can be used.
    pub open spec fn has(self, code: Seq<char>) -> bool {
        self.codes().contains(code)
    }

    /// No code is there twice.
    pub open spec fn wf(self) -> bool {
        self.codes().no_duplicates()
    }

    /// Whether codes can be made at all: only a code without characters can
    /// be made of no characters.
    pub open spec fn can_spell(self) -> bool {
        self.length == 0 || self.chars.len() > 0
    }

    /// The code that the attempt with this number proposes: what the draws
    /// up to and including its own spell. Each attempt adds `length`
    /// characters to the code of the attempt before.
    pub open spec fn candidate(self, draws: Seq<usize>, attempt: int) -> Seq<char> {
        spelled(self.chars, draws.take((attempt + 1) * self.length))
    }

    /// The code that is issued for a list of draws: that of the first of
    /// three attempts whose code is not in use. `None` where all three are
    /// in use, and where no code can be made.
    pub open spec fn chosen(self, draws: Seq<usize>) -> Option<Seq<char>> {
        if !self.can_spell() {
            None
        } else if !self.has(self.candidate(draws, 0)) {
            Some(self.candidate(draws, 0))
        } else if !self.has(self.candidate(draws, 1)) {
            Some(self.candidate(draws, 1))
        } else if !self.has(self.candidate(draws, 2)) {
            Some(self.candidate(draws, 2))
        } else {
            None
        }
    }

    /// The store with a code issued at `now`.
    pub open spec fn with_token(self, code: Seq<char>, now: u64) -> TokenManagerView {
        TokenManagerView { tokens: self.tokens.push(TokenView { code, created_at: now }), ..self }
    }

    /// The store without the first code with this text.
    pub open spec fn without_token(self, code: Seq<char>) -> TokenManagerView {
        if self.has(code) {
            TokenManagerView { tokens: self.tokens.remove(position(self.codes(), code)), ..self }
        } else {
            self
        }
    }

    /// What asking for a code does, for a list of draws: the store
    /// afterwards, and the code that is issued, if one is.
    pub open spec fn issued(self, draws: Seq<usize>, now: u64) -> (TokenManagerView, Option<Seq<char>>) {
        match self.chosen(draws) {
            Some(code) => (self.with_token(code, now), Some(code)),
            None => (self, None),
        }
    }

    /// Whether asking for a code at `now` can lead from this store to the
    /// store `after` and the code `code`: it does so for some list of draws.
    pub open spec fn issues(self, now: u64, after: TokenManagerView, code: Option<Seq<char>>) -> bool {
        exists|draws: Seq<usize>|
            draws.len() == 3 * self.length && #[trigger] self.issued(draws, now) == (after, code)
    }

    /// The store after a sweep at `now`: while it is running, the codes that
    /// have expired are gone.
    pub open spec fn swept(self, now: u64) -> TokenManagerView {
        if self.running {
            TokenManagerView { tokens: unexpired(self.tokens, now, self.timeout), ..self }
        } else {
            self
        }
    }
}

impl View for TokenManagerEngine {
    type V = TokenManagerView;

    open(crate) spec fn view(&self) -> TokenManagerView {
        TokenManagerView {
            length: self.length,
            chars: self.chars@,
            tokens: Seq::new(self.tokens@.len(), |i: int| self.tokens@[i]@),
            timeout: self.timeout,
            running: self.running,
        }
    }
}

/// Of the codes of a list, those that have not expired are some of them,
/// in their order; so if no code was there twice, none is.
pub proof fn lemma_unexpired(tokens: Seq<TokenView>, now: u64, timeout: u64)
    ensures
        unexpired(tokens, now, timeout).len() <= tokens.len(),
        forall|i: int|
            0 <= i < unexpired(tokens, now, timeout).len() ==> tokens.contains(
                #[trigger] unexpired(tokens, now, timeout)[i],
            ) && !expired(unexpired(tokens, now, timeout)[i].created_at, now, timeout),
        forall|i: int|
            0 <= i < tokens.len() && !expired(tokens[i].created_at, now, timeout) ==> unexpired(
                tokens,
                now,
                timeout,
            ).contains(#[trigger] tokens[i]),
        Seq::new(tokens.len(), |i: int| tokens[i].code).no_duplicates() ==> Seq::new(
            unexpired(tokens, now, timeout).len(),
            |i: int| unexpired(tokens, now, timeout)[i].code,
        ).no_duplicates(),
    decreases tokens.len(),
{
    let kept = unexpired(tokens, now, timeout);
    if tokens.len() > 0 {
        let init = tokens.drop_last();
        let before = unexpired(init, now, timeout);
        lemma_unexpired(init, now, timeout);
        assert forall|i: int| 0 <= i < kept.len() implies tokens.contains(#[trigger] kept[i])
            && !expired(kept[i].created_at, now, timeout) by {
            if i < before.len() {
                assert(kept[i] == before[i]);
                let j = choose|j: int| 0 <= j < init.len() && init[j] == before[i];
                assert(tokens[j] == kept[i]);
            } else {
                assert(kept[i] == tokens[tokens.len() - 1]);
            }
        }
        assert forall|i: int|
            0 <= i < tokens.len() && !expired(tokens[i].created_at, now, timeout) implies kept.contains(
            #[trigger] tokens[i],
        ) by {
            if i < init.len() {
                assert(init[i] == tokens[i]);
                let j = choose|j: int| 0 <= j < before.len() && before[j] == init[i];
                assert(kept[j] == tokens[i]);
            } else {
                assert(kept[kept.len() - 1] == tokens[i]);
            }
        }
        let codes = Seq::new(tokens.len(), |i: int| tokens[i].code);
        if codes.no_duplicates() {
            let init_codes = Seq::new(init.len(), |i: int| init[i].code);
            assert forall|i: int, j: int|
                0 <= i < init_codes.len() && 0 <= j < init_codes.len() && i != j implies init_codes[i]
                != init_codes[j] by {
                assert(codes[i] == init_codes[i] && codes[j] == init_codes[j]);
            }
            let kept_codes = Seq::new(kept.len(), |i: int| kept[i].code);
            let before_codes = Seq::new(before.len(), |i: int| before[i].code);
            assert forall|i: int, j: int|
                0 <= i < kept_codes.len() && 0 <= j < kept_codes.len() && i != j implies kept_codes[i]
                != kept_codes[j] by {
                if i < before.len() && j < before.len() {
                    assert(before_codes[i] == kept_codes[i] && before_codes[j] == kept_codes[j]);
                } else {
                    let low = if i < j { i } else { j };
                    let k = choose|k: int| 0 <= k < init.len() && init[k] == before[low];
                    assert(codes[k] == kept_codes[low]);
                    assert(codes[tokens.len() - 1] == tokens.last().code);
                }
            }
        }
    }
}

/// A code that is issued was not in use, and is in use afterwards; a code
/// that is used is no longer in use afterwards, so that it cannot be used
/// again.
pub proof fn lemma_issued_once_used_once(store: TokenManagerView, draws: Seq<usize>, now: u64)
    requires
        store.wf(),
    ensures
        store.issued(draws, now).0.wf(),
        store.issued(draws, now).1 matches Some(code) ==> !store.has(code) && store.issued(
            draws,
            now,
        ).0.has(code) && !store.issued(draws, now).0.without_token(code).has(code),
        store.issued(draws, now).1 is None ==> store.issued(draws, now).0 == store,
{
    match store.chosen(draws) {
        Some(code) => {
            let after = store.with_token(code, now);
            assert(after.codes() =~= store.codes().push(code));
            assert(after.codes()[store.codes().len() as int] == code);
            crate::ids::lemma_with_id(store.codes(), code);
            assert(after.codes() =~= crate::ids::with_id(store.codes(), code));
            lemma_position(after.codes(), code);
            assert(after.without_token(code).codes() =~= without_id(after.codes(), code));
            lemma_without_id(after.codes(), code);
        },
        None => {},
    }
}

/// `rand::random::<usize>()`: a random number. Nothing is known of it.
#[verifier::external_body]
fn draw() -> usize {
    rand::random::<usize>()
}

/// `String::push`: the text with one more character at its end.
#[verifier::external_body]
fn push_char(text: &mut String, c: char)
    ensures
        final(text)@ == old(text)@.push(c),
{
    text.push(c)
}

/// The characters of a text, in order.
fn chars_of(text: &str) -> (chars: Vec<char>)
    ensures
        chars@ == text@,
{
    let mut chars: Vec<char> = Vec::new();
    let n = text.unicode_len();
    let mut i: usize = 0;
    while i < n
        invariant
            n == text@.len(),
            i <= n,
            chars@ == text@.take(i as int),
        decreases n - i,
    {
        chars.push(text.get_char(i));
        assert(text@.take(i + 1) =~= text@.take(i as int).push(text@[i as int]));
        i += 1;
    }
    assert(text@.take(i as int) =~= text@);
    chars
}

impl TokenManagerEngine {
    /// An empty store. Codes grow by `length` characters of `chars` with
    /// each attempt and expire after `timeout` milliseconds.
    pub fn new(length: u8, timeout: Option<u64>, chars: Option<&str>) -> (engine: Self)
        ensures
            engine@ == (TokenManagerView {
                length,
                chars: match chars {
                    Some(text) => text@,
                    None => DEFAULT_SET@,
                },
                tokens: Seq::empty(),
                timeout: match timeout {
                    Some(time) => time,
                    None => DEFAULT_TIMEOUT,
                },
                running: true,
            }),
            engine@.wf(),
    {
        let chars = match chars {
            Some(text) => chars_of(text),
            None => chars_of(DEFAULT_SET),
        };
        let timeout = match timeout {
            Some(time) => time,
            None => DEFAULT_TIMEOUT,
        };
        let engine = TokenManagerEngine {
            length,
            chars,
            tokens: Vec::new(),
            timeout,
            running: true,
        };
        assert(engine@.tokens =~= Seq::empty());
        engine
    }

    /// The place of the first code with this text, or the number of codes
    /// where there is none.
    fn find(&self, code: &String) -> (at: usize)
        ensures
            at == position(self@.codes(), code@),
            at <= self@.tokens.len(),
            at < self@.tokens.len() <==> self@.has(code@),
    {
        let mut i: usize = 0;
        while i < self.tokens.len() && self.tokens[i].code != *code
            invariant
                i <= self.tokens@.len(),
                forall|j: int| 0 <= j < i ==> self@.codes()[j] != code@,
            decreases self.tokens@.len() - i,
        {
            i += 1;
        }
        proof {
            lemma_position_is(self@.codes(), code@, i as int);
            lemma_position(self@.codes(), code@);
        }
        i
    }

    /// The code that the attempt with this number proposes.
    fn propose(&self, draws: &Vec<usize>, attempt: usize) -> (code: String)
        requires
            attempt < 3,
            self@.can_spell(),
            draws@.len() >= 3 * self@.length,
        ensures
            code@ == self@.candidate(draws@, attempt as int),
    {
        let length = self.length as usize;
        let count = if attempt == 0 {
            length
        } else if attempt == 1 {
            2 * length
        } else {
            3 * length
        };
        assert(count == (attempt + 1) * self@.length) by {
            if attempt == 0 {
                assert(count == 1 * self@.length);
            } else if attempt == 1 {
                assert(count == 2 * self@.length);
            } else {
                assert(count == 3 * self@.length);
            }
        }
        if count == 0 {
            let code = String::new();
            assert(code@ =~= spelled(self@.chars, draws@.take(0)));
            code
        } else {
            self.spell(draws, count)
        }
    }

    /// Issues a code for a list of draws, at the time `now`: the code of
    /// the first of three attempts that is not in use.
    pub fn create_from(&mut self, draws: &Vec<usize>, now: u64) -> (created: Result<String, TokenError>)
        requires
            draws@.len() >= 3 * old(self)@.length,
        ensures
            final(self)@ == old(self)@.issued(draws@, now).0,
            match created {
                Ok(code) => old(self)@.issued(draws@, now).1 == Some(code@),
                Err(error) => old(self)@.issued(draws@, now).1 is None && error
                    == TokenError::NoMoreTokens,
            },
            old(self)@.wf() ==> final(self)@.wf(),
    {
        if self.length > 0 && self.chars.len() == 0 {
            return Err(TokenError::NoMoreTokens);
        }
        let mut attempt: usize = 0;
        while attempt < 3
            invariant
                attempt <= 3,
                *self == *old(self),
                self@.can_spell(),
                draws@.len() >= 3 * self@.length,
                forall|k: int| 0 <= k < attempt ==> self@.has(#[trigger] self@.candidate(draws@, k)),
            decreases 3 - attempt,
        {
            let code = self.propose(draws, attempt);
            if self.find(&code) == self.tokens.len() {
                let issued = code.clone();
                self.tokens.push(Token { code, created_at: now });
                proof {
                    let after = old(self)@.with_token(issued@, now);
                    assert(self@.tokens =~= after.tokens);
                    if old(self)@.wf() {
                        assert forall|i: int, j: int|
                            0 <= i < after.codes().len() && 0 <= j < after.codes().len() && i != j implies after.codes()[i]
                            != after.codes()[j] by {
                            if i < old(self)@.codes().len() {
                                assert(after.codes()[i] == old(self)@.codes()[i]);
                            }
                            if j < old(self)@.codes().len() {
                                assert(after.codes()[j] == old(self)@.codes()[j]);
                            }
                        }
                    }
                }
                return Ok(issued);
            }
            attempt += 1;
        }
        Err(TokenError::NoMoreTokens)
    }

    /// Issues a code at the time `now`, from random draws.
    pub fn create(&mut self, now: u64) -> (created: Result<String, TokenError>)
        ensures
            old(self)@.issues(now, final(self)@, code_of(created)),
            created is Err ==> created == Err::<String, TokenError>(TokenError::NoMoreTokens),
            old(self)@.wf() ==> final(self)@.wf(),
    {
        let mut draws: Vec<usize> = Vec::new();
        let count = 3 * (self.length as usize);
        let mut i: usize = 0;
        while i < count
            invariant
                i <= count,
                draws@.len() == i,
            decreases count - i,
        {
            draws.push(draw());
            i += 1;
        }
        let created = self.create_from(&draws, now);
        assert(old(self)@.issued(draws@, now) == (self@, code_of(created)));
        created
    }

    /// Uses a code: a code that is in the store is taken out of it, any
    /// other code is refused.
    pub fn connect(&mut self, token: &str) -> (used: Result<(), TokenError>)
        ensures
            match used {
                Ok(_) => old(self)@.has(token@) && final(self)@ == old(self)@.without_token(token@),
                Err(error) => !old(self)@.has(token@) && final(self)@ == old(self)@ && error
                    == TokenError::TokenNotFound,
            },
            old(self)@.wf() ==> final(self)@.wf() && !final(self)@.has(token@),
    {
        let code = token.to_owned();
        let at = self.find(&code);
        if at < self.tokens.len() {
            self.tokens.remove(at);
            proof {
                assert(self@.tokens =~= old(self)@.without_token(token@).tokens);
                assert(self@.codes() =~= without_id(old(self)@.codes(), token@));
                lemma_without_id(old(self)@.codes(), token@);
            }
            Ok(())
        } else {
            Err(TokenError::TokenNotFound)
        }
    }

    /// The codes that can be used, in the order in which they were issued.
    pub fn list(&self) -> (codes: Vec<String>)
        ensures
            codes@.len() == self@.codes().len(),
            forall|i: int| 0 <= i < codes@.len() ==> (#[trigger] codes@[i])@ == self@.codes()[i],
    {
        let mut codes: Vec<String> = Vec::new();
        let mut i: usize = 0;
        while i < self.tokens.len()
            invariant
                i <= self.tokens@.len(),
                codes@.len() == i,
                forall|j: int| 0 <= j < i ==> (#[trigger] codes@[j])@ == self@.codes()[j],
            decreases self.tokens@.len() - i,
        {
            codes.push(self.tokens[i].code.clone());
            i += 1;
        }
        codes
    }

    /// One round of the sweep at the time `now`. While the store is running
    /// the expired codes are removed, and the result is the time to wait
    /// before the next round; once it is stopped, nothing changes and the
    /// result is `None`.
    pub fn start(&mut self, now: u64) -> (wait: Option<u64>)
        ensures
            final(self)@ == old(self)@.swept(now),
            wait == if old(self)@.running { Some(INTERVAL) } else { None },
            old(self)@.wf() ==> final(self)@.wf(),
    {
        if !self.running {
            return None;
        }
        let ghost all = self@.tokens;
        let ghost mut seen: int = 0;
        let mut i: usize = 0;
        assert(all.take(0) =~= Seq::<TokenView>::empty());
        assert(all.skip(0) =~= all);
        while i < self.tokens.len()
            invariant
                0 <= seen <= all.len(),
                self@.tokens == unexpired(all.take(seen), now, self.timeout) + all.skip(seen),
                i == unexpired(all.take(seen), now, self.timeout).len(),
                self@.length == old(self)@.length,
                self@.chars == old(self)@.chars,
                self@.timeout == old(self)@.timeout,
                self@.running == old(self)@.running,
                all == old(self)@.tokens,
            decreases all.len() - seen,
        {
            let ghost kept = unexpired(all.take(seen), now, self.timeout);
            let ghost before = self@.tokens;
            assert(self@.tokens[i as int] == all.skip(seen)[0]);
            assert(all.take(seen + 1).drop_last() =~= all.take(seen));
            assert(all.take(seen + 1).last() == all[seen]);
            let created_at = self.tokens[i].created_at;
            if now > created_at && now - created_at > self.timeout {
                self.tokens.remove(i);
                assert(self@.tokens =~= before.remove(i as int));
                assert(before.remove(i as int) =~= kept + all.skip(seen + 1));
            } else {
                assert(self@.tokens =~= kept.push(all[seen]) + all.skip(seen + 1));
                i += 1;
            }
            proof {
                seen = seen + 1;
            }
        }
        proof {
            assert(seen == all.len()) by {
                if seen < all.len() {
                    assert(self@.tokens.len() == i + all.skip(seen).len());
                }
            }
            assert(all.take(seen) =~= all);
            assert(self@.tokens =~= unexpired(all, now, self.timeout));
            lemma_unexpired(all, now, self.timeout);
        }
        Some(INTERVAL)
    }

    /// Ends the sweep: the next round does nothing.
    pub fn stop(&mut self)
        ensures
            final(self)@ == (TokenManagerView { running: false, ..old(self)@ }),
    {
        self.running = false;
    }

    /// The text that the first `count` draws spell.
    fn spell(&self, draws: &Vec<usize>, count: usize) -> (code: String)
        requires
            count <= draws@.len(),
            self@.chars.len() > 0,
        ensures
            code@ == spelled(self@.chars, draws@.take(count as int)),
    {
        let mut code = String::new();
        let mut i: usize = 0;
        assert(code@ =~= spelled(self@.chars, draws@.take(0)));
        while i < count
            invariant
                i <= count <= draws@.len(),
                self@.chars.len() > 0,
                code@ == spelled(self@.chars, draws@.take(i as int)),
            decreases count - i,
        {
            push_char(&mut code, self.chars[draws[i] % self.chars.len()]);
            assert(code@ =~= spelled(self@.chars, draws@.take(i + 1)));
            i += 1;
        }
        code
    }
}

/// The service that issues codes.
pub struct TokenManager {
    pub(crate) engine: TokenManagerEngine,
}

impl View for TokenManager {
    type V = TokenManagerView;

    open(crate) spec fn view(&self) -> TokenManagerView {
        self.engine@
    }
}

impl TokenManager {
    /// A service without codes. Codes grow by `length` characters of `chars`
    /// with each attempt and expire after `timeout` milliseconds.
    pub fn new(length: u8, timeout: Option<u64>, chars: Option<&str>) -> (manager: Self)
        ensures
            manager@ == (TokenManagerView {
                length,
                chars: match chars {
                    Some(text) => text@,
                    None => DEFAULT_SET@,
                },
                tokens: Seq::empty(),
                timeout: match timeout {
                    Some(time) => time,
                    None => DEFAULT_TIMEOUT,
                },
                running: true,
            }),
            manager@.wf(),
    {
        TokenManager { engine: TokenManagerEngine::new(length, timeout, chars) }
    }

    /// Issues a code at the time `now`, from random draws.
    pub fn create(&mut self, now: u64) -> (created: Result<String, TokenError>)
        ensures
            old(self)@.issues(now, final(self)@, code_of(created)),
            created is Err ==> created == Err::<String, TokenError>(TokenError::NoMoreTokens),
            old(self)@.wf() ==> final(self)@.wf(),
    {
        self.engine.create(now)
    }

    /// Issues a code for a list of draws, at the time `now`.
    pub fn create_from(&mut self, draws: &Vec<usize>, now: u64) -> (created: Result<String, TokenError>)
        requires
            draws@.len() >= 3 * old(self)@.length,
        ensures
            final(self)@ == old(self)@.issued(draws@, now).0,
            match created {
                Ok(code) => old(self)@.issued(draws@, now).1 == Some(code@),
                Err(error) => old(self)@.issued(draws@, now).1 is None && error
                    == TokenError::NoMoreTokens,
            },
            old(self)@.wf() ==> final(self)@.wf(),
    {
        self.engine.create_from(draws, now)
    }

    /// Uses a code: a code that is in the store is taken out of it, any
    /// other code is refused.
    pub fn connect(&mut self, token: &str) -> (used: Result<(), TokenError>)
        ensures
            match used {
                Ok(_) => old(self)@.has(token@) && final(self)@ == old(self)@.without_token(token@),
                Err(error) => !old(self)@.has(token@) && final(self)@ == old(self)@ && error
                    == TokenError::TokenNotFound,
            },
            old(self)@.wf() ==> final(self)@.wf() && !final(self)@.has(token@),
    {
        self.engine.connect(token)
    }

    /// The codes that can be used, in the order in which they were issued.
    pub fn list(&self) -> (codes: Vec<String>)
        ensures
            codes@.len() == self@.codes().len(),
            forall|i: int| 0 <= i < codes@.len() ==> (#[trigger] codes@[i])@ == self@.codes()[i],
    {
        self.engine.list()
    }

    /// One round of the sweep for expired codes at the time `now`; the
    /// result is the time to wait before the next, `None` once the service
    /// is stopped.
    pub fn start(&mut self, now: u64) -> (wait: Option<u64>)
        ensures
            final(self)@ == old(self)@.swept(now),
            wait == if old(self)@.running { Some(INTERVAL) } else { None },
            old(self)@.wf() ==> final(self)@.wf(),
    {
        self.engine.start(now)
    }

    /// Ends the sweep.
    pub fn stop(&mut self)
        ensures
            final(self)@ == (TokenManagerView { running: false, ..old(self)@ }),
    {
        self.engine.stop()
    }
}

} // verus!
