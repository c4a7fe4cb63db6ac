//! The write guardrail: every mutation goes through a `prepare` -> `commit`
//! handshake.
//!
//! - `prepare` binds a short-lived, single-use token to the exact intended
//!   mutation payload. No network call happens here.
//! - `commit` lets the mutation proceed only when the caller presents that
//!   same token together with an identical payload. An unknown, expired,
//!   already consumed, or payload-mismatched token is rejected with
//!   `AppError::ConfirmationRequired`.
//!
//! Time is read by the caller and handed in as milliseconds on a monotonic
//! clock.
use vstd::prelude::*;

use crate::error::{AppError, AppResult};
use crate::json::{json_eq, Json, JsonValue};
use crate::text::{hex_digits, owned, push_hex, str_eq};

verus! {

/// How long a prepared confirmation stays valid, in milliseconds.
pub const TOKEN_TTL_MS: u64 = 300_000;

/// Hard per-call ceiling for bulk mutations. Selections larger than this
/// must be chunked by the caller into separately confirmed batches.
pub const BULK_CEILING: usize = 100;

/// `rand::random::<u64>()`: a random number from the thread-local generator;
/// nothing is known of its value. It panics only when the operating system's
/// random source cannot seed the generator, which no argument decides.
#[verifier::external_body]
pub(crate) fn random_u64() -> u64 {
    rand::random::<u64>()
}

/// `rand::random::<u32>()`: as `random_u64`, a 32-bit random number.
#[verifier::external_body]
pub(crate) fn random_u32() -> u32 {
    rand::random::<u32>()
}

/// The text of a confirmation token drawn from two random numbers.
pub open spec fn token_text(a: u64, b: u32) -> Seq<char> {
    "wg_"@ + hex_digits(a as nat) + hex_digits(b as nat)
}

/// A fresh token: `wg_` followed by two random numbers in hexadecimal.
pub fn new_token() -> (r: String)
    ensures
        exists|a: u64, b: u32| r@ == token_text(a, b),
{
    let a = random_u64();
    let b = random_u32();
    let mut t = owned("wg_");
    push_hex(&mut t, a);
    push_hex(&mut t, b as u64);
    proof {
        assert(t@ =~= token_text(a, b));
    }
    t
}

/// A prepared confirmation, as the model sees it.
pub struct Slot {
    pub payload: Json,
    pub expires_at: int,
    pub consumed: bool,
}

struct Pending {
    token: String,
    payload: JsonValue,
    expires_at: u64,
    consumed: bool,
}

/// In-memory registry of prepared-but-not-yet-committed confirmations.
pub struct WriteGuard {
    pending: Vec<Pending>,
    slots: Ghost<Map<Seq<char>, Slot>>,
}

/// How a commit attempt ends.
pub enum CommitOutcome {
    Committed,
    Unknown,
    AlreadyUsed,
    Expired,
    Mismatch,
}

/// The outcome of presenting `token` with `payload` at time `now` to the
/// confirmations `m`.
pub open spec fn commit_outcome(
    m: Map<Seq<char>, Slot>,
    token: Seq<char>,
    payload: Json,
    now: int,
) -> CommitOutcome {
    if !m.contains_key(token) {
        CommitOutcome::Unknown
    } else if m[token].consumed {
        CommitOutcome::AlreadyUsed
    } else if now > m[token].expires_at {
        CommitOutcome::Expired
    } else if m[token].payload != payload {
        CommitOutcome::Mismatch
    } else {
        CommitOutcome::Committed
    }
}

/// The confirmations after that attempt: a successful commit consumes the
/// token, an expired token is dropped, anything else leaves them as they were.
pub open spec fn commit_next(
    m: Map<Seq<char>, Slot>,
    token: Seq<char>,
    payload: Json,
    now: int,
) -> Map<Seq<char>, Slot> {
    match commit_outcome(m, token, payload, now) {
        CommitOutcome::Committed => m.insert(
            token,
            Slot { payload: m[token].payload, expires_at: m[token].expires_at, consumed: true },
        ),
        CommitOutcome::Expired => m.remove(token),
        _ => m,
    }
}

/// The message a rejected commit carries.
pub open spec fn reject_message(o: CommitOutcome) -> Seq<char> {
    match o {
        CommitOutcome::Unknown => "Unknown confirmation token — please re-confirm."@,
        CommitOutcome::AlreadyUsed => "This confirmation was already used — please re-confirm."@,
        CommitOutcome::Expired => "Confirmation expired — please re-confirm."@,
        _ => "The mutation no longer matches what was confirmed — please re-confirm."@,
    }
}

/// A freshly prepared confirmation for `payload` at time `now`.
pub open spec fn fresh_slot(payload: Json, now: int) -> Slot {
    Slot { payload, expires_at: now + TOKEN_TTL_MS, consumed: false }
}

impl WriteGuard {
    /// The prepared confirmations, keyed by token.
    pub closed spec fn view(&self) -> Map<Seq<char>, Slot> {
        self.slots@
    }

    /// The registry's vector and its model agree, one entry per token.
    pub closed spec fn wf(&self) -> bool {
        &&& forall|i: int, j: int|
            0 <= i < j < self.pending@.len() ==> self.pending@[i].token@
                != self.pending@[j].token@
        &&& forall|t: Seq<char>|
            #![trigger self.slots@.contains_key(t)]
            self.slots@.contains_key(t) <==> exists|i: int|
                0 <= i < self.pending@.len() && self.pending@[i].token@ == t
        &&& forall|i: int|
            #![trigger self.pending@[i]]
            0 <= i < self.pending@.len() ==> self.slots@[self.pending@[i].token@] == Slot {
                payload: self.pending@[i].payload@,
                expires_at: self.pending@[i].expires_at as int,
                consumed: self.pending@[i].consumed,
            }
    }

    /// An empty registry.
    pub fn new() -> (r: WriteGuard)
        ensures
            r.wf(),
            r.view() == Map::<Seq<char>, Slot>::empty(),
    {
        WriteGuard { pending: Vec::new(), slots: Ghost(Map::empty()) }
    }

    fn find(&self, token: &str) -> (r: Option<usize>)
        requires
            self.wf(),
        ensures
            match r {
                Some(i) => i < self.pending@.len() && self.pending@[i as int].token@ == token@,
                None => !self.view().contains_key(token@),
            },
    {
        let mut i: usize = 0;
        while i < self.pending.len()
            invariant
                0 <= i <= self.pending@.len(),
                forall|k: int| 0 <= k < i ==> self.pending@[k].token@ != token@,
            decreases self.pending.len() - i,
        {
            if str_eq(self.pending[i].token.as_str(), token) {
                return Some(i);
            }
            i = i + 1;
        }
        None
    }

    /// Binds a new confirmation token to the exact mutation payload the caller
    /// intends to commit, valid until `now_ms + TOKEN_TTL_MS`.
    pub fn prepare(&mut self, payload: &JsonValue, now_ms: u64) -> (token: String)
        requires
            old(self).wf(),
            now_ms <= u64::MAX - TOKEN_TTL_MS,
        ensures
            final(self).wf(),
            final(self).view() == old(self).view().insert(
                token@,
                fresh_slot(payload@, now_ms as int),
            ),
            exists|a: u64, b: u32| token@ == token_text(a, b),
    {
        let token = new_token();
        let entry = Pending {
            token: token.clone(),
            payload: payload.dup(),
            expires_at: now_ms + TOKEN_TTL_MS,
            consumed: false,
        };
        let ghost old_pending = self.pending@;
        let ghost new_slots = self.slots@.insert(token@, fresh_slot(payload@, now_ms as int));
        match self.find(token.as_str()) {
            Some(i) => {
                self.pending.set(i, entry);
                self.slots = Ghost(new_slots);
                proof {
                    assert forall|t: Seq<char>|
                        #![trigger self.slots@.contains_key(t)]
                        self.slots@.contains_key(t) implies exists|k: int|
                            0 <= k < self.pending@.len() && self.pending@[k].token@ == t by {
                        if t != token@ {
                            let k = choose|k: int|
                                0 <= k < old_pending.len() && old_pending[k].token@ == t;
                            assert(self.pending@[k].token@ == t);
                        } else {
                            assert(self.pending@[i as int].token@ == t);
                        }
                    }
                }
            },
            None => {
                self.pending.push(entry);
                self.slots = Ghost(new_slots);
                proof {
                    let n = old_pending.len() as int;
                    assert(self.pending@[n].token@ == token@);
                    assert forall|t: Seq<char>|
                        #![trigger self.slots@.contains_key(t)]
                        self.slots@.contains_key(t) implies exists|k: int|
                            0 <= k < self.pending@.len() && self.pending@[k].token@ == t by {
                        if t != token@ {
                            let k = choose|k: int|
                                0 <= k < old_pending.len() && old_pending[k].token@ == t;
                            assert(self.pending@[k].token@ == t);
                        } else {
                            assert(self.pending@[n].token@ == t);
                        }
                    }
                    assert forall|i: int, j: int|
                        0 <= i < j < self.pending@.len() implies self.pending@[i].token@
                        != self.pending@[j].token@ by {
                        if j == n {
                            assert(old_pending[i].token@ != token@);
                        }
                    }
                }
            },
        }
        token
    }

    /// Validates and consumes a token for this exact payload at time `now_ms`.
    /// The token is consumed on any valid commit attempt; an expired token is
    /// dropped; an unknown, used or mismatched one leaves the registry as it
    /// was.
    pub fn commit(&mut self, token: &str, payload: &JsonValue, now_ms: u64) -> (r: AppResult<()>)
        requires
            old(self).wf(),
        ensures
            final(self).wf(),
            final(self).view() == commit_next(old(self).view(), token@, payload@, now_ms as int),
            r is Ok <==> commit_outcome(old(self).view(), token@, payload@, now_ms as int)
                is Committed,
            r matches Err(e) ==> (e matches AppError::ConfirmationRequired(m) && m@
                == reject_message(commit_outcome(old(self).view(), token@, payload@, now_ms as int))),
    {
        let ghost before = self.slots@;
        let ghost old_pending = self.pending@;
        let i = match self.find(token) {
            Some(i) => i,
            None => {
                return Err(AppError::ConfirmationRequired(owned(
                    "Unknown confirmation token — please re-confirm.",
                )));
            },
        };
        proof {
            assert(self.slots@.contains_key(token@));
        }
        if self.pending[i].consumed {
            return Err(AppError::ConfirmationRequired(owned(
                "This confirmation was already used — please re-confirm.",
            )));
        }
        if now_ms > self.pending[i].expires_at {
            self.pending.remove(i);
            self.slots = Ghost(before.remove(token@));
            proof {
                assert forall|t: Seq<char>|
                    #![trigger self.slots@.contains_key(t)]
                    self.slots@.contains_key(t) <==> exists|k: int|
                        0 <= k < self.pending@.len() && self.pending@[k].token@ == t by {
                    if self.slots@.contains_key(t) {
                        let k = choose|k: int|
                            0 <= k < old_pending.len() && old_pending[k].token@ == t;
                        if k < i {
                            assert(self.pending@[k].token@ == t);
                        } else {
                            assert(k != i);
                            assert(self.pending@[k - 1].token@ == t);
                        }
                    }
                    if exists|k: int| 0 <= k < self.pending@.len() && self.pending@[k].token@ == t {
                        let k = choose|k: int|
                            0 <= k < self.pending@.len() && self.pending@[k].token@ == t;
                        if k < i {
                            assert(old_pending[k].token@ == t);
                            assert(k != i);
                        } else {
                            assert(old_pending[k + 1].token@ == t);
                        }
                    }
                }
                assert forall|a: int|
                    #![trigger self.pending@[a]]
                    0 <= a < self.pending@.len() implies self.slots@[self.pending@[a].token@]
                    == Slot {
                    payload: self.pending@[a].payload@,
                    expires_at: self.pending@[a].expires_at as int,
                    consumed: self.pending@[a].consumed,
                } by {
                    if a < i {
                        assert(self.pending@[a] == old_pending[a]);
                    } else {
                        assert(self.pending@[a] == old_pending[a + 1]);
                    }
                }
            }
            return Err(AppError::ConfirmationRequired(owned(
                "Confirmation expired — please re-confirm.",
            )));
        }
        if !json_eq(&self.pending[i].payload, payload) {
            return Err(AppError::ConfirmationRequired(owned(
                "The mutation no longer matches what was confirmed — please re-confirm.",
            )));
        }
        self.pending[i].consumed = true;
        self.slots = Ghost(
            before.insert(
                token@,
                Slot { payload: before[token@].payload, expires_at: before[token@].expires_at, consumed: true },
            ),
        );
        proof {
            assert forall|t: Seq<char>|
                #![trigger self.slots@.contains_key(t)]
                self.slots@.contains_key(t) <==> exists|k: int|
                    0 <= k < self.pending@.len() && self.pending@[k].token@ == t by {
                if self.slots@.contains_key(t) {
                    let k = choose|k: int|
                        0 <= k < old_pending.len() && old_pending[k].token@ == t;
                    assert(self.pending@[k].token@ == t);
                }
                if exists|k: int| 0 <= k < self.pending@.len() && self.pending@[k].token@ == t {
                    let k = choose|k: int|
                        0 <= k < self.pending@.len() && self.pending@[k].token@ == t;
                    assert(old_pending[k].token@ == t);
                }
            }
        }
        Ok(())
    }
}

impl Default for WriteGuard {
    fn default() -> (r: WriteGuard)
        ensures
            r.wf(),
            r.view() == Map::<Seq<char>, Slot>::empty(),
    {
        WriteGuard::new()
    }
}

/// A token just prepared for a payload commits that same payload at any time
/// up to its expiry.
pub proof fn lemma_prepare_then_commit(
    m: Map<Seq<char>, Slot>,
    token: Seq<char>,
    payload: Json,
    prepared_at: int,
    now: int,
)
    requires
        now <= prepared_at + TOKEN_TTL_MS,
    ensures
        commit_outcome(m.insert(token, fresh_slot(payload, prepared_at)), token, payload, now)
            is Committed,
{
}

/// A token is single-use: once a commit succeeds, presenting it again is
/// rejected, whatever the payload and time.
pub proof fn lemma_single_use(
    m: Map<Seq<char>, Slot>,
    token: Seq<char>,
    payload: Json,
    now: int,
    again: Json,
    later: int,
)
    requires
        commit_outcome(m, token, payload, now) is Committed,
    ensures
        commit_outcome(commit_next(m, token, payload, now), token, again, later) is AlreadyUsed,
{
}

/// A payload other than the confirmed one is rejected and burns nothing: the
/// registry is unchanged, so the confirmed payload still commits.
pub proof fn lemma_tamper_is_rejected(
    m: Map<Seq<char>, Slot>,
    token: Seq<char>,
    payload: Json,
    tampered: Json,
    now: int,
)
    requires
        commit_outcome(m, token, payload, now) is Committed,
        tampered != payload,
    ensures
        commit_outcome(m, token, tampered, now) is Mismatch,
        commit_next(m, token, tampered, now) == m,
        commit_outcome(commit_next(m, token, tampered, now), token, payload, now) is Committed,
{
}

/// An expired token is rejected and dropped, so it cannot commit later either.
pub proof fn lemma_expired_is_dropped(
    m: Map<Seq<char>, Slot>,
    token: Seq<char>,
    payload: Json,
    now: int,
    again: Json,
    later: int,
)
    requires
        m.contains_key(token),
        !m[token].consumed,
        now > m[token].expires_at,
    ensures
        commit_outcome(m, token, payload, now) is Expired,
        commit_outcome(commit_next(m, token, payload, now), token, again, later) is Unknown,
{
}

/// A commit only ever touches the presented token's own confirmation.
pub proof fn lemma_commit_is_local(
    m: Map<Seq<char>, Slot>,
    token: Seq<char>,
    payload: Json,
    now: int,
    other: Seq<char>,
)
    requires
        other != token,
    ensures
        commit_next(m, token, payload, now).contains_key(other) == m.contains_key(other),
        m.contains_key(other) ==> commit_next(m, token, payload, now)[other] == m[other],
{
}


/// One commit attempt: the token presented, the payload, and the time.
pub type Attempt = (Seq<char>, Json, int);

/// The confirmations after a run of commit attempts, made in order.
pub open spec fn commit_run(m: Map<Seq<char>, Slot>, attempts: Seq<Attempt>) -> Map<Seq<char>, Slot>
    decreases attempts.len(),
{
    if attempts.len() == 0 {
        m
    } else {
        let a = attempts.last();
        commit_next(commit_run(m, attempts.drop_last()), a.0, a.1, a.2)
    }
}

/// Attempt `i` of the run commits.
pub open spec fn commits_at(m: Map<Seq<char>, Slot>, attempts: Seq<Attempt>, i: int) -> bool {
    let a = attempts[i];
    commit_outcome(commit_run(m, attempts.take(i)), a.0, a.1, a.2) is Committed
}

/// Some attempt before the `n`th presented `token` and committed.
pub open spec fn committed_before(
    m: Map<Seq<char>, Slot>,
    attempts: Seq<Attempt>,
    token: Seq<char>,
    n: int,
) -> bool {
    exists|i: int| 0 <= i < n && attempts[i].0 == token && #[trigger] commits_at(m, attempts, i)
}

/// What a run of attempts keeps of the confirmation for `token`: while it is
/// there it holds the payload and expiry it was prepared with, and once an
/// attempt on it has committed it stays, consumed.
proof fn lemma_run_keeps_slot(
    m: Map<Seq<char>, Slot>,
    attempts: Seq<Attempt>,
    token: Seq<char>,
    payload: Json,
    expires_at: int,
    n: int,
)
    requires
        m.contains_key(token),
        m[token].payload == payload,
        m[token].expires_at == expires_at,
        !m[token].consumed,
        0 <= n <= attempts.len(),
    ensures
        commit_run(m, attempts.take(n)).contains_key(token) ==> {
            &&& commit_run(m, attempts.take(n))[token].payload == payload
            &&& commit_run(m, attempts.take(n))[token].expires_at == expires_at
        },
        committed_before(m, attempts, token, n) ==> commit_run(m, attempts.take(n)).contains_key(
            token,
        ) && commit_run(m, attempts.take(n))[token].consumed,
        !committed_before(m, attempts, token, n) ==> (commit_run(m, attempts.take(n)).contains_key(
            token,
        ) ==> !commit_run(m, attempts.take(n))[token].consumed),
    decreases n,
{
    if n == 0 {
        assert(attempts.take(0) =~= Seq::<Attempt>::empty());
    } else {
        lemma_run_keeps_slot(m, attempts, token, payload, expires_at, n - 1);
        let prev = commit_run(m, attempts.take(n - 1));
        let a = attempts[n - 1];
        assert(attempts.take(n).drop_last() =~= attempts.take(n - 1));
        assert(attempts.take(n).last() == a);
        assert(commit_run(m, attempts.take(n)) == commit_next(prev, a.0, a.1, a.2));
        assert(commits_at(m, attempts, n - 1) == (commit_outcome(prev, a.0, a.1, a.2) is Committed));
        if committed_before(m, attempts, token, n) && !committed_before(m, attempts, token, n - 1) {
            let i = choose|i: int|
                0 <= i < n && attempts[i].0 == token && #[trigger] commits_at(m, attempts, i);
            assert(i == n - 1);
        }
        if committed_before(m, attempts, token, n - 1) {
            let i = choose|i: int|
                0 <= i < n - 1 && attempts[i].0 == token && #[trigger] commits_at(m, attempts, i);
            assert(0 <= i < n && attempts[i].0 == token && commits_at(m, attempts, i));
        }
        if a.0 == token && commit_outcome(prev, a.0, a.1, a.2) is Committed {
            assert(0 <= n - 1 < n && attempts[n - 1].0 == token && commits_at(m, attempts, n - 1));
        }
    }
}

/// A token is single-use over any run of commit attempts, on it or on other
/// tokens: of the attempts that present a token just prepared for
/// `payload`, at most one commits, and that one carries `payload` and comes
/// no later than the token's expiry.
pub proof fn lemma_single_use_over_any_run(
    m: Map<Seq<char>, Slot>,
    token: Seq<char>,
    payload: Json,
    prepared_at: int,
    attempts: Seq<Attempt>,
)
    ensures
        forall|i: int, j: int|
            0 <= i < j < attempts.len() && attempts[i].0 == token && attempts[j].0 == token
                && #[trigger] commits_at(m.insert(token, fresh_slot(payload, prepared_at)), attempts, i)
                ==> !#[trigger] commits_at(
                m.insert(token, fresh_slot(payload, prepared_at)),
                attempts,
                j,
            ),
        forall|i: int|
            0 <= i < attempts.len() && attempts[i].0 == token && #[trigger] commits_at(
                m.insert(token, fresh_slot(payload, prepared_at)),
                attempts,
                i,
            ) ==> attempts[i].1 == payload && attempts[i].2 <= prepared_at + TOKEN_TTL_MS,
{
    let m0 = m.insert(token, fresh_slot(payload, prepared_at));
    let e = prepared_at + TOKEN_TTL_MS;
    assert forall|i: int, j: int|
        0 <= i < j < attempts.len() && attempts[i].0 == token && attempts[j].0 == token
            && #[trigger] commits_at(m0, attempts, i) implies !#[trigger] commits_at(
        m0,
        attempts,
        j,
    ) by {
        lemma_run_keeps_slot(m0, attempts, token, payload, e, j);
        assert(0 <= i < j && attempts[i].0 == token && commits_at(m0, attempts, i));
        assert(committed_before(m0, attempts, token, j));
    }
    assert forall|i: int|
        0 <= i < attempts.len() && attempts[i].0 == token && #[trigger] commits_at(
            m0,
            attempts,
            i,
        ) implies attempts[i].1 == payload && attempts[i].2 <= e by {
        lemma_run_keeps_slot(m0, attempts, token, payload, e, i);
    }
}

} // verus!
