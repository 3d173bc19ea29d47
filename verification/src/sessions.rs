//! The session store: live bearer tokens and the accounts they authenticate.
//!
//! Sessions are keyed by token, with the owning account as payload, so an
//! account may hold several live sessions at once and revocation addresses
//! the token itself. A fresh sign-in always mints a fresh token; revoking an
//! unknown token is a no-op.

use crate::ids::fresh_uuid;
use vstd::prelude::*;

verus! {

/// The mathematical content of one live session.
pub ghost struct SessionView {
    /// The opaque bearer token.
    pub token: Seq<char>,
    /// The identifier of the account the token authenticates.
    pub user_uuid: Seq<char>,
}

/// Whether some session in `sessions` carries `token`.
pub open spec fn has_token(sessions: Seq<SessionView>, token: Seq<char>) -> bool {
    exists|i: int| 0 <= i < sessions.len() && sessions[i].token == token
}

/// `sessions` with every session carrying `token` removed, order kept.
pub open spec fn without_token(sessions: Seq<SessionView>, token: Seq<char>) -> Seq<SessionView>
    decreases sessions.len(),
{
    if sessions.len() == 0 {
        Seq::empty()
    } else if sessions[0].token == token {
        without_token(sessions.subrange(1, sessions.len() as int), token)
    } else {
        seq![sessions[0]] + without_token(sessions.subrange(1, sessions.len() as int), token)
    }
}

/// The most recently issued token among the sessions owned by `user_uuid`,
/// if that account holds any session.
pub open spec fn latest_token_for(sessions: Seq<SessionView>, user_uuid: Seq<char>) -> Option<
    Seq<char>,
>
    decreases sessions.len(),
{
    if sessions.len() == 0 {
        None
    } else if sessions.last().user_uuid == user_uuid {
        Some(sessions.last().token)
    } else {
        latest_token_for(sessions.drop_last(), user_uuid)
    }
}

/// The capability set of a session store: issue a token for an account,
/// revoke a token. A store is injected into the facade at construction;
/// every implementation exposes its live sessions through the abstract view
/// `sessions`.
pub trait Sessions: Sized {
    /// The live sessions the store currently holds, in order of issue.
    spec fn sessions(&self) -> Seq<SessionView>;

    /// Issues a fresh non-empty token authenticating `user_uuid` and records
    /// the session. Always succeeds.
    fn create_session(&mut self, user_uuid: &str) -> (token: String)
        ensures
            final(self).sessions() == old(self).sessions().push(
                (SessionView { token: token@, user_uuid: user_uuid@ }),
            ),
            token@.len() > 0,
    ;

    /// Revokes `session_token`: every session carrying it is removed, and
    /// none remains. A no-op when no session carries it; idempotent.
    fn delete_session(&mut self, session_token: &str)
        ensures
            final(self).sessions() == without_token(old(self).sessions(), session_token@),
    ;
}

/// One recorded session.
struct Session {
    token: String,
    user_uuid: String,
}

impl View for Session {
    type V = SessionView;

    closed spec fn view(&self) -> SessionView {
        SessionView { token: self.token@, user_uuid: self.user_uuid@ }
    }
}

/// The in-memory session store: a list of live sessions in order of issue.
pub struct SessionsImpl {
    sessions: Vec<Session>,
}

impl Default for SessionsImpl {
    /// An empty session store.
    fn default() -> (store: Self)
        ensures
            store.sessions() == Seq::<SessionView>::empty(),
    {
        SessionsImpl { sessions: Vec::new() }
    }
}

impl SessionsImpl {
    /// How many live sessions the store holds.
    pub fn session_count(&self) -> (count: usize)
        ensures
            count == self.sessions().len(),
    {
        self.sessions.len()
    }

    /// Whether a session carrying `session_token` is live.
    pub fn has_session(&self, session_token: &str) -> (live: bool)
        ensures
            live == has_token(self.sessions(), session_token@),
    {
        let token = session_token.to_string();
        let mut i: usize = 0;
        while i < self.sessions.len()
            invariant
                i <= self.sessions@.len(),
                token@ == session_token@,
                forall|j: int| 0 <= j < i ==> self.sessions()[j].token != session_token@,
            decreases self.sessions@.len() - i,
        {
            if self.sessions[i].token == token {
                proof {
                    assert(self.sessions()[i as int].token == session_token@);
                }
                return true;
            }
            i += 1;
        }
        false
    }

    /// The token of the most recently issued session owned by `user_uuid`,
    /// if that account holds any session.
    pub fn token_for(&self, user_uuid: &str) -> (result: Option<String>)
        ensures
            ({
                let latest = latest_token_for(self.sessions(), user_uuid@);
                &&& result is Some <==> latest is Some
                &&& result matches Some(token) ==> latest == Some(token@)
            }),
    {
        let owner = user_uuid.to_string();
        let mut i: usize = self.sessions.len();
        proof {
            assert(self.sessions().take(i as int) =~= self.sessions());
        }
        while i > 0
            invariant
                i <= self.sessions@.len(),
                owner@ == user_uuid@,
                latest_token_for(self.sessions(), user_uuid@) == latest_token_for(
                    self.sessions().take(i as int),
                    user_uuid@,
                ),
            decreases i,
        {
            i -= 1;
            let ghost prefix = self.sessions().take(i + 1);
            proof {
                assert(prefix.last() == self.sessions()[i as int]);
                assert(prefix.drop_last() =~= self.sessions().take(i as int));
            }
            if self.sessions[i].user_uuid == owner {
                return Some(self.sessions[i].token.clone());
            }
        }
        proof {
            assert(self.sessions().take(0) =~= Seq::<SessionView>::empty());
        }
        None
    }
}

impl Sessions for SessionsImpl {
    closed spec fn sessions(&self) -> Seq<SessionView> {
        self.sessions@.map_values(|session: Session| session@)
    }

    fn create_session(&mut self, user_uuid: &str) -> (token: String) {
        let token = fresh_uuid();
        let session = Session { token: token.clone(), user_uuid: user_uuid.to_string() };
        self.sessions.push(session);
        proof {
            assert(self.sessions() =~= old(self).sessions().push(
                (SessionView { token: token@, user_uuid: user_uuid@ }),
            ));
        }
        token
    }

    fn delete_session(&mut self, session_token: &str) {
        let token = session_token.to_string();
        let mut i: usize = 0;
        proof {
            assert(self.sessions().subrange(0, self.sessions().len() as int) =~= self.sessions());
        }
        while i < self.sessions.len()
            invariant
                i <= self.sessions@.len(),
                token@ == session_token@,
                forall|j: int| 0 <= j < i ==> self.sessions()[j].token != session_token@,
                without_token(old(self).sessions(), session_token@) == self.sessions().take(
                    i as int,
                ) + without_token(
                    self.sessions().subrange(i as int, self.sessions().len() as int),
                    session_token@,
                ),
            decreases self.sessions@.len() - i,
        {
            let ghost pre = self.sessions();
            let ghost suffix = pre.subrange(i as int, pre.len() as int);
            assert(suffix[0] == pre[i as int]);
            if self.sessions[i].token == token {
                self.sessions.remove(i);
                proof {
                    assert(self.sessions() =~= pre.subrange(0, i as int) + pre.subrange(
                        i + 1,
                        pre.len() as int,
                    ));
                    assert(self.sessions().take(i as int) =~= pre.take(i as int));
                    assert(suffix.subrange(1, suffix.len() as int) =~= self.sessions().subrange(
                        i as int,
                        self.sessions().len() as int,
                    ));
                }
            } else {
                proof {
                    assert(suffix.subrange(1, suffix.len() as int) =~= pre.subrange(
                        i + 1,
                        pre.len() as int,
                    ));
                    assert(pre.take(i as int) + without_token(suffix, session_token@) =~= pre.take(
                        i + 1,
                    ) + without_token(pre.subrange(i + 1, pre.len() as int), session_token@));
                }
                i += 1;
            }
        }
        proof {
            assert(self.sessions().subrange(i as int, self.sessions().len() as int) =~= Seq::<
                SessionView,
            >::empty());
            assert(self.sessions().take(i as int) + without_token(
                self.sessions().subrange(i as int, self.sessions().len() as int),
                session_token@,
            ) =~= self.sessions());
        }
    }
}

} // verus!
