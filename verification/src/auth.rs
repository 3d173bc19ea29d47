//! The authentication facade: maps sign-up, sign-in and sign-out onto the
//! account and session stores and translates their outcomes into the
//! two-valued wire status.
//!
//! The facade holds no state of its own beyond the two stores it was built
//! over. Every internal error shape collapses into `Failure`: a caller cannot
//! tell a duplicate username from a hashing fault, nor an absent username
//! from a wrong password, which is a deliberate anti-enumeration policy.

use crate::hashing::password_matches;
use crate::sessions::{without_token, SessionView, Sessions};
use crate::users::{lemma_lookup_username, lookup_username, username_taken, users_wf, UserView, Users};
use vstd::prelude::*;

verus! {

/// The two-valued outcome signal returned to callers.
#[derive(Clone, Copy, Debug, PartialEq, Eq, Structural)]
pub enum StatusCode {
    Success,
    Failure,
}

/// A request to register a new account.
#[derive(Debug)]
pub struct SignUpRequest {
    pub username: String,
    pub password: String,
}

/// The outcome of a sign-up.
#[derive(Debug)]
pub struct SignUpResponse {
    pub status_code: StatusCode,
}

/// A request to open a session for an existing account.
#[derive(Debug)]
pub struct SignInRequest {
    pub username: String,
    pub password: String,
}

/// The outcome of a sign-in. On `Failure` both identifiers are empty
/// strings, never absent.
#[derive(Debug)]
pub struct SignInResponse {
    pub status_code: StatusCode,
    pub user_uuid: String,
    pub session_token: String,
}

/// A request to revoke a session token.
#[derive(Debug)]
pub struct SignOutRequest {
    pub session_token: String,
}

/// The outcome of a sign-out: always `Success`.
#[derive(Debug)]
pub struct SignOutResponse {
    pub status_code: StatusCode,
}

/// The facade over an account store and a session store. Concrete store
/// implementations are injected at construction.
pub struct AuthService<U: Users, S: Sessions> {
    users_service: U,
    sessions_service: S,
}

impl<U: Users, S: Sessions> AuthService<U, S> {
    /// The records of the underlying account store.
    pub closed spec fn users_view(&self) -> Seq<UserView> {
        self.users_service.users()
    }

    /// The live sessions of the underlying session store.
    pub closed spec fn sessions_view(&self) -> Seq<SessionView> {
        self.sessions_service.sessions()
    }

    pub fn new(users_service: U, sessions_service: S) -> (service: Self)
        ensures
            service.users_view() == users_service.users(),
            service.sessions_view() == sessions_service.sessions(),
    {
        AuthService { users_service, sessions_service }
    }

    /// Registers the requested account. `Success` exactly when the username
    /// was free and the password was hashed and stored; `Failure` when the
    /// username was already held (the store is then unchanged) or the hash
    /// primitive failed (likewise unchanged). The session store is never
    /// touched.
    pub fn sign_up(&mut self, request: SignUpRequest) -> (response: SignUpResponse)
        requires
            users_wf(old(self).users_view()),
        ensures
            users_wf(final(self).users_view()),
            final(self).sessions_view() == old(self).sessions_view(),
            username_taken(old(self).users_view(), request.username@) ==> response.status_code
                == StatusCode::Failure,
            response.status_code == StatusCode::Failure ==> final(self).users_view() == old(
                self,
            ).users_view(),
            response.status_code == StatusCode::Success ==> !username_taken(
                old(self).users_view(),
                request.username@,
            ) && final(self).users_view() == old(self).users_view().push(
                final(self).users_view().last(),
            ) && final(self).users_view().last().username == request.username@
                && password_matches(
                request.password@,
                final(self).users_view().last().password_hash,
            ),
    {
        let result = self.users_service.create_user(request.username, request.password);
        match result {
            Ok(_) => SignUpResponse { status_code: StatusCode::Success },
            Err(_) => SignUpResponse { status_code: StatusCode::Failure },
        }
    }

    /// Checks the requested credential pair. When the username is held and
    /// the password matches the stored hash, a fresh session is issued:
    /// `Success` with the account's identifier and a non-empty token. When
    /// the username is absent or the password is wrong, the response is
    /// `Failure` with both identifiers empty — the same value in either
    /// case, so the two causes are indistinguishable. The account store is
    /// never changed.
    pub fn sign_in(&mut self, request: SignInRequest) -> (response: SignInResponse)
        requires
            users_wf(old(self).users_view()),
        ensures
            final(self).users_view() == old(self).users_view(),
            ({
                let found = lookup_username(old(self).users_view(), request.username@);
                if found is Some && password_matches(request.password@, found->0.password_hash) {
                    &&& response.status_code == StatusCode::Success
                    &&& response.user_uuid@ == found->0.user_uuid
                    &&& response.user_uuid@.len() > 0
                    &&& response.session_token@.len() > 0
                    &&& final(self).sessions_view() == old(self).sessions_view().push(
                        (SessionView {
                            token: response.session_token@,
                            user_uuid: found->0.user_uuid,
                        }),
                    )
                } else {
                    &&& response.status_code == StatusCode::Failure
                    &&& response.user_uuid@ == Seq::<char>::empty()
                    &&& response.session_token@ == Seq::<char>::empty()
                    &&& final(self).sessions_view() == old(self).sessions_view()
                }
            }),
    {
        proof {
            lemma_lookup_username(self.users_service.users(), request.username@);
        }
        let result = self.users_service.get_user_uuid(request.username, request.password);
        match result {
            None => SignInResponse {
                status_code: StatusCode::Failure,
                user_uuid: String::new(),
                session_token: String::new(),
            },
            Some(user_uuid) => {
                let session_token = self.sessions_service.create_session(user_uuid.as_str());
                SignInResponse { status_code: StatusCode::Success, user_uuid, session_token }
            },
        }
    }

    /// Revokes the requested token: every session carrying it is removed.
    /// Always `Success`, also for a token that was never issued or was
    /// already revoked — idempotent logout. The account store is never
    /// touched.
    pub fn sign_out(&mut self, request: SignOutRequest) -> (response: SignOutResponse)
        ensures
            response.status_code == StatusCode::Success,
            final(self).users_view() == old(self).users_view(),
            final(self).sessions_view() == without_token(
                old(self).sessions_view(),
                request.session_token@,
            ),
    {
        self.sessions_service.delete_session(request.session_token.as_str());
        SignOutResponse { status_code: StatusCode::Success }
    }
}

} // verus!
