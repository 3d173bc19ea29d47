//! Laws relating the public operations, proved over the same spec functions
//! that the operations' contracts use.

use crate::sessions::{has_token, without_token, SessionView};
use crate::users::{lookup_username, username_taken, UserView};
use vstd::prelude::*;

verus! {

/// A sign-up can succeed for a username at most once: registering any
/// record marks its username as taken, and a username once taken stays taken
/// across every further registration — and `sign_up`'s contract reports
/// `Failure` for a taken username. Registration is the only facade
/// operation that grows the account store, and none of the three shrinks it.
pub proof fn lemma_username_stays_taken(
    users: Seq<UserView>,
    added: UserView,
    username: Seq<char>,
)
    ensures
        username_taken(users.push(added), username) <==> (username_taken(users, username)
            || added.username == username),
{
    if username_taken(users, username) {
        let i = choose|i: int| 0 <= i < users.len() && users[i].username == username;
        assert(users.push(added)[i].username == username);
    }
    if added.username == username {
        assert(users.push(added)[users.len() as int].username == username);
    }
    if username_taken(users.push(added), username) && added.username != username {
        let i = choose|i: int|
            0 <= i < users.push(added).len() && users.push(added)[i].username == username;
        assert(users[i].username == username);
    }
}

/// A successful sign-up registers the pair it was given: when the username
/// was free, looking it up afterwards finds exactly the record that was
/// appended — whose stored hash, by `sign_up`'s contract, matches the given
/// password, so `sign_in`'s contract then owes `Success` with that record's
/// identifier and a fresh non-empty token.
pub proof fn lemma_registration_found(users: Seq<UserView>, added: UserView)
    ensures
        !username_taken(users, added.username) ==> lookup_username(
            users.push(added),
            added.username,
        ) == Some(added),
    decreases users.len(),
{
    if !username_taken(users, added.username) {
        if users.len() == 0 {
            assert(users.push(added) =~= seq![added]);
        } else {
            let rest = users.subrange(1, users.len() as int);
            assert(forall|i: int| 0 <= i < rest.len() ==> rest[i] == users[i + 1]);
            assert(!username_taken(rest, added.username));
            lemma_registration_found(rest, added);
            assert(users.push(added).subrange(1, users.push(added).len() as int) =~= rest.push(
                added,
            ));
            assert(users.push(added)[0] == users[0]);
        }
    }
}

/// Sign-out is idempotent: revoking a token removes every session carrying
/// it, revoking it again changes nothing, and revoking a token that no live
/// session carries — never issued, or already revoked — changes nothing
/// either. `sign_out`'s contract reports `Success` in every case.
pub proof fn lemma_sign_out_idempotent(sessions: Seq<SessionView>, token: Seq<char>)
    ensures
        !has_token(without_token(sessions, token), token),
        !has_token(sessions, token) ==> without_token(sessions, token) == sessions,
        without_token(without_token(sessions, token), token) == without_token(sessions, token),
    decreases sessions.len(),
{
    if sessions.len() == 0 {
    } else {
        let rest = sessions.subrange(1, sessions.len() as int);
        assert(forall|i: int| 0 <= i < rest.len() ==> rest[i] == sessions[i + 1]);
        lemma_sign_out_idempotent(rest, token);
        if sessions[0].token == token {
            assert(without_token(sessions, token) == without_token(rest, token));
        } else {
            let kept = seq![sessions[0]] + without_token(rest, token);
            assert(without_token(sessions, token) == kept);
            assert(kept[0] == sessions[0]);
            assert(forall|i: int|
                0 <= i < without_token(rest, token).len() ==> kept[i + 1] == without_token(
                    rest,
                    token,
                )[i]);
            assert(!has_token(kept, token)) by {
                if has_token(kept, token) {
                    let i = choose|i: int| 0 <= i < kept.len() && kept[i].token == token;
                    assert(without_token(rest, token)[i - 1].token == token);
                }
            }
            if !has_token(sessions, token) {
                assert(!has_token(rest, token));
                assert(kept =~= sessions);
            }
            assert(kept.subrange(1, kept.len() as int) =~= without_token(rest, token));
            assert(without_token(kept, token) == seq![kept[0]] + without_token(
                without_token(rest, token),
                token,
            ));
            assert(without_token(kept, token) =~= kept);
        }
        if !has_token(sessions, token) && sessions[0].token == token {
            assert(sessions[0].token == token);
            assert(has_token(sessions, token));
        }
    }
}

} // verus!
