//! The account store: identity records with unique usernames and hashed
//! passwords.

use crate::hashing::{hash_password, password_matches, verify_password};
use crate::ids::fresh_uuid;
use vstd::prelude::*;

verus! {

/// The mathematical content of one account record.
pub ghost struct UserView {
    /// The account's process-unique opaque identifier.
    pub user_uuid: Seq<char>,
    /// The account's unique login name.
    pub username: Seq<char>,
    /// The PHC string holding the salted hash of the account's password.
    pub password_hash: Seq<char>,
}

/// Whether some record in `users` carries `username`.
pub open spec fn username_taken(users: Seq<UserView>, username: Seq<char>) -> bool {
    exists|i: int| 0 <= i < users.len() && users[i].username == username
}

/// The first record in `users` carrying `username`, if any.
pub open spec fn lookup_username(users: Seq<UserView>, username: Seq<char>) -> Option<UserView>
    decreases users.len(),
{
    if users.len() == 0 {
        None
    } else if users[0].username == username {
        Some(users[0])
    } else {
        lookup_username(users.subrange(1, users.len() as int), username)
    }
}

/// `users` with every record carrying `user_uuid` removed, order kept.
pub open spec fn without_uuid(users: Seq<UserView>, user_uuid: Seq<char>) -> Seq<UserView>
    decreases users.len(),
{
    if users.len() == 0 {
        Seq::empty()
    } else if users[0].user_uuid == user_uuid {
        without_uuid(users.subrange(1, users.len() as int), user_uuid)
    } else {
        seq![users[0]] + without_uuid(users.subrange(1, users.len() as int), user_uuid)
    }
}

/// Well-formedness of an account store: usernames are pairwise distinct and
/// every record carries a non-empty identifier.
pub open spec fn users_wf(users: Seq<UserView>) -> bool {
    &&& forall|i: int, j: int|
        0 <= i < j < users.len() ==> users[i].username != users[j].username
    &&& forall|i: int| 0 <= i < users.len() ==> users[i].user_uuid.len() > 0
}

/// A username is found exactly when it is taken, and the record found
/// carries that username and sits in the store.
pub proof fn lemma_lookup_username(users: Seq<UserView>, username: Seq<char>)
    ensures
        lookup_username(users, username) is Some <==> username_taken(users, username),
        lookup_username(users, username) matches Some(user) ==> user.username == username
            && exists|i: int| 0 <= i < users.len() && users[i] == user,
    decreases users.len(),
{
    if users.len() > 0 && users[0].username != username {
        let rest = users.subrange(1, users.len() as int);
        lemma_lookup_username(rest, username);
        assert(forall|i: int| 0 <= i < rest.len() ==> rest[i] == users[i + 1]);
        if username_taken(users, username) {
            let i = choose|i: int| 0 <= i < users.len() && users[i].username == username;
            assert(rest[i - 1] == users[i]);
            assert(username_taken(rest, username));
        }
    }
}

/// The error cases of account creation. `DuplicateUsername` reports a user
/// input conflict; `HashingFailure` reports that the hash primitive itself
/// failed, an internal condition.
#[derive(Clone, Copy, Debug, PartialEq, Eq, Structural)]
pub enum CreateUserError {
    DuplicateUsername,
    HashingFailure,
}

/// One account record. The password is never stored; `password_hash` holds
/// the PHC string produced when the account was created.
pub struct User {
    user_uuid: String,
    username: String,
    password_hash: String,
}

impl View for User {
    type V = UserView;

    closed spec fn view(&self) -> UserView {
        UserView {
            user_uuid: self.user_uuid@,
            username: self.username@,
            password_hash: self.password_hash@,
        }
    }
}

impl User {
    pub fn new(user_uuid: String, username: String, password_hash: String) -> (user: Self)
        ensures
            user@ == (UserView {
                user_uuid: user_uuid@,
                username: username@,
                password_hash: password_hash@,
            }),
    {
        User { user_uuid, username, password_hash }
    }
}

/// The capability set of an account store: create an account, check a
/// credential pair, delete an account. A store is injected into the facade at
/// construction; every implementation exposes its records through the
/// abstract view `users`.
pub trait Users: Sized {
    /// The records the store currently holds, in insertion order.
    spec fn users(&self) -> Seq<UserView>;

    /// Registers a new account. Fails with `DuplicateUsername` exactly when
    /// the username is already held; otherwise hashes the password under a
    /// fresh random salt and appends the record, or reports the primitive's
    /// `HashingFailure` and leaves the store unchanged.
    fn create_user(&mut self, username: String, password: String) -> (result: Result<
        (),
        CreateUserError,
    >)
        requires
            users_wf(old(self).users()),
        ensures
            users_wf(final(self).users()),
            result == Err::<(), CreateUserError>(CreateUserError::DuplicateUsername)
                <==> username_taken(old(self).users(), username@),
            result is Err ==> final(self).users() == old(self).users(),
            result is Ok ==> final(self).users() == old(self).users().push(
                final(self).users().last(),
            ) && final(self).users().last().username == username@ && password_matches(
                password@,
                final(self).users().last().password_hash,
            ),
    ;

    /// Checks a credential pair. Returns the account's identifier exactly
    /// when the username is held and the password matches the stored hash;
    /// an absent username and a wrong password are deliberately
    /// indistinguishable in the result.
    fn get_user_uuid(&self, username: String, password: String) -> (result: Option<String>)
        ensures
            ({
                let found = lookup_username(self.users(), username@);
                &&& result is Some <==> (found is Some && password_matches(
                    password@,
                    found->0.password_hash,
                ))
                &&& result matches Some(id) ==> id@ == found->0.user_uuid
            }),
    ;

    /// Removes every record carrying the identifier; a no-op when none does.
    fn delete_user(&mut self, user_uuid: String)
        requires
            users_wf(old(self).users()),
        ensures
            users_wf(final(self).users()),
            final(self).users() == without_uuid(old(self).users(), user_uuid@),
    ;
}

/// The in-memory account store: a single record list whose invariant is
/// [`users_wf`].
pub struct UsersImpl {
    users: Vec<User>,
}

impl UsersImpl {
    /// The index of the first record carrying `username`, if any.
    fn find_username(&self, username: &String) -> (result: Option<usize>)
        ensures
            result matches Some(i) ==> 0 <= i < self.users().len() && self.users()[
                i as int
            ].username == username@ && lookup_username(self.users(), username@) == Some(
                self.users()[i as int],
            ),
            result is None ==> !username_taken(self.users(), username@),
    {
        let mut i: usize = 0;
        proof {
            assert(self.users().subrange(0, self.users().len() as int) =~= self.users());
        }
        while i < self.users.len()
            invariant
                i <= self.users@.len(),
                lookup_username(self.users(), username@) == lookup_username(
                    self.users().subrange(i as int, self.users().len() as int),
                    username@,
                ),
                forall|j: int| 0 <= j < i ==> self.users()[j].username != username@,
            decreases self.users@.len() - i,
        {
            let ghost suffix = self.users().subrange(i as int, self.users().len() as int);
            if self.users[i].username == *username {
                assert(suffix[0] == self.users()[i as int]);
                return Some(i);
            }
            proof {
                assert(suffix[0] == self.users()[i as int]);
                assert(suffix.subrange(1, suffix.len() as int) =~= self.users().subrange(
                    i + 1,
                    self.users().len() as int,
                ));
            }
            i += 1;
        }
        proof {
            assert(self.users().subrange(
                self.users().len() as int,
                self.users().len() as int,
            ) =~= Seq::<UserView>::empty());
        }
        None
    }

    /// How many accounts the store holds.
    pub fn user_count(&self) -> (count: usize)
        ensures
            count == self.users().len(),
    {
        self.users.len()
    }
}

impl Default for UsersImpl {
    /// An empty account store.
    fn default() -> (store: Self)
        ensures
            store.users() == Seq::<UserView>::empty(),
            users_wf(store.users()),
    {
        UsersImpl { users: Vec::new() }
    }
}

impl Users for UsersImpl {
    closed spec fn users(&self) -> Seq<UserView> {
        self.users@.map_values(|user: User| user@)
    }

    fn create_user(&mut self, username: String, password: String) -> (result: Result<
        (),
        CreateUserError,
    >) {
        if self.find_username(&username).is_some() {
            return Err(CreateUserError::DuplicateUsername);
        }
        let password_hash = match hash_password(password.as_str()) {
            Ok(phc) => phc,
            Err(_) => {
                return Err(CreateUserError::HashingFailure);
            },
        };
        let user_uuid = fresh_uuid();
        let user = User::new(user_uuid, username, password_hash);
        self.users.push(user);
        proof {
            assert(self.users() =~= old(self).users().push(self.users().last()));
        }
        Ok(())
    }

    fn get_user_uuid(&self, username: String, password: String) -> (result: Option<String>) {
        proof {
            lemma_lookup_username(self.users(), username@);
        }
        let found = self.find_username(&username);
        match found {
            None => None,
            Some(i) => {
                let user = &self.users[i];
                proof {
                    assert(user@ == self.users()[i as int]);
                }
                if verify_password(password.as_str(), user.password_hash.as_str()) {
                    Some(user.user_uuid.clone())
                } else {
                    None
                }
            },
        }
    }

    fn delete_user(&mut self, user_uuid: String) {
        let mut i: usize = 0;
        proof {
            assert(self.users().subrange(0, self.users().len() as int) =~= self.users());
        }
        while i < self.users.len()
            invariant
                i <= self.users@.len(),
                users_wf(old(self).users()),
                users_wf(self.users()),
                forall|j: int| 0 <= j < i ==> self.users()[j].user_uuid != user_uuid@,
                without_uuid(old(self).users(), user_uuid@) == self.users().take(i as int)
                    + without_uuid(
                    self.users().subrange(i as int, self.users().len() as int),
                    user_uuid@,
                ),
            decreases self.users@.len() - i,
        {
            let ghost pre = self.users();
            let ghost suffix = pre.subrange(i as int, pre.len() as int);
            assert(suffix[0] == pre[i as int]);
            if self.users[i].user_uuid == user_uuid {
                self.users.remove(i);
                proof {
                    assert(self.users() =~= pre.subrange(0, i as int) + pre.subrange(
                        i + 1,
                        pre.len() as int,
                    ));
                    assert(self.users().take(i as int) =~= pre.take(i as int));
                    assert(suffix.subrange(1, suffix.len() as int) =~= self.users().subrange(
                        i as int,
                        self.users().len() as int,
                    ));
                    assert(users_wf(self.users())) by {
                        assert(forall|k: int|
                            0 <= k < self.users().len() ==> self.users()[k] == (if k < i {
                                pre[k]
                            } else {
                                pre[k + 1]
                            }));
                    }
                }
            } else {
                proof {
                    assert(suffix.subrange(1, suffix.len() as int) =~= pre.subrange(
                        i + 1,
                        pre.len() as int,
                    ));
                    assert(without_uuid(suffix, user_uuid@) == seq![pre[i as int]] + without_uuid(
                        pre.subrange(i + 1, pre.len() as int),
                        user_uuid@,
                    ));
                    assert(pre.take(i as int) + without_uuid(suffix, user_uuid@) =~= pre.take(
                        i + 1,
                    ) + without_uuid(pre.subrange(i + 1, pre.len() as int), user_uuid@));
                }
                i += 1;
            }
        }
        proof {
            assert(self.users().subrange(i as int, self.users().len() as int) =~= Seq::<
                UserView,
            >::empty());
            assert(self.users().take(i as int) =~= self.users());
        }
    }
}

} // verus!
