//! Accounts: who is registered, and with which password.

use vstd::prelude::*;
use crate::table::Table;

verus! {

/// One account.
#[derive(Debug)]
pub struct User {
    pub email: String,
    pub password: String,
}

/// Why an account request was turned down.
#[derive(Debug, PartialEq, Eq, Structural)]
pub enum AuthError {
    /// The password is not the account's.
    InvalidCredentials,
    /// There is an account under this e-mail address already.
    UserAlreadyExists,
    /// The accounts could not be read.
    UserFileNotFound,
    /// There is no account under this e-mail address.
    UserNotFound,
    /// The account is locked.
    UserLocked,
}

/// The accounts: the password of each e-mail address.
pub struct Users(pub Table<String>);

impl View for Users {
    type V = Map<Seq<char>, Seq<char>>;

    open spec fn view(&self) -> Map<Seq<char>, Seq<char>> {
        self.0@.map_values(|password: String| password@)
    }
}

impl Users {
    /// Well-formedness: no e-mail address twice.
    pub open spec fn wf(&self) -> bool {
        self.0.wf()
    }

    /// No accounts.
    pub fn new() -> (users: Self)
        ensures
            users.wf(),
            users@ == Map::<Seq<char>, Seq<char>>::empty(),
    {
        let users = Users(Table::new());
        assert(users@ =~= Map::<Seq<char>, Seq<char>>::empty());
        users
    }

    /// The number of accounts.
    pub fn len(&self) -> (n: usize)
        requires
            self.wf(),
        ensures
            n == self@.dom().len(),
    {
        assert(self@.dom() =~= self.0@.dom());
        self.0.len()
    }

    /// The accounts, one after the other, the password of each taken and
    /// the accounts left empty.
    pub fn drain(&mut self) -> (all: Vec<User>)
        requires
            old(self).wf(),
        ensures
            final(self).wf(),
            final(self)@ == Map::<Seq<char>, Seq<char>>::empty(),
            all@.len() == old(self)@.dom().len(),
            forall|i: int|
                0 <= i < all@.len() ==> old(self)@.contains_key(#[trigger] all@[i].email@) && old(self)@[all@[i].email@] == all@[i].password@,
            forall|i: int, j: int|
                0 <= i < j < all@.len() ==> all@[i].email@ != all@[j].email@,
    {
        let ghost before = self@;
        let mut all: Vec<User> = Vec::new();
        proof {
            self.0.lemma_domain();
            assert(self@.dom() =~= self.0@.dom());
        }
        loop
            invariant
                self.wf(),
                all@.len() + self.0.keys().len() == before.dom().len(),
                forall|key: Seq<char>| #[trigger]
                    self@.contains_key(key) ==> before.contains_key(key) && self@[key]
                        == before[key],
                forall|i: int|
                    0 <= i < all@.len() ==> before.contains_key(#[trigger] all@[i].email@)
                        && before[all@[i].email@] == all@[i].password@ && !self@.contains_key(
                        all@[i].email@,
                    ),
                forall|i: int, j: int| 0 <= i < j < all@.len() ==> all@[i].email@ != all@[j].email@,
            ensures
                self.0.keys().len() == 0,
            decreases self.0.keys().len(),
        {
            let ghost current = self@;
            match self.0.pop() {
                Some((email, password)) => {
                    assert(self@ =~= current.remove(email@));
                    assert(current.contains_key(email@));
                    all.push(User { email, password });
                },
                None => {
                    break ;
                },
            }
        }
        proof {
            self.0.lemma_domain();
            assert(self.0@.dom().len() == 0);
            assert(self@ =~= Map::<Seq<char>, Seq<char>>::empty());
        }
        all
    }
}

/// Opens an account for `email` with `password`, unless there is one.
pub fn register(users: &mut Users, email: &str, password: &str) -> (r: Result<(), AuthError>)
    requires
        old(users).wf(),
    ensures
        final(users).wf(),
        old(users)@.contains_key(email@) ==> r == Err::<(), AuthError>(
            AuthError::UserAlreadyExists,
        ) && final(users)@ == old(users)@,
        !old(users)@.contains_key(email@) ==> r is Ok && final(users)@ == old(users)@.insert(
            email@,
            password@,
        ),
{
    let key = email.to_owned();
    if users.0.contains_key(&key) {
        return Err(AuthError::UserAlreadyExists);
    }
    users.0.insert(key, password.to_owned());
    assert(users@ =~= old(users)@.insert(email@, password@));
    Ok(())
}

/// Checks `password` against the account of `email`.  Returns the e-mail
/// address if it is the account's password.
pub fn login(users: &Users, email: &str, password: &str) -> (r: Result<String, AuthError>)
    requires
        users.wf(),
    ensures
        match r {
            Ok(name) => users@.contains_key(email@) && users@[email@] == password@ && name@
                == email@,
            Err(error) => if users@.contains_key(email@) {
                users@[email@] != password@ && error == AuthError::InvalidCredentials
            } else {
                error == AuthError::UserNotFound
            },
        },
{
    let key = email.to_owned();
    match users.0.get(&key) {
        Some(stored) => {
            if *stored == password.to_owned() {
                Ok(key)
            } else {
                Err(AuthError::InvalidCredentials)
            }
        },
        None => Err(AuthError::UserNotFound),
    }
}

} // verus!
