use vstd::prelude::*;
use crate::data_stores::{validation_of, Accounts, UserStore, UserStoreError};
use crate::email::Email;
use crate::password::Password;
use crate::user::User;

verus! {

/// An in-memory user store: the accounts in order of registration.
#[derive(Debug)]
pub struct HashmapUserStore {
    users: Vec<User>,
}

/// The account at position `i` holds `email`.
pub open spec fn holds_email(users: Seq<User>, i: int, email: Seq<char>) -> bool {
    0 <= i < users.len() && users[i].email@ == email
}

impl HashmapUserStore {
    /// An empty store.
    pub fn new() -> (r: Self)
        ensures
            r.wf(),
            r.users() == Accounts::empty(),
    {
        let r = HashmapUserStore { users: Vec::new() };
        assert(r.users() =~= Accounts::empty());
        r
    }

    /// Where the account of `email` stands, if anywhere.
    fn position(&self, email: &Email) -> (r: Option<usize>)
        ensures
            match r {
                Some(i) => holds_email(self.users@, i as int, email@),
                None => forall|i: int| !holds_email(self.users@, i, email@),
            },
    {
        let mut i: usize = 0;
        while i < self.users.len()
            invariant
                i <= self.users@.len(),
                forall|j: int| 0 <= j < i ==> !holds_email(self.users@, j, email@),
            decreases self.users@.len() - i,
        {
            if self.users[i].email.same_as(email) {
                return Some(i);
            }
            i = i + 1;
        }
        None
    }
}

impl Default for HashmapUserStore {
    fn default() -> (r: Self)
        ensures
            r.wf(),
            r.users() == Accounts::empty(),
    {
        HashmapUserStore::new()
    }
}

impl UserStore for HashmapUserStore {
    closed spec fn wf(&self) -> bool {
        forall|i: int, j: int|
            0 <= i < self.users@.len() && 0 <= j < self.users@.len() && #[trigger] self.users@[i].email@
                == #[trigger] self.users@[j].email@ ==> i == j
    }

    closed spec fn users(&self) -> Accounts {
        Map::new(
            |k: Seq<char>| exists|i: int| holds_email(self.users@, i, k),
            |k: Seq<char>|
                {
                    let i = choose|i: int| holds_email(self.users@, i, k);
                    (self.users@[i].password@, self.users@[i].requires_2fa)
                },
        )
    }

    fn add_user(&mut self, user: User) -> (r: Result<(), UserStoreError>) {
        match self.position(&user.email) {
            Some(_) => Err(UserStoreError::UserAlreadyExists),
            None => {
                let ghost before = self.users@;
                let ghost key = user.email@;
                let ghost value = (user.password@, user.requires_2fa);
                self.users.push(user);
                proof {
                    let after = self.users@;
                    let n = before.len() as int;
                    assert(holds_email(after, n, key));
                    assert forall|i: int, j: int|
                        0 <= i < after.len() && 0 <= j < after.len() && #[trigger] after[i].email@
                            == #[trigger] after[j].email@ implies i == j by {
                        if i < n && j < n {
                            assert(after[i] == before[i] && after[j] == before[j]);
                        } else if i < n {
                            assert(holds_email(before, i, key));
                        } else if j < n {
                            assert(holds_email(before, j, key));
                        }
                    }
                    assert forall|k: Seq<char>, i: int|
                        holds_email(after, i, k) && i < n implies holds_email(before, i, k) by {
                        assert(after[i] == before[i]);
                    }
                    assert forall|k: Seq<char>, i: int| holds_email(before, i, k) implies holds_email(
                        after,
                        i,
                        k,
                    ) by {
                        assert(after[i] == before[i]);
                    }
                    assert(old(self).users().insert(key, value) =~= self.users()) by {
                        assert forall|k: Seq<char>| #[trigger]
                            self.users().contains_key(k) implies old(self).users().insert(
                            key,
                            value,
                        ).contains_key(k) && self.users()[k] == old(self).users().insert(
                            key,
                            value,
                        )[k] by {
                            let i = choose|i: int| holds_email(after, i, k);
                            if k != key {
                                assert(i < n);
                                assert(holds_email(before, i, k));
                                let j = choose|j: int| holds_email(before, j, k);
                                assert(i == j);
                            } else {
                                assert(i == n);
                            }
                        }
                    }
                }
                Ok(())
            },
        }
    }

    fn get_user(&self, email: &Email) -> (r: Result<User, UserStoreError>) {
        match self.position(email) {
            Some(i) => {
                let u = self.users[i].clone();
                proof {
                    let j = choose|j: int| holds_email(self.users@, j, email@);
                    assert(i == j);
                }
                Ok(u)
            },
            None => Err(UserStoreError::UserNotFound),
        }
    }

    fn validate_user(&self, email: &Email, password: &Password) -> (r: Result<(), UserStoreError>) {
        match self.position(email) {
            Some(i) => {
                proof {
                    let j = choose|j: int| holds_email(self.users@, j, email@);
                    assert(i == j);
                }
                if self.users[i].password.same_as(password) {
                    Ok(())
                } else {
                    Err(UserStoreError::InvalidCredentials)
                }
            },
            None => Err(UserStoreError::UserNotFound),
        }
    }
}

} // verus!
