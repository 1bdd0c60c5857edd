use vstd::prelude::*;
use crate::data_stores::{Challenges, LoginAttemptId, TwoFACode, TwoFACodeStore, TwoFACodeStoreError};
use crate::email::Email;

verus! {

/// One outstanding challenge: whose it is, the attempt, and the code.
pub type Entry = (Email, LoginAttemptId, TwoFACode);

/// The entry at position `i` belongs to `email`.
pub open spec fn entry_of(entries: Seq<Entry>, i: int, email: Seq<char>) -> bool {
    0 <= i < entries.len() && entries[i].0@ == email
}

/// No two entries belong to one email address.
pub open spec fn keys_unique(entries: Seq<Entry>) -> bool {
    forall|i: int, j: int|
        0 <= i < entries.len() && 0 <= j < entries.len() && #[trigger] entries[i].0@
            == #[trigger] entries[j].0@ ==> i == j
}

/// The challenges that `entries` hold.
pub open spec fn challenges_of(entries: Seq<Entry>) -> Challenges {
    Map::new(
        |k: Seq<char>| exists|i: int| entry_of(entries, i, k),
        |k: Seq<char>|
            {
                let i = choose|i: int| entry_of(entries, i, k);
                (entries[i].1@, entries[i].2@)
            },
    )
}

/// In `entries` with unique keys, the challenge of the entry at `i`.
proof fn lemma_challenge_at(entries: Seq<Entry>, i: int)
    requires
        keys_unique(entries),
        0 <= i < entries.len(),
    ensures
        challenges_of(entries).contains_key(entries[i].0@),
        challenges_of(entries)[entries[i].0@] == (entries[i].1@, entries[i].2@),
{
    assert(entry_of(entries, i, entries[i].0@));
    let j = choose|j: int| entry_of(entries, j, entries[i].0@);
    assert(i == j);
}

/// An in-memory store of second-factor challenges, one per email address.
#[derive(Debug)]
pub struct HashmapTwoFACodeStore {
    codes: Vec<Entry>,
}

impl HashmapTwoFACodeStore {
    /// An empty store.
    pub fn new() -> (r: Self)
        ensures
            r.wf(),
            r.codes() == Challenges::empty(),
    {
        let r = HashmapTwoFACodeStore { codes: Vec::new() };
        assert(r.codes() =~= Challenges::empty());
        r
    }

    fn position(&self, email: &Email) -> (r: Option<usize>)
        ensures
            match r {
                Some(i) => entry_of(self.codes@, i as int, email@),
                None => forall|i: int| !entry_of(self.codes@, i, email@),
            },
    {
        let mut i: usize = 0;
        while i < self.codes.len()
            invariant
                i <= self.codes@.len(),
                forall|j: int| 0 <= j < i ==> !entry_of(self.codes@, j, email@),
            decreases self.codes@.len() - i,
        {
            if self.codes[i].0.same_as(email) {
                return Some(i);
            }
            i = i + 1;
        }
        None
    }

    /// Drops the entry at `i`.
    fn remove_at(&mut self, i: usize)
        requires
            keys_unique(old(self).codes@),
            i < old(self).codes@.len(),
        ensures
            keys_unique(final(self).codes@),
            challenges_of(final(self).codes@) == challenges_of(old(self).codes@).remove(
                old(self).codes@[i as int].0@,
            ),
    {
        let ghost before = self.codes@;
        let ghost key = before[i as int].0@;
        let _ = self.codes.remove(i);
        proof {
            let after = self.codes@;
            assert forall|a: int, b: int|
                0 <= a < after.len() && 0 <= b < after.len() && #[trigger] after[a].0@
                    == #[trigger] after[b].0@ implies a == b by {
                let a0 = if a < i { a } else { a + 1 };
                let b0 = if b < i { b } else { b + 1 };
                assert(after[a] == before[a0] && after[b] == before[b0]);
            }
            let want = challenges_of(before).remove(key);
            assert forall|k: Seq<char>|
                #[trigger] challenges_of(after).contains_key(k) == want.contains_key(k) by {
                if challenges_of(after).contains_key(k) {
                    let a = choose|a: int| entry_of(after, a, k);
                    let a0 = if a < i { a } else { a + 1 };
                    assert(after[a] == before[a0]);
                    assert(entry_of(before, a0, k));
                }
                if want.contains_key(k) {
                    let b = choose|b: int| entry_of(before, b, k);
                    assert(b != i);
                    let b1 = if b < i { b } else { b - 1 };
                    assert(after[b1] == before[b]);
                    assert(entry_of(after, b1, k));
                }
            }
            assert forall|k: Seq<char>| #[trigger]
                challenges_of(after).contains_key(k) implies challenges_of(after)[k] == want[k] by {
                let a = choose|a: int| entry_of(after, a, k);
                lemma_challenge_at(after, a);
                let a0 = if a < i { a } else { a + 1 };
                assert(after[a] == before[a0]);
                lemma_challenge_at(before, a0);
            }
            assert(challenges_of(after) =~= want);
        }
    }
}

impl Default for HashmapTwoFACodeStore {
    fn default() -> (r: Self)
        ensures
            r.wf(),
            r.codes() == Challenges::empty(),
    {
        HashmapTwoFACodeStore::new()
    }
}

impl TwoFACodeStore for HashmapTwoFACodeStore {
    closed spec fn wf(&self) -> bool {
        keys_unique(self.codes@)
    }

    closed spec fn codes(&self) -> Challenges {
        challenges_of(self.codes@)
    }

    fn add_code(&mut self, email: Email, login_attempt_id: LoginAttemptId, code: TwoFACode) -> (r:
        Result<(), TwoFACodeStoreError>) {
        let ghost key = email@;
        let ghost value = (login_attempt_id@, code@);
        match self.position(&email) {
            Some(i) => self.remove_at(i),
            None => {
                assert(challenges_of(self.codes@).remove(key) =~= challenges_of(self.codes@));
            },
        }
        let ghost before = self.codes@;
        assert(!challenges_of(before).contains_key(key));
        self.codes.push((email, login_attempt_id, code));
        proof {
            let after = self.codes@;
            let n = before.len() as int;
            assert(entry_of(after, n, key));
            assert forall|a: int, b: int|
                0 <= a < after.len() && 0 <= b < after.len() && #[trigger] after[a].0@
                    == #[trigger] after[b].0@ implies a == b by {
                if a < n && b < n {
                    assert(after[a] == before[a] && after[b] == before[b]);
                } else if a < n {
                    assert(after[a] == before[a]);
                    assert(entry_of(before, a, key));
                } else if b < n {
                    assert(after[b] == before[b]);
                    assert(entry_of(before, b, key));
                }
            }
            let want = challenges_of(before).insert(key, value);
            assert forall|k: Seq<char>|
                #[trigger] challenges_of(after).contains_key(k) == want.contains_key(k) by {
                if challenges_of(after).contains_key(k) && k != key {
                    let a = choose|a: int| entry_of(after, a, k);
                    assert(after[a] == before[a]);
                    assert(entry_of(before, a, k));
                }
                if challenges_of(before).contains_key(k) {
                    let b = choose|b: int| entry_of(before, b, k);
                    assert(after[b] == before[b]);
                    assert(entry_of(after, b, k));
                }
            }
            assert forall|k: Seq<char>| #[trigger]
                challenges_of(after).contains_key(k) implies challenges_of(after)[k] == want[k] by {
                let a = choose|a: int| entry_of(after, a, k);
                lemma_challenge_at(after, a);
                if a < n {
                    assert(after[a] == before[a]);
                    lemma_challenge_at(before, a);
                }
            }
            assert(challenges_of(after) =~= want);
        }
        Ok(())
    }

    fn remove_code(&mut self, email: &Email) -> (r: Result<(), TwoFACodeStoreError>) {
        match self.position(email) {
            Some(i) => {
                self.remove_at(i);
                Ok(())
            },
            None => {
                assert(challenges_of(self.codes@).remove(email@) =~= challenges_of(self.codes@));
                Err(TwoFACodeStoreError::EmailNotFound)
            },
        }
    }

    fn get_code(&self, email: &Email) -> (r: Result<(LoginAttemptId, TwoFACode), TwoFACodeStoreError>) {
        match self.position(email) {
            Some(i) => {
                proof {
                    lemma_challenge_at(self.codes@, i as int);
                }
                Ok((self.codes[i].1.clone(), self.codes[i].2.clone()))
            },
            None => Err(TwoFACodeStoreError::EmailNotFound),
        }
    }
}

} // verus!
