use vstd::prelude::*;
use crate::data_stores::{BannedTokenStore, BannedTokenStoreError};

verus! {

/// An in-memory store of revoked tokens, each held once.
#[derive(Debug)]
pub struct HashsetBannedTokenStore {
    tokens: Vec<String>,
}

impl HashsetBannedTokenStore {
    /// An empty store.
    pub fn new() -> (r: Self)
        ensures
            r.wf(),
            r.tokens() == Set::<Seq<char>>::empty(),
    {
        let r = HashsetBannedTokenStore { tokens: Vec::new() };
        assert(r.tokens() =~= Set::<Seq<char>>::empty());
        r
    }
}

impl Default for HashsetBannedTokenStore {
    fn default() -> (r: Self)
        ensures
            r.wf(),
            r.tokens() == Set::<Seq<char>>::empty(),
    {
        HashsetBannedTokenStore::new()
    }
}

impl BannedTokenStore for HashsetBannedTokenStore {
    closed spec fn wf(&self) -> bool {
        forall|i: int, j: int|
            0 <= i < self.tokens@.len() && 0 <= j < self.tokens@.len() && #[trigger] self.tokens@[i]@
                == #[trigger] self.tokens@[j]@ ==> i == j
    }

    closed spec fn tokens(&self) -> Set<Seq<char>> {
        Set::new(|t: Seq<char>| exists|i: int| 0 <= i < self.tokens@.len() && self.tokens@[i]@ == t)
    }

    proof fn lemma_tokens_finite(&self) {
        let texts = self.tokens@.map_values(|t: String| t@);
        vstd::seq_lib::seq_to_set_is_finite(texts);
        assert forall|t: Seq<char>| #[trigger] self.tokens().contains(t) == texts.to_set().contains(t) by {
            if self.tokens().contains(t) {
                let i = choose|i: int| 0 <= i < self.tokens@.len() && self.tokens@[i]@ == t;
                assert(texts[i] == t);
            }
            if texts.to_set().contains(t) {
                let i = choose|i: int| 0 <= i < texts.len() && texts[i] == t;
                assert(self.tokens@[i]@ == t);
            }
        }
        assert(self.tokens() =~= texts.to_set());
    }

    fn add_token(&mut self, token: String) -> (r: Result<(), BannedTokenStoreError>) {
        if !self.get_token(&token) {
            let ghost before = self.tokens@;
            let ghost t = token@;
            self.tokens.push(token);
            proof {
                let after = self.tokens@;
                let n = before.len() as int;
                assert(after[n]@ == t);
                assert forall|i: int, j: int|
                    0 <= i < after.len() && 0 <= j < after.len() && #[trigger] after[i]@
                        == #[trigger] after[j]@ implies i == j by {
                    if i < n && j < n {
                        assert(after[i] == before[i] && after[j] == before[j]);
                    } else if i < n {
                        assert(after[i] == before[i]);
                    } else if j < n {
                        assert(after[j] == before[j]);
                    }
                }
                assert forall|s: Seq<char>| #[trigger]
                    self.tokens().contains(s) == old(self).tokens().insert(t).contains(s) by {
                    if self.tokens().contains(s) && s != t {
                        let i = choose|i: int| 0 <= i < after.len() && after[i]@ == s;
                        assert(after[i] == before[i]);
                    }
                    if old(self).tokens().contains(s) {
                        let i = choose|i: int| 0 <= i < before.len() && before[i]@ == s;
                        assert(after[i] == before[i]);
                    }
                }
                assert(self.tokens() =~= old(self).tokens().insert(t));
            }
        } else {
            assert(self.tokens() =~= self.tokens().insert(token@));
        }
        Ok(())
    }

    fn get_token(&self, token: &String) -> (r: bool) {
        let mut i: usize = 0;
        while i < self.tokens.len()
            invariant
                i <= self.tokens@.len(),
                forall|j: int| 0 <= j < i ==> self.tokens@[j]@ != token@,
            decreases self.tokens@.len() - i,
        {
            if self.tokens[i] == *token {
                return true;
            }
            i = i + 1;
        }
        false
    }
}

} // verus!
