use vstd::prelude::*;

verus! {

/// The set of client identifiers that are currently receiving a countdown.
///
/// A client is either present or absent: inserting an identifier twice keeps
/// one entry, and removing an absent identifier changes nothing.
pub struct ConnectedUsers {
    users: Vec<String>,
}

impl View for ConnectedUsers {
    type V = Set<Seq<char>>;

    closed spec fn view(&self) -> Set<Seq<char>> {
        self.names().to_set()
    }
}

impl ConnectedUsers {
    /// The identifiers in storage order.
    closed spec fn names(&self) -> Seq<Seq<char>> {
        self.users@.map_values(|s: String| s@)
    }

    /// Well-formed: each identifier is stored once.
    pub closed spec fn wf(&self) -> bool {
        self.names().no_duplicates()
    }

    proof fn lemma_len(&self)
        requires
            self.wf(),
        ensures
            self@.finite(),
            self@.len() == self.users@.len(),
    {
        self.names().unique_seq_to_set();
    }

    /// An empty registry.
    pub fn new() -> (r: ConnectedUsers)
        ensures
            r.wf(),
            r@ == Set::<Seq<char>>::empty(),
    {
        let r = ConnectedUsers { users: Vec::new() };
        assert(r.names() =~= Seq::<Seq<char>>::empty());
        r
    }

    /// Position of `user_id` in storage, if it is present.
    fn position(&self, user_id: &String) -> (r: Option<usize>)
        ensures
            match r {
                Some(i) => i < self.users@.len() && self.names()[i as int] == user_id@,
                None => !self.names().contains(user_id@),
            },
    {
        let mut i: usize = 0;
        while i < self.users.len()
            invariant
                i <= self.users@.len(),
                forall|j: int| 0 <= j < i ==> self.names()[j] != user_id@,
            decreases self.users@.len() - i,
        {
            if self.users[i] == *user_id {
                return Some(i);
            }
            i = i + 1;
        }
        None
    }

    /// Adds `user_id`; a no-op when it is already present.
    pub fn insert_user(&mut self, user_id: &String)
        requires
            old(self).wf(),
        ensures
            final(self).wf(),
            final(self)@ == old(self)@.insert(user_id@),
    {
        match self.position(user_id) {
            Some(i) => {
                assert(self.names().contains(user_id@));
                assert(old(self)@.insert(user_id@) =~= old(self)@);
            },
            None => {
                let ghost before = self.names();
                self.users.push(user_id.clone());
                assert(self.names() =~= before.push(user_id@));
                assert(self.names().to_set() =~= before.to_set().insert(user_id@)) by {
                    assert forall|s: Seq<char>|
                        self.names().to_set().contains(s) implies before.to_set().insert(
                            s,
                        ).contains(s) || s == user_id@ by {}
                    assert forall|s: Seq<char>| #[trigger]
                        before.to_set().insert(user_id@).contains(s) implies self.names().contains(
                            s,
                        ) by {
                        if s != user_id@ {
                            let j = choose|j: int| 0 <= j < before.len() && before[j] == s;
                            assert(self.names()[j] == s);
                        } else {
                            assert(self.names()[before.len() as int] == s);
                        }
                    }
                }
            },
        }
    }

    /// Removes `user_id`; a no-op when it is absent.
    pub fn remove_user(&mut self, user_id: &String)
        requires
            old(self).wf(),
        ensures
            final(self).wf(),
            final(self)@ == old(self)@.remove(user_id@),
    {
        match self.position(user_id) {
            Some(i) => {
                let ghost before = self.names();
                self.users.remove(i);
                assert(self.names() =~= before.remove(i as int));
                assert(self.names().to_set() =~= before.to_set().remove(user_id@)) by {
                    assert forall|s: Seq<char>| #[trigger]
                        self.names().to_set().contains(s) implies before.to_set().remove(
                            user_id@,
                        ).contains(s) by {
                        let j = choose|j: int| 0 <= j < self.names().len() && self.names()[j] == s;
                        if j < i {
                            assert(before[j] == s);
                        } else {
                            assert(before[j + 1] == s);
                        }
                    }
                    assert forall|s: Seq<char>| #[trigger]
                        before.to_set().remove(user_id@).contains(s) implies self.names().contains(
                            s,
                        ) by {
                        let j = choose|j: int| 0 <= j < before.len() && before[j] == s;
                        if j < i {
                            assert(self.names()[j] == s);
                        } else {
                            assert(j != i);
                            assert(self.names()[j - 1] == s);
                        }
                    }
                }
                if self.users.len() == 0 {
                    self.users = Vec::new();
                    assert(self.names() =~= before.remove(i as int));
                }
            },
            None => {
                assert(old(self)@.remove(user_id@) =~= old(self)@);
            },
        }
    }

    /// Whether `user_id` is present.
    pub fn has_user(&self, user_id: &String) -> (r: bool)
        ensures
            r == self@.contains(user_id@),
    {
        self.position(user_id).is_some()
    }

    /// The number of identifiers present.
    pub fn get_connect_users_count(&mut self) -> (r: usize)
        requires
            old(self).wf(),
        ensures
            final(self).wf(),
            final(self)@ == old(self)@,
            r == old(self)@.len(),
    {
        proof {
            self.lemma_len();
        }
        if self.users.len() == 0 {
            self.users = Vec::new();
            assert(self.names() =~= old(self).names());
        }
        self.users.len()
    }
}

} // verus!
