//! The credential store: usernames, the ids they were given, and password
//! hashes.
use vstd::prelude::*;

use crate::validation::same_text;

verus! {

/// A registered user as values: username and password hash. The user's id is
/// the position in registration order, counted from one.
pub type UserEntry = (Seq<char>, Seq<char>);

/// No username stands twice.
pub open spec fn names_unique(users: Seq<UserEntry>) -> bool {
    forall|i: int, j: int| 0 <= i < users.len() && 0 <= j < users.len() && i != j ==> users[i].0 != users[j].0
}

/// The name is registered.
pub open spec fn name_taken(users: Seq<UserEntry>, name: Seq<char>) -> bool {
    exists|i: int| 0 <= i < users.len() && users[i].0 == name
}

/// The id of the user with this name, if one is registered.
pub open spec fn id_of(users: Seq<UserEntry>, name: Seq<char>) -> Option<usize> {
    if name_taken(users, name) {
        Some(((choose|i: int| 0 <= i < users.len() && users[i].0 == name) + 1) as usize)
    } else {
        None
    }
}

/// The entry of the user with this id, if there is one.
pub open spec fn entry_of(users: Seq<UserEntry>, id: usize) -> Option<UserEntry> {
    if 1 <= id <= users.len() {
        Some(users[id - 1])
    } else {
        None
    }
}

/// A stored user.
pub struct UserRecord {
    pub username: String,
    pub password_hash: String,
}

/// All registered users, in registration order.
pub struct CredentialStore {
    users: Vec<UserRecord>,
}

impl View for CredentialStore {
    type V = Seq<UserEntry>;

    closed spec fn view(&self) -> Seq<UserEntry> {
        self.users@.map_values(|u: UserRecord| (u.username@, u.password_hash@))
    }
}

impl CredentialStore {
    /// The store is well formed: usernames are unique and every id fits.
    pub open spec fn wf(&self) -> bool {
        names_unique(self@) && self@.len() < usize::MAX
    }

    /// An empty store.
    pub fn new() -> (r: CredentialStore)
        ensures
            r.wf(),
            r@ == Seq::<UserEntry>::empty(),
    {
        let r = CredentialStore { users: Vec::new() };
        assert(r@ =~= Seq::<UserEntry>::empty());
        r
    }

    /// The id of the user with this name.
    pub fn lookup(&self, name: &str) -> (r: Option<usize>)
        requires
            self.wf(),
        ensures
            r == id_of(self@, name@),
    {
        let mut i: usize = 0;
        while i < self.users.len()
            invariant
                i <= self.users@.len(),
                self.wf(),
                self@.len() == self.users@.len(),
                forall|j: int| 0 <= j < i ==> self@[j].0 != name@,
            decreases self.users@.len() - i,
        {
            if same_text(self.users[i].username.as_str(), name) {
                assert(self@[i as int].0 == name@);
                assert(name_taken(self@, name@));
                let ghost c = choose|k: int| 0 <= k < self@.len() && self@[k].0 == name@;
                proof {
                    assert(self@[c].0 == name@);
                    if c != i as int {
                        assert(self@[c].0 != self@[i as int].0);
                    }
                }
                return Some(i + 1);
            }
            i = i + 1;
        }
        None
    }

    /// The username and password hash of the user with this id.
    pub fn get(&self, id: usize) -> (r: Option<&UserRecord>)
        ensures
            r matches Some(u) ==> entry_of(self@, id) == Some((u.username@, u.password_hash@)),
            r is None <==> entry_of(self@, id) is None,
    {
        if 1 <= id && id <= self.users.len() {
            Some(&self.users[id - 1])
        } else {
            None
        }
    }

    /// Whether another user can be registered.
    pub fn has_room(&self) -> (r: bool)
        ensures
            r == (self@.len() + 1 < usize::MAX),
    {
        self.users.len() < usize::MAX - 1
    }

    /// Registers a user under the next id.
    pub fn create(&mut self, username: String, password_hash: String) -> (r: usize)
        requires
            old(self).wf(),
            !name_taken(old(self)@, username@),
            old(self)@.len() + 1 < usize::MAX,
        ensures
            final(self).wf(),
            final(self)@ == old(self)@.push((username@, password_hash@)),
            r == final(self)@.len(),
    {
        let ghost entry = (username@, password_hash@);
        self.users.push(UserRecord { username, password_hash });
        assert(self@ =~= old(self)@.push(entry));
        self.users.len()
    }
}

} // verus!
