use vstd::prelude::*;
use crate::identity::Identity;

verus! {

/// One account as the contracts see it.
pub struct Account {
    pub uuid: Identity,
    /// Case-folded username: the key that lookups and sign-in use.
    pub username: Seq<char>,
    /// The username as it was registered.
    pub display_username: Seq<char>,
    /// Case-folded linked address.
    pub ethaddr: Seq<char>,
    /// Stored password hash, with its parameters and salt.
    pub pwhash: Seq<char>,
}

/// `a` with its stored password hash replaced by `h`.
pub open spec fn with_pwhash(a: Account, h: Seq<char>) -> Account {
    Account { pwhash: h, ..a }
}

/// One row of the user store.
#[derive(Debug)]
pub struct UserRow {
    pub uuid: Identity,
    pub username: String,
    pub display_username: String,
    pub ethaddr: String,
    pub pwhash: String,
}

impl UserRow {
    pub open spec fn view(&self) -> Account {
        Account {
            uuid: self.uuid,
            username: self.username@,
            display_username: self.display_username@,
            ethaddr: self.ethaddr@,
            pwhash: self.pwhash@,
        }
    }
}

/// Which unique key an insert collided on.
#[derive(Debug, Clone, Copy, PartialEq, Eq, Structural)]
pub enum Conflict {
    Identity,
    Username,
    Address,
}

/// Whether some account has canonical username `name`.
pub open spec fn has_username(rows: Seq<Account>, name: Seq<char>) -> bool {
    exists|i: int| 0 <= i < rows.len() && (#[trigger] rows[i]).username == name
}

/// Whether some account has linked address `addr`.
pub open spec fn has_ethaddr(rows: Seq<Account>, addr: Seq<char>) -> bool {
    exists|i: int| 0 <= i < rows.len() && (#[trigger] rows[i]).ethaddr == addr
}

/// Whether some account has identity `id`.
pub open spec fn has_uuid(rows: Seq<Account>, id: Identity) -> bool {
    exists|i: int| 0 <= i < rows.len() && (#[trigger] rows[i]).uuid == id
}

/// The account with canonical username `name` (meaningful where there is one).
pub open spec fn by_username(rows: Seq<Account>, name: Seq<char>) -> Account {
    rows[choose|i: int| 0 <= i < rows.len() && (#[trigger] rows[i]).username == name]
}

/// The account with linked address `addr` (meaningful where there is one).
pub open spec fn by_ethaddr(rows: Seq<Account>, addr: Seq<char>) -> Account {
    rows[choose|i: int| 0 <= i < rows.len() && (#[trigger] rows[i]).ethaddr == addr]
}

/// The account with identity `id` (meaningful where there is one).
pub open spec fn by_uuid(rows: Seq<Account>, id: Identity) -> Account {
    rows[choose|i: int| 0 <= i < rows.len() && (#[trigger] rows[i]).uuid == id]
}

/// Identity, canonical username and linked address are each unique.
pub open spec fn unique_keys(rows: Seq<Account>) -> bool {
    forall|i: int, j: int|
        0 <= i < rows.len() && 0 <= j < rows.len() && i != j ==> {
            &&& (#[trigger] rows[i]).uuid != (#[trigger] rows[j]).uuid
            &&& rows[i].username != rows[j].username
            &&& rows[i].ethaddr != rows[j].ethaddr
        }
}

/// What an insert of `a` into `rows` collides on, if anything.
pub open spec fn conflict_of(rows: Seq<Account>, a: Account) -> Option<Conflict> {
    if has_username(rows, a.username) {
        Some(Conflict::Username)
    } else if has_ethaddr(rows, a.ethaddr) {
        Some(Conflict::Address)
    } else if has_uuid(rows, a.uuid) {
        Some(Conflict::Identity)
    } else {
        None
    }
}

/// The accounts: exact-match lookups and single-row inserts and updates.
pub struct UserStore {
    rows: Vec<UserRow>,
}

impl UserStore {
    /// The accounts, in insertion order.
    pub closed spec fn view(&self) -> Seq<Account> {
        self.rows@.map_values(|r: UserRow| r.view())
    }

    /// The store's invariant: no two accounts share a unique key.
    pub open spec fn wf(&self) -> bool {
        unique_keys(self.view())
    }

    /// An empty store.
    pub fn new() -> (r: Self)
        ensures
            r.view() == Seq::<Account>::empty(),
            r.wf(),
    {
        let r = UserStore { rows: Vec::new() };
        assert(r.view() =~= Seq::<Account>::empty());
        r
    }

    /// The number of accounts.
    pub fn len(&self) -> (r: usize)
        ensures
            r == self.view().len(),
    {
        self.rows.len()
    }

    /// The account at position `i`.
    pub fn row(&self, i: usize) -> (r: &UserRow)
        requires
            i < self.view().len(),
        ensures
            r.view() == self.view()[i as int],
    {
        &self.rows[i]
    }

    /// The position of the account with canonical username `name`.
    pub fn find_by_username(&self, name: &String) -> (r: Option<usize>)
        ensures
            match r {
                Some(i) => i < self.view().len() && self.view()[i as int].username == name@,
                None => !has_username(self.view(), name@),
            },
    {
        let mut i: usize = 0;
        while i < self.rows.len()
            invariant
                i <= self.view().len(),
                forall|j: int| 0 <= j < i ==> (#[trigger] self.view()[j]).username != name@,
            decreases self.rows.len() - i,
        {
            if self.rows[i].username == *name {
                return Some(i);
            }
            i = i + 1;
        }
        None
    }

    /// The position of the account with linked address `addr`.
    pub fn find_by_ethaddr(&self, addr: &String) -> (r: Option<usize>)
        ensures
            match r {
                Some(i) => i < self.view().len() && self.view()[i as int].ethaddr == addr@,
                None => !has_ethaddr(self.view(), addr@),
            },
    {
        let mut i: usize = 0;
        while i < self.rows.len()
            invariant
                i <= self.view().len(),
                forall|j: int| 0 <= j < i ==> (#[trigger] self.view()[j]).ethaddr != addr@,
            decreases self.rows.len() - i,
        {
            if self.rows[i].ethaddr == *addr {
                return Some(i);
            }
            i = i + 1;
        }
        None
    }

    /// The position of the account with identity `id`.
    pub fn find_by_uuid(&self, id: Identity) -> (r: Option<usize>)
        ensures
            match r {
                Some(i) => i < self.view().len() && self.view()[i as int].uuid == id,
                None => !has_uuid(self.view(), id),
            },
    {
        let mut i: usize = 0;
        while i < self.rows.len()
            invariant
                i <= self.view().len(),
                forall|j: int| 0 <= j < i ==> (#[trigger] self.view()[j]).uuid != id,
            decreases self.rows.len() - i,
        {
            if self.rows[i].uuid == id {
                return Some(i);
            }
            i = i + 1;
        }
        None
    }

    /// Whether an account has canonical username `name`.
    pub fn user_exists(&self, name: &String) -> (r: bool)
        ensures
            r == has_username(self.view(), name@),
    {
        self.find_by_username(name).is_some()
    }

    /// Adds `row`, unless one of its unique keys is taken.
    pub fn insert(&mut self, row: UserRow) -> (r: Result<(), Conflict>)
        requires
            old(self).wf(),
        ensures
            final(self).wf(),
            match conflict_of(old(self).view(), row.view()) {
                None => r is Ok && final(self).view() == old(self).view().push(row.view()),
                Some(c) => r == Err::<(), Conflict>(c) && final(self).view() == old(self).view(),
            },
    {
        if self.find_by_username(&row.username).is_some() {
            return Err(Conflict::Username);
        }
        if self.find_by_ethaddr(&row.ethaddr).is_some() {
            return Err(Conflict::Address);
        }
        if self.find_by_uuid(row.uuid).is_some() {
            return Err(Conflict::Identity);
        }
        let ghost before = self.view();
        self.rows.push(row);
        assert(self.view() =~= before.push(row.view()));
        proof {
            let v = self.view();
            assert forall|i: int, j: int|
                0 <= i < v.len() && 0 <= j < v.len() && i != j implies {
                &&& (#[trigger] v[i]).uuid != (#[trigger] v[j]).uuid
                &&& v[i].username != v[j].username
                &&& v[i].ethaddr != v[j].ethaddr
            } by {
                if i == before.len() {
                    assert(v[j] == before[j]);
                } else if j == before.len() {
                    assert(v[i] == before[i]);
                } else {
                    assert(v[i] == before[i] && v[j] == before[j]);
                }
            }
        }
        Ok(())
    }

    /// Replaces the stored password hash of the account with linked address
    /// `addr`; false, and nothing changed, if there is none.
    pub fn update_pwhash(&mut self, addr: &String, pwhash: String) -> (r: bool)
        requires
            old(self).wf(),
        ensures
            final(self).wf(),
            r == has_ethaddr(old(self).view(), addr@),
            r ==> exists|i: int|
                0 <= i < old(self).view().len() && old(self).view()[i].ethaddr == addr@
                    && final(self).view() == old(self).view().update(
                    i,
                    with_pwhash(old(self).view()[i], pwhash@),
                ),
            !r ==> final(self).view() == old(self).view(),
    {
        match self.find_by_ethaddr(addr) {
            Some(i) => {
                let ghost before = self.view();
                let old_row = &self.rows[i];
                let row = UserRow {
                    uuid: old_row.uuid,
                    username: old_row.username.clone(),
                    display_username: old_row.display_username.clone(),
                    ethaddr: old_row.ethaddr.clone(),
                    pwhash,
                };
                self.rows.set(i, row);
                assert(self.view() =~= before.update(
                    i as int,
                    with_pwhash(before[i as int], pwhash@),
                ));
                proof {
                    let v = self.view();
                    assert forall|a: int, b: int|
                        0 <= a < v.len() && 0 <= b < v.len() && a != b implies {
                        &&& (#[trigger] v[a]).uuid != (#[trigger] v[b]).uuid
                        &&& v[a].username != v[b].username
                        &&& v[a].ethaddr != v[b].ethaddr
                    } by {
                        assert(before[a].uuid != before[b].uuid);
                    }
                }
                true
            },
            None => false,
        }
    }
}

} // verus!
