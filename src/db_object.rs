//! The store of user records: an ordered sequence of users, each found by
//! its id.
use vstd::prelude::*;

use crate::utils::Errors;
use crate::{User, UserGroup, UserView};

verus! {

/// A change to one field of a user record.
pub enum UserEnum {
    Name(String),
    Lastname(String),
    BirthYear(u16),
    Group(UserGroup),
}

/// The record `u` after the change `c`.
pub open spec fn apply_change(u: UserView, c: UserEnum) -> UserView {
    match c {
        UserEnum::Name(name) => UserView { name: name@, ..u },
        UserEnum::Lastname(lastname) => UserView { lastname: lastname@, ..u },
        UserEnum::BirthYear(birth_year) => UserView { birth_year, ..u },
        UserEnum::Group(group) => UserView { group, ..u },
    }
}

/// The record `u` after the changes `cs`, applied from first to last.
pub open spec fn apply_changes(u: UserView, cs: Seq<UserEnum>) -> UserView
    decreases cs.len(),
{
    if cs.len() == 0 {
        u
    } else {
        apply_change(apply_changes(u, cs.drop_last()), cs.last())
    }
}

/// Some record of `s` has the id `id`.
pub open spec fn has_id(s: Seq<UserView>, id: u32) -> bool {
    exists|i: int| 0 <= i < s.len() && #[trigger] s[i].id == id
}

/// `i` is the first position in `s` of a record with the id `id`.
pub open spec fn is_first_pos(s: Seq<UserView>, id: u32, i: int) -> bool {
    &&& 0 <= i < s.len()
    &&& s[i].id == id
    &&& forall|j: int| 0 <= j < i ==> #[trigger] s[j].id != id
}

/// The id that the store gives when none is asked for: one more than the
/// id of the last record, or 0 in an empty store.
pub open spec fn next_id(s: Seq<UserView>) -> int {
    if s.len() == 0 {
        0
    } else {
        s.last().id + 1
    }
}

/// The id that a new record gets: the one asked for, else `next_id`.
pub open spec fn assigned_id(s: Seq<UserView>, new_id: Option<u32>) -> int {
    match new_id {
        Some(id) => id as int,
        None => next_id(s),
    }
}

/// Without an id of its own, the first record of an empty store gets the id
/// 0, and a record added to a non-empty store the id of the last record plus
/// one.
pub proof fn lemma_next_id(s: Seq<UserView>)
    ensures
        assigned_id(Seq::empty(), None) == 0,
        s.len() > 0 ==> assigned_id(s, None) == s[s.len() - 1].id + 1,
{
}

/// `u` with the id `id`.
pub open spec fn with_id(u: UserView, id: u32) -> UserView {
    UserView { id, ..u }
}

/// The store `s` after adding `users` in order, each under the id that the
/// store gives when none is asked for.
pub open spec fn add_all(s: Seq<UserView>, users: Seq<UserView>) -> Seq<UserView>
    decreases users.len(),
{
    if users.len() == 0 {
        s
    } else {
        let t = add_all(s, users.drop_last());
        t.push(with_id(users.last(), next_id(t) as u32))
    }
}

/// Adding records one after another to an empty store, none with an id of
/// its own, gives each record its position as id: so no two records share an
/// id, and none is lost.
pub proof fn lemma_added_ids_distinct(users: Seq<UserView>)
    requires
        users.len() <= u32::MAX + 1,
    ensures
        add_all(Seq::empty(), users).len() == users.len(),
        forall|i: int|
            0 <= i < users.len() ==> #[trigger] add_all(Seq::empty(), users)[i].id == i,
        forall|i: int, j: int|
            0 <= i < j < users.len() ==> add_all(Seq::empty(), users)[i].id != add_all(
                Seq::empty(),
                users,
            )[j].id,
    decreases users.len(),
{
    if users.len() > 0 {
        lemma_added_ids_distinct(users.drop_last());
    }
}

/// The store of user records.
#[derive(Clone, Debug, PartialEq)]
pub struct DataBase {
    pub db: Vec<User>,
}

impl View for DataBase {
    type V = Seq<UserView>;

    open spec fn view(&self) -> Seq<UserView> {
        self.db@.map_values(|u: User| u@)
    }
}

impl DataBase {
    /// An empty store.
    pub fn new() -> (r: Self)
        ensures
            r@ == Seq::<UserView>::empty(),
    {
        let r = Self { db: Vec::new() };
        assert(r@ =~= Seq::<UserView>::empty());
        r
    }

    /// The first position of a record with the id `id`, if there is one.
    fn position(&self, id: u32) -> (r: Option<usize>)
        ensures
            match r {
                Some(i) => is_first_pos(self@, id, i as int),
                None => !has_id(self@, id),
            },
    {
        let mut i: usize = 0;
        while i < self.db.len()
            invariant
                i <= self.db@.len(),
                forall|j: int| 0 <= j < i ==> #[trigger] self@[j].id != id,
            decreases self.db@.len() - i,
        {
            if self.db[i].id == id {
                return Some(i);
            }
            i = i + 1;
        }
        None
    }

    /// Appends `user` under the id `new_id`, or under `next_id` where none is
    /// given, and returns that id. An id already in the store is not refused.
    pub fn add_entry(&mut self, user: User, new_id: Option<u32>) -> (r: u32)
        requires
            assigned_id(old(self)@, new_id) <= u32::MAX,
        ensures
            r == assigned_id(old(self)@, new_id),
            final(self)@ == old(self)@.push(with_id(user@, r)),
    {
        let mut user = user;
        let id = match new_id {
            Some(id) => id,
            None => {
                let n = self.db.len();
                if n == 0 {
                    0
                } else {
                    self.db[n - 1].id + 1
                }
            },
        };
        user.id = id;
        self.db.push(user);
        assert(self@ =~= old(self)@.push(with_id(user@, id)));
        id
    }

    /// Removes the first record with the id `id` and returns its position.
    pub fn remove_entry(&mut self, id: u32) -> (r: Result<usize, Errors>)
        ensures
            match r {
                Ok(i) => {
                    &&& is_first_pos(old(self)@, id, i as int)
                    &&& final(self)@ == old(self)@.remove(i as int)
                },
                Err(e) => e == Errors::UserError(400) && !has_id(old(self)@, id) && final(self)@
                    == old(self)@,
            },
    {
        match self.position(id) {
            Some(i) => {
                self.db.remove(i);
                assert(self@ =~= old(self)@.remove(i as int));
                Ok(i)
            },
            None => Err(Errors::UserError(400)),
        }
    }

    /// Applies `data`, in order, to the first record with the id `id`, and
    /// returns its position.
    pub fn change_user(&mut self, id: u32, data: Vec<UserEnum>) -> (r: Result<usize, Errors>)
        ensures
            match r {
                Ok(i) => {
                    &&& is_first_pos(old(self)@, id, i as int)
                    &&& final(self)@ == old(self)@.update(
                        i as int,
                        apply_changes(old(self)@[i as int], data@),
                    )
                },
                Err(e) => e == Errors::UserError(400) && !has_id(old(self)@, id) && final(self)@
                    == old(self)@,
            },
    {
        let i = match self.position(id) {
            Some(i) => i,
            None => {
                return Err(Errors::UserError(400));
            },
        };
        let ghost before = self@[i as int];
        let mut user = self.db.remove(i);
        let mut k: usize = 0;
        while k < data.len()
            invariant
                k <= data@.len(),
                user@ == apply_changes(before, data@.subrange(0, k as int)),
            decreases data@.len() - k,
        {
            match &data[k] {
                UserEnum::Name(name) => {
                    user.name = name.clone();
                },
                UserEnum::Lastname(lastname) => {
                    user.lastname = lastname.clone();
                },
                UserEnum::BirthYear(birth_year) => {
                    user.birth_year = *birth_year;
                },
                UserEnum::Group(group) => {
                    user.group = *group;
                },
            }
            assert(data@.subrange(0, k + 1).drop_last() =~= data@.subrange(0, k as int));
            k = k + 1;
        }
        assert(data@.subrange(0, data@.len() as int) =~= data@);
        self.db.insert(i, user);
        assert(self@ =~= old(self)@.update(i as int, apply_changes(before, data@)));
        Ok(i)
    }

    /// All records, in the order in which they were added.
    pub fn get_all(&self) -> (r: &Vec<User>)
        ensures
            r@ == self.db@,
    {
        &self.db
    }

    /// The first record with the id `id`.
    pub fn get_one(&self, id: u32) -> (r: Result<&User, Errors>)
        ensures
            match r {
                Ok(u) => exists|i: int| is_first_pos(self@, id, i) && u@ == self@[i],
                Err(e) => e == Errors::UserError(400) && !has_id(self@, id),
            },
    {
        match self.position(id) {
            Some(i) => Ok(&self.db[i]),
            None => Err(Errors::UserError(400)),
        }
    }
}

} // verus!
