//! An in-memory store of user records with create, read, update and delete
//! commands, whose behaviour is stated and proved with Verus.
use vstd::prelude::*;

pub mod db_object;
pub mod routes;
pub mod text;
pub mod utils;

verus! {

/// The access group a user belongs to.
#[derive(Clone, Copy, Debug, PartialEq, Eq, Structural)]
pub enum UserGroup {
    User,
    Premium,
    Admin,
}

/// One user record; `id` is assigned by the store.
#[derive(Clone, Debug, PartialEq)]
pub struct User {
    pub id: u32,
    pub name: String,
    pub lastname: String,
    pub birth_year: u16,
    pub group: UserGroup,
}

/// What a `User` holds, with its texts seen as character sequences.
pub struct UserView {
    pub id: u32,
    pub name: Seq<char>,
    pub lastname: Seq<char>,
    pub birth_year: u16,
    pub group: UserGroup,
}

impl View for User {
    type V = UserView;

    open spec fn view(&self) -> UserView {
        UserView {
            id: self.id,
            name: self.name@,
            lastname: self.lastname@,
            birth_year: self.birth_year,
            group: self.group,
        }
    }
}

} // verus!
