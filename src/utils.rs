//! The commands on the store: create, update and delete a user from the
//! texts of a request.
use vstd::prelude::*;

use crate::db_object::{
    apply_change, apply_changes, assigned_id, has_id, is_first_pos, DataBase, UserEnum,
};
use crate::text::{
    decimal_text, group_of, is_decimal_of, parse_group, parse_u16, parse_u16_spec, same_text,
};
use crate::{User, UserView};

verus! {

/// What went wrong: on the client's side (`UserError`) or on the server's
/// (`ServerError`), with the status code to answer.
#[derive(Clone, Copy, Debug, PartialEq, Eq, Structural)]
pub enum Errors {
    ServerError(u16),
    UserError(u16),
}

/// The value of the first field named `key`, if there is one.
pub open spec fn field(fields: Seq<(String, String)>, key: Seq<char>) -> Option<Seq<char>>
    decreases fields.len(),
{
    if fields.len() == 0 {
        None
    } else if fields[0].0@ == key {
        Some(fields[0].1@)
    } else {
        field(fields.drop_first(), key)
    }
}

/// The record that `fields` describe, under the id `id`: it needs `name`,
/// `lastname`, a `birth_year` that reads as a number and a `group` that
/// names a group.
pub open spec fn new_record(fields: Seq<(String, String)>, id: u32) -> Option<UserView> {
    match (
        field(fields, "name"@),
        field(fields, "lastname"@),
        field(fields, "birth_year"@),
        field(fields, "group"@),
    ) {
        (Some(name), Some(lastname), Some(birth_year), Some(group)) => match (
            parse_u16_spec(birth_year),
            group_of(group),
        ) {
            (Some(birth_year), Some(group)) => Some(
                UserView { id, name, lastname, birth_year, group },
            ),
            _ => None,
        },
        _ => None,
    }
}

/// Whether the field `key` may be set to `value`.
pub open spec fn valid_field(key: Seq<char>, value: Seq<char>) -> bool {
    ||| key == "name"@
    ||| key == "lastname"@
    ||| key == "birth_year"@ && parse_u16_spec(value) is Some
    ||| key == "group"@ && group_of(value) is Some
}

pub open spec fn all_valid(fields: Seq<(String, String)>) -> bool {
    forall|i: int| 0 <= i < fields.len() ==> valid_field(#[trigger] fields[i].0@, fields[i].1@)
}

/// The record `u` with the field `key` set to `value`.
pub open spec fn apply_field(u: UserView, key: Seq<char>, value: Seq<char>) -> UserView {
    if key == "name"@ {
        UserView { name: value, ..u }
    } else if key == "lastname"@ {
        UserView { lastname: value, ..u }
    } else if key == "birth_year"@ {
        UserView { birth_year: parse_u16_spec(value).unwrap(), ..u }
    } else if key == "group"@ {
        UserView { group: group_of(value).unwrap(), ..u }
    } else {
        u
    }
}

/// The record `u` with `fields` set, from first to last.
pub open spec fn apply_fields(u: UserView, fields: Seq<(String, String)>) -> UserView
    decreases fields.len(),
{
    if fields.len() == 0 {
        u
    } else {
        apply_field(apply_fields(u, fields.drop_last()), fields.last().0@, fields.last().1@)
    }
}

/// A record created from `fields` is found again by its id, where no record
/// had that id before, and holds the texts and values that `fields` gave.
pub proof fn lemma_create_then_get(
    s: Seq<UserView>,
    fields: Seq<(String, String)>,
    new_id: Option<u32>,
)
    requires
        assigned_id(s, new_id) <= u32::MAX,
        new_record(fields, assigned_id(s, new_id) as u32) is Some,
        !has_id(s, assigned_id(s, new_id) as u32),
    ensures
        ({
            let id = assigned_id(s, new_id) as u32;
            let record = new_record(fields, id)->Some_0;
            let t = s.push(record);
            &&& is_first_pos(t, id, s.len() as int)
            &&& t[s.len() as int] == record
            &&& record.id == id
            &&& Some(record.name) == field(fields, "name"@)
            &&& Some(record.lastname) == field(fields, "lastname"@)
            &&& Some(record.birth_year) == parse_u16_spec(field(fields, "birth_year"@)->Some_0)
            &&& Some(record.group) == group_of(field(fields, "group"@)->Some_0)
        }),
{
    let id = assigned_id(s, new_id) as u32;
    let t = s.push(new_record(fields, id)->Some_0);
    assert forall|j: int| 0 <= j < s.len() implies #[trigger] t[j].id != id by {
        assert(t[j] == s[j]);
    }
}

/// Setting only the name of a record changes its name and nothing else, and
/// is always a valid change.
pub proof fn lemma_set_name_only(u: UserView, fields: Seq<(String, String)>)
    requires
        fields.len() == 1,
        fields[0].0@ == "name"@,
    ensures
        all_valid(fields),
        apply_fields(u, fields) == (UserView { name: fields[0].1@, ..u }),
{
    assert(apply_fields(u, fields.drop_last()) == u);
    assert(fields.last() == fields[0]);
}

/// The position of the first field named `key`.
fn find_field(fields: &Vec<(String, String)>, key: &str) -> (r: Option<usize>)
    ensures
        match r {
            Some(i) => i < fields@.len() && field(fields@, key@) == Some(fields@[i as int].1@),
            None => field(fields@, key@) is None,
        },
{
    let mut i: usize = 0;
    assert(fields@.subrange(0, fields@.len() as int) =~= fields@);
    while i < fields.len()
        invariant
            i <= fields@.len(),
            field(fields@, key@) == field(fields@.subrange(i as int, fields@.len() as int), key@),
        decreases fields@.len() - i,
    {
        assert(fields@.subrange(i as int, fields@.len() as int).drop_first() =~= fields@.subrange(
            i as int + 1,
            fields@.len() as int,
        ));
        if same_text(fields[i].0.as_str(), key) {
            return Some(i);
        }
        i = i + 1;
    }
    None
}

/// The commands on one store of user records.
pub struct UserController {
    pub database: DataBase,
}

impl UserController {
    pub fn new(database: DataBase) -> (r: Self)
        ensures
            r.database == database,
    {
        Self { database }
    }

    /// Adds the user that `data` describes, under the id `new_id` or else
    /// the next one, and returns that id as decimal text.
    pub fn add_user(&mut self, data: Vec<(String, String)>, new_id: Option<u32>) -> (r: Result<
        String,
        Errors,
    >)
        requires
            assigned_id(old(self).database@, new_id) <= u32::MAX,
        ensures
            ({
                let id = assigned_id(old(self).database@, new_id) as u32;
                match new_record(data@, id) {
                    Some(record) => r is Ok && is_decimal_of(r->Ok_0@, id as nat)
                        && final(self).database@ == old(self).database@.push(record),
                    None => r == Err::<String, Errors>(Errors::UserError(400))
                        && final(self).database@ == old(self).database@,
                }
            }),
    {
        let name = find_field(&data, "name");
        let lastname = find_field(&data, "lastname");
        let birth_year = find_field(&data, "birth_year");
        let group = find_field(&data, "group");
        let (name, lastname, birth_year, group) = match (name, lastname, birth_year, group) {
            (Some(a), Some(b), Some(c), Some(d)) => (a, b, c, d),
            _ => {
                return Err(Errors::UserError(400));
            },
        };
        let group = match parse_group(data[group].1.as_str()) {
            Some(g) => g,
            None => {
                return Err(Errors::UserError(400));
            },
        };
        let birth_year = match parse_u16(data[birth_year].1.as_str()) {
            Some(b) => b,
            None => {
                return Err(Errors::UserError(400));
            },
        };
        let user = User {
            id: 0,
            name: data[name].1.clone(),
            lastname: data[lastname].1.clone(),
            birth_year,
            group,
        };
        let id = self.database.add_entry(user, new_id);
        Ok(decimal_text(id))
    }

    /// Sets the fields in `change_data` on the first record with the id
    /// `id`. Every field must be valid, else nothing changes.
    pub fn change_user_data(&mut self, id: u32, change_data: Vec<(String, String)>) -> (r: Result<
        String,
        Errors,
    >)
        ensures
            if all_valid(change_data@) && has_id(old(self).database@, id) {
                &&& r is Ok
                &&& r->Ok_0@ == "Changed"@
                &&& exists|i: int|
                    is_first_pos(old(self).database@, id, i) && final(self).database@ == old(
                        self,
                    ).database@.update(i, apply_fields(old(self).database@[i], change_data@))
            } else {
                r == Err::<String, Errors>(Errors::UserError(400)) && final(self).database@ == old(
                    self,
                ).database@
            },
    {
        let mut changes: Vec<UserEnum> = Vec::new();
        let mut k: usize = 0;
        while k < change_data.len()
            invariant
                k <= change_data@.len(),
                changes@.len() == k,
                forall|j: int|
                    0 <= j < k ==> valid_field(#[trigger] change_data@[j].0@, change_data@[j].1@),
                forall|u: UserView|
                    #[trigger] apply_changes(u, changes@) == apply_fields(
                        u,
                        change_data@.subrange(0, k as int),
                    ),
                self.database == old(self).database,
            decreases change_data@.len() - k,
        {
            let key = change_data[k].0.as_str();
            let value = change_data[k].1.as_str();
            let change = if same_text(key, "name") {
                UserEnum::Name(change_data[k].1.clone())
            } else if same_text(key, "lastname") {
                UserEnum::Lastname(change_data[k].1.clone())
            } else if same_text(key, "birth_year") {
                match parse_u16(value) {
                    Some(b) => UserEnum::BirthYear(b),
                    None => {
                        proof {
                            reveal_strlit("birth_year");
                            reveal_strlit("group");
                        }
                        assert("birth_year"@.len() != "group"@.len());
                        assert(!valid_field(change_data@[k as int].0@, change_data@[k as int].1@));
                        return Err(Errors::UserError(400));
                    },
                }
            } else if same_text(key, "group") {
                match parse_group(value) {
                    Some(g) => UserEnum::Group(g),
                    None => {
                        assert(!valid_field(change_data@[k as int].0@, change_data@[k as int].1@));
                        return Err(Errors::UserError(400));
                    },
                }
            } else {
                assert(!valid_field(change_data@[k as int].0@, change_data@[k as int].1@));
                return Err(Errors::UserError(400));
            };
            let ghost before = changes@;
            changes.push(change);
            proof {
                assert(changes@.drop_last() =~= before);
                assert(change_data@.subrange(0, k + 1).drop_last() =~= change_data@.subrange(
                    0,
                    k as int,
                ));
                assert forall|u: UserView|
                    #[trigger] apply_changes(u, changes@) == apply_fields(
                        u,
                        change_data@.subrange(0, k + 1),
                    ) by {
                    assert(apply_changes(u, changes@) == apply_change(
                        apply_changes(u, before),
                        change,
                    ));
                }
            }
            k = k + 1;
        }
        assert(change_data@.subrange(0, change_data@.len() as int) =~= change_data@);
        match self.database.change_user(id, changes) {
            Ok(_) => Ok(String::from_str("Changed")),
            Err(_) => Err(Errors::UserError(400)),
        }
    }

    /// Removes the first record with the id `id`.
    pub fn delete_user(&mut self, id: u32) -> (r: Result<String, Errors>)
        ensures
            if has_id(old(self).database@, id) {
                &&& r is Ok
                &&& r->Ok_0@ == "Removed user"@
                &&& exists|i: int|
                    is_first_pos(old(self).database@, id, i) && final(self).database@ == old(
                        self,
                    ).database@.remove(i)
            } else {
                r == Err::<String, Errors>(Errors::UserError(400)) && final(self).database@ == old(
                    self,
                ).database@
            },
    {
        match self.database.remove_entry(id) {
            Ok(_) => Ok(String::from_str("Removed user")),
            Err(_) => Err(Errors::UserError(400)),
        }
    }
}

} // verus!
