use rust_api::db_object::DataBase;
use rust_api::utils::{Errors, UserController};
use rust_api::{User, UserGroup};

fn fields(pairs: &[(&str, &str)]) -> Vec<(String, String)> {
    pairs
        .iter()
        .map(|(k, v)| (k.to_string(), v.to_string()))
        .collect()
}

fn create_user(id: u32) -> User {
    User {
        id,
        name: "test".to_string(),
        lastname: "test1".to_string(),
        birth_year: 2000,
        group: UserGroup::Premium,
    }
}

fn create_db() -> (Vec<User>, DataBase) {
    let user_1 = User {
        id: 1,
        name: "Hlib".to_string(),
        lastname: "Shutov".to_string(),
        birth_year: 2000,
        group: UserGroup::Admin,
    };
    let user_2 = User {
        id: 2,
        name: "Wojciech".to_string(),
        lastname: "Oczkowski".to_string(),
        birth_year: 2000,
        group: UserGroup::User,
    };
    let users = vec![user_1, user_2];
    let db = DataBase { db: users.clone() };
    (users, db)
}

fn create_controller(db: DataBase) -> UserController {
    UserController::new(db)
}

#[test]
fn test_adds_user_to_the_end() {
    let (_, db) = create_db();
    let mut controller = create_controller(db);
    let data = fields(&[
        ("name", "test"),
        ("lastname", "test1"),
        ("birth_year", "2000"),
        ("group", "premium"),
    ]);
    let output = controller.add_user(data, None);

    let last_user = controller.database.db.last().unwrap().clone();
    assert_eq!(output.unwrap(), "3".to_string());
    assert_eq!(last_user, create_user(3));
}

#[test]
fn utils_test_change_user_name() {
    let (_, db) = create_db();
    let mut controller = create_controller(db);

    let change_data = fields(&[("name", "test")]);
    let result = controller.change_user_data(1, change_data);

    let user = controller.database.db.get(0).unwrap();

    assert_eq!(result, Ok("Changed".to_string()));
    assert_eq!(
        *user,
        User {
            id: 1,
            name: "test".to_string(),
            lastname: "Shutov".to_string(),
            birth_year: 2000,
            group: UserGroup::Admin,
        }
    );
}

#[test]
fn test_change_user_lastname() {
    let (_, db) = create_db();
    let mut controller = create_controller(db);

    let change_data = fields(&[("group", "premium"), ("birth_year", "2009")]);
    let result = controller.change_user_data(1, change_data);

    let user = controller.database.db.get(0).unwrap();

    assert_eq!(result, Ok("Changed".to_string()));
    assert_eq!(
        *user,
        User {
            id: 1,
            name: "Hlib".to_string(),
            lastname: "Shutov".to_string(),
            birth_year: 2009,
            group: UserGroup::Premium,
        }
    );
}

#[test]
fn test_returns_error_if_not_exists() {
    let (_, db) = create_db();
    let mut controller = create_controller(db);
    let change_data = fields(&[("lastname", "test1")]);
    let output = controller.change_user_data(5, change_data);

    assert_eq!(output, Err(Errors::UserError(400)));
}

#[test]
fn test_delete_user() {
    let (_, db) = create_db();
    let mut controller = create_controller(db);
    let result = controller.delete_user(2);

    let users = &controller.database.db;

    assert_eq!(result, Ok("Removed user".to_string()));
    assert_eq!(
        *users,
        vec!(User {
            id: 1,
            name: "Hlib".to_string(),
            lastname: "Shutov".to_string(),
            birth_year: 2000,
            group: UserGroup::Admin,
        })
    );
}

#[test]
fn update_lastname_keeps_other_fields_and_records() {
    let (users, db) = create_db();
    let mut controller = create_controller(db);
    let result = controller.change_user_data(1, fields(&[("lastname", "Test")]));

    assert_eq!(result, Ok("Changed".to_string()));
    assert_eq!(
        controller.database.db[0],
        User {
            id: 1,
            name: "Hlib".to_string(),
            lastname: "Test".to_string(),
            birth_year: 2000,
            group: UserGroup::Admin,
        }
    );
    assert_eq!(controller.database.db[1], users[1]);
}

#[test]
fn create_on_two_records_returns_three() {
    let (_, db) = create_db();
    let mut controller = create_controller(db);
    let output = controller.add_user(
        fields(&[
            ("name", "test"),
            ("lastname", "test1"),
            ("birth_year", "2000"),
            ("group", "premium"),
        ]),
        None,
    );
    assert_eq!(output, Ok("3".to_string()));
    assert_eq!(controller.database.get_all().len(), 3);
}

#[test]
fn delete_leaves_one_record() {
    let (users, db) = create_db();
    let mut controller = create_controller(db);
    assert_eq!(controller.delete_user(2), Ok("Removed user".to_string()));
    assert_eq!(controller.database.get_all().len(), 1);
    assert_eq!(controller.database.db[0].id, 1);
    assert_eq!(controller.database.db[0], users[0]);
}

#[test]
fn first_create_on_empty_store_gets_id_zero() {
    let mut controller = UserController::new(DataBase::new());
    let data = fields(&[
        ("name", "Ada"),
        ("lastname", "Lovelace"),
        ("birth_year", "1815"),
        ("group", "admin"),
    ]);
    assert_eq!(controller.add_user(data.clone(), None), Ok("0".to_string()));
    assert_eq!(controller.add_user(data, None), Ok("1".to_string()));
}

#[test]
fn explicit_id_is_used_and_next_follows_the_last() {
    let (_, db) = create_db();
    let mut controller = create_controller(db);
    let data = fields(&[
        ("name", "Ada"),
        ("lastname", "Lovelace"),
        ("birth_year", "1815"),
        ("group", "user"),
    ]);
    assert_eq!(controller.add_user(data.clone(), Some(42)), Ok("42".to_string()));
    assert_eq!(controller.add_user(data.clone(), None), Ok("43".to_string()));
    // An explicit id already in the store is kept as a duplicate.
    assert_eq!(controller.add_user(data, Some(1)), Ok("1".to_string()));
    assert_eq!(controller.database.db.len(), 5);
    assert_eq!(controller.database.db[4].id, 1);
}

#[test]
fn create_then_get_returns_the_given_fields() {
    let mut controller = UserController::new(DataBase::new());
    let id = controller
        .add_user(
            fields(&[
                ("group", "premium"),
                ("birth_year", "+0042"),
                ("lastname", "Hopper"),
                ("name", "Grace"),
                ("extra", "ignored"),
            ]),
            Some(7),
        )
        .unwrap();
    assert_eq!(id, "7");
    let user = controller.database.get_one(7).unwrap();
    assert_eq!(
        *user,
        User {
            id: 7,
            name: "Grace".to_string(),
            lastname: "Hopper".to_string(),
            birth_year: 42,
            group: UserGroup::Premium,
        }
    );
}

#[test]
fn create_rejects_missing_or_invalid_fields() {
    let (users, db) = create_db();
    let mut controller = create_controller(db);
    let missing = fields(&[("name", "a"), ("lastname", "b"), ("birth_year", "2000")]);
    assert_eq!(controller.add_user(missing, None), Err(Errors::UserError(400)));
    let bad_group = fields(&[
        ("name", "a"),
        ("lastname", "b"),
        ("birth_year", "2000"),
        ("group", "Premium"),
    ]);
    assert_eq!(controller.add_user(bad_group, None), Err(Errors::UserError(400)));
    let bad_year = fields(&[
        ("name", "a"),
        ("lastname", "b"),
        ("birth_year", "70000"),
        ("group", "user"),
    ]);
    assert_eq!(controller.add_user(bad_year, None), Err(Errors::UserError(400)));
    let negative_year = fields(&[
        ("name", "a"),
        ("lastname", "b"),
        ("birth_year", "-1"),
        ("group", "user"),
    ]);
    assert_eq!(controller.add_user(negative_year, None), Err(Errors::UserError(400)));
    assert_eq!(controller.database.db, users);
}

#[test]
fn update_rejects_whole_batch_on_one_bad_field() {
    let (users, db) = create_db();
    let mut controller = create_controller(db);
    let unknown_key = fields(&[("name", "X"), ("age", "3")]);
    assert_eq!(controller.change_user_data(1, unknown_key), Err(Errors::UserError(400)));
    let bad_year = fields(&[("lastname", "Y"), ("birth_year", "20o0")]);
    assert_eq!(controller.change_user_data(1, bad_year), Err(Errors::UserError(400)));
    let bad_group = fields(&[("group", "root")]);
    assert_eq!(controller.change_user_data(2, bad_group), Err(Errors::UserError(400)));
    assert_eq!(controller.database.db, users);
}

#[test]
fn update_of_name_changes_only_the_name() {
    let (users, db) = create_db();
    let mut controller = create_controller(db);
    assert_eq!(
        controller.change_user_data(2, fields(&[("name", "X")])),
        Ok("Changed".to_string())
    );
    let mut expected = users[1].clone();
    expected.name = "X".to_string();
    assert_eq!(controller.database.db[1], expected);
    assert_eq!(controller.database.db[0], users[0]);
}

#[test]
fn absent_id_gives_user_error_and_keeps_store() {
    let (users, db) = create_db();
    let mut controller = create_controller(db);
    assert_eq!(controller.database.get_one(9), Err(Errors::UserError(400)));
    assert_eq!(
        controller.change_user_data(9, fields(&[("name", "X")])),
        Err(Errors::UserError(400))
    );
    assert_eq!(controller.delete_user(9), Err(Errors::UserError(400)));
    assert_eq!(controller.database.db, users);
}

#[test]
fn sequential_creates_on_empty_store_get_distinct_ids() {
    let mut controller = UserController::new(DataBase::new());
    let k: u32 = 25;
    for _ in 0..k {
        let data = fields(&[
            ("name", "n"),
            ("lastname", "l"),
            ("birth_year", "1999"),
            ("group", "user"),
        ]);
        controller.add_user(data, None).unwrap();
    }
    let db = controller.database.get_all();
    assert_eq!(db.len(), k as usize);
    for (i, user) in db.iter().enumerate() {
        assert_eq!(user.id, i as u32);
    }
}
