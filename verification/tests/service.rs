use crud_service::game::{create_game_document, CreateGameSchema, GameSchema};
use crud_service::game_store::{
    handle_create_game, handle_genre_stats, handle_list_games, GameCollection,
};
use crud_service::greeting::hello_message;
use crud_service::handlers::{
    handle_city_stats, handle_create_user, handle_delete_user, handle_get_user,
    handle_list_users, handle_update_user,
};
use crud_service::object_id::{object_id_hex, parse_object_id, ObjectId};
use crud_service::response::{
    delete_response, fetch_response, insert_outcome, list_response, parse_id_or_bad_request,
    DbError, STATUS_BAD_REQUEST, STATUS_INTERNAL_ERROR, STATUS_NOT_FOUND, STATUS_NO_CONTENT,
};
use crud_service::schema::{
    apply_update, create_user_document, user_update_fields, CreateUserSchema, UpdateUserSchema,
    UserField, UserSchema,
};
use crud_service::stats::{aggregate_rows, game_genre_stats, user_city_stats, GroupRow};
use crud_service::store::Collection;

fn user(name: &str, email: &str, age: i32, city: &str) -> CreateUserSchema {
    CreateUserSchema {
        name: name.to_string(),
        email: email.to_string(),
        age,
        city: city.to_string(),
    }
}

fn empty_update() -> UpdateUserSchema {
    UpdateUserSchema { name: None, email: None, age: None, city: None }
}

#[test]
fn parse_accepts_exact_hex() {
    let id = parse_object_id(b"0123456789abcdefABCDEF01").expect("valid id");
    let id2 = parse_object_id(b"000000000000000000000001").expect("valid id");
    assert_eq!(id2.value, 1);
    let id3 = parse_object_id(b"ffffffffffffffffffffffff").expect("valid id");
    assert_eq!(id3.value, (1u128 << 96) - 1);
    assert_eq!(parse_object_id(b"0123456789abcdefABCDEF01"), Some(id));
}

#[test]
fn parse_rejects_malformed() {
    assert_eq!(parse_object_id(b""), None);
    assert_eq!(parse_object_id(b"0123456789abcdef"), None); // too short
    assert_eq!(parse_object_id(b"0123456789abcdefABCDEF012"), None); // too long
    assert_eq!(parse_object_id(b"0123456789abcdefABCDEFg1"), None); // bad digit
    assert_eq!(parse_object_id(b"0123456789 bcdefABCDEF01"), None); // space
}

#[test]
fn hex_round_trip() {
    let id = ObjectId { value: 0x0102030405060708090a0b0c };
    let hex = object_id_hex(&id);
    assert_eq!(hex, b"0102030405060708090a0b0c".to_vec());
    assert_eq!(parse_object_id(&hex), Some(id));
    let id2 = parse_object_id(b"00ff00ff00ff00ff00ff00ff").expect("valid id");
    assert_eq!(object_id_hex(&id2), b"00ff00ff00ff00ff00ff00ff".to_vec());
}

#[test]
fn empty_update_changes_nothing() {
    let doc = UserSchema {
        id: Some(ObjectId { value: 7 }),
        name: "Ada".to_string(),
        email: "ada@example.com".to_string(),
        age: 36,
        city: "London".to_string(),
    };
    let out = apply_update(&doc, &empty_update());
    assert_eq!(out.id, Some(ObjectId { value: 7 }));
    assert_eq!(out.name, "Ada");
    assert_eq!(out.email, "ada@example.com");
    assert_eq!(out.age, 36);
    assert_eq!(out.city, "London");
}

#[test]
fn single_field_update_leaves_rest() {
    let doc = UserSchema {
        id: Some(ObjectId { value: 7 }),
        name: "Ada".to_string(),
        email: "ada@example.com".to_string(),
        age: 36,
        city: "London".to_string(),
    };
    let upd = UpdateUserSchema { age: Some(37), ..empty_update() };
    let out = apply_update(&doc, &upd);
    assert_eq!(out.id, Some(ObjectId { value: 7 }));
    assert_eq!(out.name, "Ada");
    assert_eq!(out.email, "ada@example.com");
    assert_eq!(out.age, 37);
    assert_eq!(out.city, "London");
}

#[test]
fn update_fields_keeps_present_zero_values() {
    // a present field with a zero or empty value is still included
    let upd = UpdateUserSchema {
        name: None,
        email: Some(String::new()),
        age: Some(0),
        city: None,
    };
    let fields = user_update_fields(&upd);
    assert_eq!(fields.len(), 2);
    assert!(matches!(&fields[0], UserField::Email(e) if e.is_empty()));
    assert!(matches!(&fields[1], UserField::Age(0)));
    assert_eq!(user_update_fields(&empty_update()).len(), 0);
}

#[test]
fn created_document_has_no_id() {
    let doc = create_user_document(user("Ada", "ada@example.com", 36, "London"));
    assert_eq!(doc.id, None);
    assert_eq!(doc.name, "Ada");
    assert_eq!(doc.email, "ada@example.com");
    assert_eq!(doc.age, 36);
    assert_eq!(doc.city, "London");
}

#[test]
fn create_then_get_returns_created() {
    let mut col = Collection::new();
    let id = ObjectId { value: 42 };
    let created =
        handle_create_user(&mut col, user("Ada", "ada@example.com", 36, "London"), id)
            .expect("create succeeds");
    assert_eq!(created.id, Some(id));
    assert_eq!(created.name, "Ada");
    assert_eq!(created.email, "ada@example.com");
    assert_eq!(created.age, 36);
    assert_eq!(created.city, "London");

    let hex = object_id_hex(&id);
    let fetched = handle_get_user(&col, &hex).expect("get succeeds");
    assert_eq!(fetched.id, Some(id));
    assert_eq!(fetched.name, "Ada");
    assert_eq!(fetched.email, "ada@example.com");
    assert_eq!(fetched.age, 36);
    assert_eq!(fetched.city, "London");
}

#[test]
fn delete_then_get_is_not_found() {
    let mut col = Collection::new();
    let id = ObjectId { value: 42 };
    handle_create_user(&mut col, user("Ada", "ada@example.com", 36, "London"), id)
        .expect("create succeeds");
    let hex = object_id_hex(&id);
    assert_eq!(handle_delete_user(&mut col, &hex), Ok(STATUS_NO_CONTENT));
    assert!(matches!(handle_get_user(&col, &hex), Err(c) if c == STATUS_NOT_FOUND));
}

#[test]
fn delete_missing_is_not_found() {
    let mut col = Collection::new();
    let hex = object_id_hex(&ObjectId { value: 9 });
    assert_eq!(handle_delete_user(&mut col, &hex), Err(STATUS_NOT_FOUND));
}

#[test]
fn malformed_id_is_bad_request() {
    let mut col = Collection::new();
    assert!(matches!(
        handle_get_user(&col, b"not-a-valid-identifier!!"),
        Err(c) if c == STATUS_BAD_REQUEST
    ));
    assert!(matches!(handle_get_user(&col, b"abc"), Err(c) if c == STATUS_BAD_REQUEST));
    assert!(matches!(
        handle_update_user(&mut col, b"abc", &empty_update()),
        Err(c) if c == STATUS_BAD_REQUEST
    ));
    assert_eq!(handle_delete_user(&mut col, b"abc"), Err(STATUS_BAD_REQUEST));
    assert_eq!(parse_id_or_bad_request(b"0123"), Err(STATUS_BAD_REQUEST));
}

#[test]
fn update_through_service_keeps_absent_fields() {
    let mut col = Collection::new();
    let id = ObjectId { value: 42 };
    handle_create_user(&mut col, user("Ada", "ada@example.com", 36, "London"), id)
        .expect("create succeeds");
    let hex = object_id_hex(&id);

    // an empty update is a legal no-op
    let unchanged = handle_update_user(&mut col, &hex, &empty_update()).expect("update succeeds");
    assert_eq!(unchanged.name, "Ada");
    assert_eq!(unchanged.email, "ada@example.com");
    assert_eq!(unchanged.age, 36);
    assert_eq!(unchanged.city, "London");

    // a single-field update leaves the rest byte for byte
    let upd = UpdateUserSchema { city: Some("Paris".to_string()), ..empty_update() };
    let moved = handle_update_user(&mut col, &hex, &upd).expect("update succeeds");
    assert_eq!(moved.id, Some(id));
    assert_eq!(moved.name, "Ada");
    assert_eq!(moved.email, "ada@example.com");
    assert_eq!(moved.age, 36);
    assert_eq!(moved.city, "Paris");

    let refetched = handle_get_user(&col, &hex).expect("get succeeds");
    assert_eq!(refetched.name, "Ada");
    assert_eq!(refetched.city, "Paris");
}

#[test]
fn update_missing_is_not_found() {
    let mut col = Collection::new();
    let hex = object_id_hex(&ObjectId { value: 9 });
    assert!(matches!(
        handle_update_user(&mut col, &hex, &empty_update()),
        Err(c) if c == STATUS_NOT_FOUND
    ));
}

#[test]
fn listing_empty_collection_is_empty_success() {
    let col = Collection::new();
    let listed = handle_list_users(&col).expect("list succeeds");
    assert!(listed.is_empty());
}

#[test]
fn listing_keeps_insertion_order() {
    let mut col = Collection::new();
    handle_create_user(&mut col, user("Ada", "a@example.com", 36, "London"), ObjectId {
        value: 1,
    })
    .expect("create succeeds");
    handle_create_user(&mut col, user("Grace", "g@example.com", 45, "Oslo"), ObjectId {
        value: 2,
    })
    .expect("create succeeds");
    let listed = handle_list_users(&col).expect("list succeeds");
    assert_eq!(listed.len(), 2);
    assert_eq!(listed[0].name, "Ada");
    assert_eq!(listed[1].name, "Grace");
}

#[test]
fn city_report_example() {
    let mut col = Collection::new();
    let mut next: u128 = 1;
    for (name, age, city) in [
        ("A", 20, "Paris"),
        ("B", 30, "Paris"),
        ("C", 40, "Paris"),
        ("D", 50, "Oslo"),
    ] {
        handle_create_user(
            &mut col,
            user(name, "x@example.com", age, city),
            ObjectId { value: next },
        )
        .expect("create succeeds");
        next += 1;
    }
    let report = handle_city_stats(&col).expect("report succeeds");
    assert_eq!(report.len(), 2);
    assert_eq!(report[0].city, "Paris");
    assert_eq!(report[0].total_users, 3);
    assert_eq!(report[0].age_sum, 90); // mean age 30.0
    assert_eq!(report[1].city, "Oslo");
    assert_eq!(report[1].total_users, 1);
    assert_eq!(report[1].age_sum, 50); // mean age 50.0
    assert_eq!(report[0].age_sum as f64 / report[0].total_users as f64, 30.0);
}

#[test]
fn report_counts_sum_to_document_count() {
    let users = vec![
        UserSchema {
            id: None,
            name: "A".to_string(),
            email: "a@example.com".to_string(),
            age: 1,
            city: "X".to_string(),
        },
        UserSchema {
            id: None,
            name: "B".to_string(),
            email: "b@example.com".to_string(),
            age: 2,
            city: "Y".to_string(),
        },
        UserSchema {
            id: None,
            name: "C".to_string(),
            email: "c@example.com".to_string(),
            age: 3,
            city: "X".to_string(),
        },
        UserSchema {
            id: None,
            name: "D".to_string(),
            email: "d@example.com".to_string(),
            age: 4,
            city: "Z".to_string(),
        },
        UserSchema {
            id: None,
            name: "E".to_string(),
            email: "e@example.com".to_string(),
            age: 5,
            city: "X".to_string(),
        },
    ];
    let report = user_city_stats(&users);
    let total: usize = report.iter().map(|s| s.total_users).sum();
    assert_eq!(total, users.len());
    // ordered by count descending; equal counts may come in either order
    for pair in report.windows(2) {
        assert!(pair[0].total_users >= pair[1].total_users);
    }
    assert_eq!(report[0].city, "X");
    assert_eq!(report[0].total_users, 3);
    assert_eq!(report[0].age_sum, 9);
}

#[test]
fn report_of_no_rows_is_empty() {
    let report = user_city_stats(&Vec::new());
    assert!(report.is_empty());
    let generic = aggregate_rows(&Vec::new());
    assert!(generic.is_empty());
}

#[test]
fn generic_report_handles_negative_values() {
    let rows = vec![
        GroupRow { key: "a".to_string(), value: -5 },
        GroupRow { key: "a".to_string(), value: 2 },
        GroupRow { key: "b".to_string(), value: 10 },
    ];
    let stats = aggregate_rows(&rows);
    assert_eq!(stats.len(), 2);
    assert_eq!(stats[0].key, "a");
    assert_eq!(stats[0].count, 2);
    assert_eq!(stats[0].sum, -3);
    assert_eq!(stats[1].key, "b");
    assert_eq!(stats[1].count, 1);
    assert_eq!(stats[1].sum, 10);
}

#[test]
fn genre_report_example() {
    let games = vec![
        GameSchema {
            id: None,
            title: "First".to_string(),
            genre: "rpg".to_string(),
            price_minor: 5999,
            release_year: 2020,
            publisher: "P".to_string(),
        },
        GameSchema {
            id: None,
            title: "Second".to_string(),
            genre: "rpg".to_string(),
            price_minor: 3999,
            release_year: 2021,
            publisher: "P".to_string(),
        },
        GameSchema {
            id: None,
            title: "Third".to_string(),
            genre: "puzzle".to_string(),
            price_minor: 999,
            release_year: 2022,
            publisher: "Q".to_string(),
        },
    ];
    let report = game_genre_stats(&games);
    assert_eq!(report.len(), 2);
    assert_eq!(report[0].genre, "rpg");
    assert_eq!(report[0].total_games, 2);
    assert_eq!(report[0].price_sum, 9998);
    assert_eq!(report[1].genre, "puzzle");
    assert_eq!(report[1].total_games, 1);
    assert_eq!(report[1].price_sum, 999);
}

#[test]
fn created_game_document_has_no_id() {
    let doc = create_game_document(CreateGameSchema {
        title: "First".to_string(),
        genre: "rpg".to_string(),
        price_minor: 5999,
        release_year: 2020,
        publisher: "P".to_string(),
    });
    assert_eq!(doc.id, None);
    assert_eq!(doc.title, "First");
    assert_eq!(doc.genre, "rpg");
    assert_eq!(doc.price_minor, 5999);
    assert_eq!(doc.release_year, 2020);
    assert_eq!(doc.publisher, "P");
}

#[test]
fn status_mapping_of_store_outcomes() {
    assert_eq!(fetch_response::<u8>(Ok(Some(7))), Ok(7));
    assert_eq!(fetch_response::<u8>(Ok(None)), Err(STATUS_NOT_FOUND));
    assert_eq!(fetch_response::<u8>(Err(DbError {})), Err(STATUS_INTERNAL_ERROR));
    assert_eq!(insert_outcome(Ok(ObjectId { value: 3 })), Ok(ObjectId { value: 3 }));
    assert_eq!(insert_outcome(Err(DbError {})), Err(STATUS_INTERNAL_ERROR));
    assert_eq!(delete_response(Ok(0)), Err(STATUS_NOT_FOUND));
    assert_eq!(delete_response(Ok(1)), Ok(STATUS_NO_CONTENT));
    assert_eq!(delete_response(Err(DbError {})), Err(STATUS_INTERNAL_ERROR));
    assert_eq!(list_response::<u8>(Ok(vec![1, 2])), Ok(vec![1, 2]));
    assert_eq!(list_response::<u8>(Err(DbError {})), Err(STATUS_INTERNAL_ERROR));
}

#[test]
fn greeting_text() {
    assert_eq!(hello_message(), "Hello, World!");
}

#[test]
fn create_then_list_games() {
    let mut col = GameCollection::new();
    let empty = handle_list_games(&col).expect("list succeeds");
    assert!(empty.is_empty());

    let created = handle_create_game(
        &mut col,
        CreateGameSchema {
            title: "First".to_string(),
            genre: "rpg".to_string(),
            price_minor: 5999,
            release_year: 2020,
            publisher: "P".to_string(),
        },
        ObjectId { value: 11 },
    )
    .expect("create succeeds");
    assert_eq!(created.id, Some(ObjectId { value: 11 }));
    assert_eq!(created.title, "First");
    assert_eq!(created.genre, "rpg");
    assert_eq!(created.price_minor, 5999);
    assert_eq!(created.release_year, 2020);
    assert_eq!(created.publisher, "P");

    handle_create_game(
        &mut col,
        CreateGameSchema {
            title: "Second".to_string(),
            genre: "rpg".to_string(),
            price_minor: 3999,
            release_year: 2021,
            publisher: "P".to_string(),
        },
        ObjectId { value: 12 },
    )
    .expect("create succeeds");

    let listed = handle_list_games(&col).expect("list succeeds");
    assert_eq!(listed.len(), 2);
    assert_eq!(listed[0].title, "First");
    assert_eq!(listed[1].title, "Second");

    let report = handle_genre_stats(&col).expect("report succeeds");
    assert_eq!(report.len(), 1);
    assert_eq!(report[0].genre, "rpg");
    assert_eq!(report[0].total_games, 2);
    assert_eq!(report[0].price_sum, 9998);
}
