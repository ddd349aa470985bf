use user_api::users::user_id_string;
use user_api::{UpdateUserRequest, User, UserStore};

const CREATED_AT: &str = "2023-11-14T22:13:20+00:00";

fn create(store: &mut UserStore, name: &str, email: &str) -> User {
    store.create(name.to_string(), email.to_string(), CREATED_AT.to_string()).unwrap()
}

fn name_patch(name: &str) -> UpdateUserRequest {
    UpdateUserRequest { name: Some(name.to_string()), email: None }
}

#[test]
fn ids_are_a_prefix_and_a_count() {
    assert_eq!(user_id_string(0), "user_0");
    assert_eq!(user_id_string(41), "user_41");
    assert_eq!(user_id_string(u64::MAX), "user_18446744073709551615");
}

#[test]
fn a_new_store_is_empty() {
    let store = UserStore::new();
    assert_eq!(store.list(), Vec::<User>::new());
    assert_eq!(store.get("user_0"), None);
    assert!(store.has_room());
}

#[test]
fn create_returns_the_record_with_an_id_of_the_store() {
    let mut store = UserStore::new();
    let ana = create(&mut store, "Ana", "a@x.com");
    assert_eq!(
        ana,
        User {
            id: "user_0".to_string(),
            name: "Ana".to_string(),
            email: "a@x.com".to_string(),
            created_at: CREATED_AT.to_string(),
        }
    );
}

#[test]
fn get_after_create_returns_the_record_that_create_returned() {
    let mut store = UserStore::new();
    let ana = create(&mut store, "Ana", "a@x.com");
    assert_eq!(store.get(&ana.id), Some(ana));
    let bo = create(&mut store, "Bo", "b@x.com");
    assert_eq!(store.get(&bo.id), Some(bo));
}

#[test]
fn get_of_an_unknown_id_finds_nothing() {
    let mut store = UserStore::new();
    create(&mut store, "Ana", "a@x.com");
    assert_eq!(store.get("user_1"), None);
    assert_eq!(store.get("user_00"), None);
    assert_eq!(store.get("USER_0"), None);
    assert_eq!(store.get(""), None);
}

#[test]
fn create_twice_with_the_same_input_makes_two_records() {
    let mut store = UserStore::new();
    let first = create(&mut store, "Ana", "a@x.com");
    let second = create(&mut store, "Ana", "a@x.com");
    assert_ne!(first.id, second.id);
    assert_eq!(store.list().len(), 2);
}

#[test]
fn many_creates_yield_as_many_distinct_ids() {
    let mut store = UserStore::new();
    let mut ids: Vec<String> = Vec::new();
    for i in 0..200 {
        let user = create(&mut store, &format!("user {}", i), "u@x.com");
        assert!(!ids.contains(&user.id));
        ids.push(user.id);
    }
    assert_eq!(store.list().len(), 200);
    for id in &ids {
        assert_eq!(store.get(id).unwrap().id, *id);
    }
}

#[test]
fn ids_are_not_handed_out_again_after_a_delete() {
    let mut store = UserStore::new();
    let ana = create(&mut store, "Ana", "a@x.com");
    assert!(store.delete(&ana.id));
    let bo = create(&mut store, "Bo", "b@x.com");
    assert_eq!(bo.id, "user_1");
    assert_eq!(store.get(&ana.id), None);
}

#[test]
fn update_with_a_name_changes_the_name_alone() {
    let mut store = UserStore::new();
    let ana = create(&mut store, "Ana", "a@x.com");
    let updated = store.update(&ana.id, name_patch("X")).unwrap();
    assert_eq!(
        updated,
        User {
            id: ana.id.clone(),
            name: "X".to_string(),
            email: "a@x.com".to_string(),
            created_at: CREATED_AT.to_string(),
        }
    );
    assert_eq!(store.get(&ana.id), Some(updated));
}

#[test]
fn update_with_an_email_changes_the_email_alone() {
    let mut store = UserStore::new();
    let ana = create(&mut store, "Ana", "a@x.com");
    let patch = UpdateUserRequest { name: None, email: Some("ana@y.org".to_string()) };
    let updated = store.update(&ana.id, patch).unwrap();
    assert_eq!(updated.name, "Ana");
    assert_eq!(updated.email, "ana@y.org");
    assert_eq!(updated.id, ana.id);
    assert_eq!(updated.created_at, ana.created_at);
}

#[test]
fn update_with_both_fields_changes_both() {
    let mut store = UserStore::new();
    let ana = create(&mut store, "Ana", "a@x.com");
    let patch = UpdateUserRequest { name: Some("B".to_string()), email: Some("b@y".to_string()) };
    let updated = store.update(&ana.id, patch).unwrap();
    assert_eq!(updated.name, "B");
    assert_eq!(updated.email, "b@y");
}

#[test]
fn update_with_an_empty_patch_changes_nothing() {
    let mut store = UserStore::new();
    let ana = create(&mut store, "Ana", "a@x.com");
    let patch = UpdateUserRequest { name: None, email: None };
    assert_eq!(store.update(&ana.id, patch), Some(ana.clone()));
    assert_eq!(store.get(&ana.id), Some(ana));
}

#[test]
fn update_leaves_the_other_records_alone() {
    let mut store = UserStore::new();
    let ana = create(&mut store, "Ana", "a@x.com");
    let bo = create(&mut store, "Bo", "b@x.com");
    store.update(&ana.id, name_patch("X")).unwrap();
    assert_eq!(store.get(&bo.id), Some(bo));
}

#[test]
fn update_of_an_unknown_id_finds_nothing_and_changes_nothing() {
    let mut store = UserStore::new();
    let ana = create(&mut store, "Ana", "a@x.com");
    assert_eq!(store.update("user_7", name_patch("X")), None);
    assert_eq!(store.list(), vec![ana]);
}

#[test]
fn delete_then_get_finds_nothing() {
    let mut store = UserStore::new();
    let ana = create(&mut store, "Ana", "a@x.com");
    assert!(store.delete(&ana.id));
    assert_eq!(store.get(&ana.id), None);
}

#[test]
fn delete_twice_finds_nothing_the_second_time() {
    let mut store = UserStore::new();
    let ana = create(&mut store, "Ana", "a@x.com");
    assert!(store.delete(&ana.id));
    assert!(!store.delete(&ana.id));
    assert_eq!(store.list(), Vec::<User>::new());
}

#[test]
fn delete_of_an_unknown_id_changes_nothing() {
    let mut store = UserStore::new();
    let ana = create(&mut store, "Ana", "a@x.com");
    assert!(!store.delete("user_9"));
    assert_eq!(store.list(), vec![ana]);
}

#[test]
fn delete_leaves_the_other_records_alone() {
    let mut store = UserStore::new();
    let ana = create(&mut store, "Ana", "a@x.com");
    let bo = create(&mut store, "Bo", "b@x.com");
    let cy = create(&mut store, "Cy", "c@x.com");
    assert!(store.delete(&bo.id));
    assert_eq!(store.get(&ana.id), Some(ana));
    assert_eq!(store.get(&cy.id), Some(cy));
    assert_eq!(store.get(&bo.id), None);
}

#[test]
fn update_after_delete_finds_nothing() {
    let mut store = UserStore::new();
    let ana = create(&mut store, "Ana", "a@x.com");
    assert!(store.delete(&ana.id));
    assert_eq!(store.update(&ana.id, name_patch("X")), None);
}

#[test]
fn list_holds_every_record_once() {
    let mut store = UserStore::new();
    let ana = create(&mut store, "Ana", "a@x.com");
    let bo = create(&mut store, "Bo", "b@x.com");
    let cy = create(&mut store, "Cy", "c@x.com");
    store.delete(&bo.id);
    let listed = store.list();
    assert_eq!(listed.len(), 2);
    assert!(listed.contains(&ana));
    assert!(listed.contains(&cy));
    assert!(!listed.contains(&bo));
}

#[test]
fn user_clone_is_equal_to_the_record() {
    let mut store = UserStore::new();
    let ana = create(&mut store, "Ana", "a@x.com");
    assert_eq!(ana.clone(), ana);
}

#[test]
fn a_store_counts_on_from_where_it_starts() {
    let mut store = UserStore::starting_at(41);
    assert_eq!(store.list(), Vec::<User>::new());
    assert_eq!(create(&mut store, "Ana", "a@x.com").id, "user_41");
    assert_eq!(create(&mut store, "Bo", "b@x.com").id, "user_42");
}

#[test]
fn the_last_id_is_handed_out_and_none_after_it() {
    let mut store = UserStore::starting_at(u64::MAX - 1);
    assert!(store.has_room());
    let last = create(&mut store, "Ana", "a@x.com");
    assert_eq!(last.id, "user_18446744073709551614");
    assert!(!store.has_room());
    let refused = store.create("Bo".to_string(), "b@x.com".to_string(), CREATED_AT.to_string());
    assert_eq!(refused, None);
    assert_eq!(store.list(), vec![last]);
}
