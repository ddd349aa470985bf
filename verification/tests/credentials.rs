use user_api::{Admin, CredentialStore};

fn root() -> Admin {
    Admin {
        username: "root".to_string(),
        password_hash: "$2b$04$abcdefghijklmnopqrstuur/uCBNBvVl4m8sbz1ePRFisPkMaJiTS".to_string(),
        created_at: "2023-11-14T22:13:20+00:00".to_string(),
    }
}

#[test]
fn lookup_finds_the_seeded_identity() {
    let store = CredentialStore::seeded(root());
    assert_eq!(store.lookup("root"), Some(root()));
}

#[test]
fn lookup_of_another_name_finds_nothing() {
    let store = CredentialStore::seeded(root());
    assert_eq!(store.lookup("admin"), None);
    assert_eq!(store.lookup("Root"), None);
    assert_eq!(store.lookup("root "), None);
    assert_eq!(store.lookup(""), None);
}

#[test]
fn admin_clone_is_equal_to_the_identity() {
    assert_eq!(root().clone(), root());
}
