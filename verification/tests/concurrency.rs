use async_std::sync::{Arc, Mutex};
use async_std::task;
use user_api::{User, UserStore};

const CALLERS: usize = 64;

async fn create_one(store: Arc<Mutex<UserStore>>, n: usize) -> User {
    let mut users = store.lock().await;
    users
        .create(format!("user {}", n), format!("u{}@x.com", n), "2023-11-14T22:13:20+00:00".to_string())
        .unwrap()
}

#[test]
fn parallel_creates_yield_distinct_records() {
    let store = Arc::new(Mutex::new(UserStore::new()));
    let mut handles = Vec::new();
    for n in 0..CALLERS {
        handles.push(task::spawn(create_one(store.clone(), n)));
    }
    let mut created: Vec<User> = Vec::new();
    for handle in handles {
        created.push(task::block_on(handle));
    }

    assert_eq!(created.len(), CALLERS);
    for i in 0..created.len() {
        for j in (i + 1)..created.len() {
            assert_ne!(created[i].id, created[j].id);
        }
    }

    let stored = task::block_on(async { store.lock().await.list() });
    assert_eq!(stored.len(), CALLERS);
    for user in &created {
        assert!(stored.contains(user));
    }
    for n in 0..CALLERS {
        assert_eq!(created[n].name, format!("user {}", n));
        assert_eq!(created[n].email, format!("u{}@x.com", n));
    }
}

#[test]
fn parallel_creates_and_deletes_keep_ids_apart() {
    let store = Arc::new(Mutex::new(UserStore::new()));
    let mut handles = Vec::new();
    for n in 0..CALLERS {
        let store = store.clone();
        handles.push(task::spawn(async move {
            let user = create_one(store.clone(), n).await;
            if n % 2 == 0 {
                assert!(store.lock().await.delete(&user.id));
            }
            user.id
        }));
    }
    let mut ids: Vec<String> = Vec::new();
    for handle in handles {
        ids.push(task::block_on(handle));
    }
    ids.sort();
    ids.dedup();
    assert_eq!(ids.len(), CALLERS);
    let stored = task::block_on(async { store.lock().await.list() });
    assert_eq!(stored.len(), CALLERS / 2);
}
