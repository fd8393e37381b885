use std::sync::{Arc, Mutex};
use user_management::models::{User, UserStatus};
use user_management::services::UserManager;
use user_management::utils::UserError;

#[test]
fn concurrent_creations_with_distinct_keys_all_succeed() {
    let runtime = tokio::runtime::Builder::new_multi_thread().worker_threads(4).build().unwrap();
    let manager = Arc::new(Mutex::new(UserManager::new()));
    let workers: usize = 64;
    let outcomes: Vec<Result<User, UserError>> = runtime.block_on(async {
        let mut tasks = Vec::new();
        let mut worker: usize = 0;
        while worker < workers {
            let shared = Arc::clone(&manager);
            tasks.push(tokio::spawn(async move {
                let mut guard = shared.lock().unwrap();
                guard.create_user(
                    format!("user_{}", worker),
                    format!("user{}@x.com", worker),
                    "F".to_string(),
                    "L".to_string(),
                )
            }));
            worker += 1;
        }
        let mut outcomes = Vec::new();
        for task in tasks {
            outcomes.push(task.await.unwrap());
        }
        outcomes
    });
    assert_eq!(outcomes.len(), workers);
    for outcome in outcomes {
        assert_eq!(outcome.unwrap().status, UserStatus::Active);
    }
    let guard = manager.lock().unwrap();
    let users = guard.list_users();
    assert_eq!(users.len(), workers);
    for user in users {
        assert_eq!(guard.get_user_by_id(user.id), Ok(user.clone()));
        assert_eq!(guard.get_user_by_username(&user.username), Ok(user.clone()));
        assert_eq!(guard.get_user_by_email(&user.email), Ok(user));
    }
    let mut worker: usize = 0;
    while worker < workers {
        assert!(guard.get_user_by_username(&format!("user_{}", worker)).is_ok());
        assert!(guard.get_user_by_email(&format!("user{}@x.com", worker)).is_ok());
        worker += 1;
    }
}
