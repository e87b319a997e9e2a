use std::sync::Arc;
use std::time::Duration;
use wallet_app::app::App;
use wallet_app::types::{
    AppError, Params, SessionId, SubscriptionId, UnlockedSessionWallet, WorkerError, WorkerFailure,
    WorkerRequest,
};

type TestApp = App<String, u32, u8>;

fn params(client: Option<u8>) -> Params<u8> {
    Params {
        client: client.map(Arc::new),
        requests_timeout: Duration::from_millis(1500),
        session_expires_in: Duration::from_secs(3200),
    }
}

fn sid(s: &str) -> SessionId {
    SessionId(s.to_string())
}

/// Unlocks `wallet_id` in session `session` through the worker's answer, as the application does.
fn unlock(app: &mut TestApp, session: &str, wallet_id: &str, wallet: &str) {
    let reply: Result<UnlockedSessionWallet<String, u8>, WorkerError> = Ok(UnlockedSessionWallet {
        wallet: wallet.to_string(),
        session_id: sid(session),
        data: 7,
    });
    let unlocked = app.unlock_wallet_reply(wallet_id.to_string(), reply).unwrap();
    assert_eq!(unlocked.session_id.0, session);
    assert_eq!(unlocked.data, 7);
}

fn balance_wallet(app: &TestApp, session: &str, wallet_id: &str) -> Result<String, AppError> {
    match app.get_balance::<u8>(sid(session), wallet_id.to_string()) {
        Ok(WorkerRequest::GetBalance { wallet }) => Ok((*wallet).clone()),
        Ok(other) => panic!("unexpected request {:?}", other),
        Err(e) => Err(e),
    }
}

#[test]
fn started_app_has_no_session() {
    let mut app: TestApp = App::start(params(None));
    assert!(!app.state.is_session_active(&sid("s")));
    assert!(matches!(app.next_subscription_id(sid("s")), Err(AppError::SessionNotFound)));
    assert!(matches!(balance_wallet(&app, "s", "w"), Err(AppError::SessionNotFound)));
    assert_eq!(app.params.requests_timeout, Duration::from_millis(1500));
}

#[test]
fn unlocked_wallet_is_found_in_its_session() {
    let mut app: TestApp = App::start(params(None));
    unlock(&mut app, "s1", "w1", "wallet one");
    assert!(app.state.is_session_active(&sid("s1")));
    assert_eq!(balance_wallet(&app, "s1", "w1").unwrap(), "wallet one");
    assert!(matches!(balance_wallet(&app, "s1", "w2"), Err(AppError::WalletNotFound)));
    assert!(matches!(balance_wallet(&app, "s2", "w1"), Err(AppError::SessionNotFound)));
}

#[test]
fn second_unlock_in_a_session_keeps_the_first_wallet() {
    let mut app: TestApp = App::start(params(None));
    unlock(&mut app, "s1", "w1", "one");
    unlock(&mut app, "s1", "w2", "two");
    assert_eq!(balance_wallet(&app, "s1", "w1").unwrap(), "one");
    assert_eq!(balance_wallet(&app, "s1", "w2").unwrap(), "two");
}

#[test]
fn unlock_failures_name_the_field() {
    let mut app: TestApp = App::start(params(None));
    let not_found: Result<UnlockedSessionWallet<String, u8>, WorkerError> = Err(WorkerError {
        failure: WorkerFailure::WalletNotFound,
        message: "wallet not found".to_string(),
    });
    match app.unlock_wallet_reply("w".to_string(), not_found) {
        Err(AppError::Validation(f)) => {
            assert_eq!(f.field, "wallet_id");
            assert_eq!(f.message, "Wallet not found");
        }
        other => panic!("unexpected {:?}", other),
    }
    let wrong: Result<UnlockedSessionWallet<String, u8>, WorkerError> = Err(WorkerError {
        failure: WorkerFailure::WrongPassword,
        message: "wrong password".to_string(),
    });
    match app.unlock_wallet_reply("w".to_string(), wrong) {
        Err(AppError::Validation(f)) => {
            assert_eq!(f.field, "password");
            assert_eq!(f.message, "Wrong password");
        }
        other => panic!("unexpected {:?}", other),
    }
    let other: Result<UnlockedSessionWallet<String, u8>, WorkerError> = Err(WorkerError {
        failure: WorkerFailure::Other,
        message: "database is gone".to_string(),
    });
    match app.unlock_wallet_reply("w".to_string(), other) {
        Err(AppError::Internal(m)) => assert_eq!(m, "database is gone"),
        other => panic!("unexpected {:?}", other),
    }
    assert!(!app.state.is_session_active(&sid("w")));
}

#[test]
fn unlock_request_carries_wallet_and_password() {
    let app: TestApp = App::start(params(None));
    match app.unlock_wallet("w9".to_string(), 42u8) {
        WorkerRequest::UnlockWallet { wallet_id, password } => {
            assert_eq!(wallet_id, "w9");
            assert_eq!(password, 42);
        }
        other => panic!("unexpected {:?}", other),
    }
}

#[test]
fn locking_a_wallet_closes_its_session() {
    let mut app: TestApp = App::start(params(None));
    unlock(&mut app, "s1", "w1", "one");
    unlock(&mut app, "s1", "w2", "two");
    app.lock_wallet(sid("s1"), "w1".to_string()).unwrap();
    assert!(!app.state.is_session_active(&sid("s1")));
    assert!(matches!(balance_wallet(&app, "s1", "w1"), Err(AppError::SessionNotFound)));
    assert!(matches!(balance_wallet(&app, "s1", "w2"), Err(AppError::SessionNotFound)));
    assert!(!app.state.wallets().contains_key(&"w1".to_string()));
    assert!(!app.state.wallets().contains_key(&"w2".to_string()));
}

#[test]
fn wallet_locked_in_one_session_stays_unlocked_in_another() {
    let mut app: TestApp = App::start(params(None));
    unlock(&mut app, "s1", "w1", "one");
    unlock(&mut app, "s2", "w1", "one");
    app.lock_wallet(sid("s1"), "w1".to_string()).unwrap();
    assert!(!app.state.is_session_active(&sid("s1")));
    assert_eq!(balance_wallet(&app, "s2", "w1").unwrap(), "one");
    assert!(app.state.wallets().contains_key(&"w1".to_string()));
}

#[test]
fn locking_in_an_unknown_session_fails() {
    let mut app: TestApp = App::start(params(None));
    assert!(matches!(app.lock_wallet(sid("nope"), "w".to_string()), Err(AppError::SessionNotFound)));
}

#[test]
fn closed_session_is_forgotten_with_its_wallets() {
    let mut app: TestApp = App::start(params(None));
    unlock(&mut app, "s1", "w1", "one");
    unlock(&mut app, "s1", "w2", "two");
    unlock(&mut app, "s2", "w3", "three");
    app.close_session(sid("s1")).unwrap();
    assert!(!app.state.is_session_active(&sid("s1")));
    assert!(app.state.is_session_active(&sid("s2")));
    assert!(matches!(balance_wallet(&app, "s1", "w1"), Err(AppError::SessionNotFound)));
    assert!(!app.state.wallets().contains_key(&"w1".to_string()));
    assert!(!app.state.wallets().contains_key(&"w2".to_string()));
    assert!(app.state.wallets().contains_key(&"w3".to_string()));
    assert_eq!(balance_wallet(&app, "s2", "w3").unwrap(), "three");
    assert_eq!(app.state.wallets().count(), 1);
    assert!(matches!(app.close_session(sid("s1")), Err(AppError::SessionNotFound)));
}

#[test]
fn subscription_id_is_the_session_id() {
    let mut app: TestApp = App::start(params(None));
    unlock(&mut app, "session-abc", "w", "one");
    match app.next_subscription_id(sid("session-abc")) {
        Ok(SubscriptionId::String(s)) => assert_eq!(s, "session-abc"),
        other => panic!("unexpected {:?}", other),
    }
}

#[test]
fn subscribe_needs_an_active_session() {
    let mut app: TestApp = App::start(params(None));
    let r = app.subscribe(sid("s"), SubscriptionId::String("s".to_string()), Arc::new(5));
    assert!(matches!(r, Err(AppError::SessionNotFound)));
    assert!(matches!(
        app.unsubscribe(&SubscriptionId::String("s".to_string())),
        Err(AppError::SessionNotFound)
    ));
    assert!(matches!(app.unsubscribe(&SubscriptionId::Number(3)), Err(AppError::SessionNotFound)));
}

#[test]
fn session_expiry_uses_the_configured_lifetime() {
    let app: TestApp = App::start(params(None));
    let expiry = app.set_session_to_expire(sid("s7"));
    assert_eq!(expiry.session_id.0, "s7");
    assert_eq!(expiry.after, Duration::from_secs(3200));
}

#[test]
fn subscribing_changes_no_wallet() {
    let mut app: TestApp = App::start(params(None));
    unlock(&mut app, "s1", "w1", "one");
    app.subscribe(sid("s1"), SubscriptionId::String("s1".to_string()), Arc::new(3)).unwrap();
    assert_eq!(balance_wallet(&app, "s1", "w1").unwrap(), "one");
    app.unsubscribe(&SubscriptionId::String("s1".to_string())).unwrap();
    assert_eq!(balance_wallet(&app, "s1", "w1").unwrap(), "one");
    assert!(app.state.wallets().contains_key(&"w1".to_string()));
}
