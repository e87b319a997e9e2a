use std::sync::Arc;
use std::time::Duration;
use wallet_app::app::{
    node_reply, stored_value, transaction_created, transaction_sent, worker_reply, App,
};
use wallet_app::types::{
    AppError, BlockNotification, NodeError, Params, SessionId, SubscriptionId, UnlockedSessionWallet,
    WorkerError, WorkerFailure, WorkerRequest,
};

type TestApp = App<String, u32, u8>;

fn params(client: Option<u8>) -> Params<u8> {
    Params {
        client: client.map(Arc::new),
        requests_timeout: Duration::from_millis(1500),
        session_expires_in: Duration::from_secs(3200),
    }
}

fn sid(s: &str) -> SessionId {
    SessionId(s.to_string())
}

fn unlock(app: &mut TestApp, session: &str, wallet_id: &str, wallet: &str) {
    let reply: Result<UnlockedSessionWallet<String, u8>, WorkerError> = Ok(UnlockedSessionWallet {
        wallet: wallet.to_string(),
        session_id: sid(session),
        data: 0,
    });
    app.unlock_wallet_reply(wallet_id.to_string(), reply).unwrap();
}

fn worker_failure(failure: WorkerFailure, message: &str) -> WorkerError {
    WorkerError { failure, message: message.to_string() }
}

#[test]
fn wallet_calls_carry_their_arguments() {
    let mut app: TestApp = App::start(params(None));
    unlock(&mut app, "s", "w", "wallet");
    match app.generate_address::<u8>(sid("s"), "w".to_string(), Some("label".to_string())) {
        Ok(WorkerRequest::GenAddress { wallet, label }) => {
            assert_eq!(*wallet, "wallet");
            assert_eq!(label.as_deref(), Some("label"));
        }
        other => panic!("unexpected {:?}", other),
    }
    match app.get_addresses::<u8>(sid("s"), "w".to_string(), 10, 25) {
        Ok(WorkerRequest::GetAddresses { wallet, offset, limit }) => {
            assert_eq!(*wallet, "wallet");
            assert_eq!((offset, limit), (10, 25));
        }
        other => panic!("unexpected {:?}", other),
    }
    match app.get_transactions::<u8>(sid("s"), "w".to_string(), 3, 4) {
        Ok(WorkerRequest::GetTransactions { wallet, offset, limit }) => {
            assert_eq!(*wallet, "wallet");
            assert_eq!((offset, limit), (3, 4));
        }
        other => panic!("unexpected {:?}", other),
    }
    match app.create_vtt(&sid("s"), &"w".to_string(), 77u8) {
        Ok(WorkerRequest::CreateVtt { wallet, params }) => {
            assert_eq!(*wallet, "wallet");
            assert_eq!(params, 77);
        }
        other => panic!("unexpected {:?}", other),
    }
    match app.create_data_req(&sid("s"), &"w".to_string(), 78u8) {
        Ok(WorkerRequest::CreateDataReq { wallet, params }) => {
            assert_eq!(*wallet, "wallet");
            assert_eq!(params, 78);
        }
        other => panic!("unexpected {:?}", other),
    }
    match app.get::<u8>(sid("s"), "w".to_string(), "k".to_string()) {
        Ok(WorkerRequest::Get { wallet, key }) => {
            assert_eq!(*wallet, "wallet");
            assert_eq!(key, "k");
        }
        other => panic!("unexpected {:?}", other),
    }
    match app.send_vtt::<u8>(&sid("s"), &"w".to_string(), "abcd".to_string()) {
        Ok(WorkerRequest::GetTransaction { wallet, transaction_hash }) => {
            assert_eq!(*wallet, "wallet");
            assert_eq!(transaction_hash, "abcd");
        }
        other => panic!("unexpected {:?}", other),
    }
    match app.send_data_req::<u8>(&sid("s"), &"w".to_string(), "ef".to_string()) {
        Ok(WorkerRequest::GetTransaction { wallet, transaction_hash }) => {
            assert_eq!(*wallet, "wallet");
            assert_eq!(transaction_hash, "ef");
        }
        other => panic!("unexpected {:?}", other),
    }
}

#[test]
fn wallet_calls_fail_without_session_or_wallet() {
    let mut app: TestApp = App::start(params(None));
    unlock(&mut app, "s", "w", "wallet");
    assert!(matches!(app.create_vtt(&sid("x"), &"w".to_string(), 1u8), Err(AppError::SessionNotFound)));
    assert!(matches!(app.create_vtt(&sid("s"), &"x".to_string(), 1u8), Err(AppError::WalletNotFound)));
    assert!(matches!(
        app.set::<u8>(sid("s"), "x".to_string(), "k".to_string(), &serde_json::Value::Null),
        Err(AppError::WalletNotFound)
    ));
}

#[test]
fn plain_worker_calls() {
    let app: TestApp = App::start(params(None));
    assert!(matches!(app.run_rad_request(5u8), WorkerRequest::RunRadRequest { request: 5 }));
    assert!(matches!(app.generate_mnemonics(12u8), WorkerRequest::GenMnemonic { length: 12 }));
    assert!(matches!(app.wallet_infos::<u8>(), WorkerRequest::WalletInfos));
    assert!(matches!(app.stop::<u8>(), WorkerRequest::FlushDb));
    match app.create_wallet(9u8, Some("n".to_string()), None) {
        WorkerRequest::CreateWallet { name, caption, secrets } => {
            assert_eq!(name.as_deref(), Some("n"));
            assert!(caption.is_none());
            assert_eq!(secrets, 9);
        }
        other => panic!("unexpected {:?}", other),
    }
}

#[test]
fn set_writes_the_value_as_json() {
    let mut app: TestApp = App::start(params(None));
    unlock(&mut app, "s", "w", "wallet");
    let value = serde_json::Value::Array(vec![
        serde_json::Value::from(1),
        serde_json::Value::from("two"),
        serde_json::Value::Null,
    ]);
    match app.set::<u8>(sid("s"), "w".to_string(), "key".to_string(), &value) {
        Ok(WorkerRequest::SetValue { wallet, key, value }) => {
            assert_eq!(*wallet, "wallet");
            assert_eq!(key, "key");
            assert_eq!(value, "[1,\"two\",null]");
        }
        other => panic!("unexpected {:?}", other),
    }
}

#[test]
fn stored_value_reads_json() {
    match stored_value(Ok(Some("{\"a\": [1, 2]}".to_string()))) {
        Ok(Some(v)) => assert_eq!(v["a"][1], serde_json::Value::from(2)),
        other => panic!("unexpected {:?}", other),
    }
    assert!(matches!(stored_value(Ok(None)), Ok(None)));
    match stored_value(Ok(Some("{not json".to_string()))) {
        Err(AppError::Internal(m)) => {
            assert_eq!(m, serde_json::from_str::<serde_json::Value>("{not json").unwrap_err().to_string())
        }
        other => panic!("unexpected {:?}", other),
    }
    match stored_value(Err(worker_failure(WorkerFailure::Other, "db"))) {
        Err(AppError::Internal(m)) => assert_eq!(m, "db"),
        other => panic!("unexpected {:?}", other),
    }
}

#[test]
fn forward_needs_a_node() {
    let mut app: TestApp = App::start(params(None));
    assert!(matches!(app.forward("getBlock".to_string(), 1u8), Err(AppError::NodeNotConnected)));
    let mut app: TestApp = App::start(params(Some(3)));
    match app.forward("getBlock".to_string(), 1u8) {
        Ok(req) => {
            assert_eq!(*req.client, 3);
            assert_eq!(req.method, "getBlock");
            assert_eq!(req.timeout, Duration::from_millis(1500));
            assert_eq!(req.params, 1);
        }
        Err(e) => panic!("unexpected {:?}", e),
    }
}

#[test]
fn send_transaction_uses_inventory() {
    let app: TestApp = App::start(params(Some(3)));
    let req = app.send_transaction(11u8).unwrap();
    assert_eq!(req.method, "inventory");
    assert_eq!(req.params, 11);
    assert_eq!(req.timeout, Duration::from_millis(1500));
    let offline: TestApp = App::start(params(None));
    assert!(matches!(offline.send_transaction(11u8), Err(AppError::NodeNotConnected)));
}

#[test]
fn stored_transaction_is_sent_or_refused() {
    let app: TestApp = App::start(params(Some(3)));
    let req = app.send_stored_transaction(Ok(Some(4u8))).unwrap();
    assert_eq!(req.method, "inventory");
    assert_eq!(req.params, 4);
    match app.send_stored_transaction::<u8>(Ok(None)) {
        Err(AppError::Validation(f)) => {
            assert_eq!(f.field, "transactionId");
            assert_eq!(f.message, "Transaction not found");
        }
        other => panic!("unexpected {:?}", other),
    }
    match app.send_stored_transaction::<u8>(Err(worker_failure(WorkerFailure::Other, "gone"))) {
        Err(AppError::Internal(m)) => assert_eq!(m, "gone"),
        other => panic!("unexpected {:?}", other),
    }
    let offline: TestApp = App::start(params(None));
    assert!(matches!(offline.send_stored_transaction(Ok(Some(4u8))), Err(AppError::NodeNotConnected)));
}

#[test]
fn insufficient_balance_is_refused_on_balance() {
    match transaction_created::<u8>(Err(worker_failure(WorkerFailure::InsufficientBalance, "x"))) {
        Err(AppError::Validation(f)) => {
            assert_eq!(f.field, "balance");
            assert_eq!(f.message, "Wallet account has not enough balance");
        }
        other => panic!("unexpected {:?}", other),
    }
    match transaction_created::<u8>(Err(worker_failure(WorkerFailure::WrongPassword, "pw"))) {
        Err(AppError::Internal(m)) => assert_eq!(m, "pw"),
        other => panic!("unexpected {:?}", other),
    }
    assert!(matches!(transaction_created(Ok(5u8)), Ok(5)));
}

#[test]
fn replies_pass_answers_and_map_failures() {
    assert!(matches!(worker_reply(Ok(3u8)), Ok(3)));
    match worker_reply::<u8>(Err(worker_failure(WorkerFailure::WalletNotFound, "nf"))) {
        Err(AppError::Internal(m)) => assert_eq!(m, "nf"),
        other => panic!("unexpected {:?}", other),
    }
    assert!(matches!(node_reply(Ok(3u8)), Ok(3)));
    match node_reply::<u8>(Err(NodeError { message: "timeout".to_string() })) {
        Err(AppError::Node(m)) => assert_eq!(m, "timeout"),
        other => panic!("unexpected {:?}", other),
    }
    assert!(matches!(transaction_sent(Ok(3u8)), Ok(())));
    match transaction_sent::<u8>(Err(NodeError { message: "down".to_string() })) {
        Err(AppError::Node(m)) => assert_eq!(m, "down"),
        other => panic!("unexpected {:?}", other),
    }
}

#[test]
fn block_indexes_every_wallet_and_notifies_subscribers() {
    let mut app: TestApp = App::start(params(None));
    unlock(&mut app, "s1", "w1", "one");
    unlock(&mut app, "s1", "w2", "two");
    unlock(&mut app, "s2", "w3", "three");
    app.subscribe(sid("s1"), SubscriptionId::String("s1".to_string()), Arc::new(100)).unwrap();
    let block = BlockNotification { epoch: 42, hash: vec![1, 2, 3], txns: Arc::new(9u8) };
    let (index, notify) = app.handle_block_notification(Ok(block)).unwrap();
    let mut indexed: Vec<(String, String)> = index
        .iter()
        .map(|r| match r {
            WorkerRequest::IndexTxns { wallet_id, wallet, txns, block } => {
                assert_eq!(block.epoch, 42);
                assert_eq!(block.hash, vec![1, 2, 3]);
                assert_eq!(**txns, 9);
                (wallet_id.clone(), (**wallet).clone())
            }
            other => panic!("unexpected {:?}", other),
        })
        .collect();
    indexed.sort();
    assert_eq!(
        indexed,
        vec![
            ("w1".to_string(), "one".to_string()),
            ("w2".to_string(), "two".to_string()),
            ("w3".to_string(), "three".to_string())
        ]
    );
    let mut notified: Vec<(String, String, u32)> = notify
        .iter()
        .map(|r| match r {
            WorkerRequest::NotifyBalance { session_id, wallet_id, wallet, sink } => {
                assert_eq!(session_id, "s1");
                (wallet_id.clone(), (**wallet).clone(), **sink)
            }
            other => panic!("unexpected {:?}", other),
        })
        .collect();
    notified.sort();
    assert_eq!(
        notified,
        vec![("w1".to_string(), "one".to_string(), 100), ("w2".to_string(), "two".to_string(), 100)]
    );
}

#[test]
fn unsubscribed_session_is_not_notified() {
    let mut app: TestApp = App::start(params(None));
    unlock(&mut app, "s1", "w1", "one");
    app.subscribe(sid("s1"), SubscriptionId::String("s1".to_string()), Arc::new(100)).unwrap();
    let id = app.next_subscription_id(sid("s1")).unwrap();
    app.unsubscribe(&id).unwrap();
    let block = BlockNotification { epoch: 1, hash: vec![], txns: Arc::new(0u8) };
    let (index, notify) = app.handle_block_notification(Ok(block)).unwrap();
    assert_eq!(index.len(), 1);
    assert!(notify.is_empty());
}

#[test]
fn locked_wallet_is_not_indexed() {
    let mut app: TestApp = App::start(params(None));
    unlock(&mut app, "s1", "w1", "one");
    unlock(&mut app, "s2", "w2", "two");
    app.subscribe(sid("s1"), SubscriptionId::String("s1".to_string()), Arc::new(1)).unwrap();
    app.lock_wallet(sid("s1"), "w1".to_string()).unwrap();
    let block = BlockNotification { epoch: 1, hash: vec![], txns: Arc::new(0u8) };
    let (index, notify) = app.handle_block_notification(Ok(block)).unwrap();
    assert_eq!(index.len(), 1);
    assert!(matches!(&index[0], WorkerRequest::IndexTxns { wallet_id, .. } if wallet_id == "w2"));
    assert!(notify.is_empty());
}

#[test]
fn wallet_held_by_two_sessions_is_indexed_once() {
    let mut app: TestApp = App::start(params(None));
    unlock(&mut app, "s1", "w1", "one");
    unlock(&mut app, "s2", "w1", "one");
    app.subscribe(sid("s1"), SubscriptionId::String("s1".to_string()), Arc::new(1)).unwrap();
    app.subscribe(sid("s2"), SubscriptionId::String("s2".to_string()), Arc::new(2)).unwrap();
    let block = BlockNotification { epoch: 1, hash: vec![], txns: Arc::new(0u8) };
    let (index, notify) = app.handle_block_notification(Ok(block)).unwrap();
    assert_eq!(index.len(), 1);
    assert_eq!(notify.len(), 2);
}

#[test]
fn stored_value_comes_back_as_set() {
    let mut app: TestApp = App::start(params(None));
    unlock(&mut app, "s", "w", "wallet");
    let mut object = serde_json::Map::new();
    object.insert("n".to_string(), serde_json::Value::from(5));
    object.insert("list".to_string(), serde_json::Value::Array(vec![serde_json::Value::Bool(true)]));
    let value = serde_json::Value::Object(object);
    let text = match app.set::<u8>(sid("s"), "w".to_string(), "k".to_string(), &value) {
        Ok(WorkerRequest::SetValue { value, .. }) => value,
        other => panic!("unexpected {:?}", other),
    };
    match stored_value(Ok(Some(text))) {
        Ok(Some(v)) => assert_eq!(v, value),
        other => panic!("unexpected {:?}", other),
    }
}

#[test]
fn unreadable_block_is_a_node_error() {
    let app: TestApp = App::start(params(None));
    match app.handle_block_notification::<u8>(Err(NodeError { message: "bad block".to_string() })) {
        Err(AppError::Node(m)) => assert_eq!(m, "bad block"),
        other => panic!("unexpected {:?}", other),
    }
}
