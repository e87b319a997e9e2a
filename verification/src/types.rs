//! Identifiers, errors and the messages that the application hands to its worker and node.
use std::sync::Arc;
use std::time::Duration;
use vstd::prelude::*;

verus! {

/// Hands out another pointer to the value that `a` points to.
///
/// Trusted: `Arc::clone` of std, whose documentation says that it makes another pointer to
/// the same allocation; the contract claims no more than that the result is equal to `a`.
#[verifier::external_body]
pub(crate) fn share<T>(a: &Arc<T>) -> (r: Arc<T>)
    ensures
        r == *a,
{
    Arc::clone(a)
}

/// The identifier of a session: the token that a client receives when it unlocks a wallet.
#[derive(Debug)]
pub struct SessionId(pub String);

impl View for SessionId {
    type V = Seq<char>;

    open spec fn view(&self) -> Seq<char> {
        self.0@
    }
}

impl Clone for SessionId {
    fn clone(&self) -> (r: Self)
        ensures
            r == *self,
    {
        SessionId(self.0.clone())
    }
}

impl SessionId {
    /// The text of the identifier.
    pub fn into_string(self) -> (r: String)
        ensures
            r@ == self@,
    {
        self.0
    }
}

/// The identifier of a subscription to notifications, as the publish/subscribe protocol knows it.
#[derive(Debug)]
pub enum SubscriptionId {
    Number(u64),
    String(String),
}

/// A field of a request that was refused, and why.
#[derive(Debug)]
pub struct FieldError {
    pub field: String,
    pub message: String,
}

/// What can go wrong in a call on the application.
#[derive(Debug)]
pub enum AppError {
    /// The request was refused; the field and the reason are named.
    Validation(FieldError),
    /// Something failed inside the wallet; the text describes it.
    Internal(String),
    /// The node failed or answered with something that could not be read.
    Node(String),
    /// The wallet has no connection to a node.
    NodeNotConnected,
    /// No active session has the given identifier.
    SessionNotFound,
    /// The session has no unlocked wallet with the given identifier.
    WalletNotFound,
}

/// The kinds of worker failure that the application tells apart.
#[derive(Debug)]
pub enum WorkerFailure {
    WalletNotFound,
    WrongPassword,
    InsufficientBalance,
    Other,
}

/// A failure reported by the worker, with its description.
#[derive(Debug)]
pub struct WorkerError {
    pub failure: WorkerFailure,
    pub message: String,
}

/// A failure reported while talking to the node, with its description.
#[derive(Debug)]
pub struct NodeError {
    pub message: String,
}

/// Turns a text into an error naming a refused field.
pub fn field_error(field: &str, message: &str) -> (e: AppError)
    ensures
        e matches AppError::Validation(f) && f.field@ == field@ && f.message@ == message@,
{
    AppError::Validation(FieldError { field: field.to_owned(), message: message.to_owned() })
}

/// Any failure of the worker, seen from the application, is an internal error.
pub open spec fn worker_error_spec(e: WorkerError) -> AppError {
    AppError::Internal(e.message)
}

/// Any failure of the node, seen from the application, is a node error.
pub open spec fn node_error_spec(e: NodeError) -> AppError {
    AppError::Node(e.message)
}

impl From<WorkerError> for AppError {
    fn from(e: WorkerError) -> (r: AppError) {
        AppError::Internal(e.message)
    }
}

impl vstd::std_specs::convert::FromSpecImpl<WorkerError> for AppError {
    open spec fn obeys_from_spec() -> bool {
        true
    }

    open spec fn from_spec(e: WorkerError) -> AppError {
        worker_error_spec(e)
    }
}

impl From<NodeError> for AppError {
    fn from(e: NodeError) -> (r: AppError) {
        AppError::Node(e.message)
    }
}

impl vstd::std_specs::convert::FromSpecImpl<NodeError> for AppError {
    open spec fn obeys_from_spec() -> bool {
        true
    }

    open spec fn from_spec(e: NodeError) -> AppError {
        node_error_spec(e)
    }
}

/// The settings of the application: the node client, if there is one, and its time limits.
pub struct Params<C> {
    pub client: Option<Arc<C>>,
    pub requests_timeout: Duration,
    pub session_expires_in: Duration,
}

/// The block that a notification from the node announces, as the indexer needs it.
#[derive(Debug)]
pub struct BlockInfo {
    pub epoch: u32,
    pub hash: Vec<u8>,
}

/// A block that the node announces: its epoch, its hash and the transactions that the
/// wallets index, which the application only passes on.
pub struct BlockNotification<P> {
    pub epoch: u32,
    pub hash: Vec<u8>,
    pub txns: Arc<P>,
}

/// What the worker hands back when it has unlocked a wallet: the wallet, the session it
/// opened for it, and the wallet's data for the client.
pub struct UnlockedSessionWallet<W, D> {
    pub wallet: W,
    pub session_id: SessionId,
    pub data: D,
}

/// What the client receives when it has unlocked a wallet.
#[derive(Debug)]
pub struct UnlockedWallet<D> {
    pub data: D,
    pub session_id: SessionId,
}

/// When to close a session: `after` has passed since it was opened.
#[derive(Debug)]
pub struct SessionExpiry {
    pub session_id: SessionId,
    pub after: Duration,
}

/// A message for the worker that does the work on wallets.
///
/// `W` is an unlocked wallet, `S` a subscriber's sink, and `P` what the worker needs
/// and the application only passes on (passwords, transaction parameters and the like).
#[derive(Debug)]
pub enum WorkerRequest<W, S, P> {
    GenAddress { wallet: Arc<W>, label: Option<String> },
    GetAddresses { wallet: Arc<W>, offset: u32, limit: u32 },
    GetBalance { wallet: Arc<W> },
    GetTransactions { wallet: Arc<W>, offset: u32, limit: u32 },
    RunRadRequest { request: P },
    GenMnemonic { length: P },
    WalletInfos,
    CreateWallet { name: Option<String>, caption: Option<String>, secrets: P },
    UnlockWallet { wallet_id: String, password: P },
    CreateVtt { wallet: Arc<W>, params: P },
    CreateDataReq { wallet: Arc<W>, params: P },
    FlushDb,
    Get { wallet: Arc<W>, key: String },
    SetValue { wallet: Arc<W>, key: String, value: String },
    GetTransaction { wallet: Arc<W>, transaction_hash: String },
    IndexTxns { wallet_id: String, wallet: Arc<W>, txns: Arc<P>, block: BlockInfo },
    NotifyBalance { session_id: String, wallet_id: String, wallet: Arc<W>, sink: Arc<S> },
}

/// A JSON-RPC call to send to the node through the client `C`.
#[derive(Debug)]
pub struct NodeRequest<C, P> {
    pub client: Arc<C>,
    pub method: String,
    pub timeout: Duration,
    pub params: P,
}

} // verus!
