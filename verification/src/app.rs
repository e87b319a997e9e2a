//! The application: what each call on it decides from its state and arguments, and what it
//! makes of the answers of its worker and of the node.
//!
//! A call that needs the worker or the node is taken in two steps. The first step checks the
//! call against the state and hands back the message to send (or the error that the caller
//! receives at once); the second step takes the answer and hands back what the caller
//! receives, changing the state where the call does.
use crate::json::{is_json_text, json_failure_of, json_text_of, json_value_of, parse_json, write_json};
use vstd::string::to_string_from_display_ensures;
use crate::state::{
    empty_state, is_unlocked, subscribed, unlocked_as, unlocked_ids, unsubscribed, wallet_of, with_session,
    without_session, Session, SessionView, State, StateView,
};
use crate::types::{
    field_error, node_error_spec, share, worker_error_spec, AppError, BlockInfo, BlockNotification,
    NodeError, NodeRequest, Params, SessionExpiry, SessionId, SubscriptionId,
    UnlockedSessionWallet, UnlockedWallet, WorkerError, WorkerFailure, WorkerRequest,
};
use std::sync::Arc;
use vstd::prelude::*;

verus! {

/// The application: its settings and its sessions.
pub struct App<W, S, C> {
    pub params: Params<C>,
    pub state: State<W, S>,
}

/// What a call that goes through the worker receives, whatever the call: the worker's
/// answer, or its failure seen as an error of the application.
pub open spec fn worker_outcome<T>(reply: Result<T, WorkerError>) -> Result<T, AppError> {
    match reply {
        Ok(v) => Ok(v),
        Err(e) => Err(worker_error_spec(e)),
    }
}

/// The same for a call that goes through the node.
pub open spec fn node_outcome<T>(reply: Result<T, NodeError>) -> Result<T, AppError> {
    match reply {
        Ok(v) => Ok(v),
        Err(e) => Err(node_error_spec(e)),
    }
}

/// The message for the worker that a call on a session's wallet sends, or why the call
/// fails at once.
pub open spec fn lookup_then<W, S, P>(
    lookup: Result<Arc<W>, AppError>,
    request: spec_fn(Arc<W>) -> WorkerRequest<W, S, P>,
) -> Result<WorkerRequest<W, S, P>, AppError> {
    match lookup {
        Ok(w) => Ok(request(w)),
        Err(e) => Err(e),
    }
}

/// The wallet that an index request is for.
pub open spec fn index_key<W, S, P>(r: WorkerRequest<W, S, P>) -> Seq<char> {
    match r {
        WorkerRequest::IndexTxns { wallet_id, .. } => wallet_id@,
        _ => Seq::empty(),
    }
}

/// The session and the wallet that a balance notification is for.
pub open spec fn notify_key<W, S, P>(r: WorkerRequest<W, S, P>) -> (Seq<char>, Seq<char>) {
    match r {
        WorkerRequest::NotifyBalance { session_id, wallet_id, .. } => (session_id@, wallet_id@),
        _ => (Seq::empty(), Seq::empty()),
    }
}

/// `r` asks the worker to index the block's transactions for an unlocked wallet.
pub open spec fn is_index_request<W, S, P>(
    r: WorkerRequest<W, S, P>,
    v: StateView<W, S>,
    block: BlockNotification<P>,
) -> bool {
    &&& r matches WorkerRequest::IndexTxns { wallet_id, wallet, txns, block: b }
    &&& unlocked_as(v, wallet_id@, wallet)
    &&& txns == block.txns
    &&& b.epoch == block.epoch
    &&& b.hash@ == block.hash@
}

/// The requests ask the worker to index the block once for each wallet that some open
/// session holds unlocked, and for nothing else.
pub open spec fn indexes_every_wallet<W, S, P>(
    reqs: Seq<WorkerRequest<W, S, P>>,
    v: StateView<W, S>,
    block: BlockNotification<P>,
) -> bool {
    &&& forall|i: int| 0 <= i < reqs.len() ==> is_index_request(#[trigger] reqs[i], v, block)
    &&& forall|i: int, j: int|
        0 <= i < reqs.len() && 0 <= j < reqs.len() && i != j ==> index_key(#[trigger] reqs[i])
            != index_key(#[trigger] reqs[j])
    &&& forall|k: Seq<char>|
        #[trigger] is_unlocked(v, k) ==> exists|i: int|
            0 <= i < reqs.len() && index_key(#[trigger] reqs[i]) == k
}

/// The wallet `wallet_id` of the session `session_id` is unlocked, and the session has a
/// subscriber, who is to hear of the wallet's balance.
pub open spec fn to_be_notified<W, S>(
    sessions: Map<Seq<char>, SessionView<W, S>>,
    session_id: Seq<char>,
    wallet_id: Seq<char>,
) -> bool {
    &&& sessions.contains_key(session_id)
    &&& sessions[session_id].subscription is Some
    &&& sessions[session_id].wallets.contains_key(wallet_id)
}

/// `r` asks the worker to send a wallet's balance to the subscriber of its session.
pub open spec fn is_balance_notification<W, S, P>(
    r: WorkerRequest<W, S, P>,
    sessions: Map<Seq<char>, SessionView<W, S>>,
) -> bool {
    &&& r matches WorkerRequest::NotifyBalance { session_id, wallet_id, wallet, sink }
    &&& to_be_notified(sessions, session_id@, wallet_id@)
    &&& sessions[session_id@].wallets[wallet_id@] == wallet
    &&& sessions[session_id@].subscription == Some(sink)
}

/// The requests send the balance of each unlocked wallet of each subscribed session to the
/// session's subscriber, once, and nothing else.
pub open spec fn notifies_every_subscriber<W, S, P>(
    reqs: Seq<WorkerRequest<W, S, P>>,
    sessions: Map<Seq<char>, SessionView<W, S>>,
) -> bool {
    &&& forall|i: int| 0 <= i < reqs.len() ==> is_balance_notification(#[trigger] reqs[i], sessions)
    &&& forall|i: int, j: int|
        0 <= i < reqs.len() && 0 <= j < reqs.len() && i != j ==> notify_key(#[trigger] reqs[i])
            != notify_key(#[trigger] reqs[j])
    &&& forall|sid: Seq<char>, wid: Seq<char>|
        #[trigger] to_be_notified(sessions, sid, wid) ==> exists|i: int|
            0 <= i < reqs.len() && notify_key(#[trigger] reqs[i]) == (sid, wid)
}

/// Passes on the worker's answer; a failure becomes an error of the application.
pub fn worker_reply<T>(reply: Result<T, WorkerError>) -> (r: Result<T, AppError>)
    ensures
        r == worker_outcome(reply),
{
    match reply {
        Ok(v) => Ok(v),
        Err(e) => Err(AppError::from(e)),
    }
}

/// Passes on the node's answer; a failure becomes an error of the application.
pub fn node_reply<T>(reply: Result<T, NodeError>) -> (r: Result<T, AppError>)
    ensures
        r == node_outcome(reply),
{
    match reply {
        Ok(v) => Ok(v),
        Err(e) => Err(AppError::from(e)),
    }
}

/// The answer to a request for a new transaction: a worker that finds too little balance
/// refuses the request on the `balance` field; other failures are internal errors.
pub fn transaction_created<T>(reply: Result<T, WorkerError>) -> (r: Result<T, AppError>)
    ensures
        match reply {
            Ok(v) => r == Ok::<T, AppError>(v),
            Err(e) => match e.failure {
                WorkerFailure::InsufficientBalance => (r matches Err(AppError::Validation(f))
                    && f.field@ == "balance"@ && f.message@ == "Wallet account has not enough balance"@),
                _ => r == Err::<T, AppError>(worker_error_spec(e)),
            },
        },
{
    match reply {
        Ok(v) => Ok(v),
        Err(e) => match e.failure {
            WorkerFailure::InsufficientBalance => Err(
                field_error("balance", "Wallet account has not enough balance"),
            ),
            _ => Err(AppError::from(e)),
        },
    }
}

/// The answer to a transaction sent to the node: the node's answer itself is dropped.
pub fn transaction_sent<T>(reply: Result<T, NodeError>) -> (r: Result<(), AppError>)
    ensures
        match reply {
            Ok(_) => r is Ok,
            Err(e) => r == Err::<(), AppError>(node_error_spec(e)),
        },
{
    match reply {
        Ok(_) => Ok(()),
        Err(e) => Err(AppError::from(e)),
    }
}

/// `r` is what a read of a stored value gives for the worker's answer `reply`: the stored
/// text read as JSON, or, for a text that does not read, an internal error with the
/// description of the failure.
pub open spec fn reads_stored(
    reply: Result<Option<String>, WorkerError>,
    r: Result<Option<serde_json::Value>, AppError>,
) -> bool {
    match reply {
        Err(e) => r == Err::<Option<serde_json::Value>, AppError>(worker_error_spec(e)),
        Ok(None) => r == Ok::<Option<serde_json::Value>, AppError>(None),
        Ok(Some(text)) => if is_json_text(text@) {
            r == Ok::<Option<serde_json::Value>, AppError>(Some(json_value_of(text@)))
        } else {
            (r matches Err(AppError::Internal(m)) && to_string_from_display_ensures(
                &json_failure_of(text@),
                m,
            ))
        },
    }
}

/// `req` asks the worker to store `value`, written as JSON, in `wallet` under `key`.
pub open spec fn stores_value<W, S, P>(
    req: WorkerRequest<W, S, P>,
    wallet: Arc<W>,
    key: String,
    value: serde_json::Value,
) -> bool {
    req matches WorkerRequest::SetValue { wallet: w, key: k, value: t } && w == wallet && k == key
        && t@ == json_text_of(value)
}

/// The answer to a read of a stored value: the stored text is read as JSON; a text that
/// does not read is an internal error with the description of the failure.
pub fn stored_value(reply: Result<Option<String>, WorkerError>) -> (r: Result<
    Option<serde_json::Value>,
    AppError,
>)
    ensures
        reads_stored(reply, r),
{
    match reply {
        Err(e) => Err(AppError::from(e)),
        Ok(None) => Ok(None),
        Ok(Some(text)) => match parse_json(text.as_str()) {
            Ok(value) => Ok(Some(value)),
            Err(e) => Err(AppError::Internal(e.to_string())),
        },
    }
}

impl<W, S, C> App<W, S, C> {
    /// A new application with the given settings and no session.
    pub fn start(params: Params<C>) -> (r: Self)
        ensures
            r.params == params,
            r.state@ == empty_state::<W, S>(),
    {
        App { params, state: State::new() }
    }

    /// The subscription identifier for a session: the session's own identifier, so that no
    /// client can name the subscription of another session by guessing a number.
    pub fn next_subscription_id(&mut self, session_id: SessionId) -> (r: Result<SubscriptionId, AppError>)
        ensures
            final(self).state@ == old(self).state@,
            final(self).params == old(self).params,
            old(self).state@.sessions.contains_key(session_id@) ==> (r matches Ok(
                SubscriptionId::String(s),
            ) && s@ == session_id@),
            !old(self).state@.sessions.contains_key(session_id@) ==> r matches Err(
                AppError::SessionNotFound,
            ),
    {
        if self.state.is_session_active(&session_id) {
            Ok(SubscriptionId::String(session_id.into_string()))
        } else {
            Err(AppError::SessionNotFound)
        }
    }

    /// Makes `sink` the subscriber of the session: the balances of the wallets that the
    /// session has unlocked are sent to it after each block.
    pub fn subscribe(&mut self, session_id: SessionId, _subscription_id: SubscriptionId, sink: Arc<S>) -> (r:
        Result<(), AppError>)
        ensures
            final(self).params == old(self).params,
            old(self).state@.sessions.contains_key(session_id@) ==> r is Ok && final(self).state@
                == subscribed(old(self).state@, session_id@, sink),
            !old(self).state@.sessions.contains_key(session_id@) ==> r == Err::<(), AppError>(
                AppError::SessionNotFound,
            ) && final(self).state@ == old(self).state@,
    {
        self.state.subscribe(&session_id, sink)
    }

    /// Drops a subscription. The subscription identifier is the session's identifier.
    pub fn unsubscribe(&mut self, id: &SubscriptionId) -> (r: Result<(), AppError>)
        ensures
            final(self).params == old(self).params,
            match id {
                SubscriptionId::String(s) => if old(self).state@.sessions.contains_key(s@) {
                    r is Ok && final(self).state@ == unsubscribed(old(self).state@, s@)
                } else {
                    r == Err::<(), AppError>(AppError::SessionNotFound) && final(self).state@ == old(
                        self,
                    ).state@
                },
                SubscriptionId::Number(_) => r == Err::<(), AppError>(AppError::SessionNotFound)
                    && final(self).state@ == old(self).state@,
            },
    {
        self.state.unsubscribe(id)
    }

    /// Asks the worker for a new receive address of the wallet.
    pub fn generate_address<P>(&self, session_id: SessionId, wallet_id: String, label: Option<String>) -> (r:
        Result<WorkerRequest<W, S, P>, AppError>)
        ensures
            r == lookup_then::<W, S, P>(
                wallet_of(self.state@, session_id@, wallet_id@),
                |w: Arc<W>| WorkerRequest::GenAddress { wallet: w, label },
            ),
    {
        let wallet = self.state.wallet(&session_id, &wallet_id)?;
        Ok(WorkerRequest::GenAddress { wallet, label })
    }

    /// Asks the worker for a page of the addresses that the wallet has generated.
    pub fn get_addresses<P>(&self, session_id: SessionId, wallet_id: String, offset: u32, limit: u32) -> (r:
        Result<WorkerRequest<W, S, P>, AppError>)
        ensures
            r == lookup_then::<W, S, P>(
                wallet_of(self.state@, session_id@, wallet_id@),
                |w: Arc<W>| WorkerRequest::GetAddresses { wallet: w, offset, limit },
            ),
    {
        let wallet = self.state.wallet(&session_id, &wallet_id)?;
        Ok(WorkerRequest::GetAddresses { wallet, offset, limit })
    }

    /// Asks the worker for the balance of the wallet.
    pub fn get_balance<P>(&self, session_id: SessionId, wallet_id: String) -> (r: Result<
        WorkerRequest<W, S, P>,
        AppError,
    >)
        ensures
            r == lookup_then::<W, S, P>(
                wallet_of(self.state@, session_id@, wallet_id@),
                |w: Arc<W>| WorkerRequest::GetBalance { wallet: w },
            ),
    {
        let wallet = self.state.wallet(&session_id, &wallet_id)?;
        Ok(WorkerRequest::GetBalance { wallet })
    }

    /// Asks the worker for a page of the transactions of the wallet's account.
    pub fn get_transactions<P>(&self, session_id: SessionId, wallet_id: String, offset: u32, limit: u32) -> (r:
        Result<WorkerRequest<W, S, P>, AppError>)
        ensures
            r == lookup_then::<W, S, P>(
                wallet_of(self.state@, session_id@, wallet_id@),
                |w: Arc<W>| WorkerRequest::GetTransactions { wallet: w, offset, limit },
            ),
    {
        let wallet = self.state.wallet(&session_id, &wallet_id)?;
        Ok(WorkerRequest::GetTransactions { wallet, offset, limit })
    }

    /// Asks the worker to run a data request and hand back its result.
    pub fn run_rad_request<P>(&self, req: P) -> (r: WorkerRequest<W, S, P>)
        ensures
            r == (WorkerRequest::<W, S, P>::RunRadRequest { request: req }),
    {
        WorkerRequest::RunRadRequest { request: req }
    }

    /// Asks the worker for a new mnemonic sentence of the given length.
    pub fn generate_mnemonics<P>(&self, length: P) -> (r: WorkerRequest<W, S, P>)
        ensures
            r == (WorkerRequest::<W, S, P>::GenMnemonic { length }),
    {
        WorkerRequest::GenMnemonic { length }
    }

    /// Forwards a JSON-RPC call to the node, with the configured time limit; without a node
    /// there is nothing to forward to.
    pub fn forward<P>(&mut self, method: String, params: P) -> (r: Result<NodeRequest<C, P>, AppError>)
        ensures
            final(self).state@ == old(self).state@,
            final(self).params == old(self).params,
            match old(self).params.client {
                Some(client) => r == Ok::<NodeRequest<C, P>, AppError>(
                    NodeRequest { client, method, timeout: old(self).params.requests_timeout, params },
                ),
                None => r == Err::<NodeRequest<C, P>, AppError>(AppError::NodeNotConnected),
            },
    {
        match &self.params.client {
            Some(client) => Ok(
                NodeRequest {
                    client: share(client),
                    method,
                    timeout: self.params.requests_timeout,
                    params,
                },
            ),
            None => Err(AppError::NodeNotConnected),
        }
    }

    /// Asks the worker for the public information of every stored wallet.
    pub fn wallet_infos<P>(&self) -> (r: WorkerRequest<W, S, P>)
        ensures
            r == WorkerRequest::<W, S, P>::WalletInfos,
    {
        WorkerRequest::WalletInfos
    }

    /// Asks the worker to create an empty wallet; `secrets` carries its password and seed.
    pub fn create_wallet<P>(&self, secrets: P, name: Option<String>, caption: Option<String>) -> (r:
        WorkerRequest<W, S, P>)
        ensures
            r == (WorkerRequest::<W, S, P>::CreateWallet { name, caption, secrets }),
    {
        WorkerRequest::CreateWallet { name, caption, secrets }
    }

    /// Locks a wallet: its key leaves the session's known keys and the session is closed, so
    /// that through this session the wallet's state is no longer updated from what the node
    /// announces. The wallet identifier is not checked against the session: closing the
    /// session locks every wallet that it held, and an open session is closed whichever
    /// identifier is given.
    pub fn lock_wallet(&mut self, session_id: SessionId, wallet_id: String) -> (r: Result<(), AppError>)
        ensures
            final(self).params == old(self).params,
            old(self).state@.sessions.contains_key(session_id@) ==> r is Ok && final(self).state@
                == without_session(old(self).state@, session_id@),
            !final(self).state@.sessions.contains_key(session_id@),
            wallet_of(final(self).state@, session_id@, wallet_id@) is Err,
            !old(self).state@.sessions.contains_key(session_id@) ==> r == Err::<(), AppError>(
                AppError::SessionNotFound,
            ) && final(self).state@ == old(self).state@,
    {
        self.state.remove_session(&session_id)
    }

    /// Asks the worker to load a wallet's keys with the password.
    pub fn unlock_wallet<P>(&self, wallet_id: String, password: P) -> (r: WorkerRequest<W, S, P>)
        ensures
            r == (WorkerRequest::<W, S, P>::UnlockWallet { wallet_id, password }),
    {
        WorkerRequest::UnlockWallet { wallet_id, password }
    }

    /// The answer to an unlock: the wallet joins the session that the worker opened for it,
    /// and the client receives the wallet's data and the session. An unknown wallet is refused
    /// on the `wallet_id` field, a wrong password on the `password` field.
    pub fn unlock_wallet_reply<D>(&mut self, wallet_id: String, reply: Result<UnlockedSessionWallet<W, D>, WorkerError>) -> (r:
        Result<UnlockedWallet<D>, AppError>)
        ensures
            final(self).params == old(self).params,
            match reply {
                Ok(u) => r == Ok::<UnlockedWallet<D>, AppError>(
                    UnlockedWallet { data: u.data, session_id: u.session_id },
                ) && final(self).state@ == with_session(
                    old(self).state@,
                    u.session_id@,
                    wallet_id@,
                    Arc::new(u.wallet),
                ),
                Err(e) => final(self).state@ == old(self).state@ && match e.failure {
                    WorkerFailure::WalletNotFound => (r matches Err(AppError::Validation(f))
                        && f.field@ == "wallet_id"@ && f.message@ == "Wallet not found"@),
                    WorkerFailure::WrongPassword => (r matches Err(AppError::Validation(f))
                        && f.field@ == "password"@ && f.message@ == "Wrong password"@),
                    _ => r == Err::<UnlockedWallet<D>, AppError>(worker_error_spec(e)),
                },
            },
    {
        match reply {
            Err(e) => match e.failure {
                WorkerFailure::WalletNotFound => Err(field_error("wallet_id", "Wallet not found")),
                WorkerFailure::WrongPassword => Err(field_error("password", "Wrong password")),
                _ => Err(AppError::from(e)),
            },
            Ok(u) => {
                let UnlockedSessionWallet { wallet, session_id, data } = u;
                self.state.create_session(session_id.clone(), wallet_id, Arc::new(wallet));
                Ok(UnlockedWallet { data, session_id })
            },
        }
    }

    /// Asks the worker to build a value transfer from the wallet.
    pub fn create_vtt<P>(&self, session_id: &SessionId, wallet_id: &String, vtt_params: P) -> (r: Result<
        WorkerRequest<W, S, P>,
        AppError,
    >)
        ensures
            r == lookup_then::<W, S, P>(
                wallet_of(self.state@, session_id@, wallet_id@),
                |w: Arc<W>| WorkerRequest::CreateVtt { wallet: w, params: vtt_params },
            ),
    {
        let wallet = self.state.wallet(session_id, wallet_id)?;
        Ok(WorkerRequest::CreateVtt { wallet, params: vtt_params })
    }

    /// Asks the worker to build a data request from the wallet.
    pub fn create_data_req<P>(&self, session_id: &SessionId, wallet_id: &String, params: P) -> (r: Result<
        WorkerRequest<W, S, P>,
        AppError,
    >)
        ensures
            r == lookup_then::<W, S, P>(
                wallet_of(self.state@, session_id@, wallet_id@),
                |w: Arc<W>| WorkerRequest::CreateDataReq { wallet: w, params },
            ),
    {
        let wallet = self.state.wallet(session_id, wallet_id)?;
        Ok(WorkerRequest::CreateDataReq { wallet, params })
    }

    /// Asks the worker to write everything to disk before the application stops.
    pub fn stop<P>(&self) -> (r: WorkerRequest<W, S, P>)
        ensures
            r == WorkerRequest::<W, S, P>::FlushDb,
    {
        WorkerRequest::FlushDb
    }

    /// When to close the session: after the configured lifetime of a session.
    pub fn set_session_to_expire(&self, session_id: SessionId) -> (r: SessionExpiry)
        ensures
            r.session_id == session_id,
            r.after == self.params.session_expires_in,
    {
        SessionExpiry { session_id, after: self.params.session_expires_in }
    }

    /// Closes the session: it is no longer active, and the wallets that it had unlocked stay
    /// unlocked only where another open session holds them.
    pub fn close_session(&mut self, session_id: SessionId) -> (r: Result<(), AppError>)
        ensures
            final(self).params == old(self).params,
            old(self).state@.sessions.contains_key(session_id@) ==> r is Ok && final(self).state@
                == without_session(old(self).state@, session_id@),
            !old(self).state@.sessions.contains_key(session_id@) ==> r == Err::<(), AppError>(
                AppError::SessionNotFound,
            ) && final(self).state@ == old(self).state@,
    {
        self.state.remove_session(&session_id)
    }

    /// Asks the worker for the value that the client stored in the wallet under `key`.
    pub fn get<P>(&self, session_id: SessionId, wallet_id: String, key: String) -> (r: Result<
        WorkerRequest<W, S, P>,
        AppError,
    >)
        ensures
            r == lookup_then::<W, S, P>(
                wallet_of(self.state@, session_id@, wallet_id@),
                |w: Arc<W>| WorkerRequest::Get { wallet: w, key },
            ),
    {
        let wallet = self.state.wallet(&session_id, &wallet_id)?;
        Ok(WorkerRequest::Get { wallet, key })
    }

    /// Asks the worker to store the client's value in the wallet under `key`, written as JSON.
    pub fn set<P>(&self, session_id: SessionId, wallet_id: String, key: String, value: &serde_json::Value) -> (r:
        Result<WorkerRequest<W, S, P>, AppError>)
        ensures
            match wallet_of(self.state@, session_id@, wallet_id@) {
                Err(e) => r == Err::<WorkerRequest<W, S, P>, AppError>(e),
                Ok(w) => (r matches Ok(req) && stores_value(req, w, key, *value)),
            },
            match r {
                Ok(WorkerRequest::SetValue { key: k, .. }) => k@ == key@,
                _ => true,
            },
    {
        let wallet = self.state.wallet(&session_id, &wallet_id)?;
        match write_json(value) {
            Ok(text) => Ok(WorkerRequest::SetValue { wallet, key, value: text }),
            Err(e) => Err(AppError::Internal(e.to_string())),
        }
    }

    /// Sends a transaction to the network through the node's inventory method.
    pub fn send_transaction<P>(&self, txn: P) -> (r: Result<NodeRequest<C, P>, AppError>)
        ensures
            match self.params.client {
                Some(client) => (r matches Ok(req) && req.client == client && req.method@ == "inventory"@
                    && req.timeout == self.params.requests_timeout && req.params == txn),
                None => r == Err::<NodeRequest<C, P>, AppError>(AppError::NodeNotConnected),
            },
    {
        match &self.params.client {
            Some(client) => Ok(
                NodeRequest {
                    client: share(client),
                    method: "inventory".to_owned(),
                    timeout: self.params.requests_timeout,
                    params: txn,
                },
            ),
            None => Err(AppError::NodeNotConnected),
        }
    }

    /// One request per unlocked wallet to index the block's transactions.
    fn index_requests<P>(&self, block: &BlockNotification<P>) -> (r: Vec<WorkerRequest<W, S, P>>)
        ensures
            indexes_every_wallet(r@, self.state@, *block),
            unlocked_ids(self.state@).finite(),
            r@.len() == unlocked_ids(self.state@).len(),
    {
        let wallets = self.state.wallets();
        let n = wallets.count();
        proof {
            assert(wallets@.dom() =~= unlocked_ids(self.state@));
        }
        let mut reqs: Vec<WorkerRequest<W, S, P>> = Vec::new();
        let mut i: usize = 0;
        while i < n
            invariant
                forall|k: Seq<char>| #[trigger] wallets@.contains_key(k) <==> is_unlocked(self.state@, k),
                forall|k: Seq<char>| #[trigger] wallets@.contains_key(k) ==> unlocked_as(self.state@, k, wallets@[k]),
                forall|k: Seq<char>| #[trigger] wallets@.contains_key(k) ==> wallets.keys().contains(k),
                forall|j: int| 0 <= j < n ==> wallets@.contains_key(#[trigger] wallets.keys()[j]),
                n == wallets.keys().len(),
                wallets.keys().no_duplicates(),
                i <= n,
                reqs@.len() == i,
                forall|j: int| 0 <= j < i ==> is_index_request(#[trigger] reqs@[j], self.state@, *block),
                forall|j: int| 0 <= j < i ==> index_key(#[trigger] reqs@[j]) == wallets.keys()[j],
            decreases n - i,
        {
            let (k, w) = wallets.entry(i);
            let hash = block.hash.clone();
            proof {
                assert(hash@ =~= block.hash@);
            }
            reqs.push(
                WorkerRequest::IndexTxns {
                    wallet_id: k.clone(),
                    wallet: share(w),
                    txns: share(&block.txns),
                    block: BlockInfo { epoch: block.epoch, hash },
                },
            );
            i = i + 1;
        }
        proof {
            assert forall|a: int, b: int|
                0 <= a < reqs@.len() && 0 <= b < reqs@.len() && a != b implies index_key(
                #[trigger] reqs@[a],
            ) != index_key(#[trigger] reqs@[b]) by {
                assert(wallets.keys()[a] != wallets.keys()[b]);
            }
            assert forall|k: Seq<char>| #[trigger] is_unlocked(self.state@, k) implies exists|j: int|
                0 <= j < reqs@.len() && index_key(#[trigger] reqs@[j]) == k by {
                assert(wallets@.contains_key(k));
                let j = choose|j: int| 0 <= j < wallets.keys().len() && wallets.keys()[j] == k;
                assert(index_key(reqs@[j]) == k);
            }
        }
        reqs
    }

    /// One request per unlocked wallet of each subscribed session to send the wallet's balance
    /// to the session's subscriber.
    fn balance_notifications<P>(&self) -> (r: Vec<WorkerRequest<W, S, P>>)
        ensures
            notifies_every_subscriber(r@, self.state@.sessions),
    {
        let sessions = self.state.sessions();
        let ghost view = self.state@.sessions;
        let m = sessions.count();
        let mut reqs: Vec<WorkerRequest<W, S, P>> = Vec::new();
        let ghost mut origin: Seq<int> = Seq::empty();
        let mut a: usize = 0;
        while a < m
            invariant
                sessions@.map_values(|s: Session<W, S>| s@) == view,
                m == sessions.keys().len(),
                sessions.keys().no_duplicates(),
                forall|x: int| 0 <= x < m ==> sessions@.contains_key(#[trigger] sessions.keys()[x]),
                a <= m,
                origin.len() == reqs@.len(),
                forall|j: int| 0 <= j < reqs@.len() ==> is_balance_notification(#[trigger] reqs@[j], view),
                forall|j: int|
                    0 <= j < reqs@.len() ==> 0 <= #[trigger] origin[j] < a && notify_key(reqs@[j]).0
                        == sessions.keys()[origin[j]],
                forall|i: int, j: int|
                    0 <= i < reqs@.len() && 0 <= j < reqs@.len() && i != j ==> notify_key(
                        #[trigger] reqs@[i],
                    ) != notify_key(#[trigger] reqs@[j]),
                forall|x: int, wid: Seq<char>|
                    0 <= x < a && #[trigger] to_be_notified(view, sessions.keys()[x], wid) ==> exists|
                        j: int,
                    | 0 <= j < reqs@.len() && notify_key(#[trigger] reqs@[j]) == (sessions.keys()[x], wid),
            decreases m - a,
        {
            let (sid, session) = sessions.entry(a);
            proof {
                assert(view[sid@] == session@);
            }
            match session.subscription() {
                None => {},
                Some(sink) => {
                    let session_wallets = session.wallets();
                    let c = session_wallets.count();
                    let ghost before = reqs@.len();
                    let mut b: usize = 0;
                    while b < c
                        invariant
                            sessions@.map_values(|s: Session<W, S>| s@) == view,
                            m == sessions.keys().len(),
                            sessions.keys().no_duplicates(),
                            forall|x: int| 0 <= x < m ==> sessions@.contains_key(#[trigger] sessions.keys()[x]),
                            a < m,
                            sid@ == sessions.keys()[a as int],
                            view[sid@] == session@,
                            session@.subscription == Some(*sink),
                            session_wallets@ == session@.wallets,
                            c == session_wallets.keys().len(),
                            session_wallets.keys().no_duplicates(),
                            b <= c,
                            before <= reqs@.len(),
                            reqs@.len() == before + b,
                            origin.len() == reqs@.len(),
                            forall|j: int| 0 <= j < reqs@.len() ==> is_balance_notification(#[trigger] reqs@[j], view),
                            forall|j: int|
                                0 <= j < before ==> 0 <= #[trigger] origin[j] < a && notify_key(reqs@[j]).0
                                    == sessions.keys()[origin[j]],
                            forall|j: int|
                                before <= j < reqs@.len() ==> #[trigger] origin[j] == a && notify_key(reqs@[j])
                                    == (sid@, session_wallets.keys()[j - before]),
                            forall|i: int, j: int|
                                0 <= i < reqs@.len() && 0 <= j < reqs@.len() && i != j ==> notify_key(
                                    #[trigger] reqs@[i],
                                ) != notify_key(#[trigger] reqs@[j]),
                            forall|x: int, wid: Seq<char>|
                                0 <= x < a && #[trigger] to_be_notified(view, sessions.keys()[x], wid) ==> exists|
                                    j: int,
                                | 0 <= j < reqs@.len() && notify_key(#[trigger] reqs@[j]) == (sessions.keys()[x], wid),
                        decreases c - b,
                    {
                        let (wid, w) = session_wallets.entry(b);
                        let ghost old_reqs = reqs@;
                        reqs.push(
                            WorkerRequest::NotifyBalance {
                                session_id: sid.clone(),
                                wallet_id: wid.clone(),
                                wallet: share(w),
                                sink: share(sink),
                            },
                        );
                        proof {
                            let old_origin = origin;
                            origin = origin.push(a as int);
                            let last = reqs@.len() - 1;
                            assert(notify_key(reqs@[last]) == (sid@, wid@));
                            assert forall|i: int, j: int|
                                0 <= i < reqs@.len() && 0 <= j < reqs@.len() && i != j implies notify_key(
                                    #[trigger] reqs@[i],
                                ) != notify_key(#[trigger] reqs@[j]) by {
                                if i == last || j == last {
                                    let o = if i == last { j } else { i };
                                    assert(reqs@[o] == old_reqs[o]);
                                    assert(origin[o] == old_origin[o]);
                                    if o < before {
                                        assert(old_origin[o] < a);
                                        assert(sessions.keys()[origin[o]] != sessions.keys()[a as int]);
                                    } else {
                                        assert(old_origin[o] == a);
                                        assert(session_wallets.keys()[o - before] != session_wallets.keys()[b as int]);
                                    }
                                } else {
                                    assert(reqs@[i] == old_reqs[i]);
                                    assert(reqs@[j] == old_reqs[j]);
                                }
                            }
                            assert forall|x: int, wid2: Seq<char>|
                                0 <= x < a && #[trigger] to_be_notified(view, sessions.keys()[x], wid2) implies exists|
                                    j: int,
                                | 0 <= j < reqs@.len() && notify_key(#[trigger] reqs@[j]) == (sessions.keys()[x], wid2) by {
                                let j = choose|j: int|
                                    0 <= j < old_reqs.len() && notify_key(#[trigger] old_reqs[j]) == (sessions.keys()[x], wid2);
                                assert(reqs@[j] == old_reqs[j]);
                            }
                            assert forall|j: int| before <= j < reqs@.len() implies #[trigger] origin[j] == a
                                && notify_key(reqs@[j]) == (sid@, session_wallets.keys()[j - before]) by {
                                if j < last {
                                    assert(reqs@[j] == old_reqs[j]);
                                    assert(origin[j] == old_origin[j]);
                                }
                            }
                        }
                        b = b + 1;
                    }
                    proof {
                        assert forall|wid2: Seq<char>| #[trigger] to_be_notified(view, sessions.keys()[a as int], wid2) implies exists|
                            j: int,
                        | 0 <= j < reqs@.len() && notify_key(#[trigger] reqs@[j]) == (sessions.keys()[a as int], wid2) by {
                            assert(session_wallets@.contains_key(wid2));
                            let y = choose|y: int| 0 <= y < session_wallets.keys().len() && session_wallets.keys()[y] == wid2;
                            assert(origin[before + y] == a);
                            assert(notify_key(reqs@[before + y]) == (sid@, wid2));
                        }
                    }
                },
            }
            proof {
                assert forall|x: int, wid2: Seq<char>|
                    0 <= x < a + 1 && #[trigger] to_be_notified(view, sessions.keys()[x], wid2) implies exists|
                        j: int,
                    | 0 <= j < reqs@.len() && notify_key(#[trigger] reqs@[j]) == (sessions.keys()[x], wid2) by {
                    if x == a {
                        assert(view[sid@].subscription is Some);
                    }
                }
            }
            a = a + 1;
        }
        proof {
            assert forall|sid: Seq<char>, wid: Seq<char>|
                #[trigger] to_be_notified(view, sid, wid) implies exists|j: int|
                    0 <= j < reqs@.len() && notify_key(#[trigger] reqs@[j]) == (sid, wid) by {
                assert(sessions@.contains_key(sid));
                let x = choose|x: int| 0 <= x < sessions.keys().len() && sessions.keys()[x] == sid;
                assert(to_be_notified(view, sessions.keys()[x], wid));
            }
        }
        reqs
    }

    /// What a block that the node announces sets going: first one request per unlocked wallet
    /// to index the block's transactions, then one per wallet of each subscribed session to
    /// send its balance to the subscriber. A notification that could not be read as a block
    /// is a node error.
    pub fn handle_block_notification<P>(&self, block: Result<BlockNotification<P>, NodeError>) -> (r: Result<
        (Vec<WorkerRequest<W, S, P>>, Vec<WorkerRequest<W, S, P>>),
        AppError,
    >)
        ensures
            match block {
                Err(e) => r == Err::<(Vec<WorkerRequest<W, S, P>>, Vec<WorkerRequest<W, S, P>>), AppError>(
                    node_error_spec(e),
                ),
                Ok(b) => (r matches Ok((index, notify)) && indexes_every_wallet(index@, self.state@, b)
                    && unlocked_ids(self.state@).finite() && index@.len() == unlocked_ids(self.state@).len()
                    && notifies_every_subscriber(notify@, self.state@.sessions)),
            },
    {
        let block = match block {
            Ok(b) => b,
            Err(e) => {
                return Err(AppError::from(e));
            },
        };
        let index = self.index_requests(&block);
        let notify = self.balance_notifications();
        Ok((index, notify))
    }

    /// Asks the worker for a transaction that the wallet built, to send it to the network.
    pub fn send_vtt<P>(&self, session_id: &SessionId, wallet_id: &String, transaction_hash: String) -> (r:
        Result<WorkerRequest<W, S, P>, AppError>)
        ensures
            r == lookup_then::<W, S, P>(
                wallet_of(self.state@, session_id@, wallet_id@),
                |w: Arc<W>| WorkerRequest::GetTransaction { wallet: w, transaction_hash },
            ),
    {
        let wallet = self.state.wallet(session_id, wallet_id)?;
        Ok(WorkerRequest::GetTransaction { wallet, transaction_hash })
    }

    /// Asks the worker for a data request that the wallet built, to send it to the network.
    pub fn send_data_req<P>(&self, session_id: &SessionId, wallet_id: &String, transaction_hash: String) -> (r:
        Result<WorkerRequest<W, S, P>, AppError>)
        ensures
            r == lookup_then::<W, S, P>(
                wallet_of(self.state@, session_id@, wallet_id@),
                |w: Arc<W>| WorkerRequest::GetTransaction { wallet: w, transaction_hash },
            ),
    {
        let wallet = self.state.wallet(session_id, wallet_id)?;
        Ok(WorkerRequest::GetTransaction { wallet, transaction_hash })
    }

    /// The answer to a request for a stored transaction: a transaction that was found is sent
    /// to the network; one that was not is refused on the `transactionId` field.
    pub fn send_stored_transaction<P>(&self, reply: Result<Option<P>, WorkerError>) -> (r: Result<
        NodeRequest<C, P>,
        AppError,
    >)
        ensures
            match reply {
                Err(e) => r == Err::<NodeRequest<C, P>, AppError>(worker_error_spec(e)),
                Ok(None) => (r matches Err(AppError::Validation(f)) && f.field@ == "transactionId"@
                    && f.message@ == "Transaction not found"@),
                Ok(Some(txn)) => match self.params.client {
                    Some(client) => (r matches Ok(req) && req.client == client && req.method@
                        == "inventory"@ && req.timeout == self.params.requests_timeout && req.params
                        == txn),
                    None => r == Err::<NodeRequest<C, P>, AppError>(AppError::NodeNotConnected),
                },
            },
    {
        match reply {
            Err(e) => Err(AppError::from(e)),
            Ok(Some(txn)) => self.send_transaction(txn),
            Ok(None) => Err(field_error("transactionId", "Transaction not found")),
        }
    }
}

} // verus!
