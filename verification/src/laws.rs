//! What holds across calls on the application, stated over the views that the calls'
//! contracts use.
use crate::app::{reads_stored, stores_value, to_be_notified};
use crate::json::{is_json_text, json_text_of, json_value_of};
use crate::types::{WorkerError, WorkerRequest};
use crate::state::{
    empty_state, is_unlocked, subscribed, unlocked_in, unsubscribed, wallet_of, with_session,
    without_session, StateView,
};
use crate::types::AppError;
use std::sync::Arc;
use vstd::prelude::*;

verus! {

/// A newly started application knows no session: every call on a session's wallet fails
/// with `SessionNotFound`.
pub proof fn lemma_no_session_at_start<W, S>(session_id: Seq<char>, wallet_id: Seq<char>)
    ensures
        !empty_state::<W, S>().sessions.contains_key(session_id),
        wallet_of(empty_state::<W, S>(), session_id, wallet_id) == Err::<Arc<W>, AppError>(
            AppError::SessionNotFound,
        ),
{
}

/// Once a wallet is unlocked in a session, the session is active, the calls on that wallet
/// in that session find exactly that wallet, and the wallet is indexed when a block comes.
/// The other sessions are as they were.
pub proof fn lemma_unlocked_wallet_is_found<W, S>(
    v: StateView<W, S>,
    session_id: Seq<char>,
    wallet_id: Seq<char>,
    wallet: Arc<W>,
)
    ensures
        with_session(v, session_id, wallet_id, wallet).sessions.contains_key(session_id),
        wallet_of(with_session(v, session_id, wallet_id, wallet), session_id, wallet_id) == Ok::<
            Arc<W>,
            AppError,
        >(wallet),
        is_unlocked(with_session(v, session_id, wallet_id, wallet), wallet_id),
        forall|other: Seq<char>|
            other != session_id ==> #[trigger] with_session(v, session_id, wallet_id, wallet).sessions.contains_key(other)
                == v.sessions.contains_key(other) && with_session(v, session_id, wallet_id, wallet).sessions[other]
                == v.sessions[other],
{
    assert(unlocked_in(with_session(v, session_id, wallet_id, wallet), session_id, wallet_id));
}

/// Unlocking a wallet in a session keeps the other wallets that the session had unlocked;
/// a session that it opens has no other wallet.
pub proof fn lemma_unlocking_keeps_other_wallets<W, S>(
    v: StateView<W, S>,
    session_id: Seq<char>,
    wallet_id: Seq<char>,
    wallet: Arc<W>,
    other_wallet: Seq<char>,
)
    requires
        other_wallet != wallet_id,
    ensures
        v.sessions.contains_key(session_id) ==> wallet_of(
            with_session(v, session_id, wallet_id, wallet),
            session_id,
            other_wallet,
        ) == wallet_of(v, session_id, other_wallet),
        !v.sessions.contains_key(session_id) ==> wallet_of(
            with_session(v, session_id, wallet_id, wallet),
            session_id,
            other_wallet,
        ) == Err::<Arc<W>, AppError>(AppError::WalletNotFound),
{
}

/// Once a wallet is locked in an active session, the session is closed: every call on it
/// fails with `SessionNotFound`, that wallet among them. The wallet stays indexed when a
/// block comes only where another open session holds it unlocked; every wallet of the
/// session fares the same. The other sessions are as they were.
pub proof fn lemma_lock_closes_the_session<W, S>(
    v: StateView<W, S>,
    session_id: Seq<char>,
    wallet_id: Seq<char>,
)
    requires
        v.sessions.contains_key(session_id),
    ensures
        !without_session(v, session_id).sessions.contains_key(session_id),
        forall|wid: Seq<char>|
            #[trigger] wallet_of(without_session(v, session_id), session_id, wid) == Err::<
                Arc<W>,
                AppError,
            >(AppError::SessionNotFound),
        wallet_of(without_session(v, session_id), session_id, wallet_id) == Err::<Arc<W>, AppError>(
            AppError::SessionNotFound,
        ),
        forall|sid: Seq<char>, wid: Seq<char>|
            #[trigger] unlocked_in(without_session(v, session_id), sid, wid) == (sid != session_id
                && unlocked_in(v, sid, wid)),
        is_unlocked(without_session(v, session_id), wallet_id) <==> exists|sid: Seq<char>|
            sid != session_id && #[trigger] unlocked_in(v, sid, wallet_id),
        forall|other: Seq<char>|
            other != session_id ==> #[trigger] without_session(v, session_id).sessions.contains_key(other)
                == v.sessions.contains_key(other) && without_session(v, session_id).sessions[other]
                == v.sessions[other],
{
    let after = without_session(v, session_id);
    if is_unlocked(after, wallet_id) {
        let sid = choose|sid: Seq<char>| #[trigger] unlocked_in(after, sid, wallet_id);
        assert(sid != session_id && unlocked_in(v, sid, wallet_id));
    }
    if exists|sid: Seq<char>| sid != session_id && #[trigger] unlocked_in(v, sid, wallet_id) {
        let sid = choose|sid: Seq<char>| sid != session_id && #[trigger] unlocked_in(v, sid, wallet_id);
        assert(unlocked_in(after, sid, wallet_id));
    }
}

/// Closing a session closes it the same way; closing it again fails.
pub proof fn lemma_closed_session_is_forgotten<W, S>(v: StateView<W, S>, session_id: Seq<char>)
    requires
        v.sessions.contains_key(session_id),
    ensures
        !without_session(v, session_id).sessions.contains_key(session_id),
        forall|wallet_id: Seq<char>|
            #[trigger] wallet_of(without_session(v, session_id), session_id, wallet_id) == Err::<
                Arc<W>,
                AppError,
            >(AppError::SessionNotFound),
        forall|sid: Seq<char>, wid: Seq<char>|
            #[trigger] unlocked_in(without_session(v, session_id), sid, wid) == (sid != session_id
                && unlocked_in(v, sid, wid)),
        forall|other: Seq<char>|
            other != session_id ==> #[trigger] without_session(v, session_id).sessions.contains_key(other)
                == v.sessions.contains_key(other) && without_session(v, session_id).sessions[other]
                == v.sessions[other],
{
}

/// After a subscription to an active session, the subscriber hears of the balance of every
/// wallet that the session has unlocked; after the subscription is dropped, of none.
pub proof fn lemma_subscriber_hears_of_every_wallet<W, S>(
    v: StateView<W, S>,
    session_id: Seq<char>,
    sink: Arc<S>,
    wallet_id: Seq<char>,
)
    requires
        v.sessions.contains_key(session_id),
        v.sessions[session_id].wallets.contains_key(wallet_id),
    ensures
        to_be_notified(subscribed(v, session_id, sink).sessions, session_id, wallet_id),
        subscribed(v, session_id, sink).sessions[session_id].subscription == Some(sink),
        !to_be_notified(unsubscribed(v, session_id).sessions, session_id, wallet_id),
{
}

/// A subscription dropped under the identifier that it was given (the session's own) leaves
/// the session as if it had never been subscribed to.
pub proof fn lemma_unsubscribe_undoes_subscribe<W, S>(
    v: StateView<W, S>,
    session_id: Seq<char>,
    sink: Arc<S>,
)
    requires
        v.sessions.contains_key(session_id),
    ensures
        unsubscribed(subscribed(v, session_id, sink), session_id) == unsubscribed(v, session_id),
        v.sessions[session_id].subscription is None ==> unsubscribed(
            subscribed(v, session_id, sink),
            session_id,
        ) == v,
{
    assert(unsubscribed(subscribed(v, session_id, sink), session_id).sessions =~= unsubscribed(
        v,
        session_id,
    ).sessions);
    if v.sessions[session_id].subscription is None {
        assert(unsubscribed(v, session_id).sessions =~= v.sessions);
    }
}

/// Subscribing and unsubscribing change no wallet: the calls on every wallet of every session
/// find what they found before.
pub proof fn lemma_subscriptions_leave_wallets<W, S>(
    v: StateView<W, S>,
    session_id: Seq<char>,
    sink: Arc<S>,
    sid: Seq<char>,
    wallet_id: Seq<char>,
)
    requires
        v.sessions.contains_key(session_id),
    ensures
        wallet_of(subscribed(v, session_id, sink), sid, wallet_id) == wallet_of(v, sid, wallet_id),
        wallet_of(unsubscribed(v, session_id), sid, wallet_id) == wallet_of(v, sid, wallet_id),
        unlocked_in(subscribed(v, session_id, sink), sid, wallet_id) == unlocked_in(v, sid, wallet_id),
        unlocked_in(unsubscribed(v, session_id), sid, wallet_id) == unlocked_in(v, sid, wallet_id),
{
}

/// A value stored through `set` and handed back by the worker as it was stored is read back
/// as the value that `serde_json` reads from the text it wrote for it, provided that text
/// reads as JSON (`serde_json` does not read back texts nested deeper than its recursion
/// limit).
pub proof fn lemma_value_set_reads_back<W, S, P>(
    req: WorkerRequest<W, S, P>,
    wallet: Arc<W>,
    key: String,
    value: serde_json::Value,
    stored: String,
    r: Result<Option<serde_json::Value>, AppError>,
)
    requires
        stores_value(req, wallet, key, value),
        req matches WorkerRequest::SetValue { value: t, .. } && t == stored,
        is_json_text(json_text_of(value)),
        reads_stored(Ok::<Option<String>, WorkerError>(Some(stored)), r),
    ensures
        r == Ok::<Option<serde_json::Value>, AppError>(Some(json_value_of(json_text_of(value)))),
{
}

/// Unlocking a wallet in an open session keeps the session's subscriber; a session that the
/// unlock opens has none.
pub proof fn lemma_unlocking_keeps_the_subscriber<W, S>(
    v: StateView<W, S>,
    session_id: Seq<char>,
    wallet_id: Seq<char>,
    wallet: Arc<W>,
)
    ensures
        v.sessions.contains_key(session_id) ==> with_session(
            v,
            session_id,
            wallet_id,
            wallet,
        ).sessions[session_id].subscription == v.sessions[session_id].subscription,
        !v.sessions.contains_key(session_id) ==> with_session(
            v,
            session_id,
            wallet_id,
            wallet,
        ).sessions[session_id].subscription is None,
{
}

/// After a client subscribes to its session, a wallet that it unlocks later in the session
/// joins the wallets it already had, and the subscriber hears of the balance of each of them.
pub proof fn lemma_subscriber_hears_of_later_wallets<W, S>(
    v: StateView<W, S>,
    session_id: Seq<char>,
    sink: Arc<S>,
    wallet_id: Seq<char>,
    wallet: Arc<W>,
)
    requires
        v.sessions.contains_key(session_id),
    ensures
        with_session(subscribed(v, session_id, sink), session_id, wallet_id, wallet).sessions[session_id].subscription
            == Some(sink),
        forall|wid: Seq<char>|
            #[trigger] with_session(
                subscribed(v, session_id, sink),
                session_id,
                wallet_id,
                wallet,
            ).sessions[session_id].wallets.contains_key(wid) <==> (wid == wallet_id
                || v.sessions[session_id].wallets.contains_key(wid)),
        forall|wid: Seq<char>|
            wid == wallet_id || v.sessions[session_id].wallets.contains_key(wid) ==> #[trigger] to_be_notified(
                with_session(subscribed(v, session_id, sink), session_id, wallet_id, wallet).sessions,
                session_id,
                wid,
            ),
{
}

/// `set` asks the worker to store the value in the very wallet that the session holds under
/// the given identifier, under exactly the caller's key, and `get` with the same session,
/// wallet and key asks the worker for that same wallet and that same key.
pub proof fn lemma_get_reads_where_set_stores<W, S, P>(
    v: StateView<W, S>,
    session_id: Seq<char>,
    wallet_id: Seq<char>,
    key: String,
    value: serde_json::Value,
    set_req: WorkerRequest<W, S, P>,
    get_req: WorkerRequest<W, S, P>,
)
    requires
        wallet_of(v, session_id, wallet_id) is Ok,
        stores_value(set_req, wallet_of(v, session_id, wallet_id)->Ok_0, key, value),
        get_req == (WorkerRequest::<W, S, P>::Get {
            wallet: wallet_of(v, session_id, wallet_id)->Ok_0,
            key,
        }),
    ensures
        set_req matches WorkerRequest::SetValue { wallet: w1, key: k1, .. } && get_req matches WorkerRequest::Get {
            wallet: w2,
            key: k2,
        } && w1 == w2 && w1 == v.sessions[session_id].wallets[wallet_id] && k1@ == key@ && k2@ == key@,
{
}

} // verus!
