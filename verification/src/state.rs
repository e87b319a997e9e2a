//! The application's memory of open sessions: which wallets each session has unlocked, and
//! which session listens for notifications. A wallet is unlocked while some open session
//! holds it.
use crate::registry::Registry;
use crate::types::{share, AppError, SessionId, SubscriptionId};
use std::sync::Arc;
use vstd::prelude::*;

verus! {

/// A session as the state sees it: its unlocked wallets and its subscriber, if any.
pub struct SessionView<W, S> {
    pub wallets: Map<Seq<char>, Arc<W>>,
    pub subscription: Option<Arc<S>>,
}

/// The whole state: the open sessions by identifier.
pub struct StateView<W, S> {
    pub sessions: Map<Seq<char>, SessionView<W, S>>,
}

/// One open session.
pub struct Session<W, S> {
    wallets: Registry<Arc<W>>,
    subscription: Option<Arc<S>>,
}

impl<W, S> View for Session<W, S> {
    type V = SessionView<W, S>;

    closed spec fn view(&self) -> SessionView<W, S> {
        SessionView { wallets: self.wallets@, subscription: self.subscription }
    }
}

/// The sessions and subscriptions of the application.
pub struct State<W, S> {
    sessions: Registry<Session<W, S>>,
}

impl<W, S> View for State<W, S> {
    type V = StateView<W, S>;

    closed spec fn view(&self) -> StateView<W, S> {
        StateView { sessions: self.sessions@.map_values(|s: Session<W, S>| s@) }
    }
}

/// The session `session_id` is open and holds the wallet `wallet_id` unlocked.
pub open spec fn unlocked_in<W, S>(v: StateView<W, S>, session_id: Seq<char>, wallet_id: Seq<char>) -> bool {
    v.sessions.contains_key(session_id) && v.sessions[session_id].wallets.contains_key(wallet_id)
}

/// Some open session holds the wallet `wallet_id` unlocked.
pub open spec fn is_unlocked<W, S>(v: StateView<W, S>, wallet_id: Seq<char>) -> bool {
    exists|session_id: Seq<char>| #[trigger] unlocked_in(v, session_id, wallet_id)
}

/// The identifiers of the wallets that some open session holds unlocked.
pub open spec fn unlocked_ids<W, S>(v: StateView<W, S>) -> Set<Seq<char>> {
    Set::new(|k: Seq<char>| is_unlocked(v, k))
}

/// The session `session_id` is open and holds `wallet` unlocked under `wallet_id`.
pub open spec fn holds_wallet<W, S>(
    v: StateView<W, S>,
    session_id: Seq<char>,
    wallet_id: Seq<char>,
    wallet: Arc<W>,
) -> bool {
    unlocked_in(v, session_id, wallet_id) && v.sessions[session_id].wallets[wallet_id] == wallet
}

/// Some open session holds `wallet` unlocked under `wallet_id`.
pub open spec fn unlocked_as<W, S>(v: StateView<W, S>, wallet_id: Seq<char>, wallet: Arc<W>) -> bool {
    exists|session_id: Seq<char>| #[trigger] holds_wallet(v, session_id, wallet_id, wallet)
}

/// The wallet that a session has unlocked under `wallet_id`, or why there is none.
pub open spec fn wallet_of<W, S>(v: StateView<W, S>, session_id: Seq<char>, wallet_id: Seq<char>) -> Result<
    Arc<W>,
    AppError,
> {
    if !v.sessions.contains_key(session_id) {
        Err(AppError::SessionNotFound)
    } else if !v.sessions[session_id].wallets.contains_key(wallet_id) {
        Err(AppError::WalletNotFound)
    } else {
        Ok(v.sessions[session_id].wallets[wallet_id])
    }
}

/// The state after `sink` has become the subscriber of an open session.
pub open spec fn subscribed<W, S>(v: StateView<W, S>, session_id: Seq<char>, sink: Arc<S>) -> StateView<
    W,
    S,
> {
    StateView {
        sessions: v.sessions.insert(
            session_id,
            SessionView { wallets: v.sessions[session_id].wallets, subscription: Some(sink) },
        ),
    }
}

/// The state after an open session has lost its subscriber.
pub open spec fn unsubscribed<W, S>(v: StateView<W, S>, session_id: Seq<char>) -> StateView<W, S> {
    StateView {
        sessions: v.sessions.insert(
            session_id,
            SessionView { wallets: v.sessions[session_id].wallets, subscription: None },
        ),
    }
}

/// The state after `wallet` has been unlocked under `wallet_id` in the session `session_id`,
/// which is opened if it was not.
pub open spec fn with_session<W, S>(
    v: StateView<W, S>,
    session_id: Seq<char>,
    wallet_id: Seq<char>,
    wallet: Arc<W>,
) -> StateView<W, S> {
    let session = if v.sessions.contains_key(session_id) {
        v.sessions[session_id]
    } else {
        SessionView { wallets: Map::empty(), subscription: None }
    };
    StateView {
        sessions: v.sessions.insert(
            session_id,
            SessionView { wallets: session.wallets.insert(wallet_id, wallet), subscription: session.subscription },
        ),
    }
}

/// The state after an open session has been closed, with the wallets that it had unlocked.
pub open spec fn without_session<W, S>(v: StateView<W, S>, session_id: Seq<char>) -> StateView<W, S> {
    StateView { sessions: v.sessions.remove(session_id) }
}

/// The state of a newly started application: no session and no unlocked wallet.
pub open spec fn empty_state<W, S>() -> StateView<W, S> {
    StateView { sessions: Map::empty() }
}

impl<W, S> State<W, S> {
    /// A state with no session and no unlocked wallet.
    pub fn new() -> (r: Self)
        ensures
            r@ == empty_state::<W, S>(),
    {
        let r = State { sessions: Registry::new() };
        assert(r@.sessions =~= Map::<Seq<char>, SessionView<W, S>>::empty());
        r
    }

    /// The open sessions, by identifier.
    pub fn sessions(&self) -> (r: &Registry<Session<W, S>>)
        ensures
            r@.map_values(|s: Session<W, S>| s@) == self@.sessions,
    {
        &self.sessions
    }

    /// The unlocked wallets: each wallet that some open session holds, once, by identifier.
    pub fn wallets(&self) -> (r: Registry<Arc<W>>)
        ensures
            forall|k: Seq<char>| #[trigger] r@.contains_key(k) <==> is_unlocked(self@, k),
            forall|k: Seq<char>| #[trigger] r@.contains_key(k) ==> unlocked_as(self@, k, r@[k]),
    {
        let sessions = &self.sessions;
        let ghost view = self@;
        let m = sessions.count();
        let mut r: Registry<Arc<W>> = Registry::new();
        let ghost mut origin: Map<Seq<char>, Seq<char>> = Map::empty();
        let mut a: usize = 0;
        while a < m
            invariant
                sessions@.map_values(|s: Session<W, S>| s@) == view.sessions,
                m == sessions.keys().len(),
                forall|x: int| 0 <= x < m ==> sessions@.contains_key(#[trigger] sessions.keys()[x]),
                forall|k: Seq<char>| #[trigger] sessions@.contains_key(k) ==> sessions.keys().contains(k),
                a <= m,
                forall|k: Seq<char>|
                    #[trigger] r@.contains_key(k) ==> origin.contains_key(k) && holds_wallet(
                        view,
                        origin[k],
                        k,
                        r@[k],
                    ),
                forall|x: int, k: Seq<char>|
                    0 <= x < a && #[trigger] unlocked_in(view, sessions.keys()[x], k) ==> r@.contains_key(k),
            decreases m - a,
        {
            let (sid, session) = sessions.entry(a);
            let session_wallets = session.wallets();
            let c = session_wallets.count();
            let mut b: usize = 0;
            while b < c
                invariant
                    sessions@.map_values(|s: Session<W, S>| s@) == view.sessions,
                    m == sessions.keys().len(),
                    a < m,
                    sid@ == sessions.keys()[a as int],
                    sessions@.contains_key(sid@),
                    view.sessions[sid@] == session@,
                    session_wallets@ == session@.wallets,
                    c == session_wallets.keys().len(),
                    forall|y: int|
                        0 <= y < c ==> session_wallets@.contains_key(#[trigger] session_wallets.keys()[y]),
                    b <= c,
                    forall|k: Seq<char>|
                        #[trigger] r@.contains_key(k) ==> origin.contains_key(k) && holds_wallet(
                            view,
                            origin[k],
                            k,
                            r@[k],
                        ),
                    forall|x: int, k: Seq<char>|
                        0 <= x < a && #[trigger] unlocked_in(view, sessions.keys()[x], k) ==> r@.contains_key(k),
                    forall|y: int| 0 <= y < b ==> r@.contains_key(#[trigger] session_wallets.keys()[y]),
                decreases c - b,
            {
                let (wid, w) = session_wallets.entry(b);
                r.insert(wid.clone(), share(w));
                proof {
                    origin = origin.insert(wid@, sid@);
                    assert(holds_wallet(view, sid@, wid@, *w));
                }
                b = b + 1;
            }
            proof {
                assert forall|x: int, k: Seq<char>|
                    0 <= x < a + 1 && #[trigger] unlocked_in(view, sessions.keys()[x], k) implies r@.contains_key(k) by {
                    if x == a {
                        assert(session_wallets@.contains_key(k));
                        let y = choose|y: int| 0 <= y < session_wallets.keys().len() && session_wallets.keys()[y] == k;
                        assert(r@.contains_key(session_wallets.keys()[y]));
                    }
                }
            }
            a = a + 1;
        }
        proof {
            assert forall|k: Seq<char>| #[trigger] r@.contains_key(k) implies is_unlocked(self@, k)
                && unlocked_as(self@, k, r@[k]) by {
                assert(holds_wallet(view, origin[k], k, r@[k]));
                assert(unlocked_in(view, origin[k], k));
            }
            assert forall|k: Seq<char>| is_unlocked(self@, k) implies #[trigger] r@.contains_key(k) by {
                let sid = choose|sid: Seq<char>| #[trigger] unlocked_in(view, sid, k);
                assert(sessions@.contains_key(sid));
                let x = choose|x: int| 0 <= x < sessions.keys().len() && sessions.keys()[x] == sid;
                assert(unlocked_in(view, sessions.keys()[x], k));
            }
        }
        r
    }

    /// Whether a session with this identifier is open.
    pub fn is_session_active(&self, session_id: &SessionId) -> (r: bool)
        ensures
            r == self@.sessions.contains_key(session_id@),
    {
        self.sessions.contains_key(&session_id.0)
    }

    /// The wallet that the session has unlocked under `wallet_id`.
    pub fn wallet(&self, session_id: &SessionId, wallet_id: &String) -> (r: Result<Arc<W>, AppError>)
        ensures
            r == wallet_of(self@, session_id@, wallet_id@),
    {
        match self.sessions.get(&session_id.0) {
            None => Err(AppError::SessionNotFound),
            Some(session) => match session.wallets.get(wallet_id) {
                None => Err(AppError::WalletNotFound),
                Some(w) => Ok(share(w)),
            },
        }
    }

    /// Makes `sink` the subscriber of the session, in place of any earlier one.
    pub fn subscribe(&mut self, session_id: &SessionId, sink: Arc<S>) -> (r: Result<(), AppError>)
        ensures
            old(self)@.sessions.contains_key(session_id@) ==> r is Ok && final(self)@ == subscribed(
                old(self)@,
                session_id@,
                sink,
            ),
            !old(self)@.sessions.contains_key(session_id@) ==> r == Err::<(), AppError>(
                AppError::SessionNotFound,
            ) && final(self)@ == old(self)@,
    {
        match self.sessions.remove(&session_id.0) {
            None => Err(AppError::SessionNotFound),
            Some(session) => {
                let session = Session { wallets: session.wallets, subscription: Some(sink) };
                self.sessions.insert(session_id.0.clone(), session);
                proof {
                    assert(self@.sessions =~= subscribed(old(self)@, session_id@, sink).sessions);
                }
                Ok(())
            },
        }
    }

    /// Drops the subscriber of the session that the subscription identifier names.
    pub fn unsubscribe(&mut self, id: &SubscriptionId) -> (r: Result<(), AppError>)
        ensures
            match id {
                SubscriptionId::String(s) => if old(self)@.sessions.contains_key(s@) {
                    r is Ok && final(self)@ == unsubscribed(old(self)@, s@)
                } else {
                    r == Err::<(), AppError>(AppError::SessionNotFound) && final(self)@ == old(self)@
                },
                SubscriptionId::Number(_) => r == Err::<(), AppError>(AppError::SessionNotFound)
                    && final(self)@ == old(self)@,
            },
    {
        match id {
            SubscriptionId::Number(_) => Err(AppError::SessionNotFound),
            SubscriptionId::String(s) => match self.sessions.remove(s) {
                None => Err(AppError::SessionNotFound),
                Some(session) => {
                    let session = Session { wallets: session.wallets, subscription: None };
                    self.sessions.insert(s.clone(), session);
                    proof {
                        assert(self@.sessions =~= unsubscribed(old(self)@, s@).sessions);
                    }
                    Ok(())
                },
            },
        }
    }

    /// Records that `wallet` was unlocked under `wallet_id` in the session, which is opened
    /// if it was not.
    pub fn create_session(&mut self, session_id: SessionId, wallet_id: String, wallet: Arc<W>)
        ensures
            final(self)@ == with_session(old(self)@, session_id@, wallet_id@, wallet),
    {
        let session = match self.sessions.remove(&session_id.0) {
            Some(s) => s,
            None => Session { wallets: Registry::new(), subscription: None },
        };
        let mut session_wallets = session.wallets;
        session_wallets.insert(wallet_id, wallet);
        let session = Session { wallets: session_wallets, subscription: session.subscription };
        self.sessions.insert(session_id.0, session);
        proof {
            assert(self@.sessions =~= with_session(old(self)@, session_id@, wallet_id@, wallet).sessions);
        }
    }

    /// Closes the session; the wallets that it had unlocked stay unlocked only where another
    /// session holds them.
    pub fn remove_session(&mut self, session_id: &SessionId) -> (r: Result<(), AppError>)
        ensures
            old(self)@.sessions.contains_key(session_id@) ==> r is Ok && final(self)@
                == without_session(old(self)@, session_id@),
            !old(self)@.sessions.contains_key(session_id@) ==> r == Err::<(), AppError>(
                AppError::SessionNotFound,
            ) && final(self)@ == old(self)@,
    {
        match self.sessions.remove(&session_id.0) {
            None => Err(AppError::SessionNotFound),
            Some(_) => {
                proof {
                    assert(self@.sessions =~= without_session(old(self)@, session_id@).sessions);
                }
                Ok(())
            },
        }
    }
}

impl<W, S> Session<W, S> {
    /// The wallets that the session has unlocked, by identifier.
    pub fn wallets(&self) -> (r: &Registry<Arc<W>>)
        ensures
            r@ == self@.wallets,
    {
        &self.wallets
    }

    /// The session's subscriber, if it has one.
    pub fn subscription(&self) -> (r: &Option<Arc<S>>)
        ensures
            *r == self@.subscription,
    {
        &self.subscription
    }
}

} // verus!
