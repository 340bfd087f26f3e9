//! The per-connection session: the authentication handshake and inbound
//! dispatch as a state machine. Each step takes the session and one event and
//! returns the actions the surroundings must perform, in order: resolving a
//! token against the credential store, touching the registry, starting or
//! joining the forwarder, and queueing outbound envelopes. The laws at the end
//! pin the handshake and cleanup behaviour over whole traces.

use vstd::prelude::*;
use crate::models::{User, UserV};
use crate::error::{Error, ErrorV};
use crate::ws::{WsMessage, WsMessageV, AuthenticateV, ws_decode};
use crate::registry::dereg;

verus! {

broadcast use {vstd::std_specs::vec::group_vec_axioms, vstd::seq::group_seq_axioms};

/// The states one connection passes through. `Closed` is terminal and is
/// reachable from every state.
#[derive(Debug, Clone, Copy, PartialEq, Eq, Structural)]
pub enum SessionState {
    Connecting,
    AwaitingAuth,
    Active,
    Closed,
}

/// What the identity resolver reported for a token. A credential-store
/// failure is distinct from an unknown token: callers react differently.
#[derive(Debug)]
pub enum Resolution {
    Identity(User),
    NoMatch,
    StoreFailure,
}

pub enum ResolutionV {
    Identity(UserV),
    NoMatch,
    StoreFailure,
}

impl View for Resolution {
    type V = ResolutionV;

    open spec fn view(&self) -> ResolutionV {
        match self {
            Resolution::Identity(u) => ResolutionV::Identity(u@),
            Resolution::NoMatch => ResolutionV::NoMatch,
            Resolution::StoreFailure => ResolutionV::StoreFailure,
        }
    }
}

/// One inbound socket event: a text frame, any non-text frame, or the close
/// of the connection (by close frame or by socket error).
#[derive(Debug)]
pub enum Frame {
    Text(String),
    NonText,
    ConnectionClosed,
}

pub enum FrameV {
    Text(Seq<char>),
    NonText,
    ConnectionClosed,
}

impl View for Frame {
    type V = FrameV;

    open spec fn view(&self) -> FrameV {
        match self {
            Frame::Text(t) => FrameV::Text(t@),
            Frame::NonText => FrameV::NonText,
            Frame::ConnectionClosed => FrameV::ConnectionClosed,
        }
    }
}

/// What the session asks its surroundings to do, in the order given.
#[derive(Debug)]
pub enum Action {
    /// Look this token up in the credential store, then report the outcome.
    Resolve(String),
    /// Bind this identity to this connection's handle in the registry.
    Register(String, u64),
    /// Start the outbound forwarder for this connection.
    StartForwarder,
    /// Queue one envelope for delivery to this client.
    Send(WsMessage),
    /// Remove this identity from the registry, guarded by the handle.
    Deregister(String, u64),
    /// Close the forwarder's input queue.
    CloseQueue,
    /// Wait for the forwarder to terminate before releasing the connection.
    JoinForwarder,
}

pub enum ActionV {
    Resolve(Seq<char>),
    Register(Seq<char>, u64),
    StartForwarder,
    Send(WsMessageV),
    Deregister(Seq<char>, u64),
    CloseQueue,
    JoinForwarder,
}

impl View for Action {
    type V = ActionV;

    open spec fn view(&self) -> ActionV {
        match self {
            Action::Resolve(t) => ActionV::Resolve(t@),
            Action::Register(id, h) => ActionV::Register(id@, *h),
            Action::StartForwarder => ActionV::StartForwarder,
            Action::Send(m) => ActionV::Send(m@),
            Action::Deregister(id, h) => ActionV::Deregister(id@, *h),
            Action::CloseQueue => ActionV::CloseQueue,
            Action::JoinForwarder => ActionV::JoinForwarder,
        }
    }
}

pub open spec fn actions_view(v: Seq<Action>) -> Seq<ActionV> {
    Seq::new(v.len(), |i: int| if 0 <= i < v.len() { v[i]@ } else { ActionV::CloseQueue })
}

/// One event the surroundings hand the session.
pub enum EventV {
    /// The connection opened, with the token the upgrade request carried.
    Opened(Option<Seq<char>>),
    /// The resolver's answer to the last requested lookup.
    Resolved(ResolutionV),
    /// One inbound frame.
    Inbound(FrameV),
}

/// The model of a session.
pub struct SessionV {
    pub state: SessionState,
    pub handle: u64,
    pub identity: Option<UserV>,
}

pub open spec fn fresh_session(handle: u64) -> SessionV {
    SessionV { state: SessionState::Connecting, handle: handle, identity: None }
}

/// A fixed-code error envelope; diagnostic detail is never echoed.
pub open spec fn error_envelope(code: Seq<char>, msg: Seq<char>) -> WsMessageV {
    WsMessageV::Error(ErrorV { code: code, message: msg, details: None })
}

/// What entering `Active` performs, in order: register, start the forwarder,
/// and queue the success envelope before any other traffic.
pub open spec fn entry_actions(s: SessionV, u: UserV) -> Seq<ActionV> {
    seq![
        ActionV::Register(u.user_id, s.handle),
        ActionV::StartForwarder,
        ActionV::Send(WsMessageV::AuthOk(u)),
    ]
}

/// What entering `Closed` performs, exactly once: guarded deregistration,
/// closing the queue, and joining the forwarder — only if the session ever
/// registered and started them.
pub open spec fn cleanup_actions(s: SessionV) -> Seq<ActionV> {
    match s.identity {
        Some(u) => seq![
            ActionV::Deregister(u.user_id, s.handle),
            ActionV::CloseQueue,
            ActionV::JoinForwarder,
        ],
        None => Seq::empty(),
    }
}

/// How the resolver's verdict drives the handshake, from either state that
/// awaits it.
pub open spec fn step_resolved(s: SessionV, r: ResolutionV) -> (SessionV, Seq<ActionV>) {
    match r {
        ResolutionV::Identity(u) => (
            SessionV { state: SessionState::Active, identity: Some(u), ..s },
            entry_actions(s, u),
        ),
        ResolutionV::NoMatch => (
            SessionV { state: SessionState::Closed, ..s },
            seq![ActionV::Send(error_envelope(("unauthorized")@, ("invalid token")@))]
                + cleanup_actions(s),
        ),
        ResolutionV::StoreFailure => (
            SessionV { state: SessionState::Closed, ..s },
            seq![ActionV::Send(error_envelope(("internal_error")@, ("internal error")@))]
                + cleanup_actions(s),
        ),
    }
}

/// The session machine: one state and one event give the next state and the
/// actions to perform, in order.
pub open spec fn session_step(s: SessionV, e: EventV) -> (SessionV, Seq<ActionV>) {
    match s.state {
        SessionState::Connecting => match e {
            EventV::Opened(Some(tok)) => (s, seq![ActionV::Resolve(tok)]),
            EventV::Opened(None) => (SessionV { state: SessionState::AwaitingAuth, ..s }, Seq::empty()),
            EventV::Resolved(r) => step_resolved(s, r),
            _ => (s, Seq::empty()),
        },
        SessionState::AwaitingAuth => match e {
            EventV::Inbound(FrameV::Text(t)) => match ws_decode(t) {
                Ok(WsMessageV::Authenticate(a)) => (s, seq![ActionV::Resolve(a.token)]),
                _ => (
                    SessionV { state: SessionState::Closed, ..s },
                    seq![
                        ActionV::Send(
                            error_envelope(
                                ("auth_required")@,
                                ("expected authentication envelope")@,
                            ),
                        ),
                    ] + cleanup_actions(s),
                ),
            },
            EventV::Inbound(FrameV::NonText) => (
                SessionV { state: SessionState::Closed, ..s },
                seq![
                    ActionV::Send(
                        error_envelope(("auth_required")@, ("expected authentication envelope")@),
                    ),
                ] + cleanup_actions(s),
            ),
            EventV::Inbound(FrameV::ConnectionClosed) => (
                SessionV { state: SessionState::Closed, ..s },
                cleanup_actions(s),
            ),
            EventV::Resolved(r) => step_resolved(s, r),
            _ => (s, Seq::empty()),
        },
        SessionState::Active => match e {
            EventV::Inbound(FrameV::ConnectionClosed) => (
                SessionV { state: SessionState::Closed, ..s },
                cleanup_actions(s),
            ),
            // steady state is permissive: application frames are observed
            // only; non-text frames and decode failures are dropped
            EventV::Inbound(_) => (s, Seq::empty()),
            _ => (s, Seq::empty()),
        },
        SessionState::Closed => (s, Seq::empty()),
    }
}

/// A whole run: the state after the events, and every action in order.
pub open spec fn session_run(s: SessionV, events: Seq<EventV>) -> (SessionV, Seq<ActionV>)
    decreases events.len(),
{
    if events.len() == 0 {
        (s, Seq::empty())
    } else {
        let (s1, acts) = session_step(s, events[0]);
        let (s2, rest) = session_run(s1, events.drop_first());
        (s2, acts + rest)
    }
}

/// The per-connection session, the executable side of the machine.
pub struct Session {
    state: SessionState,
    handle: u64,
    identity: Option<User>,
}

impl View for Session {
    type V = SessionV;

    closed spec fn view(&self) -> SessionV {
        SessionV {
            state: self.state,
            handle: self.handle,
            identity: match self.identity {
                Some(u) => Some(u@),
                None => None,
            },
        }
    }
}

impl Session {
    /// A session for a connection whose outbound handle is `handle`.
    pub fn new(handle: u64) -> (r: Session)
        ensures
            r@ == fresh_session(handle),
    {
        Session { state: SessionState::Connecting, handle: handle, identity: None }
    }

    /// The state the session is in.
    pub fn state(&self) -> (r: SessionState)
        ensures
            r == self@.state,
    {
        self.state
    }

    fn error_action(code: &str, msg: &str) -> (r: Action)
        ensures
            r@ == ActionV::Send(error_envelope(code@, msg@)),
    {
        Action::Send(
            WsMessage::Error(
                Error {
                    code: String::from_str(code),
                    message: String::from_str(msg),
                    details: None,
                },
            ),
        )
    }

    fn do_entry(&mut self, u: User) -> (acts: Vec<Action>)
        ensures
            final(self)@ == (SessionV {
                state: SessionState::Active,
                identity: Some(u@),
                ..old(self)@
            }),
            actions_view(acts@) == entry_actions(old(self)@, u@),
    {
        self.state = SessionState::Active;
        let echo = User {
            user_id: u.user_id.clone(),
            username: u.username.clone(),
            created_at: u.created_at.clone(),
        };
        let mut acts: Vec<Action> = Vec::new();
        acts.push(Action::Register(u.user_id.clone(), self.handle));
        acts.push(Action::StartForwarder);
        acts.push(Action::Send(WsMessage::AuthOk(echo)));
        self.identity = Some(u);
        proof {
            assert(actions_view(acts@) =~= entry_actions(old(self)@, final(self)@.identity->Some_0));
        }
        acts
    }

    fn do_close(&mut self) -> (acts: Vec<Action>)
        ensures
            (final(self)@ == SessionV { state: SessionState::Closed, ..old(self)@ }),
            actions_view(acts@) == cleanup_actions(old(self)@),
    {
        self.state = SessionState::Closed;
        let mut acts: Vec<Action> = Vec::new();
        match &self.identity {
            Some(u) => {
                acts.push(Action::Deregister(u.user_id.clone(), self.handle));
                acts.push(Action::CloseQueue);
                acts.push(Action::JoinForwarder);
            },
            None => {},
        }
        proof {
            assert(actions_view(acts@) =~= cleanup_actions(old(self)@));
        }
        acts
    }

    /// The connection opened, perhaps carrying a token out of band. With a
    /// token the session asks for its resolution; without one it waits for an
    /// authentication envelope as the first frame.
    pub fn on_opened(&mut self, token: Option<String>) -> (acts: Vec<Action>)
        ensures
            (final(self)@, actions_view(acts@)) == session_step(
                old(self)@,
                EventV::Opened(
                    match token {
                        Some(t) => Some(t@),
                        None => None,
                    },
                ),
            ),
    {
        let ghost ev = EventV::Opened(
            match &token {
                Some(t) => Some(t@),
                None => None,
            },
        );
        if !(matches!(self.state, SessionState::Connecting)) {
            let acts: Vec<Action> = Vec::new();
            proof {
                assert(actions_view(acts@) =~= session_step(old(self)@, ev).1);
            }
            return acts;
        }
        match token {
            Some(tok) => {
                let mut acts: Vec<Action> = Vec::new();
                acts.push(Action::Resolve(tok));
                proof {
                    assert(actions_view(acts@) =~= session_step(old(self)@, ev).1);
                }
                acts
            },
            None => {
                self.state = SessionState::AwaitingAuth;
                let acts: Vec<Action> = Vec::new();
                proof {
                    assert(actions_view(acts@) =~= session_step(old(self)@, ev).1);
                }
                acts
            },
        }
    }

    /// The resolver answered the last requested lookup. Success runs the
    /// entry actions and activates the session; an unknown token and a store
    /// failure each send one fixed-code error envelope and close.
    pub fn on_resolution(&mut self, r: Resolution) -> (acts: Vec<Action>)
        ensures
            (final(self)@, actions_view(acts@)) == session_step(old(self)@, EventV::Resolved(r@)),
    {
        let ghost ev = EventV::Resolved(r@);
        if !(matches!(self.state, SessionState::Connecting | SessionState::AwaitingAuth)) {
            let acts: Vec<Action> = Vec::new();
            proof {
                assert(actions_view(acts@) =~= session_step(old(self)@, ev).1);
            }
            return acts;
        }
        match r {
            Resolution::Identity(u) => self.do_entry(u),
            Resolution::NoMatch => {
                let first = Self::error_action("unauthorized", "invalid token");
                let mut acts = self.do_close();
                acts.insert(0, first);
                proof {
                    assert(actions_view(acts@) =~= session_step(old(self)@, ev).1);
                }
                acts
            },
            Resolution::StoreFailure => {
                let first = Self::error_action("internal_error", "internal error");
                let mut acts = self.do_close();
                acts.insert(0, first);
                proof {
                    assert(actions_view(acts@) =~= session_step(old(self)@, ev).1);
                }
                acts
            },
        }
    }

    /// One inbound frame. During the handshake only an authentication
    /// envelope is accepted; once active the dispatcher is permissive and a
    /// close frame (or socket error) drives the transition to `Closed`.
    pub fn on_frame(&mut self, f: Frame) -> (acts: Vec<Action>)
        ensures
            (final(self)@, actions_view(acts@)) == session_step(old(self)@, EventV::Inbound(f@)),
    {
        let ghost ev = EventV::Inbound(f@);
        match self.state {
            SessionState::AwaitingAuth => match f {
                Frame::Text(t) => {
                    match crate::ws::decode(t.as_str()) {
                        Ok(WsMessage::Authenticate(a)) => {
                            let mut acts: Vec<Action> = Vec::new();
                            acts.push(Action::Resolve(a.token));
                            proof {
                                assert(actions_view(acts@) =~= session_step(old(self)@, ev).1);
                            }
                            acts
                        },
                        _ => {
                            let first = Self::error_action(
                                "auth_required",
                                "expected authentication envelope",
                            );
                            let mut acts = self.do_close();
                            acts.insert(0, first);
                            proof {
                                assert(actions_view(acts@) =~= session_step(old(self)@, ev).1);
                            }
                            acts
                        },
                    }
                },
                Frame::NonText => {
                    let first = Self::error_action(
                        "auth_required",
                        "expected authentication envelope",
                    );
                    let mut acts = self.do_close();
                    acts.insert(0, first);
                    proof {
                        assert(actions_view(acts@) =~= session_step(old(self)@, ev).1);
                    }
                    acts
                },
                Frame::ConnectionClosed => self.do_close(),
            },
            SessionState::Active => match f {
                Frame::ConnectionClosed => self.do_close(),
                _ => {
                    let acts: Vec<Action> = Vec::new();
                    proof {
                        assert(actions_view(acts@) =~= session_step(old(self)@, ev).1);
                    }
                    acts
                },
            },
            _ => {
                let acts: Vec<Action> = Vec::new();
                proof {
                    assert(actions_view(acts@) =~= session_step(old(self)@, ev).1);
                }
                acts
            },
        }
    }
}

/// The envelopes a list of actions sends, in order.
pub open spec fn sends_of(acts: Seq<ActionV>) -> Seq<WsMessageV>
    decreases acts.len(),
{
    if acts.len() == 0 {
        Seq::empty()
    } else {
        match acts[0] {
            ActionV::Send(m) => seq![m] + sends_of(acts.drop_first()),
            _ => sends_of(acts.drop_first()),
        }
    }
}

proof fn lemma_sends_app(a: Seq<ActionV>, b: Seq<ActionV>)
    ensures
        sends_of(a + b) == sends_of(a) + sends_of(b),
    decreases a.len(),
{
    if a.len() == 0 {
        assert(a + b =~= b);
        assert(sends_of(a) + sends_of(b) =~= sends_of(b));
    } else {
        assert((a + b)[0] == a[0]);
        assert((a + b).drop_first() =~= a.drop_first() + b);
        lemma_sends_app(a.drop_first(), b);
        match a[0] {
            ActionV::Send(m) => {
                assert(seq![m] + (sends_of(a.drop_first()) + sends_of(b)) =~= (seq![m] + sends_of(
                    a.drop_first(),
                )) + sends_of(b));
            },
            _ => {},
        }
    }
}

proof fn lemma_sends_level(acts: Seq<ActionV>)
    ensures
        sends_of(acts) == if acts.len() == 0 {
            Seq::<WsMessageV>::empty()
        } else {
            match acts[0] {
                ActionV::Send(m) => seq![m] + sends_of(acts.drop_first()),
                _ => sends_of(acts.drop_first()),
            }
        },
{
}

proof fn lemma_run_two(s: SessionV, e0: EventV, e1: EventV)
    ensures
        ({
            let (s1, a0) = session_step(s, e0);
            let (s2, a1) = session_step(s1, e1);
            session_run(s, seq![e0, e1]) == (s2, a0 + a1)
        }),
{
    let es = seq![e0, e1];
    let (s1, a0) = session_step(s, e0);
    let (s2, a1) = session_step(s1, e1);
    assert(es.drop_first() =~= seq![e1]);
    assert(seq![e1].drop_first() =~= Seq::<EventV>::empty());
    assert(session_run(s2, Seq::<EventV>::empty()).1 == Seq::<ActionV>::empty());
    assert(a1 + Seq::<ActionV>::empty() =~= a1);
    assert(session_run(s1, seq![e1]) == (s2, a1));
}

proof fn lemma_run_three(s: SessionV, e0: EventV, e1: EventV, e2: EventV)
    ensures
        ({
            let (s1, a0) = session_step(s, e0);
            let (s2, a1) = session_step(s1, e1);
            let (s3, a2) = session_step(s2, e2);
            session_run(s, seq![e0, e1, e2]) == (s3, a0 + (a1 + a2))
        }),
{
    let es = seq![e0, e1, e2];
    let (s1, a0) = session_step(s, e0);
    lemma_run_two(s1, e1, e2);
    assert(es.drop_first() =~= seq![e1, e2]);
}

/// Law: with a valid token supplied at connection time, the first envelope
/// handed to the client is the authentication success — before any other
/// traffic — and the session is then active.
pub proof fn lemma_handshake_success(h: u64, tok: Seq<char>, u: UserV)
    ensures
        ({
            let (s, acts) = session_run(
                fresh_session(h),
                seq![
                    EventV::Opened(Some(tok)),
                    EventV::Resolved(ResolutionV::Identity(u)),
                ],
            );
            s.state == SessionState::Active && sends_of(acts) == seq![WsMessageV::AuthOk(u)]
        }),
{
    let s0 = fresh_session(h);
    lemma_run_two(s0, EventV::Opened(Some(tok)), EventV::Resolved(ResolutionV::Identity(u)));
    let (s1, a0) = session_step(s0, EventV::Opened(Some(tok)));
    let (s2, a1) = session_step(s1, EventV::Resolved(ResolutionV::Identity(u)));
    lemma_sends_app(a0, a1);
    assert(a0.drop_first() =~= Seq::<ActionV>::empty());
    lemma_sends_level(a0);
    lemma_sends_level(a0.drop_first());
    assert(sends_of(a0) =~= Seq::<WsMessageV>::empty());
    assert(a1 == entry_actions(s1, u));
    assert(a1.drop_first() =~= seq![ActionV::StartForwarder, ActionV::Send(WsMessageV::AuthOk(u))]);
    assert(a1.drop_first().drop_first() =~= seq![ActionV::Send(WsMessageV::AuthOk(u))]);
    assert(a1.drop_first().drop_first().drop_first() =~= Seq::<ActionV>::empty());
    lemma_sends_level(a1);
    lemma_sends_level(a1.drop_first());
    lemma_sends_level(a1.drop_first().drop_first());
    lemma_sends_level(a1.drop_first().drop_first().drop_first());
    assert(sends_of(a1) =~= seq![WsMessageV::AuthOk(u)]);
    assert(sends_of(a0) + sends_of(a1) =~= seq![WsMessageV::AuthOk(u)]);
}

/// Law: with no token, a first frame that decodes to an authentication
/// envelope and resolves to an identity yields the success envelope as the
/// first and only traffic, and an active session.
pub proof fn lemma_handshake_success_in_band(h: u64, t: Seq<char>, a: AuthenticateV, u: UserV)
    requires
        ws_decode(t) == Ok::<WsMessageV, crate::ws::DecodeError>(WsMessageV::Authenticate(a)),
    ensures
        ({
            let (s, acts) = session_run(
                fresh_session(h),
                seq![
                    EventV::Opened(None),
                    EventV::Inbound(FrameV::Text(t)),
                    EventV::Resolved(ResolutionV::Identity(u)),
                ],
            );
            s.state == SessionState::Active && sends_of(acts) == seq![WsMessageV::AuthOk(u)]
        }),
{
    let s0 = fresh_session(h);
    lemma_run_three(
        s0,
        EventV::Opened(None),
        EventV::Inbound(FrameV::Text(t)),
        EventV::Resolved(ResolutionV::Identity(u)),
    );
    let (s1, a0) = session_step(s0, EventV::Opened(None));
    let (s2, a1) = session_step(s1, EventV::Inbound(FrameV::Text(t)));
    let (s3, a2) = session_step(s2, EventV::Resolved(ResolutionV::Identity(u)));
    lemma_sends_app(a1, a2);
    lemma_sends_app(a0, a1 + a2);
    lemma_sends_level(a0);
    assert(sends_of(a0) =~= Seq::<WsMessageV>::empty());
    assert(a1 == seq![ActionV::Resolve(a.token)]);
    assert(a1.drop_first() =~= Seq::<ActionV>::empty());
    lemma_sends_level(a1);
    lemma_sends_level(a1.drop_first());
    assert(sends_of(a1) =~= Seq::<WsMessageV>::empty());
    assert(a2 == entry_actions(s2, u));
    assert(a2.drop_first() =~= seq![ActionV::StartForwarder, ActionV::Send(WsMessageV::AuthOk(u))]);
    assert(a2.drop_first().drop_first() =~= seq![ActionV::Send(WsMessageV::AuthOk(u))]);
    assert(a2.drop_first().drop_first().drop_first() =~= Seq::<ActionV>::empty());
    lemma_sends_level(a2);
    lemma_sends_level(a2.drop_first());
    lemma_sends_level(a2.drop_first().drop_first());
    lemma_sends_level(a2.drop_first().drop_first().drop_first());
    assert(sends_of(a2) =~= seq![WsMessageV::AuthOk(u)]);
    assert(sends_of(a0) + (sends_of(a1) + sends_of(a2)) =~= seq![WsMessageV::AuthOk(u)]);
}

/// Law: an invalid token supplied at connection time draws exactly one
/// `error` envelope (code `unauthorized`) and the session closes.
pub proof fn lemma_handshake_invalid_token(h: u64, tok: Seq<char>)
    ensures
        ({
            let (s, acts) = session_run(
                fresh_session(h),
                seq![EventV::Opened(Some(tok)), EventV::Resolved(ResolutionV::NoMatch)],
            );
            s.state == SessionState::Closed && sends_of(acts) == seq![
                error_envelope(("unauthorized")@, ("invalid token")@),
            ]
        }),
{
    let s0 = fresh_session(h);
    lemma_run_two(s0, EventV::Opened(Some(tok)), EventV::Resolved(ResolutionV::NoMatch));
    let (s1, a0) = session_step(s0, EventV::Opened(Some(tok)));
    let (s2, a1) = session_step(s1, EventV::Resolved(ResolutionV::NoMatch));
    lemma_sends_app(a0, a1);
    assert(a0.drop_first() =~= Seq::<ActionV>::empty());
    lemma_sends_level(a0);
    lemma_sends_level(a0.drop_first());
    assert(sends_of(a0) =~= Seq::<WsMessageV>::empty());
    let err = error_envelope(("unauthorized")@, ("invalid token")@);
    assert(a1 =~= seq![ActionV::Send(err)]);
    assert(a1.drop_first() =~= Seq::<ActionV>::empty());
    lemma_sends_level(a1);
    lemma_sends_level(a1.drop_first());
    assert(sends_of(a1) =~= seq![err]);
    assert(sends_of(a0) + sends_of(a1) =~= seq![err]);
}

/// Law: with no token, a first frame that is not an authentication envelope
/// (wrong envelope, undecodable text, or a non-text frame) draws exactly one
/// `error` envelope (code `auth_required`) and the session closes.
pub proof fn lemma_handshake_wrong_first_frame(h: u64, f: FrameV)
    requires
        match f {
            FrameV::Text(t) => !(ws_decode(t) matches Ok(WsMessageV::Authenticate(_))),
            FrameV::NonText => true,
            FrameV::ConnectionClosed => false,
        },
    ensures
        ({
            let (s, acts) = session_run(
                fresh_session(h),
                seq![EventV::Opened(None), EventV::Inbound(f)],
            );
            s.state == SessionState::Closed && sends_of(acts) == seq![
                error_envelope(("auth_required")@, ("expected authentication envelope")@),
            ]
        }),
{
    let s0 = fresh_session(h);
    lemma_run_two(s0, EventV::Opened(None), EventV::Inbound(f));
    let (s1, a0) = session_step(s0, EventV::Opened(None));
    let (s2, a1) = session_step(s1, EventV::Inbound(f));
    lemma_sends_app(a0, a1);
    lemma_sends_level(a0);
    assert(sends_of(a0) =~= Seq::<WsMessageV>::empty());
    let err = error_envelope(("auth_required")@, ("expected authentication envelope")@);
    assert(a1 =~= seq![ActionV::Send(err)]);
    assert(a1.drop_first() =~= Seq::<ActionV>::empty());
    lemma_sends_level(a1);
    lemma_sends_level(a1.drop_first());
    assert(sends_of(a1) =~= seq![err]);
    assert(sends_of(a0) + sends_of(a1) =~= seq![err]);
}

/// Law: with no token, a socket that closes before any frame leaves a clean
/// close: the session is closed and nothing was ever sent.
pub proof fn lemma_handshake_silent_close(h: u64)
    ensures
        ({
            let (s, acts) = session_run(
                fresh_session(h),
                seq![EventV::Opened(None), EventV::Inbound(FrameV::ConnectionClosed)],
            );
            s.state == SessionState::Closed && sends_of(acts) == Seq::<WsMessageV>::empty()
                && acts == Seq::<ActionV>::empty()
        }),
{
    let s0 = fresh_session(h);
    lemma_run_two(s0, EventV::Opened(None), EventV::Inbound(FrameV::ConnectionClosed));
    let (s1, a0) = session_step(s0, EventV::Opened(None));
    let (s2, a1) = session_step(s1, EventV::Inbound(FrameV::ConnectionClosed));
    assert(a1 =~= Seq::<ActionV>::empty());
    assert(a0 + a1 =~= Seq::<ActionV>::empty());
    lemma_sends_level(a0 + a1);
}

/// Law: once active, a client intent is observed only: no reply is queued and
/// the session does not change state.
pub proof fn lemma_active_intent_is_silent(s: SessionV, t: Seq<char>)
    requires
        s.state == SessionState::Active,
    ensures
        session_step(s, EventV::Inbound(FrameV::Text(t))) == (s, Seq::<ActionV>::empty()),
{
}

/// How far this connection's forwarder has come.
pub enum ForwarderPhase {
    NotStarted,
    Running,
    Draining,
    Terminated,
}

/// The state a session's actions act upon: the shared registry and the
/// connection's own forwarder.
pub struct WorldV {
    pub registry: Map<Seq<char>, u64>,
    pub forwarder: ForwarderPhase,
}

pub open spec fn apply_action(w: WorldV, a: ActionV) -> WorldV {
    match a {
        ActionV::Register(id, h) => WorldV { registry: w.registry.insert(id, h), ..w },
        ActionV::Deregister(id, h) => WorldV { registry: dereg(w.registry, id, h), ..w },
        ActionV::StartForwarder => WorldV { forwarder: ForwarderPhase::Running, ..w },
        ActionV::CloseQueue => WorldV {
            forwarder: match w.forwarder {
                ForwarderPhase::Running => ForwarderPhase::Draining,
                other => other,
            },
            ..w
        },
        ActionV::JoinForwarder => WorldV {
            forwarder: match w.forwarder {
                ForwarderPhase::Draining => ForwarderPhase::Terminated,
                other => other,
            },
            ..w
        },
        _ => w,
    }
}

pub open spec fn apply_actions(w: WorldV, acts: Seq<ActionV>) -> WorldV
    decreases acts.len(),
{
    if acts.len() == 0 {
        w
    } else {
        apply_actions(apply_action(w, acts[0]), acts.drop_first())
    }
}

proof fn lemma_apply_app(w: WorldV, a: Seq<ActionV>, b: Seq<ActionV>)
    ensures
        apply_actions(w, a + b) == apply_actions(apply_actions(w, a), b),
    decreases a.len(),
{
    if a.len() == 0 {
        assert(a + b =~= b);
    } else {
        assert((a + b)[0] == a[0]);
        assert((a + b).drop_first() =~= a.drop_first() + b);
        lemma_apply_app(apply_action(w, a[0]), a.drop_first(), b);
    }
}

proof fn lemma_apply_level(w: WorldV, acts: Seq<ActionV>)
    ensures
        apply_actions(w, acts) == if acts.len() == 0 {
            w
        } else {
            apply_actions(apply_action(w, acts[0]), acts.drop_first())
        },
{
}

/// No registry entry delivers to this connection's handle.
pub open spec fn handle_absent(reg: Map<Seq<char>, u64>, h: u64) -> bool {
    forall|k: Seq<char>| reg.contains_key(k) ==> reg[k] != h
}

/// What always holds of a session and the world its own actions have built,
/// as long as no other connection reuses its handle.
pub open spec fn session_world_inv(s: SessionV, w: WorldV) -> bool {
    match s.state {
        SessionState::Connecting => s.identity is None && w.forwarder is NotStarted
            && handle_absent(w.registry, s.handle),
        SessionState::AwaitingAuth => s.identity is None && w.forwarder is NotStarted
            && handle_absent(w.registry, s.handle),
        SessionState::Active => match s.identity {
            Some(u) => w.forwarder is Running && w.registry.contains_key(u.user_id)
                && w.registry[u.user_id] == s.handle && (forall|k: Seq<char>|
                w.registry.contains_key(k) && k != u.user_id ==> w.registry[k] != s.handle),
            None => false,
        },
        SessionState::Closed => (w.forwarder is NotStarted || w.forwarder is Terminated)
            && handle_absent(w.registry, s.handle),
    }
}

proof fn lemma_step_preserves_inv(s: SessionV, w: WorldV, e: EventV)
    requires
        session_world_inv(s, w),
    ensures
        ({
            let (s2, acts) = session_step(s, e);
            session_world_inv(s2, apply_actions(w, acts))
        }),
{
    let (s2, acts) = session_step(s, e);
    if acts.len() == 0 {
        assert(apply_actions(w, acts) == w);
        assert(s2.state == s.state || (s.state is Connecting && s2.state is AwaitingAuth) || (
        s2.state is Closed && s.identity is None));
    } else if acts == entry_actions(s, s2.identity->Some_0) {
        let u = s2.identity->Some_0;
        let a_all = entry_actions(s, u);
        assert(a_all.drop_first() =~= seq![
            ActionV::StartForwarder,
            ActionV::Send(WsMessageV::AuthOk(u)),
        ]);
        assert(a_all.drop_first().drop_first() =~= seq![ActionV::Send(WsMessageV::AuthOk(u))]);
        assert(a_all.drop_first().drop_first().drop_first() =~= Seq::<ActionV>::empty());
        let w1 = apply_action(w, a_all[0]);
        let w2 = apply_action(w1, a_all.drop_first()[0]);
        let w3 = apply_action(w2, a_all.drop_first().drop_first()[0]);
        lemma_apply_level(w, a_all);
        lemma_apply_level(w1, a_all.drop_first());
        lemma_apply_level(w2, a_all.drop_first().drop_first());
        lemma_apply_level(w3, a_all.drop_first().drop_first().drop_first());
        assert(apply_actions(w, acts) == w3);
        assert(w3.registry == w.registry.insert(u.user_id, s.handle));
        assert(w3.forwarder is Running);
        assert forall|k: Seq<char>| w3.registry.contains_key(k) && k != u.user_id implies #[trigger] w3.registry[k] != s.handle by {
            assert(w.registry.contains_key(k));
        }
        assert(session_world_inv(s2, apply_actions(w, acts)));
    } else {
        // an error envelope, cleanup, or both
        lemma_cleanup_preserves(s, w, e);
    }
}

proof fn lemma_cleanup_preserves(s: SessionV, w: WorldV, e: EventV)
    requires
        session_world_inv(s, w),
        session_step(s, e).1.len() > 0,
        !(session_step(s, e).1 == entry_actions(s, session_step(s, e).0.identity->Some_0)),
    ensures
        ({
            let (s2, acts) = session_step(s, e);
            session_world_inv(s2, apply_actions(w, acts))
        }),
{
    let (s2, acts) = session_step(s, e);
    if s2.state is Closed {
        match s.identity {
            Some(u) => {
                // the three cleanup actions, possibly after one send
                let cl = cleanup_actions(s);
                assert(cl.drop_first() =~= seq![ActionV::CloseQueue, ActionV::JoinForwarder]);
                assert(cl.drop_first().drop_first() =~= seq![ActionV::JoinForwarder]);
                assert(cl.drop_first().drop_first().drop_first() =~= Seq::<ActionV>::empty());
                let w1 = apply_action(w, cl[0]);
                let w2 = apply_action(w1, cl.drop_first()[0]);
                let w3 = apply_action(w2, cl.drop_first().drop_first()[0]);
                lemma_apply_level(w1, cl.drop_first());
                lemma_apply_level(w2, cl.drop_first().drop_first());
                lemma_apply_level(w3, cl.drop_first().drop_first().drop_first());
                assert(apply_actions(w1, cl.drop_first()) == w3);
                assert(w1.registry == dereg(w.registry, u.user_id, s.handle));
                assert(handle_absent(w1.registry, s.handle)) by {
                    assert forall|k: Seq<char>| w1.registry.contains_key(k) implies w1.registry[k]
                        != s.handle by {
                        if k != u.user_id {
                            assert(w.registry.contains_key(k));
                        }
                    }
                }
                assert(w3.registry == w1.registry);
                assert(w3.forwarder is Terminated);
                if acts == cl {
                    lemma_apply_level(w, cl);
                    assert(apply_actions(w, acts) == w3);
                    assert(session_world_inv(s2, apply_actions(w, acts)));
                } else {
                    assert(acts.drop_first() =~= cl);
                    lemma_apply_level(w, acts);
                    assert(apply_action(w, acts[0]) == w);
                    assert(apply_actions(w, acts) == apply_actions(w, cl));
                    lemma_apply_level(w, cl);
                    assert(apply_actions(w, acts) == w3);
                    assert(session_world_inv(s2, apply_actions(w, acts)));
                }
            },
            None => {
                // no cleanup needed: at most one error envelope was queued
                assert(cleanup_actions(s) =~= Seq::<ActionV>::empty());
                lemma_apply_level(w, acts);
                assert(acts.drop_first() =~= Seq::<ActionV>::empty());
                lemma_apply_level(apply_action(w, acts[0]), acts.drop_first());
                assert(apply_action(w, acts[0]) == w);
                assert(apply_actions(w, acts) == w);
                assert(session_world_inv(s2, apply_actions(w, acts)));
            },
        }
    } else {
        // the only non-closing action lists are a single resolve request
        assert(acts =~= seq![ActionV::Resolve(acts[0]->Resolve_0)]);
        assert(acts.drop_first() =~= Seq::<ActionV>::empty());
        lemma_apply_level(w, acts);
        lemma_apply_level(apply_action(w, acts[0]), acts.drop_first());
        assert(apply_actions(w, acts) == w);
    }
}

/// Law: every session that reaches `Closed` leaves no registry entry holding
/// its own handle — its identity is absent unless a newer connection (with a
/// different handle) superseded it — and its forwarder, if ever started, has
/// terminated. This holds over every event sequence whatsoever.
pub proof fn lemma_cleanup_invariant(h: u64, es: Seq<EventV>, reg0: Map<Seq<char>, u64>)
    requires
        handle_absent(reg0, h),
    ensures
        ({
            let (s, acts) = session_run(fresh_session(h), es);
            let w = apply_actions(
                WorldV { registry: reg0, forwarder: ForwarderPhase::NotStarted },
                acts,
            );
            s.state == SessionState::Closed ==> ((w.forwarder is NotStarted
                || w.forwarder is Terminated) && handle_absent(w.registry, h))
        }),
{
    let w0 = WorldV { registry: reg0, forwarder: ForwarderPhase::NotStarted };
    lemma_run_keeps_inv(fresh_session(h), w0, es);
}

proof fn lemma_run_keeps_inv(s: SessionV, w: WorldV, es: Seq<EventV>)
    requires
        session_world_inv(s, w),
    ensures
        ({
            let (s2, acts) = session_run(s, es);
            session_world_inv(s2, apply_actions(w, acts)) && s2.handle == s.handle
        }),
    decreases es.len(),
{
    if es.len() == 0 {
    } else {
        let (s1, a0) = session_step(s, es[0]);
        lemma_step_preserves_inv(s, w, es[0]);
        let (s2, rest) = session_run(s1, es.drop_first());
        lemma_run_keeps_inv(s1, apply_actions(w, a0), es.drop_first());
        lemma_apply_app(w, a0, rest);
    }
}

} // verus!
