//! Per-connection session protocol handler.
//!
//! Each connection runs one [`Session`]: a state machine that, fed one
//! [`SessionEvent`] at a time, decides the protocol frames to send, whether
//! the shared history changed and must be persisted, and which outside action
//! (a backend restart, a streaming generation request) to perform next.  The
//! surrounding connection loop performs the I/O and feeds the outcomes back
//! in as events; every decision in between is made here, and
//! [`step_model`] states each step exactly.
//!
//! On connect the server sends the history snapshot and the configured model
//! identifiers, then the session idles.  A text frame appends a user message
//! and starts a generation; fragments stream back one frame each; the
//! accumulated text becomes an assistant message when the stream ends, even
//! when the stream failed part way.  A model-switch frame restarts the
//! backend — always, even onto the identifier already active — and only a
//! confirmed switch updates the active model.  While a generation or switch
//! is in flight, further inbound frames are rejected with an error frame.

use vstd::prelude::*;
use crate::adapter::ChatRequest;
use crate::adapter::ChatRequestView;
use crate::adapter::build_request;
use crate::adapter::role_name;
use crate::config::AppConfig;
use crate::config::ConfigView;
use crate::config::ModelEntryView;
use crate::config::clone_strings;
use crate::config::lookup_spec;
use crate::process::ProcessError;
use crate::protocol::ChatHistory;
use crate::protocol::ClientMessage;
use crate::protocol::ClientMessageView;
use crate::protocol::HistoryView;
use crate::protocol::MessageView;
use crate::protocol::Role;
use crate::protocol::ServerMessage;
use crate::protocol::ServerMessageView;

verus! {

/// Where a session stands.
#[derive(Debug)]
pub enum SessionState {
    /// Waiting for an inbound frame.
    Idle,
    /// A backend restart onto the named model is in flight.
    Switching(String),
    /// A generation is in flight.
    Generating,
    /// The connection is gone; nothing more is processed.
    Closed,
}

/// Mathematical model of a [`SessionState`].
#[verifier::ext_equal]
pub enum SessionStateView {
    Idle,
    Switching(Seq<char>),
    Generating,
    Closed,
}

impl View for SessionState {
    type V = SessionStateView;

    open spec fn view(&self) -> SessionStateView {
        match self {
            SessionState::Idle => SessionStateView::Idle,
            SessionState::Switching(n) => SessionStateView::Switching(n@),
            SessionState::Generating => SessionStateView::Generating,
            SessionState::Closed => SessionStateView::Closed,
        }
    }
}

/// One connection's state machine: its state and, while generating, the
/// response text accumulated so far.
#[derive(Debug)]
pub struct Session {
    pub state: SessionState,
    pub accum: String,
}

/// Mathematical model of a [`Session`].
#[verifier::ext_equal]
pub struct SessionView {
    pub state: SessionStateView,
    pub accum: Seq<char>,
}

impl View for Session {
    type V = SessionView;

    open spec fn view(&self) -> SessionView {
        SessionView { state: self.state@, accum: self.accum@ }
    }
}

/// What reaches a session: an inbound frame, the end or failure of the
/// connection, the outcome of a requested backend restart, or a piece of an
/// in-flight generation.
#[derive(Debug)]
pub enum SessionEvent {
    /// An inbound protocol frame.
    Inbound(ClientMessage),
    /// The inbound side of the connection ended.
    InboundClosed,
    /// An outbound frame could not be sent; the session is dead.
    SendFailed,
    /// The requested backend restart finished.
    RestartOutcome(Result<(), ProcessError>),
    /// The generation stream produced a text fragment.
    Fragment(String),
    /// The generation stream failed; the text is the reported reason.
    StreamError(String),
    /// The generation stream ended.
    StreamEnd,
}

/// Mathematical model of a [`SessionEvent`].
#[verifier::ext_equal]
pub enum EventView {
    Inbound(ClientMessageView),
    InboundClosed,
    SendFailed,
    RestartOutcome(Result<(), ProcessError>),
    Fragment(Seq<char>),
    StreamError(Seq<char>),
    StreamEnd,
}

impl View for SessionEvent {
    type V = EventView;

    open spec fn view(&self) -> EventView {
        match self {
            SessionEvent::Inbound(m) => EventView::Inbound(m@),
            SessionEvent::InboundClosed => EventView::InboundClosed,
            SessionEvent::SendFailed => EventView::SendFailed,
            SessionEvent::RestartOutcome(r) => EventView::RestartOutcome(*r),
            SessionEvent::Fragment(s) => EventView::Fragment(s@),
            SessionEvent::StreamError(s) => EventView::StreamError(s@),
            SessionEvent::StreamEnd => EventView::StreamEnd,
        }
    }
}

/// The outside work a step asks for.
#[derive(Debug)]
pub enum Action {
    /// Nothing to do.
    Nothing,
    /// Restart the backend with the given executable path and arguments.
    Restart(String, Vec<String>),
    /// Issue the streaming generation request to the backend.
    Generate(ChatRequest),
}

/// Mathematical model of an [`Action`].
#[verifier::ext_equal]
pub enum ActionView {
    Nothing,
    Restart(Seq<char>, Seq<Seq<char>>),
    Generate(ChatRequestView),
}

impl View for Action {
    type V = ActionView;

    open spec fn view(&self) -> ActionView {
        match self {
            Action::Nothing => ActionView::Nothing,
            Action::Restart(p, a) => ActionView::Restart(p@, a@.map_values(|s: String| s@)),
            Action::Generate(r) => ActionView::Generate(r@),
        }
    }
}

/// Everything one step hands back to the connection loop: frames to send in
/// order, whether the history changed and must be persisted, and the outside
/// action to perform.
#[derive(Debug)]
pub struct StepOutput {
    pub frames: Vec<ServerMessage>,
    pub persist: bool,
    pub action: Action,
}

/// Mathematical model of a [`StepOutput`].
#[verifier::ext_equal]
pub struct StepOutputView {
    pub frames: Seq<ServerMessageView>,
    pub persist: bool,
    pub action: ActionView,
}

impl View for StepOutput {
    type V = StepOutputView;

    open spec fn view(&self) -> StepOutputView {
        StepOutputView {
            frames: self.frames@.map_values(|m: ServerMessage| m@),
            persist: self.persist,
            action: self.action@,
        }
    }
}

/// The error text for a model identifier that is not configured.
pub open spec fn unknown_model_text(name: Seq<char>) -> Seq<char> {
    "unknown model: "@ + name
}

/// The error text for an inbound frame that arrives while a generation or a
/// model switch is in flight.
pub open spec fn busy_text() -> Seq<char> {
    "busy: finish the current request first"@
}

/// The error text for a failed backend restart.
pub open spec fn switch_failed_text(e: ProcessError) -> Seq<char> {
    match e {
        ProcessError::SpawnError => "model switch failed: could not start the backend"@,
        ProcessError::ShutdownError => "model switch failed: could not stop the old backend"@,
    }
}

/// Executable counterpart of [`unknown_model_text`].
pub fn unknown_model_string(name: &String) -> (s: String)
    ensures
        s@ == unknown_model_text(name@),
{
    String::from_str("unknown model: ").concat(name.as_str())
}

/// Executable counterpart of [`busy_text`].
pub fn busy_string() -> (s: String)
    ensures
        s@ == busy_text(),
{
    String::from_str("busy: finish the current request first")
}

/// Executable counterpart of [`switch_failed_text`].
pub fn switch_failed_string(e: ProcessError) -> (s: String)
    ensures
        s@ == switch_failed_text(e),
{
    match e {
        ProcessError::SpawnError => String::from_str(
            "model switch failed: could not start the backend",
        ),
        ProcessError::ShutdownError => String::from_str(
            "model switch failed: could not stop the old backend",
        ),
    }
}

/// The conversation as the backend takes it: every message in order, roles
/// spelled out.
pub open spec fn conversation_spec(h: HistoryView) -> ChatRequestView {
    ChatRequestView {
        messages: h.messages.map_values(
            |m: MessageView| crate::adapter::MessageView {
                role: role_name(m.role),
                content: m.content,
            },
        ),
        stream: true,
    }
}

/// What one step leaves behind: the session, the shared history, and the
/// step's output.
#[verifier::ext_equal]
pub struct StepResult {
    pub session: SessionView,
    pub history: HistoryView,
    pub frames: Seq<ServerMessageView>,
    pub persist: bool,
    pub action: ActionView,
}

/// A step that changes nothing and asks for nothing.
pub open spec fn quiet_result(s: SessionView, h: HistoryView) -> StepResult {
    StepResult {
        session: s,
        history: h,
        frames: Seq::<ServerMessageView>::empty(),
        persist: false,
        action: ActionView::Nothing,
    }
}

/// A step that only sends frames.
pub open spec fn frames_result(s: SessionView, h: HistoryView, frames: Seq<ServerMessageView>) -> StepResult {
    StepResult { session: s, history: h, frames, persist: false, action: ActionView::Nothing }
}

/// The session state machine, one event at a time.  [`Session::step`]
/// follows this function exactly.
pub open spec fn step_model(s: SessionView, h: HistoryView, cfg: ConfigView, ev: EventView) -> StepResult {
    match ev {
        EventView::SendFailed => StepResult {
            session: SessionView { state: SessionStateView::Closed, ..s },
            history: h,
            frames: Seq::<ServerMessageView>::empty(),
            persist: false,
            action: ActionView::Nothing,
        },
        EventView::InboundClosed => StepResult {
            session: SessionView { state: SessionStateView::Closed, ..s },
            history: h,
            frames: Seq::<ServerMessageView>::empty(),
            persist: false,
            action: ActionView::Nothing,
        },
        EventView::Inbound(m) => match s.state {
            SessionStateView::Idle => match m {
                ClientMessageView::Text(c) => {
                    let h2 = HistoryView {
                        messages: h.messages.push(
                            MessageView { role: Role::User, content: c },
                        ),
                        ..h
                    };
                    StepResult {
                        session: SessionView {
                            state: SessionStateView::Generating,
                            accum: Seq::<char>::empty(),
                        },
                        history: h2,
                        frames: Seq::<ServerMessageView>::empty(),
                        persist: true,
                        action: ActionView::Generate(conversation_spec(h2)),
                    }
                },
                ClientMessageView::SetModel(n) => match lookup_spec(cfg.models, n) {
                    Some(mc) => StepResult {
                        session: SessionView { state: SessionStateView::Switching(n), ..s },
                        history: h,
                        frames: Seq::<ServerMessageView>::empty(),
                        persist: false,
                        action: ActionView::Restart(mc.path, mc.args),
                    },
                    None => frames_result(
                        s,
                        h,
                        seq![ServerMessageView::Error(unknown_model_text(n))],
                    ),
                },
            },
            SessionStateView::Closed => quiet_result(s, h),
            _ => frames_result(s, h, seq![ServerMessageView::Error(busy_text())]),
        },
        EventView::RestartOutcome(res) => match s.state {
            SessionStateView::Switching(n) => {
                let s2 = SessionView { state: SessionStateView::Idle, ..s };
                match res {
                    Ok(()) => StepResult {
                        session: s2,
                        history: HistoryView { current_model: n, ..h },
                        frames: seq![ServerMessageView::ModelChanged(n)],
                        persist: true,
                        action: ActionView::Nothing,
                    },
                    Err(e) => frames_result(
                        s2,
                        h,
                        seq![ServerMessageView::Error(switch_failed_text(e))],
                    ),
                }
            },
            _ => quiet_result(s, h),
        },
        EventView::Fragment(f) => match s.state {
            SessionStateView::Generating => StepResult {
                session: SessionView { accum: s.accum + f, ..s },
                history: h,
                frames: seq![ServerMessageView::Token(f)],
                persist: false,
                action: ActionView::Nothing,
            },
            _ => quiet_result(s, h),
        },
        EventView::StreamError(msg) => match s.state {
            SessionStateView::Generating => frames_result(
                s,
                h,
                seq![ServerMessageView::Error(msg)],
            ),
            _ => quiet_result(s, h),
        },
        EventView::StreamEnd => match s.state {
            SessionStateView::Generating => StepResult {
                session: SessionView {
                    state: SessionStateView::Idle,
                    accum: Seq::<char>::empty(),
                },
                history: HistoryView {
                    messages: h.messages.push(
                        MessageView { role: Role::Assistant, content: s.accum },
                    ),
                    ..h
                },
                frames: seq![ServerMessageView::EndOfMessage],
                persist: true,
                action: ActionView::Nothing,
            },
            _ => quiet_result(s, h),
        },
    }
}

/// A [`StepOutput`] that sends nothing, persists nothing, asks for nothing.
fn quiet_output() -> (out: StepOutput)
    ensures
        out@.frames == Seq::<ServerMessageView>::empty(),
        out@.persist == false,
        out@.action == ActionView::Nothing,
{
    let out = StepOutput { frames: Vec::new(), persist: false, action: Action::Nothing };
    proof {
        assert(out@.frames =~= Seq::<ServerMessageView>::empty());
    }
    out
}

/// A [`StepOutput`] that only sends the one given frame.
fn frame_output(m: ServerMessage) -> (out: StepOutput)
    ensures
        out@.frames == seq![m@],
        out@.persist == false,
        out@.action == ActionView::Nothing,
{
    let ghost mv = m@;
    let mut frames: Vec<ServerMessage> = Vec::new();
    frames.push(m);
    let out = StepOutput { frames, persist: false, action: Action::Nothing };
    proof {
        assert(out@.frames =~= seq![mv]);
    }
    out
}

impl Session {
    /// A fresh session: idle, nothing accumulated.
    pub fn new() -> (s: Session)
        ensures
            s@ == (SessionView { state: SessionStateView::Idle, accum: Seq::<char>::empty() }),
    {
        Session { state: SessionState::Idle, accum: String::new() }
    }

    /// Feeds one event to the session; follows [`step_model`] exactly.
    pub fn step(
        &mut self,
        history: &mut ChatHistory,
        config: &AppConfig,
        ev: SessionEvent,
    ) -> (out: StepOutput)
        ensures
            ({
                let r = step_model(old(self)@, old(history)@, config@, ev@);
                &&& final(self)@ == r.session
                &&& final(history)@ == r.history
                &&& out@.frames == r.frames
                &&& out@.persist == r.persist
                &&& out@.action == r.action
            }),
    {
        match ev {
            SessionEvent::SendFailed => {
                self.state = SessionState::Closed;
                quiet_output()
            },
            SessionEvent::InboundClosed => {
                self.state = SessionState::Closed;
                quiet_output()
            },
            SessionEvent::Inbound(m) => {
                let idle = matches!(self.state, SessionState::Idle);
                let closed = matches!(self.state, SessionState::Closed);
                if closed {
                    quiet_output()
                } else if !idle {
                    frame_output(ServerMessage::Error(busy_string()))
                } else {
                    match m {
                        ClientMessage::Text(c) => {
                            history.push_message(Role::User, c);
                            let req = build_request(history);
                            self.state = SessionState::Generating;
                            self.accum = String::new();
                            let out = StepOutput {
                                frames: Vec::new(),
                                persist: true,
                                action: Action::Generate(req),
                            };
                            proof {
                                assert(out@.frames =~= Seq::<ServerMessageView>::empty());
                                assert(final(history)@ == step_model(
                                    old(self)@,
                                    old(history)@,
                                    config@,
                                    ev@,
                                ).history);
                                assert(out@.action == step_model(
                                    old(self)@,
                                    old(history)@,
                                    config@,
                                    ev@,
                                ).action);
                            }
                            out
                        },
                        ClientMessage::SetModel(n) => {
                            let found = config.lookup(&n);
                            match found {
                                None => frame_output(
                                    ServerMessage::Error(unknown_model_string(&n)),
                                ),
                                Some(mc) => {
                                    let path = mc.path.clone();
                                    let args = clone_strings(&mc.args);
                                    self.state = SessionState::Switching(n);
                                    let out = StepOutput {
                                        frames: Vec::new(),
                                        persist: false,
                                        action: Action::Restart(path, args),
                                    };
                                    proof {
                                        assert(out@.frames =~= Seq::<ServerMessageView>::empty());
                                    }
                                    out
                                },
                            }
                        },
                    }
                }
            },
            SessionEvent::RestartOutcome(res) => {
                let pending: Option<String> = match &self.state {
                    SessionState::Switching(n) => Some(n.clone()),
                    _ => None,
                };
                match pending {
                    None => quiet_output(),
                    Some(name) => {
                        self.state = SessionState::Idle;
                        match res {
                            Ok(()) => {
                                history.set_current_model(name.clone());
                                let mut frames: Vec<ServerMessage> = Vec::new();
                                frames.push(ServerMessage::ModelChanged(name));
                                let out = StepOutput {
                                    frames,
                                    persist: true,
                                    action: Action::Nothing,
                                };
                                proof {
                                    assert(out@.frames =~= seq![
                                        ServerMessageView::ModelChanged(name@),
                                    ]);
                                }
                                out
                            },
                            Err(e) => frame_output(
                                ServerMessage::Error(switch_failed_string(e)),
                            ),
                        }
                    },
                }
            },
            SessionEvent::Fragment(f) => {
                if matches!(self.state, SessionState::Generating) {
                    self.accum.append(f.as_str());
                    frame_output(ServerMessage::Token(f))
                } else {
                    quiet_output()
                }
            },
            SessionEvent::StreamError(msg) => {
                if matches!(self.state, SessionState::Generating) {
                    frame_output(ServerMessage::Error(msg))
                } else {
                    quiet_output()
                }
            },
            SessionEvent::StreamEnd => {
                if matches!(self.state, SessionState::Generating) {
                    let text = self.accum.clone();
                    self.accum = String::new();
                    self.state = SessionState::Idle;
                    history.push_message(Role::Assistant, text);
                    let mut frames: Vec<ServerMessage> = Vec::new();
                    frames.push(ServerMessage::EndOfMessage);
                    let out = StepOutput { frames, persist: true, action: Action::Nothing };
                    proof {
                        assert(out@.frames =~= seq![ServerMessageView::EndOfMessage]);
                    }
                    out
                } else {
                    quiet_output()
                }
            },
        }
    }
}

/// The two frames every fresh connection receives before anything else: the
/// full history snapshot, then the configured model identifiers (in table
/// order, which is sorted).
pub fn connect_frames(history: &ChatHistory, config: &AppConfig) -> (frames: Vec<ServerMessage>)
    ensures
        frames@.map_values(|m: ServerMessage| m@) == seq![
            ServerMessageView::History(history@),
            ServerMessageView::AvailableModels(
                config@.models.map_values(|e: ModelEntryView| e.name),
            ),
        ],
{
    let mut frames: Vec<ServerMessage> = Vec::new();
    frames.push(ServerMessage::History(history.clone()));
    frames.push(ServerMessage::AvailableModels(config.model_names()));
    proof {
        assert(frames@.map_values(|m: ServerMessage| m@) =~= seq![
            ServerMessageView::History(history@),
            ServerMessageView::AvailableModels(
                config@.models.map_values(|e: ModelEntryView| e.name),
            ),
        ]);
    }
    frames
}

/// Several events applied in order: the session and history they leave.
pub open spec fn run_model(
    s: SessionView,
    h: HistoryView,
    cfg: ConfigView,
    evs: Seq<EventView>,
) -> (SessionView, HistoryView)
    decreases evs.len(),
{
    if evs.len() == 0 {
        (s, h)
    } else {
        let r = step_model(s, h, cfg, evs[0]);
        run_model(r.session, r.history, cfg, evs.drop_first())
    }
}

/// Running two event sequences in a row is running their concatenation.
pub proof fn lemma_run_split(
    s: SessionView,
    h: HistoryView,
    cfg: ConfigView,
    a: Seq<EventView>,
    b: Seq<EventView>,
)
    ensures
        run_model(s, h, cfg, a + b) == run_model(
            run_model(s, h, cfg, a).0,
            run_model(s, h, cfg, a).1,
            cfg,
            b,
        ),
    decreases a.len(),
{
    if a.len() == 0 {
        assert(a + b =~= b);
    } else {
        assert((a + b)[0] == a[0]);
        assert((a + b).drop_first() =~= a.drop_first() + b);
        let r = step_model(s, h, cfg, a[0]);
        lemma_run_split(r.session, r.history, cfg, a.drop_first(), b);
    }
}

/// What a generation in flight may receive before its stream ends.
pub open spec fn is_stream_event(ev: EventView) -> bool {
    ev is Fragment || ev is StreamError
}

/// The text of the fragments among the events, in order.
pub open spec fn fragments_text(evs: Seq<EventView>) -> Seq<char>
    decreases evs.len(),
{
    if evs.len() == 0 {
        Seq::<char>::empty()
    } else {
        (match evs[0] {
            EventView::Fragment(f) => f,
            _ => Seq::<char>::empty(),
        }) + fragments_text(evs.drop_first())
    }
}

/// A generation in flight, fed any mix of fragments and stream errors and
/// then the end of the stream, appends exactly one assistant message: the
/// accumulated text, whatever was produced before any failure.  The session
/// idles again and the active model is untouched.
pub proof fn lemma_generation_run(
    s: SessionView,
    h: HistoryView,
    cfg: ConfigView,
    mid: Seq<EventView>,
)
    requires
        s.state is Generating,
        forall|i: int| 0 <= i < mid.len() ==> is_stream_event(#[trigger] mid[i]),
    ensures
        ({
            let r = run_model(s, h, cfg, mid + seq![EventView::StreamEnd]);
            &&& r.0 == (SessionView {
                state: SessionStateView::Idle,
                accum: Seq::<char>::empty(),
            })
            &&& r.1.messages == h.messages.push(
                MessageView { role: Role::Assistant, content: s.accum + fragments_text(mid) },
            )
            &&& r.1.current_model == h.current_model
        }),
    decreases mid.len(),
{
    reveal_with_fuel(run_model, 2);
    let evs = mid + seq![EventView::StreamEnd];
    if mid.len() == 0 {
        assert(evs[0] == EventView::StreamEnd);
        assert(evs.drop_first() =~= Seq::<EventView>::empty());
        assert(s.accum + fragments_text(mid) =~= s.accum);
    } else {
        assert(evs[0] == mid[0]);
        assert(evs.drop_first() =~= mid.drop_first() + seq![EventView::StreamEnd]);
        let r0 = step_model(s, h, cfg, mid[0]);
        assert(is_stream_event(mid[0]));
        lemma_generation_run(r0.session, r0.history, cfg, mid.drop_first());
        assert(r0.session.accum + fragments_text(mid.drop_first()) =~= s.accum + fragments_text(
            mid,
        ));
    }
}

/// The events of one full text round on a connection: the inbound text
/// frame, the stream of the generation it starts, and the end of the stream.
pub open spec fn round_events(c: Seq<char>, mid: Seq<EventView>) -> Seq<EventView> {
    seq![EventView::Inbound(ClientMessageView::Text(c))] + mid + seq![EventView::StreamEnd]
}

/// One full text round from an idle session adds to the history exactly one
/// user message carrying the inbound text, followed by exactly one assistant
/// message carrying the concatenated fragments (possibly empty), and nothing
/// else; the session idles again and the active model is untouched.
pub proof fn lemma_text_round(
    s: SessionView,
    h: HistoryView,
    cfg: ConfigView,
    c: Seq<char>,
    mid: Seq<EventView>,
)
    requires
        s.state is Idle,
        forall|i: int| 0 <= i < mid.len() ==> is_stream_event(#[trigger] mid[i]),
    ensures
        ({
            let r = run_model(s, h, cfg, round_events(c, mid));
            &&& r.0 == (SessionView {
                state: SessionStateView::Idle,
                accum: Seq::<char>::empty(),
            })
            &&& r.1.messages == h.messages + seq![
                MessageView { role: Role::User, content: c },
                MessageView { role: Role::Assistant, content: fragments_text(mid) },
            ]
            &&& r.1.current_model == h.current_model
        }),
{
    let evs = round_events(c, mid);
    let ev0 = EventView::Inbound(ClientMessageView::Text(c));
    assert(evs[0] == ev0);
    assert(evs.drop_first() =~= mid + seq![EventView::StreamEnd]);
    let r0 = step_model(s, h, cfg, ev0);
    lemma_generation_run(r0.session, r0.history, cfg, mid);
    assert(Seq::<char>::empty() + fragments_text(mid) =~= fragments_text(mid));
    let r = run_model(s, h, cfg, evs);
    assert(r.1.messages =~= h.messages + seq![
        MessageView { role: Role::User, content: c },
        MessageView { role: Role::Assistant, content: fragments_text(mid) },
    ]);
}

/// The events of any number of consecutive text rounds.
pub open spec fn rounds_events(rounds: Seq<(Seq<char>, Seq<EventView>)>) -> Seq<EventView>
    decreases rounds.len(),
{
    if rounds.len() == 0 {
        Seq::<EventView>::empty()
    } else {
        round_events(rounds[0].0, rounds[0].1) + rounds_events(rounds.drop_first())
    }
}

/// The user/assistant message pairs the rounds leave in the history.
pub open spec fn rounds_messages(rounds: Seq<(Seq<char>, Seq<EventView>)>) -> Seq<MessageView>
    decreases rounds.len(),
{
    if rounds.len() == 0 {
        Seq::<MessageView>::empty()
    } else {
        seq![
            MessageView { role: Role::User, content: rounds[0].0 },
            MessageView { role: Role::Assistant, content: fragments_text(rounds[0].1) },
        ] + rounds_messages(rounds.drop_first())
    }
}

/// Every round's stream consists of fragments and stream errors only.
pub open spec fn rounds_wf(rounds: Seq<(Seq<char>, Seq<EventView>)>) -> bool {
    forall|k: int|
        0 <= k < rounds.len() ==> forall|i: int|
            0 <= i < rounds[k].1.len() ==> is_stream_event(#[trigger] (#[trigger] rounds[k].1)[i])
}

/// For any sequence of text rounds on one connection, the history after each
/// round has gained exactly one user message followed by one assistant
/// message per round, in order; nothing else changed.
pub proof fn lemma_text_rounds(
    s: SessionView,
    h: HistoryView,
    cfg: ConfigView,
    rounds: Seq<(Seq<char>, Seq<EventView>)>,
)
    requires
        s.state is Idle,
        rounds_wf(rounds),
    ensures
        ({
            let r = run_model(s, h, cfg, rounds_events(rounds));
            &&& r.0.state is Idle
            &&& r.1.messages == h.messages + rounds_messages(rounds)
            &&& r.1.current_model == h.current_model
        }),
    decreases rounds.len(),
{
    if rounds.len() == 0 {
        assert(h.messages + rounds_messages(rounds) =~= h.messages);
    } else {
        let first = round_events(rounds[0].0, rounds[0].1);
        let rest = rounds_events(rounds.drop_first());
        assert(rounds_events(rounds) == first + rest);
        lemma_run_split(s, h, cfg, first, rest);
        assert(forall|i: int|
            0 <= i < rounds[0].1.len() ==> is_stream_event(#[trigger] (rounds[0].1)[i]));
        lemma_text_round(s, h, cfg, rounds[0].0, rounds[0].1);
        let r1 = run_model(s, h, cfg, first);
        assert(rounds_wf(rounds.drop_first()));
        lemma_text_rounds(r1.0, r1.1, cfg, rounds.drop_first());
        assert((h.messages + seq![
            MessageView { role: Role::User, content: rounds[0].0 },
            MessageView { role: Role::Assistant, content: fragments_text(rounds[0].1) },
        ]) + rounds_messages(rounds.drop_first()) =~= h.messages + rounds_messages(rounds));
    }
}

/// Switching to the model that is already active still restarts the backend:
/// the step on `SetModel(x)` with `x` configured asks for exactly one restart
/// — there is no special-case skip when `current_model` is already `x`.
pub proof fn lemma_set_model_always_restarts(
    s: SessionView,
    h: HistoryView,
    cfg: ConfigView,
    x: Seq<char>,
    mc: crate::config::ModelConfigView,
)
    requires
        s.state is Idle,
        lookup_spec(cfg.models, x) == Some(mc),
        h.current_model == x,
    ensures
        ({
            let r = step_model(s, h, cfg, EventView::Inbound(ClientMessageView::SetModel(x)));
            &&& r.action == ActionView::Restart(mc.path, mc.args)
            &&& r.session.state == SessionStateView::Switching(x)
            &&& r.history == h
            &&& r.frames == Seq::<ServerMessageView>::empty()
        }),
{
}

/// The conversation log is append-only: whatever a step does, the messages
/// already in the history stay, in place and in order.
pub proof fn lemma_history_append_only(
    s: SessionView,
    h: HistoryView,
    cfg: ConfigView,
    ev: EventView,
)
    ensures
        h.messages.is_prefix_of(step_model(s, h, cfg, ev).history.messages),
{
    let r = step_model(s, h, cfg, ev);
    assert(h.messages.is_prefix_of(r.history.messages)) by {
        if r.history.messages != h.messages {
            assert(h.messages.is_prefix_of(h.messages.push(r.history.messages.last())));
        } else {
            assert(h.messages.is_prefix_of(h.messages));
        }
    }
}

/// A session is coherent with the configuration when any pending model
/// switch names a configured model.
pub open spec fn session_wf(s: SessionView, cfg: ConfigView) -> bool {
    s.state matches SessionStateView::Switching(n) ==> lookup_spec(cfg.models, n) is Some
}

/// The active model identifier never leaves the configuration: every step
/// keeps the session coherent, and `current_model` either stays what it was
/// or becomes a configured identifier.
pub proof fn lemma_model_stays_configured(
    s: SessionView,
    h: HistoryView,
    cfg: ConfigView,
    ev: EventView,
)
    requires
        session_wf(s, cfg),
    ensures
        ({
            let r = step_model(s, h, cfg, ev);
            &&& session_wf(r.session, cfg)
            &&& (r.history.current_model == h.current_model || lookup_spec(
                cfg.models,
                r.history.current_model,
            ) is Some)
        }),
{
}

/// An inbound frame that does not decode as a [`ClientMessage`] is treated
/// as bare text, so older or hand-driven clients keep working.
pub fn normalize_inbound(parsed: Option<ClientMessage>, raw: String) -> (m: ClientMessage)
    ensures
        m@ == (match parsed {
            Some(p) => p@,
            None => ClientMessageView::Text(raw@),
        }),
{
    match parsed {
        Some(p) => p,
        None => ClientMessage::Text(raw),
    }
}

} // verus!

