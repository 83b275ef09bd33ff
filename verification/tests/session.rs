//! Tests of the session protocol handler, following the wire protocol's
//! visible behaviour.

use chat_relay::config::{AppConfig, ModelConfig};
use chat_relay::process::ProcessError;
use chat_relay::protocol::{ChatHistory, ClientMessage, Role, ServerMessage};
use chat_relay::protocol::history_or_default;
use chat_relay::session::{Action, Session, SessionEvent, SessionState};
use chat_relay::session::{connect_frames, normalize_inbound};

fn test_config() -> AppConfig {
    let mut cfg = AppConfig::new("m1".to_string());
    assert!(cfg.add_model(
        "m2".to_string(),
        ModelConfig { path: "/models/m2.gguf".to_string(), args: vec!["-c".to_string()] },
    ));
    assert!(cfg.add_model(
        "m1".to_string(),
        ModelConfig { path: "/models/m1.gguf".to_string(), args: vec![] },
    ));
    cfg
}

#[test]
fn fresh_server_first_connection_frames() {
    // No history file present: empty history under the default model.
    let cfg = test_config();
    let history = history_or_default(None, cfg.default.clone());
    assert!(history.messages.is_empty());
    assert_eq!(history.current_model, "m1");

    let frames = connect_frames(&history, &cfg);
    assert_eq!(frames.len(), 2);
    match &frames[0] {
        ServerMessage::History(h) => {
            assert!(h.messages.is_empty());
            assert_eq!(h.current_model, "m1");
        }
        other => panic!("expected History frame, got {:?}", other),
    }
    match &frames[1] {
        ServerMessage::AvailableModels(names) => {
            assert_eq!(names, &vec!["m1".to_string(), "m2".to_string()]);
        }
        other => panic!("expected AvailableModels frame, got {:?}", other),
    }
}

#[test]
fn text_round_streams_tokens_and_persists_both_messages() {
    let cfg = test_config();
    let mut history = history_or_default(None, cfg.default.clone());
    let mut session = Session::new();

    let out = session.step(
        &mut history,
        &cfg,
        SessionEvent::Inbound(ClientMessage::Text("hi".to_string())),
    );
    assert!(out.frames.is_empty());
    assert!(out.persist);
    match &out.action {
        Action::Generate(req) => {
            assert!(req.stream);
            assert_eq!(req.messages.len(), 1);
            assert_eq!(req.messages[0].role, "user");
            assert_eq!(req.messages[0].content, "hi");
        }
        other => panic!("expected Generate action, got {:?}", other),
    }

    let out = session.step(&mut history, &cfg, SessionEvent::Fragment("he".to_string()));
    assert_eq!(out.frames.len(), 1);
    assert!(matches!(&out.frames[0], ServerMessage::Token(t) if t == "he"));

    let out = session.step(&mut history, &cfg, SessionEvent::Fragment("llo".to_string()));
    assert!(matches!(&out.frames[0], ServerMessage::Token(t) if t == "llo"));

    let out = session.step(&mut history, &cfg, SessionEvent::StreamEnd);
    assert_eq!(out.frames.len(), 1);
    assert!(matches!(&out.frames[0], ServerMessage::EndOfMessage));
    assert!(out.persist);

    assert_eq!(history.messages.len(), 2);
    assert!(matches!(history.messages[0].role, Role::User));
    assert_eq!(history.messages[0].content, "hi");
    assert!(matches!(history.messages[1].role, Role::Assistant));
    assert_eq!(history.messages[1].content, "hello");
}

#[test]
fn unknown_model_yields_single_error_and_no_action() {
    let cfg = test_config();
    let mut history = history_or_default(None, cfg.default.clone());
    let mut session = Session::new();

    let out = session.step(
        &mut history,
        &cfg,
        SessionEvent::Inbound(ClientMessage::SetModel("unknown-model".to_string())),
    );
    assert_eq!(out.frames.len(), 1);
    assert!(matches!(
        &out.frames[0],
        ServerMessage::Error(e) if e == "unknown model: unknown-model"
    ));
    assert!(!out.persist);
    assert!(matches!(out.action, Action::Nothing));
    assert_eq!(history.current_model, "m1");
    assert!(matches!(session.state, SessionState::Idle));
}

#[test]
fn backend_unreachable_reports_error_then_end_of_message() {
    let cfg = test_config();
    let mut history = history_or_default(None, cfg.default.clone());
    let mut session = Session::new();

    let out = session.step(
        &mut history,
        &cfg,
        SessionEvent::Inbound(ClientMessage::Text("hi".to_string())),
    );
    assert!(matches!(out.action, Action::Generate(_)));

    let out = session.step(
        &mut history,
        &cfg,
        SessionEvent::StreamError("connection refused".to_string()),
    );
    assert_eq!(out.frames.len(), 1);
    assert!(matches!(&out.frames[0], ServerMessage::Error(e) if e == "connection refused"));

    let out = session.step(&mut history, &cfg, SessionEvent::StreamEnd);
    assert!(matches!(&out.frames[0], ServerMessage::EndOfMessage));

    assert_eq!(history.messages.len(), 2);
    assert!(matches!(history.messages[0].role, Role::User));
    assert_eq!(history.messages[0].content, "hi");
    assert!(matches!(history.messages[1].role, Role::Assistant));
    assert_eq!(history.messages[1].content, "");
}

#[test]
fn set_model_switch_succeeds() {
    let cfg = test_config();
    let mut history = history_or_default(None, cfg.default.clone());
    let mut session = Session::new();

    let out = session.step(
        &mut history,
        &cfg,
        SessionEvent::Inbound(ClientMessage::SetModel("m2".to_string())),
    );
    assert!(out.frames.is_empty());
    match &out.action {
        Action::Restart(path, args) => {
            assert_eq!(path, "/models/m2.gguf");
            assert_eq!(args, &vec!["-c".to_string()]);
        }
        other => panic!("expected Restart action, got {:?}", other),
    }

    let out = session.step(&mut history, &cfg, SessionEvent::RestartOutcome(Ok(())));
    assert_eq!(out.frames.len(), 1);
    assert!(matches!(&out.frames[0], ServerMessage::ModelChanged(n) if n == "m2"));
    assert!(out.persist);
    assert_eq!(history.current_model, "m2");
    assert!(matches!(session.state, SessionState::Idle));
}

#[test]
fn set_model_switch_failure_leaves_model_unchanged() {
    let cfg = test_config();
    let mut history = history_or_default(None, cfg.default.clone());
    let mut session = Session::new();

    let _ = session.step(
        &mut history,
        &cfg,
        SessionEvent::Inbound(ClientMessage::SetModel("m2".to_string())),
    );
    let out = session.step(
        &mut history,
        &cfg,
        SessionEvent::RestartOutcome(Err(ProcessError::ShutdownError)),
    );
    assert_eq!(out.frames.len(), 1);
    assert!(matches!(
        &out.frames[0],
        ServerMessage::Error(e) if e == "model switch failed: could not stop the old backend"
    ));
    assert!(!out.persist);
    assert_eq!(history.current_model, "m1");
    assert!(matches!(session.state, SessionState::Idle));
}

#[test]
fn set_model_to_active_model_still_restarts() {
    // No special-case skip: switching onto the already-active identifier
    // still asks for exactly one full restart.
    let cfg = test_config();
    let mut history = history_or_default(None, cfg.default.clone());
    assert_eq!(history.current_model, "m1");
    let mut session = Session::new();

    let out = session.step(
        &mut history,
        &cfg,
        SessionEvent::Inbound(ClientMessage::SetModel("m1".to_string())),
    );
    assert!(matches!(&out.action, Action::Restart(path, _) if path == "/models/m1.gguf"));
}

#[test]
fn inbound_while_generating_is_rejected_with_error() {
    let cfg = test_config();
    let mut history = history_or_default(None, cfg.default.clone());
    let mut session = Session::new();

    let _ = session.step(
        &mut history,
        &cfg,
        SessionEvent::Inbound(ClientMessage::Text("hi".to_string())),
    );
    let out = session.step(
        &mut history,
        &cfg,
        SessionEvent::Inbound(ClientMessage::SetModel("m2".to_string())),
    );
    assert_eq!(out.frames.len(), 1);
    assert!(matches!(
        &out.frames[0],
        ServerMessage::Error(e) if e == "busy: finish the current request first"
    ));
    assert!(matches!(out.action, Action::Nothing));
    // The in-flight generation is untouched.
    let out = session.step(&mut history, &cfg, SessionEvent::Fragment("ok".to_string()));
    assert!(matches!(&out.frames[0], ServerMessage::Token(t) if t == "ok"));
}

#[test]
fn send_failure_closes_the_session() {
    let cfg = test_config();
    let mut history = history_or_default(None, cfg.default.clone());
    let mut session = Session::new();

    let out = session.step(&mut history, &cfg, SessionEvent::SendFailed);
    assert!(out.frames.is_empty());
    assert!(matches!(session.state, SessionState::Closed));

    let out = session.step(
        &mut history,
        &cfg,
        SessionEvent::Inbound(ClientMessage::Text("hi".to_string())),
    );
    assert!(out.frames.is_empty());
    assert!(matches!(out.action, Action::Nothing));
    assert!(history.messages.is_empty());
}

#[test]
fn undecodable_inbound_frame_falls_back_to_text() {
    let msg = normalize_inbound(None, "plain words".to_string());
    assert!(matches!(&msg, ClientMessage::Text(t) if t == "plain words"));

    let msg = normalize_inbound(
        Some(ClientMessage::SetModel("m2".to_string())),
        "ignored".to_string(),
    );
    assert!(matches!(&msg, ClientMessage::SetModel(n) if n == "m2"));
}

#[test]
fn each_round_adds_one_user_then_one_assistant_message() {
    let cfg = test_config();
    let mut history = history_or_default(None, cfg.default.clone());
    let mut session = Session::new();

    for (ask, reply) in [("first", "one"), ("second", "two")] {
        let _ = session.step(
            &mut history,
            &cfg,
            SessionEvent::Inbound(ClientMessage::Text(ask.to_string())),
        );
        let _ = session.step(&mut history, &cfg, SessionEvent::Fragment(reply.to_string()));
        let _ = session.step(&mut history, &cfg, SessionEvent::StreamEnd);
    }

    assert_eq!(history.messages.len(), 4);
    let expect = [
        (true, "first"),
        (false, "one"),
        (true, "second"),
        (false, "two"),
    ];
    for (m, (is_user, content)) in history.messages.iter().zip(expect) {
        assert_eq!(matches!(m.role, Role::User), is_user);
        assert_eq!(m.content, content);
    }
}

#[test]
fn inbound_while_switching_is_rejected_with_error() {
    let cfg = test_config();
    let mut history = history_or_default(None, cfg.default.clone());
    let mut session = Session::new();

    let _ = session.step(
        &mut history,
        &cfg,
        SessionEvent::Inbound(ClientMessage::SetModel("m2".to_string())),
    );
    let out = session.step(
        &mut history,
        &cfg,
        SessionEvent::Inbound(ClientMessage::Text("hi".to_string())),
    );
    assert!(matches!(
        &out.frames[0],
        ServerMessage::Error(e) if e == "busy: finish the current request first"
    ));
    // The pending switch still completes.
    let out = session.step(&mut history, &cfg, SessionEvent::RestartOutcome(Ok(())));
    assert!(matches!(&out.frames[0], ServerMessage::ModelChanged(n) if n == "m2"));
}

#[test]
fn connect_frames_carry_the_full_snapshot() {
    let cfg = test_config();
    let mut history = history_or_default(None, cfg.default.clone());
    history.push_message(Role::User, "hi".to_string());
    history.push_message(Role::Assistant, "hello".to_string());

    let frames = connect_frames(&history, &cfg);
    match &frames[0] {
        ServerMessage::History(h) => {
            assert_eq!(h.messages.len(), 2);
            assert_eq!(h.messages[1].content, "hello");
        }
        other => panic!("expected History frame, got {:?}", other),
    }
}

#[test]
fn loaded_history_is_kept() {
    let mut loaded = ChatHistory::new("m2".to_string());
    loaded.push_message(Role::User, "old".to_string());
    let history = history_or_default(Some(loaded), "m1".to_string());
    assert_eq!(history.current_model, "m2");
    assert_eq!(history.messages.len(), 1);
    assert_eq!(history.messages[0].content, "old");
}
