//! Tests of the model table and the conversation log.

use chat_relay::config::{AppConfig, ModelConfig};
use chat_relay::protocol::{ChatHistory, Role};

#[test]
fn lookup_finds_configured_model() {
    let mut cfg = AppConfig::new("a".to_string());
    assert!(cfg.add_model(
        "a".to_string(),
        ModelConfig { path: "/m/a.gguf".to_string(), args: vec!["-x".to_string()] },
    ));
    let found = cfg.lookup(&"a".to_string()).expect("configured model");
    assert_eq!(found.path, "/m/a.gguf");
    assert_eq!(found.args, vec!["-x".to_string()]);
    assert!(cfg.lookup(&"missing".to_string()).is_none());
}

#[test]
fn duplicate_identifier_rejected() {
    let mut cfg = AppConfig::new("a".to_string());
    assert!(cfg.add_model(
        "a".to_string(),
        ModelConfig { path: "/m/a.gguf".to_string(), args: vec![] },
    ));
    assert!(!cfg.add_model(
        "a".to_string(),
        ModelConfig { path: "/m/other.gguf".to_string(), args: vec![] },
    ));
    // The first entry stands.
    assert_eq!(cfg.lookup(&"a".to_string()).unwrap().path, "/m/a.gguf");
    assert_eq!(cfg.model_names(), vec!["a".to_string()]);
}

#[test]
fn model_names_come_out_sorted() {
    let mut cfg = AppConfig::new("zeta".to_string());
    for name in ["zeta", "alpha", "mid"] {
        assert!(cfg.add_model(
            name.to_string(),
            ModelConfig { path: format!("/m/{}.gguf", name), args: vec![] },
        ));
    }
    assert_eq!(
        cfg.model_names(),
        vec!["alpha".to_string(), "mid".to_string(), "zeta".to_string()],
    );
}

#[test]
fn history_appends_in_order() {
    let mut h = ChatHistory::new("m".to_string());
    h.push_message(Role::User, "one".to_string());
    h.push_message(Role::Assistant, "two".to_string());
    assert_eq!(h.messages.len(), 2);
    assert!(matches!(h.messages[0].role, Role::User));
    assert_eq!(h.messages[0].content, "one");
    assert!(matches!(h.messages[1].role, Role::Assistant));
    assert_eq!(h.messages[1].content, "two");
    assert_eq!(h.current_model, "m");
}

#[test]
fn set_current_model_keeps_the_log() {
    let mut h = ChatHistory::new("m".to_string());
    h.push_message(Role::User, "one".to_string());
    h.set_current_model("n".to_string());
    assert_eq!(h.current_model, "n");
    assert_eq!(h.messages.len(), 1);
}
