use dcp_provider::agent::{
    front_end_token, hermes_ws_url, session_token, user_prompt, HermesAction, HermesChat,
    HermesEvent, HermesPhase,
};
use dcp_provider::json::{JsonMember, JsonValue};

fn obj(members: Vec<(&str, JsonValue)>) -> JsonValue {
    JsonValue::Object(
        members
            .into_iter()
            .map(|(k, v)| JsonMember { key: k.to_string(), value: v })
            .collect(),
    )
}

fn s(v: &str) -> JsonValue {
    JsonValue::Str(v.to_string())
}

fn msg(role: &str, content: &str) -> JsonValue {
    obj(vec![("role", s(role)), ("content", s(content))])
}

#[test]
fn prompt_is_last_user_message() {
    let doc = obj(vec![(
        "messages",
        JsonValue::Array(vec![
            msg("system", "be helpful"),
            msg("user", "first"),
            msg("assistant", "ok"),
            msg("user", "second"),
            msg("assistant", "done"),
        ]),
    )]);
    assert_eq!(user_prompt(&doc), "second");
    assert_eq!(user_prompt(&obj(vec![])), "");
    let no_text = obj(vec![(
        "messages",
        JsonValue::Array(vec![msg("user", "earlier"), obj(vec![("role", s("user"))])]),
    )]);
    assert_eq!(user_prompt(&no_text), "");
}

#[test]
fn session_tokens() {
    assert_eq!(session_token("  tok-1\n"), Ok("tok-1".to_string()));
    assert_eq!(session_token(" \n"), Err("Hermes session token is empty".to_string()));
    assert_eq!(hermes_ws_url("tok-1"), "ws://localhost:18789/api/ws?token=tok-1");
    assert_eq!(front_end_token(None), "dcp-agent-ws-token-fixed");
    assert_eq!(front_end_token(Some("abc\n".to_string())), "abc\n");
}

fn expect_wait(a: HermesAction) {
    assert!(matches!(a, HermesAction::Wait), "expected Wait, got {:?}", a);
}

#[test]
fn conversation_with_new_session() {
    let mut chat = HermesChat::new(None);
    expect_wait(chat.step(HermesEvent::Text(obj(vec![("method", s("gateway.hello"))]))));
    expect_wait(chat.step(HermesEvent::Other));
    assert!(matches!(
        chat.step(HermesEvent::Text(obj(vec![("method", s("gateway.ready"))]))),
        HermesAction::CreateSession
    ));
    expect_wait(chat.step(HermesEvent::Text(obj(vec![("id", s("other"))]))));
    match chat.step(HermesEvent::Text(obj(vec![
        ("id", s("create-1")),
        ("result", obj(vec![("session_id", s("sess-9"))])),
    ]))) {
        HermesAction::SubmitPrompt { session_id, created } => {
            assert_eq!(session_id, "sess-9");
            assert!(created);
        },
        other => panic!("unexpected {:?}", other),
    }
    assert_eq!(chat.cached_session, Some("sess-9".to_string()));
    expect_wait(chat.step(HermesEvent::Text(obj(vec![("id", s("prompt-1")), ("result", obj(vec![]))]))));
    expect_wait(chat.step(HermesEvent::Text(obj(vec![("method", s("message.start"))]))));
    expect_wait(chat.step(HermesEvent::Text(obj(vec![
        ("method", s("message.delta")),
        ("params", obj(vec![("content", s("Hel"))])),
    ]))));
    expect_wait(chat.step(HermesEvent::Text(obj(vec![
        ("method", s("message.delta")),
        ("params", obj(vec![("content", s("lo"))])),
    ]))));
    assert_eq!(chat.response, "Hello");
    match chat.step(HermesEvent::Text(obj(vec![("method", s("message.done"))]))) {
        HermesAction::Reply(text) => assert_eq!(text, "Hello"),
        other => panic!("unexpected {:?}", other),
    }
    assert_eq!(chat.phase, HermesPhase::Done);
}

#[test]
fn conversation_reusing_session() {
    let mut chat = HermesChat::new(Some("cached".to_string()));
    match chat.step(HermesEvent::Text(obj(vec![("method", s("gateway.ready"))]))) {
        HermesAction::SubmitPrompt { session_id, created } => {
            assert_eq!(session_id, "cached");
            assert!(!created);
        },
        other => panic!("unexpected {:?}", other),
    }
    match chat.step(HermesEvent::Close) {
        HermesAction::Reply(text) => {
            assert_eq!(text, "Hermes processed the request but returned no content.")
        },
        other => panic!("unexpected {:?}", other),
    }
}

fn expect_fail(a: HermesAction, msg: &str) {
    match a {
        HermesAction::Fail(m) => assert_eq!(m, msg),
        other => panic!("unexpected {:?}", other),
    }
}

#[test]
fn conversation_failures() {
    let mut chat = HermesChat::new(None);
    expect_fail(chat.step(HermesEvent::Ended), "WS closed before gateway.ready");
    let mut chat = HermesChat::new(None);
    expect_fail(chat.step(HermesEvent::TimedOut), "Timeout waiting for gateway.ready");
    let mut chat = HermesChat::new(None);
    chat.step(HermesEvent::Text(obj(vec![("method", s("gateway.ready"))])));
    expect_fail(
        chat.step(HermesEvent::Text(obj(vec![
            ("id", s("create-1")),
            ("error", obj(vec![("message", s("quota"))])),
        ]))),
        "session.create error: quota",
    );
    let mut chat = HermesChat::new(None);
    chat.step(HermesEvent::Text(obj(vec![("method", s("gateway.ready"))])));
    expect_fail(chat.step(HermesEvent::Ended), "WS closed before session.create response");
    let mut chat = HermesChat::new(Some("x".to_string()));
    chat.step(HermesEvent::Text(obj(vec![("method", s("gateway.ready"))])));
    expect_fail(
        chat.step(HermesEvent::Text(obj(vec![("id", s("prompt-1")), ("error", obj(vec![]))]))),
        "prompt.submit error: unknown error",
    );
    let mut chat = HermesChat::new(Some("x".to_string()));
    chat.step(HermesEvent::Text(obj(vec![("method", s("gateway.ready"))])));
    expect_fail(chat.step(HermesEvent::ReadError("reset".to_string())), "WS read error: reset");
    let mut chat = HermesChat::new(Some("x".to_string()));
    chat.step(HermesEvent::Text(obj(vec![("method", s("gateway.ready"))])));
    expect_fail(chat.step(HermesEvent::TimedOut), "Timeout waiting for Hermes response (120s)");
}

#[test]
fn cached_session_kept_across_conversation() {
    let mut chat = HermesChat::new(Some("s-1".to_string()));
    let events = vec![
        HermesEvent::Other,
        HermesEvent::Text(obj(vec![("method", s("gateway.ready"))])),
        HermesEvent::Text(obj(vec![("id", s("create-1")), ("result", obj(vec![("session_id", s("s-2"))]))])),
        HermesEvent::Text(obj(vec![("method", s("message.delta")), ("params", obj(vec![("content", s("hi"))]))])),
        HermesEvent::Text(obj(vec![("method", s("message.done"))])),
    ];
    for ev in events {
        match chat.step(ev) {
            HermesAction::CreateSession => panic!("a cached session must be reused"),
            HermesAction::SubmitPrompt { session_id, created } => {
                assert_eq!(session_id, "s-1");
                assert!(!created);
            },
            HermesAction::Reply(text) => assert_eq!(text, "hi"),
            _ => {},
        }
        assert_eq!(chat.cached_session.as_deref(), Some("s-1"));
    }
    assert_eq!(chat.phase, HermesPhase::Done);
}
