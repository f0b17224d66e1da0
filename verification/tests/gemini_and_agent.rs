use siren::agent::{exit_failure, ClaudeCodeAgent, DEFAULT_PERMISSION_MODE};
use siren::error::DomainError;
use siren::gemini::{rest_url, ws_url, Credentials, STT_MODEL};
use siren::json::Json;

fn obj(members: Vec<(&str, Json)>) -> Json {
    Json::Object(members.into_iter().map(|(k, v)| (k.to_string(), v)).collect())
}

fn s(x: &str) -> Json {
    Json::Str(x.to_string())
}

#[test]
fn credentials_need_the_variable() {
    let c = Credentials::from_env(Some(String::from("secret"))).ok().unwrap();
    assert_eq!(c.api_key(), "secret");
    assert_eq!(c.into_key(), "secret");
    match Credentials::from_env(None) {
        Err(e) => assert_eq!(e, DomainError::Model(String::from("GEMINI_API_KEY environment variable not set"))),
        Ok(_) => panic!("credentials without a key"),
    }
}

#[test]
fn urls() {
    assert_eq!(
        rest_url(STT_MODEL, "generateContent"),
        "https://generativelanguage.googleapis.com/v1beta/models/gemini-flash-latest:generateContent"
    );
    assert_eq!(
        ws_url("k1"),
        "wss://generativelanguage.googleapis.com/ws/google.ai.generativelanguage.v1beta.GenerativeService.BidiGenerateContent?key=k1"
    );
}

#[test]
fn agent_arguments_follow_its_state() {
    let agent = ClaudeCodeAgent::new(String::from("agent"), DEFAULT_PERMISSION_MODE.to_string(), None);
    assert_eq!(agent.session(), None);
    assert_eq!(agent.program(), "agent");
    assert_eq!(
        agent.command_args("fix it"),
        vec!["--print", "--output-format", "json", "--permission-mode", "acceptEdits", "--", "fix it"]
    );
    let mut agent = ClaudeCodeAgent::new(String::from("agent"), String::from("plan"), Some(String::from("be brief")));
    let reply = agent.receive(Some(obj(vec![("session_id", s("abc")), ("result", s("  done \n"))])));
    assert_eq!(reply, Ok(String::from("done")));
    assert_eq!(agent.session(), Some("abc"));
    assert_eq!(
        agent.command_args("next"),
        vec![
            "--print", "--output-format", "json", "--permission-mode", "plan", "--resume", "abc",
            "--append-system-prompt", "be brief", "--", "next"
        ]
    );
}

#[test]
fn agent_errors() {
    let mut agent = ClaudeCodeAgent::new(String::from("agent"), String::from("m"), None);
    assert_eq!(
        agent.receive(None),
        Err(DomainError::Inference(String::from("parsing agent json output")))
    );
    assert_eq!(
        agent.receive(Some(obj(vec![("session_id", s("s1")), ("result", s("   "))]))),
        Err(DomainError::Inference(String::from("agent returned no text result")))
    );
    assert_eq!(agent.session(), Some("s1"));
    assert_eq!(
        agent.receive(Some(obj(vec![("result", Json::Number(String::from("3")))]))),
        Err(DomainError::Inference(String::from("agent returned no text result")))
    );
    assert_eq!(agent.session(), Some("s1"));
    assert_eq!(
        exit_failure("agent", "exit status: 1", b"  bad flag\n"),
        DomainError::Inference(String::from("agent exited with exit status: 1: bad flag"))
    );
    assert_eq!(
        exit_failure("agent", "exit status: 2", &[0xff, b'x']),
        DomainError::Inference(String::from("agent exited with exit status: 2: \u{fffd}x"))
    );
}
