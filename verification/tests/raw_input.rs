use base64::Engine;
use siren::agent::ClaudeCodeAgent;
use siren::asr::answer_text;
use siren::json::Json;
use siren::live::parse_payload;
use siren::mcp::parse_line as parse_request;
use siren::tts::parse_line as speech_line;
use siren::DomainError;

fn b64(bytes: &[u8]) -> String {
    base64::engine::general_purpose::STANDARD.encode(bytes)
}

#[test]
fn rpc_lines_are_parsed() {
    let r = parse_request(r#"{"jsonrpc":"2.0","id":7,"method":"tools/list"}"#).unwrap();
    assert_eq!(r.method, "tools/list");
    assert_eq!(r.id, Some(Json::Number(String::from("7"))));
    assert_eq!(r.params, Json::Null);
    let n = parse_request(r#"{"method":"notifications/initialized","params":{"a":[true,null]}}"#).unwrap();
    assert_eq!(n.id, None);
    assert_eq!(
        n.params,
        Json::Object(vec![(String::from("a"), Json::Array(vec![Json::Bool(true), Json::Null]))])
    );
    assert!(parse_request("not json").is_none());
    assert!(parse_request("").is_none());
    assert!(parse_request(r#"{"id":1}"#).is_none());
    assert!(parse_request(r#"{"method":3}"#).is_none());
}

#[test]
fn live_payloads() {
    assert_eq!(parse_payload(b""), Ok(Vec::new()));
    assert_eq!(parse_payload(b"{oops"), Err(String::from("parsing live message")));
    assert_eq!(parse_payload(br#"{"setupComplete":{}}"#), Ok(Vec::new()));
    let msg = format!(
        r#"{{"serverContent":{{"modelTurn":{{"parts":[{{"inlineData":{{"data":"{}"}}}},{{"text":"x"}},{{"inlineData":{{"data":"{}"}}}}]}}}}}}"#,
        b64(&[1, 0, 0xff, 0xff, 9]),
        b64(&[0, 0x80])
    );
    assert_eq!(parse_payload(msg.as_bytes()), Ok(vec![vec![1, -1], vec![-32768]]));
    let bad = r#"{"serverContent":{"modelTurn":{"parts":[{"inlineData":{"data":"!!"}}]}}}"#;
    assert_eq!(parse_payload(bad.as_bytes()), Err(String::from("decoding live audio")));
}

#[test]
fn speech_stream_lines() {
    assert_eq!(speech_line(b": ping\n"), Ok(None));
    assert_eq!(speech_line(b"data: [DONE]\n"), Ok(None));
    assert_eq!(speech_line(b"data: {nope\n"), Err(String::from("parsing sse json")));
    assert_eq!(speech_line(b"data: {\"candidates\":[]}\n"), Ok(None));
    let line = format!(
        "data: {{\"candidates\":[{{\"content\":{{\"parts\":[{{\"inlineData\":{{\"data\":\"{}\"}}}}]}}}}]}}\r\n",
        b64(&[2, 0, 3, 1])
    );
    assert_eq!(speech_line(line.as_bytes()), Ok(Some(vec![2, 259])));
    let bad = "data: {\"candidates\":[{\"content\":{\"parts\":[{\"inlineData\":{\"data\":\"%%\"}}]}}]}";
    assert_eq!(speech_line(bad.as_bytes()), Err(String::from("decoding audio base64")));
}

#[test]
fn transcription_answers() {
    let body = br#"{"candidates":[{"content":{"parts":[{"text":"  halo "},{"text":"dunia  "}]}}]}"#;
    assert_eq!(answer_text(body), Ok(String::from("halo dunia")));
    assert_eq!(answer_text(b"{}"), Ok(String::new()));
    assert_eq!(answer_text(b"<html>"), Err(String::from("parsing gemini response")));
}

#[test]
fn agent_output() {
    let mut agent = ClaudeCodeAgent::new(String::from("agent"), String::from("acceptEdits"), None);
    assert_eq!(
        agent.receive_output(b"oops"),
        Err(DomainError::Inference(String::from("parsing agent json output")))
    );
    assert_eq!(agent.session(), None);
    assert_eq!(
        agent.receive_output(br#"{"session_id":"s1","result":"  fixed it \n"}"#),
        Ok(String::from("fixed it"))
    );
    assert_eq!(agent.session(), Some("s1"));
    assert_eq!(
        agent.receive_output(br#"{"result":"   "}"#),
        Err(DomainError::Inference(String::from("agent returned no text result")))
    );
    assert_eq!(agent.session(), Some("s1"));
}
