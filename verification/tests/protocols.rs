use base64::Engine;
use siren::asr::{collect_text, http_failure, GeminiRecognizer};
use siren::json::Json;
use siren::live::{parse as parse_live, realtime_input, GeminiLiveAgent};
use siren::mcp::{
    call, error, handle, initialize, list, list_voices, parse, success, tool_result, Handling,
    Request, ToolCall,
};
use siren::tts::{answer_samples, GeminiSynthesizer};

fn obj(members: Vec<(&str, Json)>) -> Json {
    Json::Object(members.into_iter().map(|(k, v)| (k.to_string(), v)).collect())
}

fn s(x: &str) -> Json {
    Json::Str(x.to_string())
}

fn num(x: &str) -> Json {
    Json::Number(x.to_string())
}

fn b64(bytes: &[u8]) -> String {
    base64::engine::general_purpose::STANDARD.encode(bytes)
}

#[test]
fn json_access() {
    let v = obj(vec![("a", Json::Array(vec![s("x"), Json::Bool(true)])), ("b", Json::Null)]);
    assert_eq!(v.get("a").and_then(|a| a.at(1)).and_then(|b| b.as_bool()), Some(true));
    assert_eq!(v.get("a").and_then(|a| a.at(5)), None);
    assert_eq!(v.get("b"), Some(&Json::Null));
    assert_eq!(v.get("c"), None);
    assert_eq!(s("q").get("a"), None);
    assert_eq!(v.copy(), v);
    assert_eq!(s("q").as_str(), Some("q"));
}

#[test]
fn rpc_requests() {
    let line = obj(vec![("jsonrpc", s("2.0")), ("id", num("7")), ("method", s("ping"))]);
    assert_eq!(
        parse(&line),
        Some(Request { id: Some(num("7")), method: String::from("ping"), params: Json::Null })
    );
    let note = obj(vec![("method", s("notifications/initialized")), ("params", obj(vec![]))]);
    assert_eq!(parse(&note).map(|r| r.id), Some(None));
    assert_eq!(parse(&obj(vec![("id", num("1"))])), None);
    assert_eq!(parse(&obj(vec![("method", num("1"))])), None);
    assert_eq!(parse(&Json::Array(vec![])), None);
}

#[test]
fn rpc_responses() {
    assert_eq!(
        success(num("1"), obj(vec![])),
        obj(vec![("jsonrpc", s("2.0")), ("id", num("1")), ("result", obj(vec![]))])
    );
    assert_eq!(
        error(s("x"), -32601, "method not found"),
        obj(vec![
            ("jsonrpc", s("2.0")),
            ("id", s("x")),
            ("error", obj(vec![("code", num("-32601")), ("message", s("method not found"))])),
        ])
    );
}

fn request(id: Option<Json>, method: &str, params: Json) -> Request {
    Request { id, method: method.to_string(), params }
}

#[test]
fn server_answers_each_method() {
    let init = handle(request(Some(num("1")), "initialize", obj(vec![("protocolVersion", s("2024-11-05"))])), "0.1.0");
    assert_eq!(
        init,
        Handling::Reply(success(
            num("1"),
            obj(vec![
                ("protocolVersion", s("2024-11-05")),
                ("capabilities", obj(vec![("tools", obj(vec![]))])),
                ("serverInfo", obj(vec![("name", s("siren")), ("version", s("0.1.0"))])),
            ])
        ))
    );
    assert_eq!(
        initialize(&Json::Null, "9"),
        obj(vec![
            ("protocolVersion", s("2025-06-18")),
            ("capabilities", obj(vec![("tools", obj(vec![]))])),
            ("serverInfo", obj(vec![("name", s("siren")), ("version", s("9"))])),
        ])
    );
    assert_eq!(handle(request(None, "ping", Json::Null), "v"), Handling::Silent);
    assert_eq!(handle(request(None, "tools/call", Json::Null), "v"), Handling::Silent);
    assert_eq!(handle(request(Some(num("2")), "notifications/initialized", Json::Null), "v"), Handling::Silent);
    assert_eq!(handle(request(Some(num("3")), "ping", Json::Null), "v"), Handling::Reply(success(num("3"), obj(vec![]))));
    assert_eq!(
        handle(request(Some(num("4")), "tools/list", Json::Null), "v"),
        Handling::Reply(success(num("4"), obj(vec![("tools", list())])))
    );
    assert_eq!(
        handle(request(Some(num("5")), "resources/list", Json::Null), "v"),
        Handling::Reply(error(num("5"), -32601, "method not found"))
    );
    assert_eq!(
        handle(request(Some(num("6")), "tools/call", obj(vec![("name", s("siren_list_voices"))])), "v"),
        Handling::RunTool { id: num("6"), name: String::from("siren_list_voices"), arguments: Json::Null }
    );
    assert_eq!(
        handle(request(Some(num("8")), "tools/call", Json::Null), "v"),
        Handling::RunTool { id: num("8"), name: String::new(), arguments: Json::Null }
    );
}

#[test]
fn tool_list_names_three_tools() {
    let tools = list();
    let names: Vec<&str> = match &tools {
        Json::Array(items) => items.iter().map(|t| t.get("name").and_then(|n| n.as_str()).unwrap()).collect(),
        _ => panic!("tools is no array"),
    };
    assert_eq!(names, vec!["siren_speak", "siren_transcribe", "siren_list_voices"]);
    let required = tools.at(0).unwrap().get("inputSchema").unwrap().get("required").unwrap();
    assert_eq!(required, &Json::Array(vec![s("text")]));
}

#[test]
fn tool_calls_are_planned() {
    assert_eq!(
        call("siren_speak", &obj(vec![("text", s("hi"))])),
        Ok(ToolCall::Speak { text: String::from("hi"), voice: String::from("Charon"), output: None, local: false })
    );
    assert_eq!(
        call("siren_speak", &obj(vec![("text", s("hi")), ("voice", s("Puck")), ("output", s("o.wav")), ("local", Json::Bool(true))])),
        Ok(ToolCall::Speak { text: String::from("hi"), voice: String::from("Puck"), output: Some(String::from("o.wav")), local: true })
    );
    assert_eq!(call("siren_speak", &Json::Null), Err(String::from("missing 'text'")));
    assert_eq!(
        call("siren_transcribe", &obj(vec![("path", s("a.wav"))])),
        Ok(ToolCall::Transcribe { path: String::from("a.wav"), language: String::from("id"), local: false })
    );
    assert_eq!(call("siren_transcribe", &obj(vec![("path", num("1"))])), Err(String::from("missing 'path'")));
    assert_eq!(call("siren_list_voices", &Json::Null), Ok(ToolCall::ListVoices));
    assert_eq!(call("nope", &Json::Null), Err(String::from("unknown tool: nope")));
    assert_eq!(list_voices(), "Charon, Orus, Fenrir, Iapetus, Enceladus, Puck, Aoede, Kore");
}

#[test]
fn tool_results() {
    let content = |text: &str| Json::Array(vec![obj(vec![("type", s("text")), ("text", s(text))])]);
    assert_eq!(
        tool_result(num("1"), Ok(String::from("done"))),
        success(num("1"), obj(vec![("content", content("done")), ("isError", Json::Bool(false))]))
    );
    assert_eq!(
        tool_result(num("1"), Err(String::from("missing 'text'"))),
        success(num("1"), obj(vec![("content", content("error: missing 'text'")), ("isError", Json::Bool(true))]))
    );
}

#[test]
fn live_session_messages() {
    let agent = GeminiLiveAgent::load(String::from("m1"), String::from("Charon"), String::new(), Some(String::from("k"))).ok().unwrap();
    assert_eq!(agent.api_key(), "k");
    let config = obj(vec![
        ("responseModalities", Json::Array(vec![s("AUDIO")])),
        ("speechConfig", obj(vec![("voiceConfig", obj(vec![("prebuiltVoiceConfig", obj(vec![("voiceName", s("Charon"))]))]))])),
    ]);
    assert_eq!(
        agent.setup(),
        obj(vec![("setup", obj(vec![("model", s("models/m1")), ("generationConfig", config.copy())]))])
    );
    let with_system = GeminiLiveAgent::load(String::from("m1"), String::from("Charon"), String::from("be terse"), Some(String::from("k"))).ok().unwrap();
    assert_eq!(
        with_system.setup(),
        obj(vec![(
            "setup",
            obj(vec![
                ("model", s("models/m1")),
                ("generationConfig", config),
                ("systemInstruction", obj(vec![("parts", Json::Array(vec![obj(vec![("text", s("be terse"))])]))])),
            ])
        )])
    );
    assert!(GeminiLiveAgent::load(String::from("m"), String::from("v"), String::new(), None).is_err());
    assert_eq!(
        realtime_input(&[1, 2, 3, 4]),
        obj(vec![("realtimeInput", obj(vec![("audio", obj(vec![("data", s(&b64(&[1, 2, 3, 4]))), ("mimeType", s("audio/pcm;rate=16000"))]))]))])
    );
}

#[test]
fn live_server_audio() {
    let part = |data: &str| obj(vec![("inlineData", obj(vec![("data", s(data)), ("mimeType", s("audio/pcm"))]))]);
    let message = obj(vec![(
        "serverContent",
        obj(vec![("modelTurn", obj(vec![("parts", Json::Array(vec![part(&b64(&[1, 0, 0xff, 0xff])), obj(vec![("text", s("hi"))]), part(&b64(&[2, 0]))]))]))]),
    )]);
    assert_eq!(parse_live(&message), Ok(vec![vec![1, -1], vec![2]]));
    assert_eq!(parse_live(&obj(vec![("setupComplete", obj(vec![]))])), Ok(vec![]));
    let bad = obj(vec![("serverContent", obj(vec![("modelTurn", obj(vec![("parts", Json::Array(vec![part("%%%")]))]))]))]);
    assert_eq!(parse_live(&bad), Err(String::from("decoding live audio")));
}

#[test]
fn speech_requests_and_answers() {
    let synth = GeminiSynthesizer::load(String::from("tts-1"), String::from("Orus"), Some(String::from("k"))).ok().unwrap();
    assert_eq!(synth.api_key(), "k");
    assert_eq!(
        synth.stream_url(),
        "https://generativelanguage.googleapis.com/v1beta/models/tts-1:streamGenerateContent?alt=sse"
    );
    let body = synth.request_body("halo");
    assert_eq!(
        body.get("contents"),
        Some(&Json::Array(vec![obj(vec![("parts", Json::Array(vec![obj(vec![("text", s("halo"))])]))])]))
    );
    let answer = |data: Json| obj(vec![(
        "candidates",
        Json::Array(vec![obj(vec![("content", obj(vec![("parts", Json::Array(vec![obj(vec![("inlineData", obj(vec![("data", data)]))])]))]))])]),
    )]);
    assert_eq!(answer_samples(&answer(s(&b64(&[0, 0x80, 1, 0])))), Ok(Some(vec![i16::MIN, 1])));
    assert_eq!(answer_samples(&answer(num("1"))), Ok(None));
    assert_eq!(answer_samples(&obj(vec![])), Ok(None));
    assert_eq!(answer_samples(&answer(s("!!"))), Err(String::from("decoding audio base64")));
}

#[test]
fn transcription_requests_and_answers() {
    let rec = GeminiRecognizer::load(String::from("stt-1"), String::from("id"), Some(String::from("k"))).ok().unwrap();
    assert_eq!(rec.api_key(), "k");
    assert_eq!(rec.request_url(), "https://generativelanguage.googleapis.com/v1beta/models/stt-1:generateContent");
    let body = rec.request_body(&[1, -1]);
    let parts = body.get("contents").unwrap().at(0).unwrap().get("parts").unwrap();
    assert_eq!(
        parts.at(0).unwrap().get("text").unwrap().as_str(),
        Some("Transcribe this audio. The spoken language is 'id'. Return only the transcript text, with no commentary or labels.")
    );
    let data = parts.at(1).unwrap().get("inlineData").unwrap().get("data").unwrap().as_str().unwrap();
    let wav = base64::engine::general_purpose::STANDARD.decode(data).unwrap();
    assert_eq!(wav.len(), 48);
    assert_eq!(&wav[0..4], b"RIFF");
    assert_eq!(&wav[44..], &[1, 0, 0xff, 0xff]);
    let value = obj(vec![(
        "candidates",
        Json::Array(vec![obj(vec![("content", obj(vec![("parts", Json::Array(vec![obj(vec![("text", s(" halo "))]), obj(vec![("x", s("y"))]), obj(vec![("text", s("dunia \n"))])]))]))])]),
    )]);
    assert_eq!(collect_text(&value), "halo dunia");
    assert_eq!(collect_text(&obj(vec![])), "");
    assert_eq!(http_failure("400 Bad Request", "no"), "gemini http 400 Bad Request: no");
}
