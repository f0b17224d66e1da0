use vstd::prelude::*;
use vstd::string::*;
use crate::json::{Json, JsonView, opt_json, parse_json_text, json_parse_text, field, lookup, get_spec, str_of, bool_of, jstr, text, object1, object2, object3, object4, empty_object, array1, array3};
use crate::text::{str_eq, decimal, decimal_string, join, join_spec, str_views};
use crate::gemini::DEFAULT_VOICE;

verus! {

/// The MCP protocol version that the server speaks where the client names
/// none.
pub const PROTOCOL_VERSION: &'static str = "2025-06-18";

/// The JSON-RPC error code of an unknown method.
pub const METHOD_NOT_FOUND: i64 = -32601;

/// A JSON-RPC request or notification.
#[derive(Debug, PartialEq, Eq)]
pub struct Request {
    /// The request's id; `None` for a notification.
    pub id: Option<Json>,
    pub method: String,
    pub params: Json,
}

/// The request that a parsed line holds: one with a string `method`, its
/// `id` where it has one, and its `params`, `null` where it has none.
pub fn parse(value: &Json) -> (r: Option<Request>)
    ensures
        r is Some <==> str_of(field(value@, "method"@)) is Some,
        r matches Some(q) ==> {
            &&& str_of(field(value@, "method"@)) == Some(q.method@)
            &&& opt_json(q.id) == get_spec(value@, "id"@)
            &&& q.params@ == field(value@, "params"@)
        },
{
    let method = match value.get("method") {
        Some(m) => match m.as_str() {
            Some(s) => String::from_str(s),
            None => return None,
        },
        None => return None,
    };
    let id = match value.get("id") {
        Some(x) => Some(x.copy()),
        None => None,
    };
    let params = match value.get("params") {
        Some(x) => x.copy(),
        None => Json::Null,
    };
    Some(Request { id, method, params })
}

/// The request that one line of the stream holds: `None` where the line is
/// no JSON, else what `parse` gives of the value it holds.
pub fn parse_line(line: &str) -> (r: Option<Request>)
    ensures
        json_parse_text(line@) is None ==> r is None,
        json_parse_text(line@) matches Some(v) ==> {
            &&& (r is Some <==> str_of(field(v, "method"@)) is Some)
            &&& r matches Some(q) ==> {
                &&& str_of(field(v, "method"@)) == Some(q.method@)
                &&& opt_json(q.id) == get_spec(v, "id"@)
                &&& q.params@ == field(v, "params"@)
            }
        },
{
    match parse_json_text(line) {
        Some(v) => parse(&v),
        None => None,
    }
}

/// A successful response.
pub open spec fn success_spec(id: JsonView, result: JsonView) -> JsonView {
    JsonView::Object(seq![("jsonrpc"@, jstr("2.0"@)), ("id"@, id), ("result"@, result)])
}

/// An error response.
pub open spec fn error_spec(id: JsonView, code: int, message: Seq<char>) -> JsonView {
    JsonView::Object(
        seq![
            ("jsonrpc"@, jstr("2.0"@)),
            ("id"@, id),
            (
                "error"@,
                JsonView::Object(
                    seq![("code"@, JsonView::Number(decimal(code))), ("message"@, jstr(message))],
                ),
            ),
        ],
    )
}

/// A successful response to the request `id`.
pub fn success(id: Json, result: Json) -> (r: Json)
    ensures
        r@ == success_spec(id@, result@),
{
    object3("jsonrpc", text("2.0"), "id", id, "result", result)
}

/// An error response to the request `id`.
pub fn error(id: Json, code: i64, message: &str) -> (r: Json)
    ensures
        r@ == error_spec(id@, code as int, message@),
{
    let detail = object2("code", Json::Number(decimal_string(code)), "message", text(message));
    object3("jsonrpc", text("2.0"), "id", id, "error", detail)
}

/// The answer to `initialize`: the client's protocol version where it
/// names one, the server's otherwise; the tools capability; and the
/// server's name and version.
pub open spec fn initialize_spec(params: JsonView, server_version: Seq<char>) -> JsonView {
    let version = match str_of(field(params, "protocolVersion"@)) {
        Some(v) => v,
        None => PROTOCOL_VERSION@,
    };
    JsonView::Object(
        seq![
            ("protocolVersion"@, jstr(version)),
            ("capabilities"@, JsonView::Object(seq![("tools"@, JsonView::Object(Seq::empty()))])),
            (
                "serverInfo"@,
                JsonView::Object(seq![("name"@, jstr("siren"@)), ("version"@, jstr(server_version))]),
            ),
        ],
    )
}

/// The answer to `initialize`; `server_version` is the server's own version.
pub fn initialize(params: &Json, server_version: &str) -> (r: Json)
    ensures
        r@ == initialize_spec(params@, server_version@),
{
    let version = match params.get("protocolVersion") {
        Some(v) => match v.as_str() {
            Some(s) => s,
            None => PROTOCOL_VERSION,
        },
        None => PROTOCOL_VERSION,
    };
    object3(
        "protocolVersion",
        text(version),
        "capabilities",
        object1("tools", empty_object()),
        "serverInfo",
        object2("name", text("siren"), "version", text(server_version)),
    )
}

/// A property of a tool's input schema.
pub open spec fn prop_spec(ty: Seq<char>, description: Seq<char>) -> JsonView {
    JsonView::Object(seq![("type"@, jstr(ty)), ("description"@, jstr(description))])
}

/// A tool, as `tools/list` describes it.
pub open spec fn tool_spec(name: Seq<char>, description: Seq<char>, schema: JsonView) -> JsonView {
    JsonView::Object(
        seq![("name"@, jstr(name)), ("description"@, jstr(description)), ("inputSchema"@, schema)],
    )
}

/// The input schema of `siren_speak`.
pub open spec fn speak_schema() -> JsonView {
    JsonView::Object(
        seq![
            ("type"@, jstr("object"@)),
            (
                "properties"@,
                JsonView::Object(
                    seq![
                        ("text"@, prop_spec("string"@, "Text to speak."@)),
                        ("voice"@, prop_spec("string"@, "Gemini voice name (default Charon)."@)),
                        (
                            "output"@,
                            prop_spec(
                                "string"@,
                                "Optional WAV path; saves instead of playing live."@,
                            ),
                        ),
                        (
                            "local"@,
                            prop_spec(
                                "boolean"@,
                                "Use the offline Piper voice (no API key or network)."@,
                            ),
                        ),
                    ],
                ),
            ),
            ("required"@, JsonView::Array(seq![jstr("text"@)])),
        ],
    )
}

/// The input schema of `siren_transcribe`.
pub open spec fn transcribe_schema() -> JsonView {
    JsonView::Object(
        seq![
            ("type"@, jstr("object"@)),
            (
                "properties"@,
                JsonView::Object(
                    seq![
                        ("path"@, prop_spec("string"@, "Path to the audio file."@)),
                        ("language"@, prop_spec("string"@, "Spoken-language hint (default id)."@)),
                        ("local"@, prop_spec("boolean"@, "Use offline Whisper instead of Gemini."@)),
                    ],
                ),
            ),
            ("required"@, JsonView::Array(seq![jstr("path"@)])),
        ],
    )
}

/// The input schema of `siren_list_voices`.
pub open spec fn list_voices_schema() -> JsonView {
    JsonView::Object(
        seq![("type"@, jstr("object"@)), ("properties"@, JsonView::Object(Seq::empty()))],
    )
}

/// The tools that the server offers.
pub open spec fn tools_spec() -> JsonView {
    JsonView::Array(
        seq![
            tool_spec(
                "siren_speak"@,
                "Speak text aloud with a natural voice (Google Gemini by default). Plays through the machine's speaker, or writes a WAV when 'output' is set."@,
                speak_schema(),
            ),
            tool_spec(
                "siren_transcribe"@,
                "Transcribe an audio file to text (Google Gemini by default; wav/mp3/flac/ogg/etc)."@,
                transcribe_schema(),
            ),
            tool_spec(
                "siren_list_voices"@,
                "List the available Gemini voice names for siren_speak."@,
                list_voices_schema(),
            ),
        ],
    )
}

fn prop(ty: &str, description: &str) -> (r: Json)
    ensures
        r@ == prop_spec(ty@, description@),
{
    object2("type", text(ty), "description", text(description))
}

fn tool(name: &str, description: &str, schema: Json) -> (r: Json)
    ensures
        r@ == tool_spec(name@, description@, schema@),
{
    object3("name", text(name), "description", text(description), "inputSchema", schema)
}

/// The tools that the server offers, with their input schemas.
pub fn list() -> (r: Json)
    ensures
        r@ == tools_spec(),
{
    let speak = object3(
        "type",
        text("object"),
        "properties",
        object4(
            "text",
            prop("string", "Text to speak."),
            "voice",
            prop("string", "Gemini voice name (default Charon)."),
            "output",
            prop("string", "Optional WAV path; saves instead of playing live."),
            "local",
            prop("boolean", "Use the offline Piper voice (no API key or network)."),
        ),
        "required",
        array1(text("text")),
    );
    let transcribe = object3(
        "type",
        text("object"),
        "properties",
        object3(
            "path",
            prop("string", "Path to the audio file."),
            "language",
            prop("string", "Spoken-language hint (default id)."),
            "local",
            prop("boolean", "Use offline Whisper instead of Gemini."),
        ),
        "required",
        array1(text("path")),
    );
    let list_voices = object2("type", text("object"), "properties", empty_object());
    array3(
        tool(
            "siren_speak",
            "Speak text aloud with a natural voice (Google Gemini by default). Plays through the machine's speaker, or writes a WAV when 'output' is set.",
            speak,
        ),
        tool(
            "siren_transcribe",
            "Transcribe an audio file to text (Google Gemini by default; wav/mp3/flac/ogg/etc).",
            transcribe,
        ),
        tool(
            "siren_list_voices",
            "List the available Gemini voice names for siren_speak.",
            list_voices,
        ),
    )
}

/// What a tool call asks the engine to do.
#[derive(Debug, PartialEq, Eq)]
pub enum ToolCall {
    /// Speak `text` in `voice`, or with the offline voice where `local`;
    /// into a WAV file where `output` names one.
    Speak { text: String, voice: String, output: Option<String>, local: bool },
    /// Transcribe the audio file at `path`, with a hint of its `language`.
    Transcribe { path: String, language: String, local: bool },
    /// Name the voices on offer.
    ListVoices,
}

/// A tool call with its strings taken as character sequences.
pub enum ToolCallView {
    Speak { text: Seq<char>, voice: Seq<char>, output: Option<Seq<char>>, local: bool },
    Transcribe { path: Seq<char>, language: Seq<char>, local: bool },
    ListVoices,
}

impl View for ToolCall {
    type V = ToolCallView;

    open spec fn view(&self) -> ToolCallView {
        match self {
            ToolCall::Speak { text, voice, output, local } => ToolCallView::Speak {
                text: text@,
                voice: voice@,
                output: match output {
                    Some(o) => Some(o@),
                    None => None,
                },
                local: *local,
            },
            ToolCall::Transcribe { path, language, local } => ToolCallView::Transcribe {
                path: path@,
                language: language@,
                local: *local,
            },
            ToolCall::ListVoices => ToolCallView::ListVoices,
        }
    }
}

/// A string argument, or `default` where it is missing or no string.
pub open spec fn str_or(v: JsonView, default: Seq<char>) -> Seq<char> {
    match str_of(v) {
        Some(s) => s,
        None => default,
    }
}

/// What a call of the tool `name` with `args` asks for, or why it cannot be
/// made: `siren_speak` needs a `text` string and `siren_transcribe` a `path`
/// string; `voice` defaults to the default voice, `language` to `id`, and
/// `local` to false; other names are unknown tools.
pub open spec fn plan_spec(name: Seq<char>, args: JsonView) -> Result<ToolCallView, Seq<char>> {
    if name == "siren_speak"@ {
        match str_of(field(args, "text"@)) {
            None => Err("missing 'text'"@),
            Some(t) => Ok(
                ToolCallView::Speak {
                    text: t,
                    voice: str_or(field(args, "voice"@), DEFAULT_VOICE@),
                    output: str_of(field(args, "output"@)),
                    local: bool_of(field(args, "local"@)) == Some(true),
                },
            ),
        }
    } else if name == "siren_transcribe"@ {
        match str_of(field(args, "path"@)) {
            None => Err("missing 'path'"@),
            Some(p) => Ok(
                ToolCallView::Transcribe {
                    path: p,
                    language: str_or(field(args, "language"@), "id"@),
                    local: bool_of(field(args, "local"@)) == Some(true),
                },
            ),
        }
    } else if name == "siren_list_voices"@ {
        Ok(ToolCallView::ListVoices)
    } else {
        Err("unknown tool: "@ + name)
    }
}

fn str_field(args: &Json, key: &str) -> (r: Option<String>)
    ensures
        match r {
            Some(s) => str_of(field(args@, key@)) == Some(s@),
            None => str_of(field(args@, key@)) is None,
        },
{
    match args.get(key) {
        Some(v) => match v.as_str() {
            Some(s) => Some(String::from_str(s)),
            None => None,
        },
        None => None,
    }
}

fn flag_field(args: &Json, key: &str) -> (r: bool)
    ensures
        r == (bool_of(field(args@, key@)) == Some(true)),
{
    match args.get(key) {
        Some(v) => match v.as_bool() {
            Some(b) => b,
            None => false,
        },
        None => false,
    }
}

/// What a call of the tool `name` with `args` asks for, or the error that
/// the caller is told; `plan_spec` says which.
pub fn call(name: &str, args: &Json) -> (r: Result<ToolCall, String>)
    ensures
        match r {
            Ok(c) => plan_spec(name@, args@) == Ok::<ToolCallView, Seq<char>>(c@),
            Err(e) => plan_spec(name@, args@) == Err::<ToolCallView, Seq<char>>(e@),
        },
{
    if str_eq(name, "siren_speak") {
        match str_field(args, "text") {
            None => Err(String::from_str("missing 'text'")),
            Some(text) => {
                let voice = match str_field(args, "voice") {
                    Some(v) => v,
                    None => String::from_str(DEFAULT_VOICE),
                };
                let output = str_field(args, "output");
                let local = flag_field(args, "local");
                Ok(ToolCall::Speak { text, voice, output, local })
            },
        }
    } else if str_eq(name, "siren_transcribe") {
        match str_field(args, "path") {
            None => Err(String::from_str("missing 'path'")),
            Some(path) => {
                let language = match str_field(args, "language") {
                    Some(l) => l,
                    None => String::from_str("id"),
                };
                let local = flag_field(args, "local");
                Ok(ToolCall::Transcribe { path, language, local })
            },
        }
    } else if str_eq(name, "siren_list_voices") {
        Ok(ToolCall::ListVoices)
    } else {
        let mut e = String::from_str("unknown tool: ");
        e.append(name);
        Err(e)
    }
}

/// The Gemini voices on offer.
pub open spec fn voices_spec() -> Seq<Seq<char>> {
    seq!["Charon"@, "Orus"@, "Fenrir"@, "Iapetus"@, "Enceladus"@, "Puck"@, "Aoede"@, "Kore"@]
}

/// The Gemini voices on offer, separated by commas.
pub fn list_voices() -> (r: String)
    ensures
        r@ == join_spec(voices_spec(), ", "@),
{
    let voices: [&str; 8] = ["Charon", "Orus", "Fenrir", "Iapetus", "Enceladus", "Puck", "Aoede", "Kore"];
    let r = join(&voices, ", ");
    assert(str_views(voices@) =~= voices_spec());
    r
}

/// The text of a tool's outcome: what it reports, or its error after
/// `error: `.
pub open spec fn outcome_text(outcome: Result<Seq<char>, Seq<char>>) -> Seq<char> {
    match outcome {
        Ok(t) => t,
        Err(e) => "error: "@ + e,
    }
}

/// The response to a tool call: the outcome's text as one text item, and
/// whether it is an error.
pub open spec fn tool_result_spec(id: JsonView, outcome: Result<Seq<char>, Seq<char>>) -> JsonView {
    success_spec(
        id,
        JsonView::Object(
            seq![
                (
                    "content"@,
                    JsonView::Array(
                        seq![
                            JsonView::Object(
                                seq![("type"@, jstr("text"@)), ("text"@, jstr(outcome_text(outcome)))],
                            ),
                        ],
                    ),
                ),
                ("isError"@, JsonView::Bool(outcome is Err)),
            ],
        ),
    )
}

/// The character views of a tool's outcome.
pub open spec fn outcome_view(outcome: Result<String, String>) -> Result<Seq<char>, Seq<char>> {
    match outcome {
        Ok(t) => Ok(t@),
        Err(e) => Err(e@),
    }
}

/// The response to the tool call `id`, from what the tool reported.
pub fn tool_result(id: Json, outcome: Result<String, String>) -> (r: Json)
    ensures
        r@ == tool_result_spec(id@, outcome_view(outcome)),
{
    let (message, is_error) = match outcome {
        Ok(t) => (t, false),
        Err(e) => {
            let mut m = String::from_str("error: ");
            m.append(e.as_str());
            (m, true)
        },
    };
    let item = object2("type", text("text"), "text", Json::Str(message));
    success(id, object2("content", array1(item), "isError", Json::Bool(is_error)))
}

/// What the server does with a request.
#[derive(Debug, PartialEq, Eq)]
pub enum Handling {
    /// Send this response.
    Reply(Json),
    /// Send nothing.
    Silent,
    /// Run the tool `name` with `arguments`, and answer the request `id`
    /// with `tool_result`.
    RunTool { id: Json, name: String, arguments: Json },
}

pub enum HandlingView {
    Reply(JsonView),
    Silent,
    RunTool { id: JsonView, name: Seq<char>, arguments: JsonView },
}

impl View for Handling {
    type V = HandlingView;

    open spec fn view(&self) -> HandlingView {
        match self {
            Handling::Reply(r) => HandlingView::Reply(r@),
            Handling::Silent => HandlingView::Silent,
            Handling::RunTool { id, name, arguments } => HandlingView::RunTool {
                id: id@,
                name: name@,
                arguments: arguments@,
            },
        }
    }
}

/// How the server answers a request: a notification (no id) is never
/// answered; `initialize`, `ping` and `tools/list` are answered at once;
/// `tools/call` runs the named tool; any other method is answered with a
/// method-not-found error.
pub open spec fn handle_spec(
    id: Option<JsonView>,
    method: Seq<char>,
    params: JsonView,
    server_version: Seq<char>,
) -> HandlingView {
    match id {
        None => HandlingView::Silent,
        Some(id) => if method == "initialize"@ {
            HandlingView::Reply(success_spec(id, initialize_spec(params, server_version)))
        } else if method == "notifications/initialized"@ {
            HandlingView::Silent
        } else if method == "ping"@ {
            HandlingView::Reply(success_spec(id, JsonView::Object(Seq::empty())))
        } else if method == "tools/list"@ {
            HandlingView::Reply(success_spec(id, JsonView::Object(seq![("tools"@, tools_spec())])))
        } else if method == "tools/call"@ {
            HandlingView::RunTool {
                id,
                name: str_or(field(params, "name"@), Seq::empty()),
                arguments: field(params, "arguments"@),
            }
        } else {
            HandlingView::Reply(error_spec(id, METHOD_NOT_FOUND as int, "method not found"@))
        },
    }
}

/// How the server answers `request`; `server_version` is the server's own
/// version.
pub fn handle(request: Request, server_version: &str) -> (r: Handling)
    ensures
        r@ == handle_spec(opt_json(request.id), request.method@, request.params@, server_version@),
{
    let Request { id, method, params } = request;
    let id = match id {
        Some(id) => id,
        None => return Handling::Silent,
    };
    let m = method.as_str();
    if str_eq(m, "initialize") {
        Handling::Reply(success(id, initialize(&params, server_version)))
    } else if str_eq(m, "notifications/initialized") {
        Handling::Silent
    } else if str_eq(m, "ping") {
        Handling::Reply(success(id, empty_object()))
    } else if str_eq(m, "tools/list") {
        Handling::Reply(success(id, object1("tools", list())))
    } else if str_eq(m, "tools/call") {
        let name = match params.get("name") {
            Some(v) => match v.as_str() {
                Some(s) => String::from_str(s),
                None => String::new(),
            },
            None => String::new(),
        };
        let arguments = match params.get("arguments") {
            Some(a) => a.copy(),
            None => Json::Null,
        };
        Handling::RunTool { id, name, arguments }
    } else {
        Handling::Reply(error(id, METHOD_NOT_FOUND, "method not found"))
    }
}

/// A notification, a request without an id, is never answered, whatever
/// its method.
pub proof fn lemma_notifications_unanswered(method: Seq<char>, params: JsonView, server_version: Seq<char>)
    ensures
        handle_spec(None, method, params, server_version) == HandlingView::Silent,
{
}

/// Every response is a JSON-RPC 2.0 response that carries the id of the
/// request it answers, and a tool call is run for that same id.
pub proof fn lemma_replies_carry_id(
    id: JsonView,
    method: Seq<char>,
    params: JsonView,
    server_version: Seq<char>,
)
    ensures
        handle_spec(Some(id), method, params, server_version) matches HandlingView::Reply(r) ==> {
            &&& field(r, "jsonrpc"@) == jstr("2.0"@)
            &&& field(r, "id"@) == id
        },
        handle_spec(Some(id), method, params, server_version) matches HandlingView::RunTool {
            id: tool_id,
            ..
        } ==> tool_id == id,
{
    reveal_strlit("jsonrpc");
    reveal_strlit("id");
    reveal_with_fuel(crate::json::lookup, 3);
    let h = handle_spec(Some(id), method, params, server_version);
    if let HandlingView::Reply(r) = h {
        let ms = r->Object_0;
        assert(ms[0].0 == "jsonrpc"@);
        assert(ms[1].0 == "id"@);
        assert(ms[0].0 != "id"@);
        assert(ms.drop_first()[0] == ms[1]);
    }
}

/// A tool's response marks it an error exactly when the tool failed, and
/// carries the request's id.
pub proof fn lemma_tool_result(id: JsonView, outcome: Result<Seq<char>, Seq<char>>)
    ensures
        field(field(tool_result_spec(id, outcome), "result"@), "isError"@) == JsonView::Bool(
            outcome is Err,
        ),
        field(tool_result_spec(id, outcome), "id"@) == id,
{
    reveal_strlit("jsonrpc");
    reveal_strlit("id");
    reveal_strlit("result");
    reveal_strlit("content");
    reveal_strlit("isError");
    reveal_with_fuel(crate::json::lookup, 4);
    let r = tool_result_spec(id, outcome);
    let ms = r->Object_0;
    assert(ms.len() == 3);
    assert(ms[0].0 == "jsonrpc"@);
    assert(ms[1].0 == "id"@);
    assert(ms[2].0 == "result"@);
    assert(ms.drop_first()[0] == ms[1]);
    assert(ms.drop_first().drop_first()[0] == ms[2]);
    assert(lookup(ms, "id"@) == Some(id));
    assert(lookup(ms, "result"@) == Some(ms[2].1));
    let res = ms[2].1;
    let rs = res->Object_0;
    assert(rs[0].0 == "content"@);
    assert(rs[1].0 == "isError"@);
    assert(rs.drop_first()[0] == rs[1]);
    assert("content"@[0] != "isError"@[0]);
    assert(lookup(rs, "isError"@) == Some(rs[1].1));
}

/// A transcription call carries what the client asked for: the `path`
/// string, the `language` string where the arguments hold one and `id` only
/// where they hold none or no string, and the offline flag only where
/// `local` is `true`.
pub proof fn lemma_transcribe_call_takes_arguments(args: JsonView, path: Seq<char>)
    requires
        str_of(field(args, "path"@)) == Some(path),
    ensures
        plan_spec("siren_transcribe"@, args) matches Ok(ToolCallView::Transcribe { path: p, language, local })
            && p == path
            && (str_of(field(args, "language"@)) matches Some(l) ==> language == l)
            && (str_of(field(args, "language"@)) is None ==> language == "id"@)
            && local == (bool_of(field(args, "local"@)) == Some(true)),
{
    reveal_strlit("siren_speak");
    reveal_strlit("siren_transcribe");
    assert("siren_transcribe"@ != "siren_speak"@) by {
        assert("siren_transcribe"@[6] != "siren_speak"@[6]);
    }
}

/// A speech call carries what the client asked for: the `text` string, the
/// `voice` string where the arguments hold one and the default voice only
/// where they hold none or no string, the `output` string where there is
/// one, and the offline flag only where `local` is `true`.
pub proof fn lemma_speak_call_takes_arguments(args: JsonView, text: Seq<char>)
    requires
        str_of(field(args, "text"@)) == Some(text),
    ensures
        plan_spec("siren_speak"@, args) matches Ok(ToolCallView::Speak { text: t, voice, output, local })
            && t == text
            && (str_of(field(args, "voice"@)) matches Some(v) ==> voice == v)
            && (str_of(field(args, "voice"@)) is None ==> voice == DEFAULT_VOICE@)
            && output == str_of(field(args, "output"@))
            && local == (bool_of(field(args, "local"@)) == Some(true)),
{
}

/// A `tools/call` request with an id runs, for that id, the tool that its
/// `name` string names, and hands the tool the `arguments` member of the
/// request's params as it is, `null` only where the params have none.
pub proof fn lemma_tool_call_gets_its_arguments(id: JsonView, params: JsonView, server_version: Seq<char>)
    ensures
        handle_spec(Some(id), "tools/call"@, params, server_version) matches HandlingView::RunTool {
            id: i,
            name,
            arguments,
        } && i == id
            && (str_of(field(params, "name"@)) matches Some(n) ==> name == n)
            && (get_spec(params, "arguments"@) matches Some(a) ==> arguments == a)
            && (get_spec(params, "arguments"@) is None ==> arguments == JsonView::Null),
{
    reveal_strlit("tools/call");
    reveal_strlit("initialize");
    reveal_strlit("notifications/initialized");
    reveal_strlit("ping");
    reveal_strlit("tools/list");
    assert("tools/call"@ != "initialize"@) by {
        assert("tools/call"@[0] != "initialize"@[0]);
    }
    assert("tools/call"@ != "notifications/initialized"@) by {
        assert("tools/call"@[0] != "notifications/initialized"@[0]);
    }
    assert("tools/call"@ != "ping"@) by {
        assert("tools/call"@.len() != "ping"@.len());
    }
    assert("tools/call"@ != "tools/list"@) by {
        assert("tools/call"@[6] != "tools/list"@[6]);
    }
}

/// A request with an id for a method that the server does not know is
/// refused with a JSON-RPC error of code -32601 and the message `method not
/// found`, and given no result.
pub proof fn lemma_unknown_method_refused(id: JsonView, method: Seq<char>, params: JsonView, server_version: Seq<char>)
    requires
        method != "initialize"@,
        method != "notifications/initialized"@,
        method != "ping"@,
        method != "tools/list"@,
        method != "tools/call"@,
    ensures
        handle_spec(Some(id), method, params, server_version) matches HandlingView::Reply(r) && field(
            field(r, "error"@),
            "code"@,
        ) == JsonView::Number(decimal(-32601)) && str_of(field(field(r, "error"@), "message"@)) == Some(
            "method not found"@,
        ) && get_spec(r, "result"@) is None && field(r, "id"@) == id,
{
    reveal_strlit("jsonrpc");
    reveal_strlit("id");
    reveal_strlit("error");
    reveal_strlit("result");
    reveal_strlit("code");
    reveal_strlit("message");
    reveal_with_fuel(crate::json::lookup, 4);
    let r = error_spec(id, -32601, "method not found"@);
    let ms = r->Object_0;
    assert("jsonrpc"@ != "id"@ && "jsonrpc"@ != "error"@ && "jsonrpc"@ != "result"@) by {
        assert("jsonrpc"@[0] != "id"@[0] && "jsonrpc"@[0] != "error"@[0] && "jsonrpc"@[0] != "result"@[0]);
    }
    assert("id"@ != "error"@ && "id"@ != "result"@) by {
        assert("id"@[0] != "error"@[0] && "id"@[0] != "result"@[0]);
    }
    assert("error"@ != "result"@) by {
        assert("error"@[0] != "result"@[0]);
    }
    assert(ms.drop_first()[0] == ms[1]);
    assert(ms.drop_first().drop_first()[0] == ms[2]);
    assert(ms.drop_first().drop_first().drop_first().len() == 0);
    let es = field(r, "error"@)->Object_0;
    assert("code"@ != "message"@) by {
        assert("code"@[0] != "message"@[0]);
    }
    assert(es.drop_first()[0] == es[1]);
}

} // verus!
