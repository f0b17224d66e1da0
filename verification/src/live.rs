use vstd::prelude::*;
use vstd::string::*;
use crate::error::DomainError;
use crate::gemini::{Credentials, credentials_result, opt_chars};
use crate::json::{Json, JsonView, parse_json, json_parse, get_spec, field, item, str_of, jstr, text, object1, object2, object3, array1};
use crate::codec::{base64_encode, base64_decode, base64_encoding, base64_decoding};
use crate::wav::{pcm16_from_le, pcm16_decode_spec};

verus! {

/// The rate of the audio that the Live model sends.
pub const OUTPUT_RATE: u32 = 24_000;

/// The type of the audio sent to the Live model: 16-bit PCM at 16 kHz.
pub const INPUT_MIME: &'static str = "audio/pcm;rate=16000";

/// A realtime voice conversation with Gemini over its Live API.
pub struct GeminiLiveAgent {
    api_key: String,
    model: String,
    voice: String,
    system: String,
}

/// The `generationConfig` that asks for audio answers in `voice`.
pub open spec fn audio_config_spec(voice: Seq<char>) -> JsonView {
    JsonView::Object(
        seq![
            ("responseModalities"@, JsonView::Array(seq![jstr("AUDIO"@)])),
            (
                "speechConfig"@,
                JsonView::Object(
                    seq![
                        (
                            "voiceConfig"@,
                            JsonView::Object(
                                seq![
                                    (
                                        "prebuiltVoiceConfig"@,
                                        JsonView::Object(seq![("voiceName"@, jstr(voice))]),
                                    ),
                                ],
                            ),
                        ),
                    ],
                ),
            ),
        ],
    )
}

/// The `setup` message that opens a Live session: the model, audio answers
/// in `voice`, and the system instruction where there is one.
pub open spec fn setup_spec(model: Seq<char>, voice: Seq<char>, system: Seq<char>) -> JsonView {
    let generation = audio_config_spec(voice);
    let m = ("model"@, jstr("models/"@ + model));
    let g = ("generationConfig"@, generation);
    let members = if system.len() == 0 {
        seq![m, g]
    } else {
        seq![
            m,
            g,
            (
                "systemInstruction"@,
                JsonView::Object(
                    seq![
                        (
                            "parts"@,
                            JsonView::Array(seq![JsonView::Object(seq![("text"@, jstr(system))])]),
                        ),
                    ],
                ),
            ),
        ]
    };
    JsonView::Object(seq![("setup"@, JsonView::Object(members))])
}

/// The `generationConfig` that asks for audio answers in `voice`.
pub fn audio_generation_config(voice: &str) -> (r: Json)
    ensures
        r@ == audio_config_spec(voice@),
{
    let voice_config = object1(
        "voiceConfig",
        object1("prebuiltVoiceConfig", object1("voiceName", text(voice))),
    );
    object2(
        "responseModalities",
        array1(text("AUDIO")),
        "speechConfig",
        voice_config,
    )
}

impl GeminiLiveAgent {
    /// The model, the voice and the system instruction of the agent.
    pub closed spec fn spec_settings(&self) -> (Seq<char>, Seq<char>, Seq<char>) {
        (self.model@, self.voice@, self.system@)
    }

    /// The API key of the agent.
    pub closed spec fn spec_api_key(&self) -> Seq<char> {
        self.api_key@
    }

    /// An agent for `model` that answers in `voice` under the `system`
    /// instruction; `key_var` is the value of `GEMINI_API_KEY`, which it
    /// fails without.
    pub fn load(model: String, voice: String, system: String, key_var: Option<String>) -> (r:
        Result<Self, DomainError>)
        ensures
            match opt_chars(key_var) {
                Some(key) => r matches Ok(a) && a.spec_api_key() == key && a.spec_settings() == (
                    model@,
                    voice@,
                    system@,
                ),
                None => r matches Err(DomainError::Model(m))
                    && m@ == crate::gemini::missing_key_message(),
            },
    {
        let api_key = match Credentials::from_env(key_var) {
            Ok(c) => c.into_key(),
            Err(e) => return Err(e),
        };
        Ok(GeminiLiveAgent { api_key, model, voice, system })
    }

    /// The API key that the session's address carries.
    pub fn api_key(&self) -> (r: &str)
        ensures
            r@ == self.spec_api_key(),
    {
        self.api_key.as_str()
    }

    /// The message that opens the session.
    pub fn setup(&self) -> (r: Json)
        ensures
            r@ == setup_spec(self.spec_settings().0, self.spec_settings().1, self.spec_settings().2),
    {
        let mut model_path = String::from_str("models/");
        model_path.append(self.model.as_str());
        let generation = audio_generation_config(self.voice.as_str());
        let model_json = Json::Str(model_path);
        let inner = if self.system.as_str().is_empty() {
            object2("model", model_json, "generationConfig", generation)
        } else {
            let instruction = object1("parts", array1(object1("text", text(self.system.as_str()))));
            object3("model", model_json, "generationConfig", generation, "systemInstruction", instruction)
        };
        object1("setup", inner)
    }
}

/// The message that streams microphone audio to the session.
pub open spec fn realtime_input_spec(pcm: Seq<u8>) -> JsonView {
    JsonView::Object(
        seq![
            (
                "realtimeInput"@,
                JsonView::Object(
                    seq![
                        (
                            "audio"@,
                            JsonView::Object(
                                seq![
                                    ("data"@, jstr(base64_encoding(pcm))),
                                    ("mimeType"@, jstr(INPUT_MIME@)),
                                ],
                            ),
                        ),
                    ],
                ),
            ),
        ],
    )
}

/// The message that streams a block of 16-bit PCM microphone audio, given
/// as its little-endian bytes, to the session.
pub fn realtime_input(pcm: &[u8]) -> (r: Json)
    requires
        4 * ((pcm@.len() + 2) / 3) <= usize::MAX,
    ensures
        r@ == realtime_input_spec(pcm@),
{
    let data = base64_encode(pcm);
    object1(
        "realtimeInput",
        object1("audio", object2("data", Json::Str(data), "mimeType", text(INPUT_MIME))),
    )
}

/// The inline audio of each part of a server message that has some, in
/// order.
pub open spec fn inline_audio(parts: Seq<JsonView>) -> Seq<Seq<char>>
    decreases parts.len(),
{
    if parts.len() == 0 {
        Seq::empty()
    } else {
        let rest = inline_audio(parts.drop_last());
        match str_of(field(field(parts.last(), "inlineData"@), "data"@)) {
            Some(d) => rest.push(d),
            None => rest,
        }
    }
}

/// The parts of the model's turn in a server message; none where it has no
/// such array.
pub open spec fn turn_parts(value: JsonView) -> Seq<JsonView> {
    match field(field(field(value, "serverContent"@), "modelTurn"@), "parts"@) {
        JsonView::Array(parts) => parts,
        _ => Seq::empty(),
    }
}

/// The samples of each inline audio text, or `None` where one is no
/// base64.
pub open spec fn decode_all(datas: Seq<Seq<char>>) -> Option<Seq<Seq<i16>>>
    decreases datas.len(),
{
    if datas.len() == 0 {
        Some(Seq::empty())
    } else {
        match (decode_all(datas.drop_last()), base64_decoding(datas.last())) {
            (Some(rest), Some(bytes)) => Some(rest.push(pcm16_decode_spec(bytes))),
            _ => None,
        }
    }
}

proof fn lemma_inline_audio_prefix(parts: Seq<JsonView>, j: int)
    requires
        0 <= j <= parts.len(),
    ensures
        inline_audio(parts.take(j)).is_prefix_of(inline_audio(parts)),
    decreases parts.len(),
{
    if j == parts.len() {
        assert(parts.take(j) =~= parts);
    } else {
        assert(parts.drop_last().take(j) =~= parts.take(j));
        lemma_inline_audio_prefix(parts.drop_last(), j);
    }
}

proof fn lemma_decode_all_prefix_none(t: Seq<Seq<char>>, s: Seq<Seq<char>>)
    requires
        s.is_prefix_of(t),
        decode_all(s) is None,
    ensures
        decode_all(t) is None,
    decreases t.len(),
{
    if s.len() == t.len() {
        assert(s =~= t);
    } else {
        assert(s.is_prefix_of(t.drop_last()));
        lemma_decode_all_prefix_none(t.drop_last(), s);
    }
}

/// The sample views of audio chunks.
pub open spec fn chunk_views(chunks: Seq<Vec<i16>>) -> Seq<Seq<i16>> {
    chunks.map_values(|c: Vec<i16>| c@)
}

/// The audio that a parsed server message carries: the 16-bit samples of
/// each part's inline data, in order, at `OUTPUT_RATE`; an error where one
/// of them is no base64.
pub fn parse(value: &Json) -> (r: Result<Vec<Vec<i16>>, String>)
    ensures
        match decode_all(inline_audio(turn_parts(value@))) {
            Some(chunks) => r matches Ok(c) && chunk_views(c@) == chunks,
            None => r matches Err(e) && e@ == "decoding live audio"@,
        },
{
    let parts = match value.get("serverContent") {
        Some(c) => match c.get("modelTurn") {
            Some(t) => match t.get("parts") {
                Some(Json::Array(parts)) => parts,
                _ => return Ok(Vec::new()),
            },
            None => return Ok(Vec::new()),
        },
        None => return Ok(Vec::new()),
    };
    let ghost pv = turn_parts(value@);
    assert(pv.len() == parts@.len());
    let mut out: Vec<Vec<i16>> = Vec::new();
    let mut i: usize = 0;
    while i < parts.len()
        invariant
            i <= parts@.len(),
            pv.len() == parts@.len(),
            forall|k: int| 0 <= k < parts@.len() ==> #[trigger] pv[k] == parts@[k]@,
            decode_all(inline_audio(pv.take(i as int))) == Some(chunk_views(out@)),
            decode_all(inline_audio(turn_parts(value@))) == decode_all(inline_audio(pv)),
        decreases parts@.len() - i,
    {
        assert(pv.take(i + 1).drop_last() =~= pv.take(i as int));
        let data = match parts[i].get("inlineData") {
            Some(d) => match d.get("data") {
                Some(x) => x.as_str(),
                None => None,
            },
            None => None,
        };
        let ghost ia = inline_audio(pv.take(i + 1));
        assert(pv.take(i + 1).last() == parts@[i as int]@);
        match data {
            Some(d) => match base64_decode(d) {
                Some(bytes) => {
                    assert(ia == inline_audio(pv.take(i as int)).push(d@));
                    assert(ia.drop_last() =~= inline_audio(pv.take(i as int)));
                    let pcm = pcm16_from_le(&bytes);
                    out.push(pcm);
                    assert(chunk_views(out@) =~= chunk_views(out@).drop_last().push(pcm@));
                },
                None => {
                    assert(ia == inline_audio(pv.take(i as int)).push(d@));
                    assert(ia.drop_last() =~= inline_audio(pv.take(i as int)));
                    assert(decode_all(inline_audio(pv.take(i + 1))) is None);
                    proof {
                        lemma_inline_audio_prefix(pv, i + 1);
                        lemma_decode_all_prefix_none(inline_audio(pv), inline_audio(pv.take(i + 1)));
                    }
                    return Err(String::from_str("decoding live audio"));
                },
            },
            None => {
                assert(ia == inline_audio(pv.take(i as int)));
            },
        }
        i += 1;
    }
    assert(pv.take(parts@.len() as int) =~= pv);
    Ok(out)
}

/// The audio that one message of the live session carries, read from its
/// bytes: nothing for an empty message, an error where it is no JSON, else
/// what `parse` gives of the value it holds.
pub fn parse_payload(payload: &[u8]) -> (r: Result<Vec<Vec<i16>>, String>)
    ensures
        payload@.len() == 0 ==> (r matches Ok(c) && c@.len() == 0),
        payload@.len() > 0 && json_parse(payload@) is None ==> (r matches Err(e) && e@
            == "parsing live message"@),
        payload@.len() > 0 ==> (json_parse(payload@) matches Some(v) ==> match decode_all(
            inline_audio(turn_parts(v)),
        ) {
            Some(chunks) => r matches Ok(c) && chunk_views(c@) == chunks,
            None => r matches Err(e) && e@ == "decoding live audio"@,
        }),
{
    if payload.len() == 0 {
        return Ok(Vec::new());
    }
    match parse_json(payload) {
        Some(v) => parse(&v),
        None => Err(String::from_str("parsing live message")),
    }
}

/// The message that opens a Live session names the agent's model under
/// `models/`, asks for audio answers in the agent's voice, and carries the
/// system instruction exactly where there is one.
pub proof fn lemma_setup_carries_settings(model: Seq<char>, voice: Seq<char>, system: Seq<char>)
    ensures
        ({
            let setup = field(setup_spec(model, voice, system), "setup"@);
            let config = field(setup, "generationConfig"@);
            &&& str_of(field(setup, "model"@)) == Some("models/"@ + model)
            &&& str_of(
                field(
                    field(field(field(config, "speechConfig"@), "voiceConfig"@), "prebuiltVoiceConfig"@),
                    "voiceName"@,
                ),
            ) == Some(voice)
            &&& (get_spec(setup, "systemInstruction"@) is Some <==> system.len() > 0)
            &&& system.len() > 0 ==> str_of(
                field(item(field(field(setup, "systemInstruction"@), "parts"@), 0), "text"@),
            ) == Some(system)
        }),
{
    reveal_strlit("setup");
    reveal_strlit("model");
    reveal_strlit("generationConfig");
    reveal_strlit("systemInstruction");
    reveal_strlit("responseModalities");
    reveal_strlit("speechConfig");
    reveal_strlit("voiceConfig");
    reveal_strlit("prebuiltVoiceConfig");
    reveal_strlit("voiceName");
    reveal_strlit("parts");
    reveal_strlit("text");
    reveal_with_fuel(crate::json::lookup, 4);
    let setup = field(setup_spec(model, voice, system), "setup"@);
    let ms = setup->Object_0;
    assert("model"@ != "generationConfig"@) by {
        assert("model"@[0] != "generationConfig"@[0]);
    }
    assert("model"@ != "systemInstruction"@) by {
        assert("model"@[0] != "systemInstruction"@[0]);
    }
    assert("generationConfig"@ != "systemInstruction"@) by {
        assert("generationConfig"@[0] != "systemInstruction"@[0]);
    }
    assert(ms.drop_first()[0] == ms[1]);
    if system.len() > 0 {
        assert(ms.drop_first().drop_first()[0] == ms[2]);
        assert(ms.drop_first().drop_first().drop_first().len() == 0);
    } else {
        assert(ms.drop_first().drop_first().len() == 0);
    }
    let cs = audio_config_spec(voice)->Object_0;
    assert("responseModalities"@ != "speechConfig"@) by {
        assert("responseModalities"@[0] != "speechConfig"@[0]);
    }
    assert(cs.drop_first()[0] == cs[1]);
}

} // verus!
