use vstd::prelude::*;
use vstd::string::*;
use crate::error::DomainError;
use crate::gemini::{Credentials, opt_chars, REST_ENDPOINT};
use crate::json::{Json, JsonView, parse_json_text, json_parse_text, field, item, str_of, jstr, text, object1, object2, array1};
use crate::live::{audio_generation_config, audio_config_spec};
use crate::codec::{base64_decode, base64_decoding};
use crate::wav::{pcm16_from_le, pcm16_decode_spec};
use crate::text::{trim, trimmed};
use crate::sse::{sse_data, sse_data_of, utf8_lossy};

verus! {

/// The model that speaks text where none is asked for.
pub const DEFAULT_MODEL: &'static str = "gemini-3.1-flash-tts-preview";

/// The rate of the audio that the speech model sends.
pub const TTS_SAMPLE_RATE: u32 = 24_000;

/// Text-to-speech with Gemini, streamed as it is spoken.
pub struct GeminiSynthesizer {
    api_key: String,
    model: String,
    voice: String,
}

/// The address of the streamed speech request for `model`.
pub open spec fn stream_url_spec(model: Seq<char>) -> Seq<char> {
    REST_ENDPOINT@ + "/"@ + model + ":streamGenerateContent?alt=sse"@
}

/// The body of a speech request: `text` as the one part of the content,
/// with audio answers in `voice`.
pub open spec fn speech_body_spec(text: Seq<char>, voice: Seq<char>) -> JsonView {
    JsonView::Object(
        seq![
            (
                "contents"@,
                JsonView::Array(
                    seq![
                        JsonView::Object(
                            seq![
                                (
                                    "parts"@,
                                    JsonView::Array(seq![JsonView::Object(seq![("text"@, jstr(text))])]),
                                ),
                            ],
                        ),
                    ],
                ),
            ),
            ("generationConfig"@, audio_config_spec(voice)),
        ],
    )
}

impl GeminiSynthesizer {
    /// The model and the voice.
    pub closed spec fn spec_settings(&self) -> (Seq<char>, Seq<char>) {
        (self.model@, self.voice@)
    }

    /// The API key.
    pub closed spec fn spec_api_key(&self) -> Seq<char> {
        self.api_key@
    }

    /// A synthesizer for `model` speaking in `voice`; `key_var` is the value
    /// of `GEMINI_API_KEY`, which it fails without.
    pub fn load(model: String, voice: String, key_var: Option<String>) -> (r: Result<Self, DomainError>)
        ensures
            match opt_chars(key_var) {
                Some(key) => r matches Ok(s) && s.spec_api_key() == key && s.spec_settings() == (
                    model@,
                    voice@,
                ),
                None => r matches Err(DomainError::Model(m))
                    && m@ == crate::gemini::missing_key_message(),
            },
    {
        let api_key = match Credentials::from_env(key_var) {
            Ok(c) => c.into_key(),
            Err(e) => return Err(e),
        };
        Ok(GeminiSynthesizer { api_key, model, voice })
    }

    /// The API key that requests carry.
    pub fn api_key(&self) -> (r: &str)
        ensures
            r@ == self.spec_api_key(),
    {
        self.api_key.as_str()
    }

    /// The address of the streamed speech request.
    pub fn stream_url(&self) -> (r: String)
        ensures
            r@ == stream_url_spec(self.spec_settings().0),
    {
        let mut r = String::from_str(REST_ENDPOINT);
        r.append("/");
        r.append(self.model.as_str());
        r.append(":streamGenerateContent?alt=sse");
        r
    }

    /// The body of the request that speaks `text`.
    pub fn request_body(&self, text_in: &str) -> (r: Json)
        ensures
            r@ == speech_body_spec(text_in@, self.spec_settings().1),
    {
        let parts = object1("parts", array1(object1("text", text(text_in))));
        object2("contents", array1(parts), "generationConfig", audio_generation_config(self.voice.as_str()))
    }
}

/// The audio text of one streamed answer: the inline data of the first part
/// of the first candidate's content.
pub open spec fn answer_audio(value: JsonView) -> Option<Seq<char>> {
    str_of(
        field(
            field(
                item(field(field(item(field(value, "candidates"@), 0), "content"@), "parts"@), 0),
                "inlineData"@,
            ),
            "data"@,
        ),
    )
}

/// The 16-bit samples, at `TTS_SAMPLE_RATE`, of one parsed answer of the
/// speech stream: none where it carries no audio, an error where its audio
/// is no base64.
pub fn answer_samples(value: &Json) -> (r: Result<Option<Vec<i16>>, String>)
    ensures
        match answer_audio(value@) {
            None => r matches Ok(None),
            Some(d) => match base64_decoding(d) {
                Some(bytes) => r matches Ok(Some(s)) && s@ == pcm16_decode_spec(bytes),
                None => r matches Err(e) && e@ == "decoding audio base64"@,
            },
        },
{
    let c = match value.field("candidates") {
        Some(c) => c.at(0),
        None => None,
    };
    let content = match c {
        Some(c) => c.field("content"),
        None => None,
    };
    let part = match content {
        Some(x) => match x.field("parts") {
            Some(p) => p.at(0),
            None => None,
        },
        None => None,
    };
    let data = match part {
        Some(p) => match p.field("inlineData") {
            Some(d) => match d.field("data") {
                Some(x) => x.as_str(),
                None => None,
            },
            None => None,
        },
        None => None,
    };
    match data {
        None => Ok(None),
        Some(d) => match base64_decode(d) {
            Some(bytes) => Ok(Some(pcm16_from_le(&bytes))),
            None => Err(String::from_str("decoding audio base64")),
        },
    }
}

/// The samples that one received line of the speech stream carries: none
/// where it is no data line, an error where its data is no JSON, else what
/// `answer_samples` gives of the value it holds.
pub fn parse_line(line: &[u8]) -> (r: Result<Option<Vec<i16>>, String>)
    ensures
        match sse_data_of(utf8_lossy(line@)) {
            None => r matches Ok(None),
            Some(d) => match json_parse_text(d) {
                None => r matches Err(e) && e@ == "parsing sse json"@,
                Some(v) => match answer_audio(v) {
                    None => r matches Ok(None),
                    Some(a) => match base64_decoding(a) {
                        Some(bytes) => r matches Ok(Some(s)) && s@ == pcm16_decode_spec(bytes),
                        None => r matches Err(e) && e@ == "decoding audio base64"@,
                    },
                },
            },
        },
{
    match sse_data(line) {
        None => Ok(None),
        Some(d) => match parse_json_text(d.as_str()) {
            None => Err(String::from_str("parsing sse json")),
            Some(v) => answer_samples(&v),
        },
    }
}

/// Whether `c` ends a sentence or a clause.
pub open spec fn is_closing_mark(c: char) -> bool {
    c == '.' || c == '!' || c == '?' || c == ',' || c == ';' || c == ':'
}

/// `text` trimmed, with a full stop added unless it already ends with a
/// punctuation mark.
pub open spec fn punctuate_spec(text: Seq<char>) -> Seq<char> {
    let t = trimmed(text);
    if t.len() > 0 && is_closing_mark(t.last()) {
        t
    } else {
        t.push('.')
    }
}

/// `text` trimmed, with a full stop added unless it already ends with a
/// punctuation mark, so that the voice closes its intonation.
pub fn punctuate(text_in: &str) -> (r: String)
    ensures
        r@ == punctuate_spec(text_in@),
{
    let t = trim(text_in);
    let chars = crate::text::chars_of(t);
    let n = chars.len();
    if n > 0 {
        let c = chars[n - 1];
        if c == '.' || c == '!' || c == '?' || c == ',' || c == ';' || c == ':' {
            return String::from_str(t);
        }
    }
    proof {
        reveal_strlit(".");
    }
    let mut r = String::from_str(t);
    r.append(".");
    assert(r@ =~= trimmed(text_in@).push('.'));
    r
}

/// A speech request asks for the text in the voice it was built with: its
/// one text part is `text`, it asks for audio answers, and the prebuilt
/// voice it names is `voice`, whatever that voice is.
pub proof fn lemma_speech_request_uses_its_voice(text: Seq<char>, voice: Seq<char>)
    ensures
        ({
            let body = speech_body_spec(text, voice);
            let config = field(body, "generationConfig"@);
            &&& str_of(field(item(field(item(field(body, "contents"@), 0), "parts"@), 0), "text"@)) == Some(text)
            &&& field(config, "responseModalities"@) == JsonView::Array(seq![jstr("AUDIO"@)])
            &&& str_of(
                field(
                    field(field(field(config, "speechConfig"@), "voiceConfig"@), "prebuiltVoiceConfig"@),
                    "voiceName"@,
                ),
            ) == Some(voice)
        }),
{
    reveal_strlit("contents");
    reveal_strlit("parts");
    reveal_strlit("text");
    reveal_strlit("generationConfig");
    reveal_strlit("responseModalities");
    reveal_strlit("speechConfig");
    reveal_strlit("voiceConfig");
    reveal_strlit("prebuiltVoiceConfig");
    reveal_strlit("voiceName");
    reveal_with_fuel(crate::json::lookup, 3);
    let body = speech_body_spec(text, voice);
    let ms = body->Object_0;
    assert("contents"@ != "generationConfig"@) by {
        assert("contents"@[0] != "generationConfig"@[0]);
    }
    assert(ms.drop_first()[0] == ms[1]);
    let config = audio_config_spec(voice);
    let cs = config->Object_0;
    assert("responseModalities"@ != "speechConfig"@) by {
        assert("responseModalities"@[0] != "speechConfig"@[0]);
    }
    assert(cs.drop_first()[0] == cs[1]);
}

/// Text handed to the voice ends with a punctuation mark, so that the voice
/// closes its intonation: it is the trimmed text, with a full stop added
/// only where it did not already end with such a mark.
pub proof fn lemma_punctuated_text_closes(text: Seq<char>)
    ensures
        punctuate_spec(text).len() > 0,
        is_closing_mark(punctuate_spec(text).last()),
        trimmed(text).is_prefix_of(punctuate_spec(text)),
        punctuate_spec(text).len() <= trimmed(text).len() + 1,
        trimmed(text).len() > 0 && is_closing_mark(trimmed(text).last()) ==> punctuate_spec(text)
            == trimmed(text),
{
}

} // verus!
