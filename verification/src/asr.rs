use vstd::prelude::*;
use vstd::string::*;
use crate::error::DomainError;
use crate::gemini::{Credentials, opt_chars, rest_url, rest_url_spec};
use crate::json::{Json, JsonView, parse_json, json_parse, field, item, str_of, jstr, text, object1, object2, array1};
use crate::codec::{base64_encode, base64_encoding};
use crate::wav::{wav_bytes, wav_header_spec, pcm16_spec, pcm16_decode_spec, data_len, le32_value};
use crate::text::{trim, trimmed};
use crate::audio::SAMPLE_RATE;

verus! {

/// Speech-to-text with Gemini, one request per utterance.
pub struct GeminiRecognizer {
    api_key: String,
    model: String,
    language: String,
}

/// What the model is asked to do with the audio.
pub open spec fn prompt_spec(language: Seq<char>) -> Seq<char> {
    "Transcribe this audio. The spoken language is '"@ + language
        + "'. Return only the transcript text, with no commentary or labels."@
}

/// The body of a transcription request: the prompt, then the audio as an
/// inline WAV file.
pub open spec fn transcription_body_spec(language: Seq<char>, wav: Seq<u8>) -> JsonView {
    JsonView::Object(
        seq![
            (
                "contents"@,
                JsonView::Array(
                    seq![
                        JsonView::Object(
                            seq![
                                (
                                    "parts"@,
                                    JsonView::Array(
                                        seq![
                                            JsonView::Object(seq![("text"@, jstr(prompt_spec(language)))]),
                                            JsonView::Object(
                                                seq![
                                                    (
                                                        "inlineData"@,
                                                        JsonView::Object(
                                                            seq![
                                                                ("mimeType"@, jstr("audio/wav"@)),
                                                                ("data"@, jstr(base64_encoding(wav))),
                                                            ],
                                                        ),
                                                    ),
                                                ],
                                            ),
                                        ],
                                    ),
                                ),
                            ],
                        ),
                    ],
                ),
            ),
        ],
    )
}

/// The WAV file that carries 16-bit samples at the engine's rate.
pub open spec fn utterance_wav(samples: Seq<i16>) -> Seq<u8> {
    wav_header_spec(samples.len(), SAMPLE_RATE) + pcm16_spec(samples)
}

/// Whether a request can carry `count` samples: the WAV file's size field
/// does not overflow, and the file and its base64 text fit in memory.
pub open spec fn fits_request(count: nat) -> bool {
    &&& 36 + data_len(count) <= u32::MAX
    &&& count <= usize::MAX / 2
    &&& 4 * ((44 + 2 * count + 2) / 3) <= usize::MAX
}

impl GeminiRecognizer {
    /// The model and the language hint.
    pub closed spec fn spec_settings(&self) -> (Seq<char>, Seq<char>) {
        (self.model@, self.language@)
    }

    /// The API key.
    pub closed spec fn spec_api_key(&self) -> Seq<char> {
        self.api_key@
    }

    /// A recognizer for `model`, told that the speech is in `language`;
    /// `key_var` is the value of `GEMINI_API_KEY`, which it fails without.
    pub fn load(model: String, language: String, key_var: Option<String>) -> (r: Result<Self, DomainError>)
        ensures
            match opt_chars(key_var) {
                Some(key) => r matches Ok(s) && s.spec_api_key() == key && s.spec_settings() == (
                    model@,
                    language@,
                ),
                None => r matches Err(DomainError::Model(m))
                    && m@ == crate::gemini::missing_key_message(),
            },
    {
        let api_key = match Credentials::from_env(key_var) {
            Ok(c) => c.into_key(),
            Err(e) => return Err(e),
        };
        Ok(GeminiRecognizer { api_key, model, language })
    }

    /// The API key that requests carry.
    pub fn api_key(&self) -> (r: &str)
        ensures
            r@ == self.spec_api_key(),
    {
        self.api_key.as_str()
    }

    /// The address of the transcription request.
    pub fn request_url(&self) -> (r: String)
        ensures
            r@ == rest_url_spec(self.spec_settings().0, "generateContent"@),
    {
        rest_url(self.model.as_str(), "generateContent")
    }

    /// The body of the request that transcribes 16-bit samples at the
    /// engine's rate.
    pub fn request_body(&self, samples: &[i16]) -> (r: Json)
        requires
            fits_request(samples@.len()),
        ensures
            r@ == transcription_body_spec(self.spec_settings().1, utterance_wav(samples@)),
            crate::codec::base64_decoding(base64_encoding(utterance_wav(samples@))) == Some(
                utterance_wav(samples@),
            ),
    {
        let wav = wav_bytes(samples, SAMPLE_RATE);
        assert(wav@.len() == 44 + 2 * samples@.len()) by {
            crate::wav::lemma_wav_header_fields(samples@.len(), SAMPLE_RATE);
            crate::wav::lemma_pcm16_bytes(samples@);
        }
        let encoded = base64_encode(&wav);
        let mut prompt = String::from_str("Transcribe this audio. The spoken language is '");
        prompt.append(self.language.as_str());
        prompt.append("'. Return only the transcript text, with no commentary or labels.");
        let audio = object1(
            "inlineData",
            object2("mimeType", text("audio/wav"), "data", Json::Str(encoded)),
        );
        let parts = array2(object1("text", Json::Str(prompt)), audio);
        object1("contents", array1(object1("parts", parts)))
    }
}

fn array2(v1: Json, v2: Json) -> (r: Json)
    ensures
        r@ == JsonView::Array(seq![v1@, v2@]),
{
    let mut a: Vec<Json> = Vec::new();
    a.push(v1);
    a.push(v2);
    let r = Json::Array(a);
    assert(r@->Array_0 =~= seq![v1@, v2@]);
    r
}

/// The texts of `parts`, one after another; parts without text add nothing.
pub open spec fn part_texts(parts: Seq<JsonView>) -> Seq<char>
    decreases parts.len(),
{
    if parts.len() == 0 {
        Seq::empty()
    } else {
        part_texts(parts.drop_last()) + match str_of(field(parts.last(), "text"@)) {
            Some(t) => t,
            None => Seq::empty(),
        }
    }
}

/// The parts of the first candidate's content; none where there is no such
/// array.
pub open spec fn answer_parts(value: JsonView) -> Option<Seq<JsonView>> {
    match field(field(item(field(value, "candidates"@), 0), "content"@), "parts"@) {
        JsonView::Array(parts) => Some(parts),
        _ => None,
    }
}

/// The transcript that an answer holds: the texts of its parts, joined and
/// trimmed; nothing where it has no parts.
pub open spec fn collect_text_spec(value: JsonView) -> Seq<char> {
    match answer_parts(value) {
        Some(parts) => trimmed(part_texts(parts)),
        None => Seq::empty(),
    }
}

/// The transcript that a parsed answer of the model holds.
pub fn collect_text(value: &Json) -> (r: String)
    ensures
        r@ == collect_text_spec(value@),
{
    let c = match value.field("candidates") {
        Some(c) => c.at(0),
        None => None,
    };
    let content = match c {
        Some(c) => c.field("content"),
        None => None,
    };
    let parts = match content {
        Some(x) => match x.field("parts") {
            Some(Json::Array(parts)) => parts,
            _ => return String::new(),
        },
        None => return String::new(),
    };
    let ghost pv = answer_parts(value@)->Some_0;
    let mut joined = String::new();
    let mut i: usize = 0;
    while i < parts.len()
        invariant
            i <= parts@.len(),
            pv.len() == parts@.len(),
            forall|k: int| 0 <= k < parts@.len() ==> #[trigger] pv[k] == parts@[k]@,
            joined@ == part_texts(pv.take(i as int)),
        decreases parts@.len() - i,
    {
        assert(pv.take(i + 1).drop_last() =~= pv.take(i as int));
        assert(pv.take(i + 1).last() == parts@[i as int]@);
        match parts[i].field("text") {
            Some(t) => match t.as_str() {
                Some(s) => {
                    joined.append(s);
                },
                None => {
                    assert(part_texts(pv.take(i + 1)) =~= part_texts(pv.take(i as int)));
                },
            },
            None => {
                assert(part_texts(pv.take(i + 1)) =~= part_texts(pv.take(i as int)));
            },
        }
        i += 1;
    }
    assert(pv.take(parts@.len() as int) =~= pv);
    String::from_str(trim(joined.as_str()))
}

/// The transcript that the body of the model's answer holds: an error
/// where the body is no JSON, else what `collect_text` gives of it.
pub fn answer_text(body: &[u8]) -> (r: Result<String, String>)
    ensures
        match json_parse(body@) {
            None => r matches Err(e) && e@ == "parsing gemini response"@,
            Some(v) => r matches Ok(t) && t@ == collect_text_spec(v),
        },
{
    match parse_json(body) {
        Some(v) => Ok(collect_text(&v)),
        None => Err(String::from_str("parsing gemini response")),
    }
}

/// The error detail of a request that the server refused: its status and
/// the body it answered with.
pub fn http_failure(status: &str, body: &str) -> (r: String)
    ensures
        r@ == "gemini http "@ + status@ + ": "@ + body@,
{
    let mut r = String::from_str("gemini http ");
    r.append(status);
    r.append(": ");
    r.append(body);
    r
}

/// A transcription request carries the utterance as a WAV file at the
/// engine's 16 kHz: its inline data is the base64 text of a file whose
/// 44-byte header gives 16000 samples and 32000 bytes per second, and whose
/// remaining bytes read back as exactly the samples; its prompt names the
/// language that the recognizer was given.
pub proof fn lemma_request_carries_engine_rate_audio(language: Seq<char>, samples: Seq<i16>)
    requires
        fits_request(samples.len()),
    ensures
        ({
            let wav = utterance_wav(samples);
            let parts = field(item(field(transcription_body_spec(language, wav), "contents"@), 0), "parts"@);
            &&& str_of(field(field(item(parts, 1), "inlineData"@), "data"@)) == Some(base64_encoding(wav))
            &&& str_of(field(item(parts, 0), "text"@)) == Some(prompt_spec(language))
            &&& wav.len() == 44 + 2 * samples.len()
            &&& le32_value(wav.subrange(24, 28)) == 16000
            &&& le32_value(wav.subrange(28, 32)) == 32000
            &&& pcm16_decode_spec(wav.skip(44)) == samples
        }),
{
    reveal_strlit("contents");
    reveal_strlit("parts");
    reveal_strlit("text");
    reveal_strlit("inlineData");
    reveal_strlit("mimeType");
    reveal_strlit("data");
    reveal_with_fuel(crate::json::lookup, 3);
    let wav = utterance_wav(samples);
    let header = wav_header_spec(samples.len(), SAMPLE_RATE);
    crate::wav::lemma_wav_header_fields(samples.len(), SAMPLE_RATE);
    crate::wav::lemma_pcm16_bytes(samples);
    crate::wav::lemma_pcm16_roundtrip(samples);
    assert(wav.skip(44) =~= pcm16_spec(samples));
    assert(wav.subrange(24, 28) =~= header.subrange(24, 28));
    assert(wav.subrange(28, 32) =~= header.subrange(28, 32));
    let audio = JsonView::Object(seq![("mimeType"@, jstr("audio/wav"@)), ("data"@, jstr(base64_encoding(wav)))]);
    let members = audio->Object_0;
    assert("mimeType"@ != "data"@) by {
        assert("mimeType"@[0] != "data"@[0]);
    }
    assert(members.drop_first()[0] == members[1]);
}

/// A transcript read from an answer neither starts nor ends with white
/// space, and holds every part's text, in order, once trimmed.
pub proof fn lemma_collected_text_is_trimmed(value: JsonView)
    ensures
        crate::text::is_trimmed(collect_text_spec(value)),
        answer_parts(value) matches Some(parts) ==> collect_text_spec(value) == trimmed(part_texts(parts)),
        answer_parts(value) is None ==> collect_text_spec(value).len() == 0,
{
    if let Some(parts) = answer_parts(value) {
        crate::text::lemma_trimmed(part_texts(parts));
    }
}

} // verus!
