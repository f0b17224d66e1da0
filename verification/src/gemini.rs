use vstd::prelude::*;
use vstd::string::*;
use crate::error::DomainError;

verus! {

/// Where Gemini's REST models live.
pub const REST_ENDPOINT: &'static str = "https://generativelanguage.googleapis.com/v1beta/models";

/// Gemini's bidirectional Live endpoint.
pub const WS_ENDPOINT: &'static str = "wss://generativelanguage.googleapis.com/ws/google.ai.generativelanguage.v1beta.GenerativeService.BidiGenerateContent";

/// The model that speaks text.
pub const TTS_MODEL: &'static str = "gemini-3.1-flash-tts-preview";

/// The model that transcribes speech.
pub const STT_MODEL: &'static str = "gemini-flash-latest";

/// The model of realtime conversation.
pub const LIVE_MODEL: &'static str = "gemini-3.1-flash-live-preview";

/// The voice used where none is asked for.
pub const DEFAULT_VOICE: &'static str = "Charon";

/// The environment variable that holds the Gemini API key.
pub const API_KEY_VAR: &'static str = "GEMINI_API_KEY";

/// The detail of the error given where the API key is not set.
pub open spec fn missing_key_message() -> Seq<char> {
    "GEMINI_API_KEY environment variable not set"@
}

/// A Gemini API key.
pub struct Credentials {
    api_key: String,
}

impl View for Credentials {
    type V = Seq<char>;

    closed spec fn view(&self) -> Seq<char> {
        self.api_key@
    }
}

/// What looking up the API key in the environment gives: the key where the
/// variable is set, and otherwise a model error that names the variable.
pub open spec fn credentials_result(var: Option<Seq<char>>, r: Result<Credentials, DomainError>) -> bool {
    match var {
        Some(key) => r matches Ok(c) && c@ == key,
        None => r matches Err(DomainError::Model(m)) && m@ == missing_key_message(),
    }
}

/// The characters of an environment value, if set.
pub open spec fn opt_chars(v: Option<String>) -> Option<Seq<char>> {
    match v {
        Some(s) => Some(s@),
        None => None,
    }
}

impl Credentials {
    /// The credentials that the value of `GEMINI_API_KEY` gives; `var` is
    /// that value, `None` where the variable is not set.
    pub fn from_env(var: Option<String>) -> (r: Result<Self, DomainError>)
        ensures
            credentials_result(opt_chars(var), r),
    {
        match var {
            Some(api_key) => Ok(Credentials { api_key }),
            None => Err(
                DomainError::model(String::from_str("GEMINI_API_KEY environment variable not set")),
            ),
        }
    }

    /// The API key.
    pub fn api_key(&self) -> (r: &str)
        ensures
            r@ == self@,
    {
        self.api_key.as_str()
    }

    /// The API key, giving up the credentials.
    pub fn into_key(self) -> (r: String)
        ensures
            r@ == self@,
    {
        self.api_key
    }
}

/// The REST address of `method` on `model`.
pub open spec fn rest_url_spec(model: Seq<char>, method: Seq<char>) -> Seq<char> {
    REST_ENDPOINT@ + "/"@ + model + ":"@ + method
}

/// The REST address of `method` on `model`, such as
/// `.../models/gemini-flash-latest:generateContent`.
pub fn rest_url(model: &str, method: &str) -> (r: String)
    ensures
        r@ == rest_url_spec(model@, method@),
{
    let mut r = String::from_str(REST_ENDPOINT);
    r.append("/");
    r.append(model);
    r.append(":");
    r.append(method);
    r
}

/// The Live address, carrying the API key as its query.
pub open spec fn ws_url_spec(api_key: Seq<char>) -> Seq<char> {
    WS_ENDPOINT@ + "?key="@ + api_key
}

/// The Live address, carrying the API key as its query.
pub fn ws_url(api_key: &str) -> (r: String)
    ensures
        r@ == ws_url_spec(api_key@),
{
    let mut r = String::from_str(WS_ENDPOINT);
    r.append("?key=");
    r.append(api_key);
    r
}

} // verus!
