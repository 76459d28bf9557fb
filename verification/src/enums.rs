//! Endpoint catalog, browser-impersonation header sets, and model variants.
//!
//! The header values and the per-model configuration blobs are external
//! protocol requirements: exact constants, not computed values.

use vstd::prelude::*;

use crate::text::str_eq;

verus! {

/// The fixed wire endpoints.
#[derive(Debug, Clone, Copy, PartialEq, Eq, Structural)]
pub enum Endpoint {
    /// Initialize the session and obtain the anti-automation token (GET).
    Init,
    /// Generate a chat response (POST, form-encoded).
    Generate,
    /// Rotate authentication cookies (POST, fixed JSON body).
    RotateCookies,
    /// Upload files or images (POST, multipart).
    Upload,
}

impl Endpoint {
    /// The URL of this endpoint.
    pub open spec fn spec_url(&self) -> Seq<char> {
        match self {
            Endpoint::Init => "https://gemini.google.com/app"@,
            Endpoint::Generate => "https://gemini.google.com/_/BardChatUi/data/assistant.lamda.BardFrontendService/StreamGenerate"@,
            Endpoint::RotateCookies => "https://accounts.google.com/RotateCookies"@,
            Endpoint::Upload => "https://content-push.googleapis.com/upload"@,
        }
    }

    /// Get the URL for this endpoint.
    pub fn url(&self) -> (r: &'static str)
        ensures
            r@ == self.spec_url(),
    {
        match self {
            Endpoint::Init => "https://gemini.google.com/app",
            Endpoint::Generate => "https://gemini.google.com/_/BardChatUi/data/assistant.lamda.BardFrontendService/StreamGenerate",
            Endpoint::RotateCookies => "https://accounts.google.com/RotateCookies",
            Endpoint::Upload => "https://content-push.googleapis.com/upload",
        }
    }
}

/// The browser-impersonating header set sent on session-init and generate
/// requests, as `(name, value)` pairs.
pub open spec fn spec_gemini_headers() -> Seq<(Seq<char>, Seq<char>)> {
    seq![
        ("content-type"@, "application/x-www-form-urlencoded;charset=utf-8"@),
        ("host"@, "gemini.google.com"@),
        ("origin"@, "https://gemini.google.com"@),
        ("referer"@, "https://gemini.google.com/"@),
        ("x-same-domain"@, "1"@),
        ("user-agent"@, "Mozilla/5.0 (Windows NT 10.0; Win64; x64) AppleWebKit/537.36 (KHTML, like Gecko) Chrome/120.0.0.0 Safari/537.36"@),
        ("accept"@, "*/*"@),
        ("accept-language"@, "en-US,en;q=0.9"@),
        ("sec-ch-ua"@, "\"Not_A Brand\";v=\"8\", \"Chromium\";v=\"120\", \"Google Chrome\";v=\"120\""@),
        ("sec-ch-ua-mobile"@, "?0"@),
        ("sec-ch-ua-platform"@, "\"Windows\""@),
        ("sec-fetch-dest"@, "empty"@),
        ("sec-fetch-mode"@, "cors"@),
        ("sec-fetch-site"@, "same-origin"@),
    ]
}

/// Get headers for chat requests.
pub fn gemini_headers() -> (r: Vec<(&'static str, &'static str)>)
    ensures
        r@.len() == spec_gemini_headers().len(),
        forall|i: int| #![auto] 0 <= i < r@.len() ==> r@[i].0@ == spec_gemini_headers()[i].0
            && r@[i].1@ == spec_gemini_headers()[i].1,
{
    let mut r: Vec<(&'static str, &'static str)> = Vec::new();
    r.push(("content-type", "application/x-www-form-urlencoded;charset=utf-8"));
    r.push(("host", "gemini.google.com"));
    r.push(("origin", "https://gemini.google.com"));
    r.push(("referer", "https://gemini.google.com/"));
    r.push(("x-same-domain", "1"));
    r.push(("user-agent", "Mozilla/5.0 (Windows NT 10.0; Win64; x64) AppleWebKit/537.36 (KHTML, like Gecko) Chrome/120.0.0.0 Safari/537.36"));
    r.push(("accept", "*/*"));
    r.push(("accept-language", "en-US,en;q=0.9"));
    r.push(("sec-ch-ua", "\"Not_A Brand\";v=\"8\", \"Chromium\";v=\"120\", \"Google Chrome\";v=\"120\""));
    r.push(("sec-ch-ua-mobile", "?0"));
    r.push(("sec-ch-ua-platform", "\"Windows\""));
    r.push(("sec-fetch-dest", "empty"));
    r.push(("sec-fetch-mode", "cors"));
    r.push(("sec-fetch-site", "same-origin"));
    r
}

/// Get headers for cookie rotation requests: a JSON content type and nothing
/// else (no browser headers).
pub fn rotate_cookies_headers() -> (r: Vec<(&'static str, &'static str)>)
    ensures
        r@.len() == 1,
        r@[0].0@ == "content-type"@,
        r@[0].1@ == "application/json"@,
{
    let mut r: Vec<(&'static str, &'static str)> = Vec::new();
    r.push(("content-type", "application/json"));
    r
}

/// Get headers for file upload requests.
pub fn upload_headers() -> (r: Vec<(&'static str, &'static str)>)
    ensures
        r@.len() == 1,
        r@[0].0@ == "push-id"@,
        r@[0].1@ == "feeds/mcudyrk2a4khkz"@,
{
    let mut r: Vec<(&'static str, &'static str)> = Vec::new();
    r.push(("push-id", "feeds/mcudyrk2a4khkz"));
    r
}

/// The fixed literal JSON-array body POSTed to the rotation endpoint.
pub fn rotate_cookies_body() -> (r: &'static str)
    ensures
        r@ == "[000,\"-0000000000000000000\"]"@,
{
    "[000,\"-0000000000000000000\"]"
}

/// Available model configurations.
#[derive(Debug, Clone, PartialEq, Eq, Structural)]
pub enum Model {
    /// Unspecified model - uses the endpoint's default.
    Unspecified,
    /// Gemini 2.0 Flash
    G2_0Flash,
    /// Gemini 2.0 Flash Thinking
    G2_0FlashThinking,
    /// Gemini 2.5 Flash
    G2_5Flash,
    /// Gemini 2.5 Pro
    G2_5Pro,
    /// Gemini 2.0 Experimental Advanced (requires advanced subscription)
    G2_0ExpAdvanced,
    /// Gemini 2.5 Experimental Advanced (requires advanced subscription)
    G2_5ExpAdvanced,
}

impl Default for Model {
    /// The default model is `Unspecified`.
    fn default() -> (r: Self)
        ensures
            r == Model::Unspecified,
    {
        Model::Unspecified
    }
}

impl Model {
    /// The name string of this model.
    pub open spec fn spec_name(&self) -> Seq<char> {
        match self {
            Model::Unspecified => "unspecified"@,
            Model::G2_0Flash => "gemini-2.0-flash"@,
            Model::G2_0FlashThinking => "gemini-2.0-flash-thinking"@,
            Model::G2_5Flash => "gemini-2.5-flash"@,
            Model::G2_5Pro => "gemini-2.5-pro"@,
            Model::G2_0ExpAdvanced => "gemini-2.0-exp-advanced"@,
            Model::G2_5ExpAdvanced => "gemini-2.5-exp-advanced"@,
        }
    }

    /// Get the model name string.
    pub fn name(&self) -> (r: &'static str)
        ensures
            r@ == self.spec_name(),
    {
        match self {
            Model::Unspecified => "unspecified",
            Model::G2_0Flash => "gemini-2.0-flash",
            Model::G2_0FlashThinking => "gemini-2.0-flash-thinking",
            Model::G2_5Flash => "gemini-2.5-flash",
            Model::G2_5Pro => "gemini-2.5-pro",
            Model::G2_0ExpAdvanced => "gemini-2.0-exp-advanced",
            Model::G2_5ExpAdvanced => "gemini-2.5-exp-advanced",
        }
    }

    /// The opaque per-model configuration blob, carried in one extra request
    /// header; `None` for the unspecified model. The values are exact
    /// protocol constants keyed by model variant.
    pub open spec fn spec_header_value(&self) -> Option<Seq<char>> {
        match self {
            Model::Unspecified => None,
            Model::G2_0Flash => Some("[1,null,null,null,\"f299729663a2343f\"]"@),
            Model::G2_0FlashThinking => Some("[null,null,null,null,\"7ca48d02d802f20a\"]"@),
            Model::G2_5Flash => Some("[1,null,null,null,\"35609594dbe934d8\"]"@),
            Model::G2_5Pro => Some("[1,null,null,null,\"2525e3954d185b3c\"]"@),
            Model::G2_0ExpAdvanced => Some("[null,null,null,null,\"b1e46a6037e6aa9f\"]"@),
            Model::G2_5ExpAdvanced => Some("[null,null,null,null,\"203e6bb81620bcfe\"]"@),
        }
    }

    /// Get the model-specific header value (for the
    /// x-goog-ext-525001261-jspb header), if this model carries one.
    pub fn headers(&self) -> (r: Option<&'static str>)
        ensures
            match r {
                Some(v) => self.spec_header_value() == Some(v@),
                None => self.spec_header_value() is None,
            },
    {
        match self {
            Model::Unspecified => None,
            Model::G2_0Flash => Some("[1,null,null,null,\"f299729663a2343f\"]"),
            Model::G2_0FlashThinking => Some("[null,null,null,null,\"7ca48d02d802f20a\"]"),
            Model::G2_5Flash => Some("[1,null,null,null,\"35609594dbe934d8\"]"),
            Model::G2_5Pro => Some("[1,null,null,null,\"2525e3954d185b3c\"]"),
            Model::G2_0ExpAdvanced => Some("[null,null,null,null,\"b1e46a6037e6aa9f\"]"),
            Model::G2_5ExpAdvanced => Some("[null,null,null,null,\"203e6bb81620bcfe\"]"),
        }
    }

    /// The name of the extra header that carries the model configuration blob.
    pub fn header_name() -> (r: &'static str)
        ensures
            r@ == "x-goog-ext-525001261-jspb"@,
    {
        "x-goog-ext-525001261-jspb"
    }

    /// Whether this model requires an advanced subscription.
    pub fn is_advanced_only(&self) -> (r: bool)
        ensures
            r == (self == Model::G2_0ExpAdvanced || self == Model::G2_5ExpAdvanced),
    {
        match self {
            Model::G2_0ExpAdvanced => true,
            Model::G2_5ExpAdvanced => true,
            _ => false,
        }
    }

    /// The model whose name is the given string, if any.
    pub open spec fn spec_from_name(name: Seq<char>) -> Option<Model> {
        if name == "unspecified"@ {
            Some(Model::Unspecified)
        } else if name == "gemini-2.0-flash"@ {
            Some(Model::G2_0Flash)
        } else if name == "gemini-2.0-flash-thinking"@ {
            Some(Model::G2_0FlashThinking)
        } else if name == "gemini-2.5-flash"@ {
            Some(Model::G2_5Flash)
        } else if name == "gemini-2.5-pro"@ {
            Some(Model::G2_5Pro)
        } else if name == "gemini-2.0-exp-advanced"@ {
            Some(Model::G2_0ExpAdvanced)
        } else if name == "gemini-2.5-exp-advanced"@ {
            Some(Model::G2_5ExpAdvanced)
        } else {
            None
        }
    }

    /// Create a model from its name string.
    pub fn from_name(name: &str) -> (r: Option<Model>)
        ensures
            r == Model::spec_from_name(name@),
    {
        if str_eq(name, "unspecified") {
            Some(Model::Unspecified)
        } else if str_eq(name, "gemini-2.0-flash") {
            Some(Model::G2_0Flash)
        } else if str_eq(name, "gemini-2.0-flash-thinking") {
            Some(Model::G2_0FlashThinking)
        } else if str_eq(name, "gemini-2.5-flash") {
            Some(Model::G2_5Flash)
        } else if str_eq(name, "gemini-2.5-pro") {
            Some(Model::G2_5Pro)
        } else if str_eq(name, "gemini-2.0-exp-advanced") {
            Some(Model::G2_0ExpAdvanced)
        } else if str_eq(name, "gemini-2.5-exp-advanced") {
            Some(Model::G2_5ExpAdvanced)
        } else {
            None
        }
    }
}

} // verus!
