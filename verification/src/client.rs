//! Session state and the conversation protocol.
//!
//! A `Session` owns the client-held protocol state: the two-cookie
//! authentication (the secondary cookie value is held for rotation), the
//! anti-automation session token, the conversation continuation triple, the
//! request nonce and the selected model. It is mutated only by token
//! acquisition, cookie rotation and the response decoder, and is not safe
//! for concurrent exchanges: callers issue one exchange at a time.

use vstd::prelude::*;
use vstd::string::StringExecFns;
use vstd::utf8::encode_utf8;

use crate::decoder::ChatResponse;
use crate::decoder::content_of;
use crate::decoder::conv_id_of;
use crate::decoder::choice_pairs;
use crate::decoder::decode_chat_response;
use crate::decoder::metadata_of;
use crate::decoder::new_choice_id;
use crate::decoder::resp_id_of;
use crate::decoder::spec_choices;
use crate::decoder::spec_find_envelope;
use crate::decoder::text_query_of;
use crate::enums::Endpoint;
use crate::enums::Model;
use crate::error::Error;
use crate::text::dec_digits;
use crate::text::form_encode;
use crate::text::form_encode_into;
use crate::text::json_escape;
use crate::text::json_escape_into;
use crate::text::append_str_bytes;
use crate::text::spec_lines;
use crate::text::str_eq;
use crate::text::u32_to_string;

verus! {

/// Relies on `rand::thread_rng` and `rand::Rng::gen_range`: a fresh nonce
/// seed drawn from the half-open range below. Nothing more is promised of a
/// random value.
#[verifier::external_body]
fn seed_reqid() -> (r: u32)
    ensures
        1000000 <= r < 9999999,
{
    rand::Rng::gen_range(&mut rand::thread_rng(), 1000000..9999999)
}

/// Relies on `rand::thread_rng` and `rand::Rng::gen_range`: a small random
/// nonce increment drawn from the half-open range below.
#[verifier::external_body]
fn reqid_delta() -> (r: u32)
    ensures
        1000 <= r < 9000,
{
    rand::Rng::gen_range(&mut rand::thread_rng(), 1000..9000)
}

/// The nonce after one successful exchange: advanced by the random delta,
/// falling back to the delta alone instead of overflowing. It never repeats
/// the previous value and stays positive.
pub open spec fn spec_next_reqid(reqid: u32, delta: u32) -> u32 {
    if reqid + delta <= u32::MAX {
        (reqid + delta) as u32
    } else {
        delta
    }
}

/// Advance the nonce by `delta`.
pub fn next_reqid(reqid: u32, delta: u32) -> (r: u32)
    requires
        1000 <= delta < 9000,
    ensures
        r == spec_next_reqid(reqid, delta),
        r != reqid,
        r >= 1000,
{
    match reqid.checked_add(delta) {
        Some(v) => v,
        None => delta,
    }
}

/// The value under the first cookie named `__Secure-1PSIDTS`, if any.
pub open spec fn spec_rotated_cookie(cookies: Seq<(String, String)>) -> Option<Seq<char>>
    decreases cookies.len(),
{
    if cookies.len() == 0 {
        None
    } else if cookies[0].0@ == "__Secure-1PSIDTS"@ {
        Some(cookies[0].1@)
    } else {
        spec_rotated_cookie(cookies.skip(1))
    }
}

/// The double-encoded form payload of one generate request, built from the
/// session token, the message, an optional uploaded-asset reference, and the
/// continuation triple. The inner document is the message wrapped as a
/// one-element list, the attachment descriptor or null, and the triple; it
/// is serialized, wrapped as `[null, <serialized>]`, serialized again, and
/// sent as the two form fields `f.req` and `at`.
pub open spec fn spec_form_body(
    snlm0e: Seq<char>,
    msg: Seq<char>,
    upload: Option<Seq<char>>,
    cid: Seq<char>,
    rid: Seq<char>,
    chid: Seq<char>,
) -> Seq<u8> {
    let payload = message_struct_bytes(
        encode_utf8(msg),
        match upload {
            Some(u) => Some(encode_utf8(u)),
            None => None,
        },
        encode_utf8(cid),
        encode_utf8(rid),
        encode_utf8(chid),
    );
    form_body_bytes(freq_bytes(payload), encode_utf8(snlm0e))
}

/// The inner message document: `[[<msg>],<attachment or null>,[<cid>,<rid>,<chid>]]`.
pub open spec fn message_struct_bytes(
    msg: Seq<u8>,
    upload: Option<Seq<u8>>,
    cid: Seq<u8>,
    rid: Seq<u8>,
    chid: Seq<u8>,
) -> Seq<u8> {
    encode_utf8("[[\""@) + json_escape(msg) + encode_utf8("\"],"@) + (match upload {
        Some(u) => encode_utf8("[[[\""@) + json_escape(u) + encode_utf8("\",1]]]"@),
        None => encode_utf8("null"@),
    }) + encode_utf8(",[\""@) + json_escape(cid) + encode_utf8("\",\""@) + json_escape(rid)
        + encode_utf8("\",\""@) + json_escape(chid) + encode_utf8("\"]]"@)
}

/// The outer envelope: `[null,"<payload>"]` with the payload embedded as a
/// JSON string literal.
pub open spec fn freq_bytes(payload: Seq<u8>) -> Seq<u8> {
    encode_utf8("[null,\""@) + json_escape(payload) + encode_utf8("\"]"@)
}

/// The form-encoded request body: the `f.req` and `at` fields.
pub open spec fn form_body_bytes(freq: Seq<u8>, at: Seq<u8>) -> Seq<u8> {
    encode_utf8("f.req="@) + form_encode(freq) + encode_utf8("&at="@) + form_encode(at)
}

/// The generate URL with its three query parameters: the fixed client build
/// identifier, the current nonce, and the fixed response-type literal.
pub open spec fn spec_generate_url(reqid: int) -> Seq<char> {
    (Endpoint::Generate).spec_url() + "?bl=boq_assistant-bard-web-server_20240625.13_p0&_reqid="@
        + dec_digits(reqid) + "&rt=c"@
}

/// One ready-to-send generate request: the URL with its query parameters,
/// and the form-encoded body. The browser-impersonation headers come from
/// the header catalog.
pub struct GenerateRequest {
    /// The generate endpoint URL with query parameters.
    pub url: String,
    /// The form-encoded request body.
    pub body: Vec<u8>,
}

/// The client-held session state.
pub struct Session {
    /// The anti-automation session token; empty until token acquisition.
    pub snlm0e: String,
    /// Conversation id of the continuation triple; empty for a fresh
    /// conversation.
    pub conversation_id: String,
    /// Response id of the continuation triple.
    pub response_id: String,
    /// Choice id of the continuation triple.
    pub choice_id: String,
    /// The request nonce; randomly seeded, never repeated across exchanges.
    pub reqid: u32,
    /// The held value of the secondary session cookie.
    pub secure_1psidts: String,
    /// The selected model.
    pub model: Model,
    /// Optional proxy address, used by the transport layer.
    pub proxy: Option<String>,
}

impl Session {
    /// Create a new session from the two authentication cookie values. The
    /// primary cookie must be non-empty; the token starts empty, the
    /// continuation triple starts empty, and the nonce is randomly seeded.
    pub fn new(
        secure_1psid: &str,
        secure_1psidts: &str,
        model: Model,
        proxy: Option<String>,
    ) -> (r: Result<Session, Error>)
        ensures
            secure_1psid@.len() == 0 ==> (r matches Err(Error::Authentication(m)) && m@
                == "__Secure-1PSID cookie is required"@),
            secure_1psid@.len() > 0 ==> (r matches Ok(s) && s.snlm0e@.len() == 0
                && s.conversation_id@.len() == 0 && s.response_id@.len() == 0 && s.choice_id@.len()
                == 0 && 1000000 <= s.reqid < 9999999 && s.secure_1psidts@ == secure_1psidts@
                && s.model == model && s.proxy == proxy),
    {
        if secure_1psid.is_empty() {
            return Err(Error::Authentication("__Secure-1PSID cookie is required".to_owned()));
        }
        Ok(
            Session {
                snlm0e: String::new(),
                conversation_id: String::new(),
                response_id: String::new(),
                choice_id: String::new(),
                reqid: seed_reqid(),
                secure_1psidts: secure_1psidts.to_owned(),
                model,
                proxy,
            },
        )
    }

    /// Whether token acquisition should first attempt a best-effort cookie
    /// rotation: only when the secondary cookie is absent.
    pub fn needs_cookie_rotation(&self) -> (r: bool)
        ensures
            r == (self.secure_1psidts@.len() == 0),
    {
        self.secure_1psidts.as_str().is_empty()
    }

    /// Digest a cookie-rotation response: on a success status, the first
    /// response cookie named `__Secure-1PSIDTS` becomes the held secondary
    /// cookie and its value is returned; otherwise nothing is updated and
    /// there is no value. This outcome is never an error.
    pub fn apply_rotation_response(&mut self, status: u16, cookies: &Vec<(String, String)>) -> (r:
        Option<String>)
        ensures
            final(self).snlm0e == old(self).snlm0e,
            final(self).conversation_id == old(self).conversation_id,
            final(self).response_id == old(self).response_id,
            final(self).choice_id == old(self).choice_id,
            final(self).reqid == old(self).reqid,
            final(self).model == old(self).model,
            final(self).proxy == old(self).proxy,
            !(200 <= status < 300) ==> r is None && final(self).secure_1psidts == old(
                self,
            ).secure_1psidts,
            (200 <= status < 300) ==> match spec_rotated_cookie(cookies@) {
                Some(v) => (r matches Some(s) && s@ == v && final(self).secure_1psidts@ == v),
                None => r is None && final(self).secure_1psidts == old(self).secure_1psidts,
            },
    {
        if !(200 <= status && status < 300) {
            return None;
        }
        let mut i: usize = 0;
        proof {
            assert(cookies@.skip(0) =~= cookies@);
        }
        while i < cookies.len()
            invariant
                i <= cookies@.len(),
                200 <= status < 300,
                spec_rotated_cookie(cookies@) == spec_rotated_cookie(cookies@.skip(i as int)),
                *self == *old(self),
            decreases cookies@.len() - i,
        {
            proof {
                assert(cookies@.skip(i as int)[0] == cookies@[i as int]);
            }
            if str_eq(cookies[i].0.as_str(), "__Secure-1PSIDTS") {
                let v = cookies[i].1.clone();
                self.secure_1psidts = cookies[i].1.clone();
                return Some(v);
            }
            proof {
                assert(cookies@.skip(i as int).skip(1) =~= cookies@.skip(i as int + 1));
            }
            i += 1;
        }
        None
    }

    /// Store the acquired session token.
    pub fn set_token(&mut self, token: String)
        ensures
            *final(self) == (Session { snlm0e: token, ..*old(self) }),
    {
        self.snlm0e = token;
    }

    /// Fail fast when no exchange may be attempted yet: the session token
    /// must be non-empty.
    pub fn check_initialized(&self) -> (r: Result<(), Error>)
        ensures
            self.snlm0e@.len() == 0 ==> (r matches Err(Error::NotInitialized(m)) && m@
                == "AsyncChatbot not properly initialized. SNlM0e is missing."@),
            self.snlm0e@.len() > 0 ==> r is Ok,
    {
        if self.snlm0e.as_str().is_empty() {
            Err(
                Error::NotInitialized(
                    "AsyncChatbot not properly initialized. SNlM0e is missing.".to_owned(),
                ),
            )
        } else {
            Ok(())
        }
    }

    /// Build the generate request for one exchange: the URL with the fixed
    /// client build identifier, the current nonce and the fixed
    /// response-type literal as query parameters, and the double-encoded
    /// form body carrying the message, the optional uploaded-asset
    /// reference, the continuation triple and the session token.
    pub fn build_generate_request(&self, message: &str, upload_id: Option<&str>) -> (r:
        GenerateRequest)
        ensures
            r.url@ == spec_generate_url(self.reqid as int),
            r.body@ == spec_form_body(
                self.snlm0e@,
                message@,
                match upload_id {
                    Some(u) => Some(u@),
                    None => None,
                },
                self.conversation_id@,
                self.response_id@,
                self.choice_id@,
            ),
    {
        // the inner message document
        let mut payload: Vec<u8> = Vec::new();
        append_str_bytes(&mut payload, "[[\"");
        json_escape_into(&mut payload, message.as_bytes());
        append_str_bytes(&mut payload, "\"],");
        match upload_id {
            Some(u) => {
                append_str_bytes(&mut payload, "[[[\"");
                json_escape_into(&mut payload, u.as_bytes());
                append_str_bytes(&mut payload, "\",1]]]");
            },
            None => {
                append_str_bytes(&mut payload, "null");
            },
        }
        append_str_bytes(&mut payload, ",[\"");
        json_escape_into(&mut payload, self.conversation_id.as_str().as_bytes());
        append_str_bytes(&mut payload, "\",\"");
        json_escape_into(&mut payload, self.response_id.as_str().as_bytes());
        append_str_bytes(&mut payload, "\",\"");
        json_escape_into(&mut payload, self.choice_id.as_str().as_bytes());
        append_str_bytes(&mut payload, "\"]]");
        proof {
            assert(payload@ =~= message_struct_bytes(
                encode_utf8(message@),
                match upload_id {
                    Some(u) => Some(encode_utf8(u@)),
                    None => None,
                },
                encode_utf8(self.conversation_id@),
                encode_utf8(self.response_id@),
                encode_utf8(self.choice_id@),
            ));
        }
        // the outer envelope
        let mut freq: Vec<u8> = Vec::new();
        append_str_bytes(&mut freq, "[null,\"");
        json_escape_into(&mut freq, payload.as_slice());
        append_str_bytes(&mut freq, "\"]");
        proof {
            assert(freq@ =~= freq_bytes(payload@));
        }
        // the form body
        let mut body: Vec<u8> = Vec::new();
        append_str_bytes(&mut body, "f.req=");
        form_encode_into(&mut body, freq.as_slice());
        append_str_bytes(&mut body, "&at=");
        form_encode_into(&mut body, self.snlm0e.as_str().as_bytes());
        proof {
            assert(body@ =~= form_body_bytes(freq@, encode_utf8(self.snlm0e@)));
        }
        // the URL with query parameters
        let mut url = Endpoint::Generate.url().to_owned();
        url.append("?bl=boq_assistant-bard-web-server_20240625.13_p0&_reqid=");
        url.append(u32_to_string(self.reqid).as_str());
        url.append("&rt=c");
        proof {
            assert(url@ =~= spec_generate_url(self.reqid as int));
        }
        GenerateRequest { url, body }
    }

    /// Decode a generate response and thread the conversation state: on
    /// success the continuation triple is taken from the envelope (falling
    /// back to the held values where absent), the default choice id becomes
    /// the first choice's identifier, and the nonce advances by a small
    /// random delta, never repeating. A failed decode leaves the session
    /// unchanged.
    pub fn parse_response(&mut self, text: &[u8]) -> (r: Result<ChatResponse, Error>)
        ensures
            r is Err ==> *final(self) == *old(self) && (r matches Err(Error::Parse(_))),
            spec_lines(text@).len() < 3 ==> r is Err,
            spec_lines(text@).len() >= 3 && spec_find_envelope(text@) is None ==> r is Err,
            spec_lines(text@).len() >= 3 && spec_find_envelope(text@) is Some ==> r is Ok,
            r matches Ok(resp) ==> spec_lines(text@).len() >= 3 && (match spec_find_envelope(
                text@,
            ) {
                Some(b) => {
                    &&& resp.content@ == content_of(b)
                    &&& resp.conversation_id@ == conv_id_of(b, old(self).conversation_id@)
                    &&& resp.response_id@ == resp_id_of(b, old(self).response_id@)
                    &&& resp.factuality_queries == metadata_of(b)
                    &&& resp.text_query@ == text_query_of(b)
                    &&& choice_pairs(resp.choices@) == spec_choices(b)
                    &&& resp.error == false
                    &&& final(self).conversation_id@ == resp.conversation_id@
                    &&& final(self).response_id@ == resp.response_id@
                    &&& final(self).choice_id@ == new_choice_id(
                        spec_choices(b),
                        old(self).choice_id@,
                    )
                    &&& final(self).reqid != old(self).reqid
                    &&& final(self).reqid >= 1000
                    &&& final(self).snlm0e == old(self).snlm0e
                    &&& final(self).secure_1psidts == old(self).secure_1psidts
                    &&& final(self).model == old(self).model
                    &&& final(self).proxy == old(self).proxy
                },
                None => false,
            }),
    {
        let decoded = decode_chat_response(
            text,
            self.conversation_id.as_str(),
            self.response_id.as_str(),
        );
        match decoded {
            Ok(resp) => {
                self.conversation_id = resp.conversation_id.clone();
                self.response_id = resp.response_id.clone();
                if resp.choices.len() > 0 {
                    self.choice_id = resp.choices[0].id.clone();
                }
                self.reqid = next_reqid(self.reqid, reqid_delta());
                Ok(resp)
            },
            Err(e) => Err(e),
        }
    }

    /// Gets the current conversation ID.
    pub fn conversation_id(&self) -> (r: &str)
        ensures
            r@ == self.conversation_id@,
    {
        self.conversation_id.as_str()
    }

    /// Gets the current model.
    pub fn model(&self) -> (r: &Model)
        ensures
            r == self.model,
    {
        &self.model
    }

    /// Resets the conversation state to start a fresh conversation: the
    /// continuation triple is cleared and the nonce is reseeded, while the
    /// acquired token and cookies stay valid.
    pub fn reset(&mut self)
        ensures
            final(self).conversation_id@.len() == 0,
            final(self).response_id@.len() == 0,
            final(self).choice_id@.len() == 0,
            1000000 <= final(self).reqid < 9999999,
            final(self).snlm0e == old(self).snlm0e,
            final(self).secure_1psidts == old(self).secure_1psidts,
            final(self).model == old(self).model,
            final(self).proxy == old(self).proxy,
    {
        self.conversation_id = String::new();
        self.response_id = String::new();
        self.choice_id = String::new();
        self.reqid = seed_reqid();
    }
}

} // verus!
