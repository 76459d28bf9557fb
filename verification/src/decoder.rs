//! The response decoder.
//!
//! A generate response is text: a few framing lines, then candidate lines
//! each holding a JSON array. The payload envelope is the first sub-array
//! tagged `"wrb.fr"` whose element 2 is itself a JSON document (a string to
//! parse again) with more than 4 elements and a non-null element 4. The
//! reply is then read out of the envelope by fixed positions, every step
//! defaulting on its own so that minor envelope drift never fails the whole
//! decode.

use vstd::prelude::*;
use vstd::pervasive::unreached;
use vstd::utf8::encode_utf8;

use crate::error::Error;
use crate::json::Json;
use crate::json::j_get;
use crate::json::j_get_str;
use crate::json::j_len;
use crate::json::j_str_of;
use crate::json::j_index;
use crate::json::j_as_str;
use crate::json::json_doc_of;
use crate::json::parse_json;
use crate::text::bytes_match_at;
use crate::text::spec_lines;
use crate::text::spec_trim;
use crate::text::split_lines;
use crate::text::starts_with;
use crate::text::str_eq;
use crate::text::string_from_utf8;
use crate::text::subrange_vec;
use crate::text::trim_bytes;

verus! {

/// An alternative response choice.
#[derive(Debug, Clone, PartialEq, Eq)]
pub struct Choice {
    /// Choice identifier.
    pub id: String,
    /// Choice content text.
    pub content: String,
}

/// Response from a chat request.
#[derive(Debug)]
pub struct ChatResponse {
    /// The main text content of the response.
    pub content: String,
    /// Current conversation ID.
    pub conversation_id: String,
    /// Current response ID.
    pub response_id: String,
    /// Side-channel metadata used for factuality checking, passed through
    /// uninterpreted.
    pub factuality_queries: Option<Json>,
    /// Original text query.
    pub text_query: String,
    /// Alternative response choices.
    pub choices: Vec<Choice>,
    /// Whether an error occurred.
    pub error: bool,
}

/// The three-character security-prefix sentinel that frames response lines.
pub open spec fn sentinel() -> Seq<u8> {
    encode_utf8(")]}"@)
}

/// A line cleaned for parsing: a line opening with the sentinel loses its
/// first four bytes and is trimmed; any other line stands as it is.
pub open spec fn clean_line(l: Seq<u8>) -> Seq<u8> {
    if starts_with(l, sentinel()) {
        if l.len() < 4 {
            Seq::empty()
        } else {
            spec_trim(l.skip(4))
        }
    } else {
        l
    }
}

/// Whether a cleaned line can hold a payload: it must open a JSON array.
pub open spec fn is_candidate(l: Seq<u8>) -> bool {
    clean_line(l).len() > 0 && clean_line(l)[0] == 0x5bu8
}

/// The envelope carried by one part of a parsed line, if any: the part must
/// be an array of more than two elements tagged `"wrb.fr"`, whose element 2
/// is a string that parses as an array of more than four elements with a
/// non-null element 4.
pub open spec fn part_envelope(p: Json) -> Option<Json> {
    if j_len(p) > 2 && j_get_str(p, 0) == Some("wrb.fr"@) {
        match j_get_str(p, 2) {
            Some(inner) => match json_doc_of(encode_utf8(inner)) {
                Some(b) => if j_len(b) > 4 && !(j_get(b, 4) matches Some(Json::Null)) {
                    Some(b)
                } else {
                    None
                },
                None => None,
            },
            None => None,
        }
    } else {
        None
    }
}

/// The envelope carried by the first part that holds one.
pub open spec fn envelope_in_parts(parts: Seq<Json>) -> Option<Json>
    decreases parts.len(),
{
    if parts.len() == 0 {
        None
    } else {
        match part_envelope(parts[0]) {
            Some(b) => Some(b),
            None => envelope_in_parts(parts.skip(1)),
        }
    }
}

/// The envelope carried by one response line, if any.
pub open spec fn line_envelope(l: Seq<u8>) -> Option<Json> {
    if !is_candidate(l) {
        None
    } else {
        match json_doc_of(clean_line(l)) {
            Some(Json::Arr(parts)) => envelope_in_parts(parts@),
            _ => None,
        }
    }
}

/// The envelope carried by the first line that holds one.
pub open spec fn envelope_in_lines(lines: Seq<Seq<u8>>) -> Option<Json>
    decreases lines.len(),
{
    if lines.len() == 0 {
        None
    } else {
        match line_envelope(lines[0]) {
            Some(b) => Some(b),
            None => envelope_in_lines(lines.skip(1)),
        }
    }
}

/// The envelope of a whole response text.
pub open spec fn spec_find_envelope(text: Seq<u8>) -> Option<Json> {
    envelope_in_lines(spec_lines(text))
}

/// Element `i` of an optional array value.
pub open spec fn opt_get(v: Option<Json>, i: int) -> Option<Json> {
    match v {
        Some(x) => j_get(x, i),
        None => None,
    }
}

/// The characters of an optional string value.
pub open spec fn opt_str(v: Option<Json>) -> Option<Seq<char>> {
    match v {
        Some(x) => j_str_of(x),
        None => None,
    }
}

/// An optional character sequence, defaulting to empty.
pub open spec fn str_or_empty(v: Option<Seq<char>>) -> Seq<char> {
    match v {
        Some(s) => s,
        None => Seq::empty(),
    }
}

/// The primary answer text of the envelope: element 4, candidate 0, its
/// element 1, its element 0; empty on any missing step.
pub open spec fn content_of(b: Json) -> Seq<char> {
    str_or_empty(opt_str(opt_get(opt_get(opt_get(j_get(b, 4), 0), 1), 0)))
}

/// The conversation id of the envelope (element 1, position 0), or the
/// previously held one if absent.
pub open spec fn conv_id_of(b: Json, prev: Seq<char>) -> Seq<char> {
    match opt_str(opt_get(j_get(b, 1), 0)) {
        Some(s) => s,
        None => prev,
    }
}

/// The response id of the envelope (element 1, position 1), or the
/// previously held one if absent.
pub open spec fn resp_id_of(b: Json, prev: Seq<char>) -> Seq<char> {
    match opt_str(opt_get(j_get(b, 1), 1)) {
        Some(s) => s,
        None => prev,
    }
}

/// The echoed input text of the envelope (element 2, position 0), empty if
/// absent.
pub open spec fn text_query_of(b: Json) -> Seq<char> {
    str_or_empty(opt_str(opt_get(j_get(b, 2), 0)))
}

/// The opaque metadata of the envelope (element 3), passed through
/// uninterpreted; none when absent or null.
pub open spec fn metadata_of(b: Json) -> Option<Json> {
    match j_get(b, 3) {
        Some(Json::Null) => None,
        Some(v) => Some(v),
        None => None,
    }
}

/// The identifier and text of one candidate: element 0, and element 1's
/// element 0, each empty when missing.
pub open spec fn choice_of(c: Json) -> (Seq<char>, Seq<char>) {
    (str_or_empty(j_get_str(c, 0)), str_or_empty(opt_str(opt_get(j_get(c, 1), 0))))
}

/// The choices among the candidates: one per candidate of length above one,
/// in order.
pub open spec fn choices_of(cands: Seq<Json>) -> Seq<(Seq<char>, Seq<char>)>
    decreases cands.len(),
{
    if cands.len() == 0 {
        Seq::empty()
    } else if j_len(cands[0]) > 1 {
        seq![choice_of(cands[0])] + choices_of(cands.skip(1))
    } else {
        choices_of(cands.skip(1))
    }
}

/// The choices of the envelope: element 4 must be an array of candidates.
pub open spec fn spec_choices(b: Json) -> Seq<(Seq<char>, Seq<char>)> {
    match j_get(b, 4) {
        Some(Json::Arr(cands)) => choices_of(cands@),
        _ => Seq::empty(),
    }
}

/// The identifier and text pairs read off a vector of choices.
pub open spec fn choice_pairs(cs: Seq<Choice>) -> Seq<(Seq<char>, Seq<char>)> {
    cs.map(|i: int, c: Choice| (c.id@, c.content@))
}

/// The new default choice id: the first choice's identifier, or the
/// previously held one if there is no choice.
pub open spec fn new_choice_id(pairs: Seq<(Seq<char>, Seq<char>)>, prev: Seq<char>) -> Seq<char> {
    if pairs.len() > 0 {
        pairs[0].0
    } else {
        prev
    }
}

proof fn lemma_envelope_shape(lines: Seq<Seq<u8>>)
    ensures
        match envelope_in_lines(lines) {
            Some(b) => j_len(b) > 4 && b is Arr,
            None => true,
        },
    decreases lines.len(),
{
    if lines.len() > 0 {
        match line_envelope(lines[0]) {
            Some(b) => {
                lemma_line_envelope_shape(lines[0]);
            },
            None => {
                lemma_envelope_shape(lines.skip(1));
            },
        }
    }
}

proof fn lemma_line_envelope_shape(l: Seq<u8>)
    ensures
        match line_envelope(l) {
            Some(b) => j_len(b) > 4 && b is Arr,
            None => true,
        },
{
    if is_candidate(l) {
        match json_doc_of(clean_line(l)) {
            Some(Json::Arr(parts)) => {
                lemma_parts_envelope_shape(parts@);
            },
            _ => {},
        }
    }
}

proof fn lemma_parts_envelope_shape(parts: Seq<Json>)
    ensures
        match envelope_in_parts(parts) {
            Some(b) => j_len(b) > 4 && b is Arr,
            None => true,
        },
    decreases parts.len(),
{
    if parts.len() > 0 {
        match part_envelope(parts[0]) {
            Some(b) => {},
            None => {
                lemma_parts_envelope_shape(parts.skip(1));
            },
        }
    }
}

fn clean_line_exec(l: &Vec<u8>) -> (r: Vec<u8>)
    ensures
        r@ == clean_line(l@),
{
    let sent = ")]}".as_bytes();
    if l.len() >= sent.len() && bytes_match_at(l.as_slice(), sent, 0) {
        proof {
            assert(l@.subrange(0, sentinel().len() as int) == sentinel());
        }
        if l.len() < 4 {
            Vec::new()
        } else {
            let tail = subrange_vec(l.as_slice(), 4, l.len());
            proof {
                assert(l@.skip(4) =~= l@.subrange(4, l@.len() as int));
            }
            trim_bytes(tail.as_slice())
        }
    } else {
        proof {
            if sentinel().len() <= l@.len() {
                assert(!starts_with(l@, sentinel()));
            }
        }
        let r = subrange_vec(l.as_slice(), 0, l.len());
        proof {
            assert(l@.subrange(0, l@.len() as int) =~= l@);
        }
        r
    }
}

fn part_envelope_exec(p: &Json) -> (r: Option<Json>)
    ensures
        r == part_envelope(*p),
{
    match p {
        Json::Arr(a) => {
            if a.len() <= 2 {
                return None;
            }
            let id_ok = match &a[0] {
                Json::Str(s) => str_eq(s.as_str(), "wrb.fr"),
                _ => false,
            };
            if !id_ok {
                return None;
            }
            match &a[2] {
                Json::Str(inner) => {
                    match parse_json(inner.as_str().as_bytes()) {
                        Some(b) => {
                            let well_formed = match &b {
                                Json::Arr(ba) => if ba.len() > 4 {
                                    !(matches!(&ba[4], Json::Null))
                                } else {
                                    false
                                },
                                _ => false,
                            };
                            if well_formed {
                                Some(b)
                            } else {
                                None
                            }
                        },
                        None => None,
                    }
                },
                _ => None,
            }
        },
        _ => None,
    }
}

fn scan_parts(parts: &Vec<Json>) -> (r: Option<Json>)
    ensures
        r == envelope_in_parts(parts@),
{
    let mut i: usize = 0;
    proof {
        assert(parts@.skip(0) =~= parts@);
    }
    while i < parts.len()
        invariant
            i <= parts@.len(),
            envelope_in_parts(parts@) == envelope_in_parts(parts@.skip(i as int)),
        decreases parts@.len() - i,
    {
        proof {
            assert(parts@.skip(i as int)[0] == parts@[i as int]);
        }
        match part_envelope_exec(&parts[i]) {
            Some(b) => {
                return Some(b);
            },
            None => {},
        }
        proof {
            assert(parts@.skip(i as int).skip(1) =~= parts@.skip(i as int + 1));
        }
        i += 1;
    }
    None
}

fn line_envelope_exec(l: &Vec<u8>) -> (r: Option<Json>)
    ensures
        r == line_envelope(l@),
{
    let cl = clean_line_exec(l);
    if cl.len() == 0 {
        return None;
    }
    if cl[0] != 0x5b {
        return None;
    }
    match parse_json(cl.as_slice()) {
        Some(doc) => match doc {
            Json::Arr(parts) => scan_parts(&parts),
            _ => None,
        },
        None => None,
    }
}

fn find_envelope(lines: &Vec<Vec<u8>>) -> (r: Option<Json>)
    ensures
        r == envelope_in_lines(lines.deep_view()),
{
    let mut i: usize = 0;
    proof {
        assert(lines.deep_view().skip(0) =~= lines.deep_view());
    }
    while i < lines.len()
        invariant
            i <= lines@.len(),
            lines.deep_view().len() == lines@.len(),
            envelope_in_lines(lines.deep_view()) == envelope_in_lines(
                lines.deep_view().skip(i as int),
            ),
        decreases lines@.len() - i,
    {
        proof {
            assert(lines.deep_view().skip(i as int)[0] == lines.deep_view()[i as int]);
            assert(lines.deep_view()[i as int] == lines@[i as int]@);
        }
        match line_envelope_exec(&lines[i]) {
            Some(b) => {
                return Some(b);
            },
            None => {},
        }
        proof {
            assert(lines.deep_view().skip(i as int).skip(1) =~= lines.deep_view().skip(
                i as int + 1,
            ));
        }
        i += 1;
    }
    None
}

/// Reconstruct a reply from raw response text. Fails only on the two
/// structural checks: fewer than three lines, or no envelope found; every
/// extraction inside the envelope defaults independently. The previously
/// held conversation and response ids fill in when the envelope omits its
/// continuation pair.
pub fn decode_chat_response(text: &[u8], prev_conversation_id: &str, prev_response_id: &str) -> (r:
    Result<ChatResponse, Error>)
    ensures
        spec_lines(text@).len() < 3 ==> (r matches Err(Error::Parse(_))),
        spec_lines(text@).len() >= 3 ==> match spec_find_envelope(text@) {
            None => (r matches Err(Error::Parse(m)) && m@
                == "Failed to parse response body. No valid data found."@),
            Some(b) => r matches Ok(resp) && resp.content@ == content_of(b)
                && resp.conversation_id@ == conv_id_of(b, prev_conversation_id@)
                && resp.response_id@ == resp_id_of(b, prev_response_id@)
                && resp.factuality_queries == metadata_of(b) && resp.text_query@
                == text_query_of(b) && choice_pairs(resp.choices@) == spec_choices(b)
                && resp.error == false,
        },
{
    let lines = split_lines(text);
    if lines.len() < 3 {
        let upto = if text.len() < 200 {
            text.len()
        } else {
            200
        };
        let snippet = subrange_vec(text, 0, upto);
        let mut m = "Unexpected response format. Content: ".to_owned();
        match string_from_utf8(snippet) {
            Some(s) => {
                m.append(s.as_str());
            },
            None => {},
        }
        m.append("...");
        return Err(Error::Parse(m));
    }
    match find_envelope(&lines) {
        None => Err(Error::Parse("Failed to parse response body. No valid data found.".to_owned())),
        Some(body) => {
            proof {
                lemma_envelope_shape(lines.deep_view());
            }
            let ghost gb = body;
            match body {
                Json::Arr(mut ba) => {
                    proof {
                        assert(gb == Json::Arr(ba));
                    }
                    // content: element 4, candidate 0, its element 1, its element 0
                    let mut content = String::new();
                    if let Some(c40) = j_index(&ba[4], 0) {
                        if let Some(c401) = j_index(c40, 1) {
                            if let Some(c4010) = j_index(c401, 0) {
                                if let Some(s) = j_as_str(c4010) {
                                    content = s.clone();
                                }
                            }
                        }
                    }
                    proof {
                        assert(j_get(gb, 4) == Some(ba@[4]));
                        assert(content@ == content_of(gb));
                    }
                    // continuation pair: element 1, positions 0 and 1
                    let mut conversation_id = prev_conversation_id.to_owned();
                    if let Some(c10) = j_index(&ba[1], 0) {
                        if let Some(s) = j_as_str(c10) {
                            conversation_id = s.clone();
                        }
                    }
                    let mut response_id = prev_response_id.to_owned();
                    if let Some(c11) = j_index(&ba[1], 1) {
                        if let Some(s) = j_as_str(c11) {
                            response_id = s.clone();
                        }
                    }
                    proof {
                        assert(j_get(gb, 1) == Some(ba@[1]));
                        assert(conversation_id@ == conv_id_of(gb, prev_conversation_id@));
                        assert(response_id@ == resp_id_of(gb, prev_response_id@));
                    }
                    // echoed input text: element 2, position 0
                    let mut text_query = String::new();
                    if let Some(c20) = j_index(&ba[2], 0) {
                        if let Some(s) = j_as_str(c20) {
                            text_query = s.clone();
                        }
                    }
                    proof {
                        assert(j_get(gb, 2) == Some(ba@[2]));
                        assert(text_query@ == text_query_of(gb));
                    }
                    // choices: every candidate of length above one
                    let mut choices: Vec<Choice> = Vec::new();
                    match &ba[4] {
                        Json::Arr(cands) => {
                            proof {
                                assert(cands@.skip(0) =~= cands@);
                                assert(choice_pairs(choices@) =~= Seq::<(
                                    Seq<char>,
                                    Seq<char>,
                                )>::empty());
                            }
                            let mut i: usize = 0;
                            while i < cands.len()
                                invariant
                                    i <= cands@.len(),
                                    choice_pairs(choices@) + choices_of(cands@.skip(i as int))
                                        == choices_of(cands@),
                                decreases cands@.len() - i,
                            {
                                proof {
                                    assert(cands@.skip(i as int)[0] == cands@[i as int]);
                                }
                                let ghost prev_pairs = choice_pairs(choices@);
                                match &cands[i] {
                                    Json::Arr(ca) => {
                                        if ca.len() > 1 {
                                            let id = match &ca[0] {
                                                Json::Str(s) => s.clone(),
                                                _ => String::new(),
                                            };
                                            let ctext = match j_index(&ca[1], 0) {
                                                Some(x) => match j_as_str(x) {
                                                    Some(s) => s.clone(),
                                                    None => String::new(),
                                                },
                                                None => String::new(),
                                            };
                                            proof {
                                                assert(j_get(cands@[i as int], 0) == Some(
                                                    ca@[0],
                                                ));
                                                assert(j_get(cands@[i as int], 1) == Some(
                                                    ca@[1],
                                                ));
                                            }
                                            let ch = Choice { id, content: ctext };
                                            proof {
                                                assert((ch.id@, ch.content@) == choice_of(
                                                    cands@[i as int],
                                                ));
                                            }
                                            choices.push(ch);
                                            proof {
                                                assert(choice_pairs(choices@) =~= prev_pairs
                                                    + seq![choice_of(cands@[i as int])]);
                                            }
                                        }
                                    },
                                    _ => {},
                                }
                                proof {
                                    assert(cands@.skip(i as int).skip(1) =~= cands@.skip(
                                        i as int + 1,
                                    ));
                                }
                                i += 1;
                            }
                            proof {
                                assert(cands@.skip(i as int).len() == 0);
                                assert(choice_pairs(choices@) + choices_of(cands@.skip(i as int))
                                    =~= choice_pairs(choices@));
                            }
                        },
                        _ => {},
                    }
                    proof {
                        assert(choice_pairs(choices@) == spec_choices(gb));
                    }
                    // opaque metadata: element 3
                    let meta = ba.remove(3);
                    let factuality_queries = match meta {
                        Json::Null => None,
                        other => Some(other),
                    };
                    proof {
                        assert(factuality_queries == metadata_of(gb));
                    }
                    Ok(
                        ChatResponse {
                            content,
                            conversation_id,
                            response_id,
                            factuality_queries,
                            text_query,
                            choices,
                            error: false,
                        },
                    )
                },
                _ => unreached(),
            }
        },
    }
}

} // verus!
